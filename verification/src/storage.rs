//! Where the aggregate is persisted: the name of the storage file, and
//! the path it takes inside the application's data directory. Reading
//! and writing the file is the persistence collaborator's business.
use vstd::prelude::*;
use vstd::string::StringExecFns;

verus! {

/// The name the aggregate is stored under.
pub open spec fn storage_file_name() -> Seq<char> {
    "keyboard-counter.bin"@
}

/// The full path of the storage file inside `app_dir`: the directory,
/// a separator, then the fixed file name.
pub fn get_storage_path(app_dir: &str) -> (r: String)
    ensures
        r@ == app_dir@ + "/"@ + storage_file_name(),
{
    let mut r = app_dir.to_owned();
    r.append("/");
    r.append("keyboard-counter.bin");
    r
}

} // verus!
