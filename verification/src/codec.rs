//! The fixed binary encoding the aggregate is persisted in: every field
//! at a fixed offset, integers little-endian, the counter table in slot
//! order. A buffer of the wrong shape decodes to nothing, never to an
//! ill-formed aggregate.
use vstd::prelude::*;

use crate::counter::{counts_map, Counter, CounterV};
use crate::event::Point;
use crate::label::{label_at, lemma_label_at_slot, lemma_slot_in_range, slot, Label, LABEL_COUNT};

verus! {

broadcast use crate::label::lemma_slot_in_range;

/// How many bytes one encoded aggregate occupies.
pub const ENCODED_LEN: usize = 330;

/// Where the counter table begins in the encoding.
pub const COUNTS_OFF: usize = 8;
/// Where the Ctrl latch byte sits.
pub const CTRL_OFF: usize = 296;
/// Where the Alt latch byte sits.
pub const ALT_OFF: usize = 297;
/// Where the last-click timestamp sits.
pub const CLICK_TIME_OFF: usize = 298;
/// Where the last-click x coordinate sits.
pub const CLICK_X_OFF: usize = 306;
/// Where the last-click y coordinate sits.
pub const CLICK_Y_OFF: usize = 310;
/// Where the last-wheel timestamp sits.
pub const WHEEL_OFF: usize = 314;
/// Where the last-move timestamp sits.
pub const MOVE_OFF: usize = 322;

/// The bias that maps a signed 32-bit coordinate onto an unsigned code.
pub const COORD_BIAS: i64 = 0x8000_0000;

/// 256 raised to `n`: how many values `n` bytes can hold.
pub open spec fn pow256(n: nat) -> nat
    decreases n,
{
    if n == 0 {
        1
    } else {
        256 * pow256((n - 1) as nat)
    }
}

/// The `n` lowest bytes of `x`, least significant first.
pub open spec fn le_bytes(x: nat, n: nat) -> Seq<u8>
    decreases n,
{
    if n == 0 {
        Seq::empty()
    } else {
        seq![(x % 256) as u8] + le_bytes(x / 256, (n - 1) as nat)
    }
}

/// The number a little-endian byte string stands for.
pub open spec fn from_le(s: Seq<u8>) -> nat
    decreases s.len(),
{
    if s.len() == 0 {
        0
    } else {
        s[0] as nat + 256 * from_le(s.drop_first())
    }
}

/// A byte string of `n` bytes holds exactly `n` bytes.
pub broadcast proof fn lemma_le_bytes_len(x: nat, n: nat)
    ensures
        (#[trigger] le_bytes(x, n)).len() == n,
    decreases n,
{
    if n > 0 {
        lemma_le_bytes_len(x / 256, (n - 1) as nat);
    }
}

/// `n` bytes can not stand for a number `pow256(n)` or beyond.
pub proof fn lemma_from_le_bound(s: Seq<u8>)
    ensures
        from_le(s) < pow256(s.len()),
    decreases s.len(),
{
    if s.len() > 0 {
        lemma_from_le_bound(s.drop_first());
        vstd::arithmetic::mul::lemma_mul_inequality(
            from_le(s.drop_first()) as int,
            pow256((s.len() - 1) as nat) as int - 1,
            256,
        );
    }
}

/// More bytes hold at least as many values.
pub proof fn lemma_pow256_increases(a: nat, b: nat)
    requires
        a <= b,
    ensures
        pow256(a) <= pow256(b),
    decreases b,
{
    if a < b {
        lemma_pow256_increases(a, (b - 1) as nat);
        vstd::arithmetic::mul::lemma_mul_inequality(1, 256, pow256((b - 1) as nat) as int);
    }
}

/// The byte counts of the encoding's pieces, as concrete numbers.
pub proof fn lemma_pow256_values()
    ensures
        pow256(4) == 0x1_0000_0000,
        pow256(8) == 0x1_0000_0000_0000_0000,
        pow256(16) == 0x1_0000_0000_0000_0000_0000_0000_0000_0000,
{
    reveal_with_fuel(pow256, 17);
}

/// Reading back the `n` bytes of `x` yields `x`, as long as `x` fits.
pub proof fn lemma_le_round_trip(x: nat, n: nat)
    requires
        x < pow256(n),
    ensures
        from_le(le_bytes(x, n)) == x,
    decreases n,
{
    broadcast use lemma_le_bytes_len;

    if n == 0 {
    } else {
        let tail = le_bytes(x / 256, (n - 1) as nat);
        let whole = seq![(x % 256) as u8] + tail;
        assert(whole.drop_first() =~= tail);
        assert(x / 256 < pow256((n - 1) as nat)) by {
            if x / 256 >= pow256((n - 1) as nat) {
                vstd::arithmetic::mul::lemma_mul_inequality(
                    pow256((n - 1) as nat) as int,
                    x as int / 256,
                    256,
                );
                vstd::arithmetic::div_mod::lemma_fundamental_div_mod(x as int, 256);
            }
        }
        lemma_le_round_trip(x / 256, (n - 1) as nat);
        vstd::arithmetic::div_mod::lemma_fundamental_div_mod(x as int, 256);
    }
}

/// The counter table's first `n` slots, encoded in slot order.
pub open spec fn counts_bytes(v: CounterV, n: int) -> Seq<u8>
    decreases n,
{
    if n <= 0 {
        Seq::empty()
    } else {
        counts_bytes(v, n - 1) + le_bytes(v.counts[label_at(n - 1)], 16)
    }
}

/// `n` encoded slots occupy sixteen bytes each.
pub broadcast proof fn lemma_counts_bytes_len(v: CounterV, n: int)
    ensures
        (#[trigger] counts_bytes(v, n)).len() == if n <= 0 {
            0
        } else {
            16 * n
        },
    decreases n,
{
    if n > 0 {
        lemma_counts_bytes_len(v, n - 1);
        lemma_le_bytes_len(v.counts[label_at(n - 1)], 16);
    }
}

/// Slot `k` of the encoded table holds the bytes of the label in slot
/// `k`.
pub proof fn lemma_counts_bytes_slice(v: CounterV, n: int, k: int)
    requires
        0 <= k < n,
    ensures
        counts_bytes(v, n).subrange(16 * k, 16 * k + 16) == le_bytes(v.counts[label_at(k)], 16),
    decreases n,
{
    broadcast use {lemma_le_bytes_len, lemma_counts_bytes_len};

    if k == n - 1 {
        assert(counts_bytes(v, n).subrange(16 * k, 16 * k + 16) =~= le_bytes(
            v.counts[label_at(k)],
            16,
        ));
    } else {
        lemma_counts_bytes_slice(v, n - 1, k);
        assert(counts_bytes(v, n).subrange(16 * k, 16 * k + 16) =~= counts_bytes(
            v,
            n - 1,
        ).subrange(16 * k, 16 * k + 16));
    }
}

/// A non-negative number, or zero where the model holds none.
pub open spec fn nat_of(x: int) -> nat {
    if x >= 0 {
        x as nat
    } else {
        0
    }
}

/// The latch byte: one for a held modifier, zero for a released one.
pub open spec fn bool_byte(b: bool) -> u8 {
    if b {
        1
    } else {
        0
    }
}

/// The whole encoding: window start, the eighteen counters in slot
/// order, the two latches, then the double-click baseline and the two
/// debounce timestamps.
pub open spec fn spec_encode(v: CounterV) -> Seq<u8> {
    le_bytes(nat_of(v.started_at), 8) + counts_bytes(v, LABEL_COUNT as int) + seq![
        bool_byte(v.ctrl_down),
    ] + seq![bool_byte(v.alt_down)] + le_bytes(nat_of(v.last_click_time), 8) + le_bytes(
        nat_of(v.last_click_x + COORD_BIAS),
        4,
    ) + le_bytes(nat_of(v.last_click_y + COORD_BIAS), 4) + le_bytes(nat_of(v.last_wheel_at), 8)
        + le_bytes(nat_of(v.last_move_at), 8)
}

/// What a byte string decodes to: nothing unless it has exactly the
/// fixed length and every timestamp field reads back as a non-negative
/// signed value; otherwise the aggregate it spells.
pub open spec fn spec_decode(s: Seq<u8>) -> Option<CounterV> {
    if s.len() != ENCODED_LEN {
        None
    } else {
        let started = from_le(s.subrange(0, 8));
        let click_time = from_le(s.subrange(CLICK_TIME_OFF as int, CLICK_TIME_OFF + 8));
        let wheel = from_le(s.subrange(WHEEL_OFF as int, WHEEL_OFF + 8));
        let mv = from_le(s.subrange(MOVE_OFF as int, MOVE_OFF + 8));
        if started >= 0x8000_0000_0000_0000 || click_time >= 0x8000_0000_0000_0000 || wheel
            >= 0x8000_0000_0000_0000 || mv >= 0x8000_0000_0000_0000 {
            None
        } else {
            Some(
                CounterV {
                    started_at: started as int,
                    counts: Map::new(
                        |l: Label| true,
                        |l: Label|
                            from_le(
                                s.subrange(
                                    COUNTS_OFF + 16 * slot(l),
                                    COUNTS_OFF + 16 * slot(l) + 16,
                                ),
                            ),
                    ),
                    ctrl_down: s[CTRL_OFF as int] != 0,
                    alt_down: s[ALT_OFF as int] != 0,
                    last_click_time: click_time as int,
                    last_click_x: from_le(s.subrange(CLICK_X_OFF as int, CLICK_X_OFF + 4))
                        - COORD_BIAS,
                    last_click_y: from_le(s.subrange(CLICK_Y_OFF as int, CLICK_Y_OFF + 4))
                        - COORD_BIAS,
                    last_wheel_at: wheel as int,
                    last_move_at: mv as int,
                },
            )
        }
    }
}

/// Whether every field of the model fits its slot in the encoding: what
/// holds of the view of every well-formed aggregate the engine builds.
pub open spec fn encodable(v: CounterV) -> bool {
    &&& (forall|l: Label| #[trigger] v.counts.dom().contains(l))
    &&& 0 <= v.started_at < 0x8000_0000_0000_0000
    &&& 0 <= v.last_click_time < 0x8000_0000_0000_0000
    &&& 0 <= v.last_wheel_at < 0x8000_0000_0000_0000
    &&& 0 <= v.last_move_at < 0x8000_0000_0000_0000
    &&& -0x8000_0000 <= v.last_click_x < 0x8000_0000
    &&& -0x8000_0000 <= v.last_click_y < 0x8000_0000
    &&& (forall|l: Label| #[trigger] v.counts[l] < pow256(16))
}

/// Appends the `n` lowest bytes of `x`, least significant first.
fn push_le(out: &mut Vec<u8>, x: u128, n: usize)
    ensures
        final(out)@ == old(out)@ + le_bytes(x as nat, n as nat),
    decreases n,
{
    broadcast use lemma_le_bytes_len;

    if n == 0 {
        proof {
            assert(out@ =~= old(out)@ + le_bytes(x as nat, 0));
        }
    } else {
        let b = (x % 256) as u8;
        out.push(b);
        push_le(out, x / 256, n - 1);
        proof {
            let xs = x as nat;
            assert(le_bytes(xs, n as nat) == seq![(xs % 256) as u8] + le_bytes(
                xs / 256,
                (n - 1) as nat,
            ));
            assert(out@ =~= old(out)@ + le_bytes(xs, n as nat));
        }
    }
}

/// Reads back the `n`-byte little-endian number at `off`.
fn read_le(bytes: &Vec<u8>, off: usize, n: usize) -> (x: u128)
    requires
        off + n <= bytes@.len(),
        n <= 16,
    ensures
        x as nat == from_le(bytes@.subrange(off as int, off + n)),
{
    broadcast use lemma_le_bytes_len;

    let len = bytes.len();
    let mut x: u128 = 0;
    let mut i: usize = n;
    while i > 0
        invariant
            off + n <= len,
            len == bytes@.len(),
            i <= n,
            n <= 16,
            x as nat == from_le(bytes@.subrange(off + i, off + n)),
            (x as nat) < pow256((n - i) as nat),
        decreases i,
    {
        proof {
            lemma_pow256_increases((n - i) as nat, 15);
            lemma_pow256_increases((n - i + 1) as nat, 16);
            lemma_pow256_values();
            vstd::arithmetic::mul::lemma_mul_inequality(
                x as int,
                pow256((n - i) as nat) as int - 1,
                256,
            );
        }
        i = i - 1;
        let b = bytes[off + i];
        x = x * 256 + (b as u128);
        proof {
            let s = bytes@.subrange(off + i, off + n);
            assert(s.drop_first() =~= bytes@.subrange(off + i + 1, off + n));
            lemma_from_le_bound(s);
        }
    }
    proof {
        assert(bytes@.subrange(off as int, off + n) == bytes@.subrange(off + i, off + n));
    }
    x
}

impl Counter {
    /// Serializes the aggregate into the fixed binary form.
    pub fn to_bytes(&self) -> (r: Vec<u8>)
        requires
            self.wf(),
            self@.temporal_ok(),
        ensures
            r@ == spec_encode(self@),
            r@.len() == ENCODED_LEN,
    {
    broadcast use {lemma_le_bytes_len, lemma_counts_bytes_len};

        let ghost v = self@;
        let mut out: Vec<u8> = Vec::new();
        push_le(&mut out, self.started_at as u128, 8);
        assert(out@ == le_bytes(nat_of(v.started_at), 8));
        let mut k: usize = 0;
        while k < LABEL_COUNT
            invariant
                self.wf(),
                self@ == v,
                k <= LABEL_COUNT,
                out@ == le_bytes(nat_of(v.started_at), 8) + counts_bytes(v, k as int),
            decreases LABEL_COUNT - k,
        {
            push_le(&mut out, self.counts[k], 16);
            proof {
                lemma_label_at_slot(k as int);
                assert(self.counts@[k as int] as nat == v.counts[label_at(k as int)]);
                assert(out@ =~= le_bytes(nat_of(v.started_at), 8) + counts_bytes(v, k + 1));
            }
            k += 1;
        }
        let ghost piece_a = le_bytes(nat_of(v.started_at), 8) + counts_bytes(
            v,
            LABEL_COUNT as int,
        );
        out.push(if self.ctrl_down {
            1
        } else {
            0
        });
        assert(out@ =~= piece_a + seq![bool_byte(v.ctrl_down)]);
        out.push(if self.alt_down {
            1
        } else {
            0
        });
        assert(out@ =~= piece_a + seq![bool_byte(v.ctrl_down)] + seq![bool_byte(v.alt_down)]);
        let ghost piece_b = piece_a + seq![bool_byte(v.ctrl_down)] + seq![bool_byte(v.alt_down)];
        let (click_time, click_pt) = self.last_left_click;
        push_le(&mut out, click_time as u128, 8);
        let ghost piece_c = piece_b + le_bytes(nat_of(v.last_click_time), 8);
        assert(out@ =~= piece_c);
        push_le(&mut out, ((click_pt.x as i64) + COORD_BIAS) as u128, 4);
        let ghost piece_d = piece_c + le_bytes(nat_of(v.last_click_x + COORD_BIAS), 4);
        assert(out@ =~= piece_d);
        push_le(&mut out, ((click_pt.y as i64) + COORD_BIAS) as u128, 4);
        let ghost piece_e = piece_d + le_bytes(nat_of(v.last_click_y + COORD_BIAS), 4);
        assert(out@ =~= piece_e);
        push_le(&mut out, self.last_wheel_at as u128, 8);
        let ghost piece_f = piece_e + le_bytes(nat_of(v.last_wheel_at), 8);
        assert(out@ =~= piece_f);
        push_le(&mut out, self.last_move_at as u128, 8);
        proof {
            assert(out@ =~= spec_encode(v));
        }
        out
    }

    /// Rebuilds an aggregate from its fixed binary form; bytes that do
    /// not spell a well-formed aggregate yield `None`, exactly as
    /// `spec_decode` says.
    pub fn from_bytes(bytes: &Vec<u8>) -> (r: Option<Counter>)
        ensures
            match r {
                Some(c) => {
                    &&& c.wf()
                    &&& c@.temporal_ok()
                    &&& spec_decode(bytes@) == Some(c@)
                },
                None => spec_decode(bytes@) is None,
            },
    {
        broadcast use {lemma_le_bytes_len, lemma_counts_bytes_len};

        if bytes.len() != ENCODED_LEN {
            return None;
        }
        let started = read_le(bytes, 0, 8);
        let click_time = read_le(bytes, CLICK_TIME_OFF, 8);
        let wheel = read_le(bytes, WHEEL_OFF, 8);
        let mv = read_le(bytes, MOVE_OFF, 8);
        if started >= 0x8000_0000_0000_0000u128 || click_time >= 0x8000_0000_0000_0000u128 || wheel
            >= 0x8000_0000_0000_0000u128 || mv >= 0x8000_0000_0000_0000u128 {
            return None;
        }
        let mut counts: Vec<u128> = Vec::new();
        let mut k: usize = 0;
        while k < LABEL_COUNT
            invariant
                bytes@.len() == ENCODED_LEN,
                k <= LABEL_COUNT,
                counts@.len() == k,
                forall|j: int|
                    0 <= j < k ==> #[trigger] counts@[j] as nat == from_le(
                        bytes@.subrange(COUNTS_OFF + 16 * j, COUNTS_OFF + 16 * j + 16),
                    ),
            decreases LABEL_COUNT - k,
        {
            let c = read_le(bytes, COUNTS_OFF + 16 * k, 16);
            counts.push(c);
            k += 1;
        }
        let x_code = read_le(bytes, CLICK_X_OFF, 4);
        let y_code = read_le(bytes, CLICK_Y_OFF, 4);
        proof {
            lemma_from_le_bound(bytes@.subrange(CLICK_X_OFF as int, CLICK_X_OFF + 4));
            lemma_from_le_bound(bytes@.subrange(CLICK_Y_OFF as int, CLICK_Y_OFF + 4));
            lemma_pow256_values();
        }
        let ctrl = bytes[CTRL_OFF] != 0;
        let alt = bytes[ALT_OFF] != 0;
        let c = Counter {
            started_at: started as i64,
            counts,
            ctrl_down: ctrl,
            alt_down: alt,
            last_left_click: (
                click_time as i64,
                Point {
                    x: ((x_code as i64) - COORD_BIAS) as i32,
                    y: ((y_code as i64) - COORD_BIAS) as i32,
                },
            ),
            last_wheel_at: wheel as i64,
            last_move_at: mv as i64,
        };
        proof {
            let d = spec_decode(bytes@).unwrap();
            assert(c@.counts.dom() =~= d.counts.dom());
            assert forall|l: Label| #[trigger] c@.counts[l] == d.counts[l] by {
                lemma_slot_in_range(l);
            }
            assert(c@.counts =~= d.counts);
            assert(c@ == d);
        }
        Some(c)
    }
}

/// Decoding inverts encoding: the persisted form of any aggregate whose
/// fields fit the encoding reads back as exactly that aggregate — the
/// persistence round trip loses nothing.
pub proof fn lemma_encode_decode(v: CounterV)
    requires
        encodable(v),
    ensures
        spec_decode(spec_encode(v)) == Some(v),
{
    broadcast use {lemma_le_bytes_len, lemma_counts_bytes_len};

    lemma_pow256_values();
    let s = spec_encode(v);
    assert(s.len() == ENCODED_LEN);
    // the window start
    assert(s.subrange(0, 8) =~= le_bytes(nat_of(v.started_at), 8));
    lemma_le_round_trip(nat_of(v.started_at), 8);
    // the counter table
    let cb = counts_bytes(v, LABEL_COUNT as int);
    assert forall|l: Label|
        from_le(
            #[trigger] s.subrange(COUNTS_OFF + 16 * slot(l), COUNTS_OFF + 16 * slot(l) + 16),
        ) == v.counts[l] by {
        lemma_slot_in_range(l);
        lemma_counts_bytes_slice(v, LABEL_COUNT as int, slot(l));
        assert(s.subrange(COUNTS_OFF + 16 * slot(l), COUNTS_OFF + 16 * slot(l) + 16)
            =~= cb.subrange(16 * slot(l), 16 * slot(l) + 16));
        lemma_le_round_trip(v.counts[l], 16);
    }
    // the latches
    assert(s[CTRL_OFF as int] == bool_byte(v.ctrl_down));
    assert(s[ALT_OFF as int] == bool_byte(v.alt_down));
    // the double-click baseline and the debounce timestamps
    assert(s.subrange(CLICK_TIME_OFF as int, CLICK_TIME_OFF + 8) =~= le_bytes(
        nat_of(v.last_click_time),
        8,
    ));
    lemma_le_round_trip(nat_of(v.last_click_time), 8);
    assert(s.subrange(CLICK_X_OFF as int, CLICK_X_OFF + 4) =~= le_bytes(
        nat_of(v.last_click_x + COORD_BIAS),
        4,
    ));
    lemma_le_round_trip(nat_of(v.last_click_x + COORD_BIAS), 4);
    assert(s.subrange(CLICK_Y_OFF as int, CLICK_Y_OFF + 4) =~= le_bytes(
        nat_of(v.last_click_y + COORD_BIAS),
        4,
    ));
    lemma_le_round_trip(nat_of(v.last_click_y + COORD_BIAS), 4);
    assert(s.subrange(WHEEL_OFF as int, WHEEL_OFF + 8) =~= le_bytes(nat_of(v.last_wheel_at), 8));
    lemma_le_round_trip(nat_of(v.last_wheel_at), 8);
    assert(s.subrange(MOVE_OFF as int, MOVE_OFF + 8) =~= le_bytes(nat_of(v.last_move_at), 8));
    lemma_le_round_trip(nat_of(v.last_move_at), 8);
    // the two sides agree field by field
    let d = spec_decode(s).unwrap();
    assert(d.counts.dom() =~= v.counts.dom());
    assert(d.counts =~= v.counts);
    assert(d == v);
}

/// Saving an aggregate and loading the result yields an aggregate with
/// identical counters, latches and timestamps: `to_bytes` produces
/// `spec_encode` of the state, `from_bytes` recovers `spec_decode` of
/// it, and the two compose to the state itself.
pub proof fn lemma_counter_round_trip(c: Counter)
    requires
        c.wf(),
        c@.temporal_ok(),
    ensures
        spec_decode(spec_encode(c@)) == Some(c@),
{
    lemma_wf_encodable(c);
    lemma_encode_decode(c@);
}

/// The view of every well-formed aggregate with non-negative timestamps
/// fits the encoding.
pub proof fn lemma_wf_encodable(c: Counter)
    requires
        c.wf(),
        c@.temporal_ok(),
    ensures
        encodable(c@),
{
    lemma_pow256_values();
    assert forall|l: Label| #[trigger] c@.counts[l] < pow256(16) by {
        lemma_slot_in_range(l);
        assert(c@.counts[l] == counts_map(c.counts@)[l]);
    }
}

} // verus!
