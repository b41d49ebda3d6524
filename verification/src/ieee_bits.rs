//! Log-probabilities are carried as the bit patterns of IEEE-754 binary64
//! values, held in `u64`. This module gives the bit-level reading of such a
//! pattern — sign, magnitude, NaN-ness — and the strict `<` order of the
//! values a pair of non-NaN patterns stand for, together with the
//! NaN-skipping argmax reduction the decoder is built on.
//!
//! The encoding facts used here are fixed by IEEE-754: bit 63 is the sign;
//! a pattern is NaN exactly when its magnitude bits exceed those of
//! infinity (`0x7ff0_0000_0000_0000`); among non-NaN patterns of one sign
//! the magnitude bits are ordered as the values are, and the two zeros
//! (`+0.0`, `-0.0`) compare equal.
use vstd::prelude::*;

verus! {

/// The magnitude bits of a pattern: everything but the sign bit.
pub open spec fn magnitude(b: u64) -> u64 {
    b & 0x7fff_ffff_ffff_ffff
}

/// Whether the sign bit is set (the value is negative, or is `-0.0`).
pub open spec fn is_negative(b: u64) -> bool {
    b >= 0x8000_0000_0000_0000
}

/// Whether the pattern encodes a NaN: magnitude above that of infinity.
pub open spec fn is_nan(b: u64) -> bool {
    magnitude(b) > 0x7ff0_0000_0000_0000
}

/// A key that orders non-NaN patterns exactly as IEEE-754 orders their
/// values: magnitude bits, negated when the sign bit is set. Both zeros
/// have key 0, so `-0.0` and `+0.0` compare equal, as IEEE-754 asks.
pub open spec fn order_key(b: u64) -> int {
    if is_negative(b) {
        -(magnitude(b) as int)
    } else {
        magnitude(b) as int
    }
}

/// The strict `<` of the values two non-NaN patterns stand for.
pub open spec fn float_lt(a: u64, b: u64) -> bool {
    order_key(a) < order_key(b)
}

/// The winner of the NaN-skipping argmax over a sequence of patterns:
/// the index and value of the greatest non-NaN entry, the earliest index
/// on exact ties, and `None` when no entry is non-NaN.
pub open spec fn best_in(vals: Seq<u64>) -> Option<(int, u64)>
    decreases vals.len(),
{
    if vals.len() == 0 {
        None
    } else {
        let prev = best_in(vals.drop_last());
        let last = vals.last();
        if is_nan(last) {
            prev
        } else {
            match prev {
                None => Some((vals.len() - 1, last)),
                Some(p) => if float_lt(p.1, last) {
                    Some((vals.len() - 1, last))
                } else {
                    Some(p)
                },
            }
        }
    }
}

/// A `Some` winner is a real entry of the sequence and is never NaN:
/// NaN candidates are excluded from the reduction, not propagated.
pub proof fn lemma_best_in_some(vals: Seq<u64>)
    requires
        best_in(vals) is Some,
    ensures
        0 <= best_in(vals)->Some_0.0 < vals.len(),
        vals[best_in(vals)->Some_0.0] == best_in(vals)->Some_0.1,
        !is_nan(best_in(vals)->Some_0.1),
    decreases vals.len(),
{
    if vals.len() > 0 {
        if best_in(vals.drop_last()) is Some {
            lemma_best_in_some(vals.drop_last());
        }
    }
}

/// The bit pattern of negative infinity: log of a zero probability.
pub const NEG_INFINITY_BITS: u64 = 0xfff0_0000_0000_0000;

/// The winner is maximal: once any non-NaN entry is present the argmax
/// finds a winner, and no non-NaN entry compares above it.
pub proof fn lemma_best_in_maximal(vals: Seq<u64>, k: int)
    requires
        0 <= k < vals.len(),
        !is_nan(vals[k]),
    ensures
        best_in(vals) is Some,
        !float_lt(best_in(vals)->Some_0.1, vals[k]),
    decreases vals.len(),
{
    if k < vals.len() - 1 {
        lemma_best_in_maximal(vals.drop_last(), k);
    }
}

/// Negative infinity never wins while any non-NaN candidate above it is
/// present; it can be selected only when nothing better remains.
pub proof fn lemma_neg_infinity_never_wins(vals: Seq<u64>, k: int)
    requires
        0 <= k < vals.len(),
        !is_nan(vals[k]),
        vals[k] != NEG_INFINITY_BITS,
    ensures
        best_in(vals) is Some,
        best_in(vals)->Some_0.1 != NEG_INFINITY_BITS,
{
    lemma_best_in_maximal(vals, k);
    let w = best_in(vals)->Some_0.1;
    assert(magnitude(NEG_INFINITY_BITS) == 0x7ff0_0000_0000_0000) by (bit_vector);
    assert(order_key(NEG_INFINITY_BITS) == -0x7ff0_0000_0000_0000);
    let x = vals[k];
    assert(magnitude(x) <= 0x7fff_ffff_ffff_ffff) by (bit_vector);
    assert(magnitude(x) <= 0x7ff0_0000_0000_0000 && (x >= 0x8000_0000_0000_0000 && magnitude(x)
        == 0x7ff0_0000_0000_0000 ==> x == 0xfff0_0000_0000_0000u64)) by (bit_vector)
        requires
            !((x & 0x7fff_ffff_ffff_ffff) > 0x7ff0_0000_0000_0000),
    ;
    assert(order_key(x) > order_key(NEG_INFINITY_BITS));
}

pub fn is_nan_exec(b: u64) -> (r: bool)
    ensures
        r == is_nan(b),
{
    (b & 0x7fff_ffff_ffff_ffff) > 0x7ff0_0000_0000_0000
}

pub fn float_lt_exec(a: u64, b: u64) -> (r: bool)
    ensures
        r == float_lt(a, b),
{
    let ma = a & 0x7fff_ffff_ffff_ffff;
    let mb = b & 0x7fff_ffff_ffff_ffff;
    let na = a >= 0x8000_0000_0000_0000;
    let nb = b >= 0x8000_0000_0000_0000;
    if na && nb {
        mb < ma
    } else if na {
        ma > 0 || mb > 0
    } else if nb {
        false
    } else {
        ma < mb
    }
}

/// The NaN-skipping argmax: index and value of the greatest non-NaN
/// entry, earliest index on ties; `None` when every entry is NaN or the
/// input is empty. NaN entries are passed over, never selected.
pub fn argmax_skipnan(vals: &Vec<u64>) -> (r: Option<(usize, u64)>)
    ensures
        (match r {
            Some(p) => best_in(vals@) == Some((p.0 as int, p.1)) && p.0 < vals@.len(),
            None => best_in(vals@) is None,
        }),
{
    let mut best: Option<(usize, u64)> = None;
    let mut i: usize = 0;
    while i < vals.len()
        invariant
            i <= vals@.len(),
            (match best {
                Some(p) => best_in(vals@.take(i as int)) == Some((p.0 as int, p.1)) && p.0 < i,
                None => best_in(vals@.take(i as int)) is None,
            }),
        decreases vals@.len() - i,
    {
        let v = vals[i];
        proof {
            assert(vals@.take(i + 1).drop_last() =~= vals@.take(i as int));
            assert(vals@.take(i + 1).last() == vals@[i as int]);
        }
        if !is_nan_exec(v) {
            best = match best {
                None => Some((i, v)),
                Some(p) => if float_lt_exec(p.1, v) {
                    Some((i, v))
                } else {
                    Some(p)
                },
            };
        }
        i = i + 1;
    }
    proof {
        assert(vals@.take(vals@.len() as int) =~= vals@);
    }
    best
}

} // verus!
