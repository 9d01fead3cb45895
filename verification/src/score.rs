//! Match scores, carried as the bits of a 64-bit IEEE 754 number, and the order among them.

use vstd::arithmetic::power2::{
    lemma_pow2_adds, lemma_pow2_pos, lemma_pow2_strictly_increases, pow2,
};
use vstd::prelude::*;

verus! {

/// The bit that holds the sign.
pub const SIGN_BIT: u64 = 0x8000_0000_0000_0000;

/// The magnitude of infinity; what lies above it is not a number.
pub const INFINITY_BITS: u64 = 0x7ff0_0000_0000_0000;

/// The lowest score that is accepted for an import: 0.7 times 0.7. The general threshold is 0.7; it
/// is lowered because the user asked for these tracks explicitly.
pub const MIN_SCORE_BITS: u64 = 0x3fdf_5c28_f5c2_8f5b;

/// The place of a score in the order of numbers: numbers with a sign compare by their magnitude
/// bits, both zeros are equal, and what is not a number has no place.
pub open spec fn score_place(bits: u64) -> Option<int> {
    let magnitude = if bits >= SIGN_BIT {
        bits - SIGN_BIT
    } else {
        bits as int
    };
    if magnitude > INFINITY_BITS {
        None
    } else if bits >= SIGN_BIT {
        Some(-magnitude)
    } else {
        Some(magnitude)
    }
}

/// Whether score `a` is a greater number than score `b`.
pub open spec fn greater_score(a: u64, b: u64) -> bool {
    match (score_place(a), score_place(b)) {
        (Some(x), Some(y)) => x > y,
        _ => false,
    }
}

/// The place of a score in the order of numbers.
pub fn place_of(bits: u64) -> (place: Option<i64>)
    ensures
        match place {
            Some(p) => score_place(bits) == Some(p as int),
            None => score_place(bits) is None,
        },
{
    let negative = bits >= SIGN_BIT;
    let magnitude: u64 = if negative {
        bits - SIGN_BIT
    } else {
        bits
    };
    if magnitude > INFINITY_BITS {
        None
    } else if negative {
        Some(-(magnitude as i64))
    } else {
        Some(magnitude as i64)
    }
}

/// Whether score `a` is a greater number than score `b`.
pub fn score_greater(a: u64, b: u64) -> (r: bool)
    ensures
        r == greater_score(a, b),
{
    match (place_of(a), place_of(b)) {
        (Some(x), Some(y)) => x > y,
        _ => false,
    }
}

/// Whether a score is too low to be accepted.
pub open spec fn too_low(bits: u64) -> bool {
    greater_score(MIN_SCORE_BITS, bits)
}

/// Whether a score is too low to be accepted.
pub fn score_too_low(bits: u64) -> (r: bool)
    ensures
        r == too_low(bits),
{
    score_greater(MIN_SCORE_BITS, bits)
}

/// The index of the leading score: going through the scores in order, a later one takes the lead
/// only if it is greater than the leader so far.
pub open spec fn leader(scores: Seq<u64>) -> int
    decreases scores.len(),
{
    if scores.len() <= 1 {
        0
    } else {
        let so_far = leader(scores.drop_last());
        if greater_score(scores.last(), scores[so_far]) {
            scores.len() - 1
        } else {
            so_far
        }
    }
}

/// Among scores that are all numbers, the leader is the first of the greatest: what comes first
/// when they are sorted from high to low and equal scores keep their order.
pub proof fn law_leader_is_first_greatest(scores: Seq<u64>)
    requires
        scores.len() > 0,
        forall|i: int| 0 <= i < scores.len() ==> score_place(#[trigger] scores[i]) is Some,
    ensures
        0 <= leader(scores) < scores.len(),
        forall|i: int|
            0 <= i < scores.len() ==> !greater_score(#[trigger] scores[i], scores[leader(scores)]),
        forall|i: int|
            0 <= i < leader(scores) ==> greater_score(scores[leader(scores)], #[trigger] scores[i]),
    decreases scores.len(),
{
    if scores.len() > 1 {
        let front = scores.drop_last();
        assert forall|i: int| 0 <= i < front.len() implies score_place(#[trigger] front[i]) is Some by {
            assert(front[i] == scores[i]);
        }
        law_leader_is_first_greatest(front);
        let lead = leader(front);
        assert(front[lead] == scores[lead]);
        assert forall|i: int| 0 <= i < scores.len() implies !greater_score(
            #[trigger] scores[i],
            scores[leader(scores)],
        ) by {
            if i < front.len() {
                assert(front[i] == scores[i]);
            }
        }
        assert forall|i: int| 0 <= i < leader(scores) implies greater_score(
            scores[leader(scores)],
            #[trigger] scores[i],
        ) by {
            assert(front[i] == scores[i]);
            assert(!greater_score(front[i], front[lead]));
        }
    }
}

/// How many fractions there are to an exponent: two to the power of 52.
pub const FRACTIONS: u64 = 0x10_0000_0000_0000;

/// The magnitude that the bits of a number without its sign stand for, in units of the least positive
/// number: with exponent 0 the fraction, and otherwise the fraction with a leading one, doubled once
/// for each exponent after the first.
#[verifier::opaque]
pub open spec fn magnitude_value(magnitude: nat) -> nat {
    let exponent = magnitude / (FRACTIONS as nat);
    let fraction = magnitude % (FRACTIONS as nat);
    if exponent == 0 {
        fraction
    } else {
        (FRACTIONS + fraction) as nat * pow2((exponent - 1) as nat)
    }
}

/// A greater magnitude in bits stands for a greater number.
proof fn lemma_magnitude_value_grows(a: nat, b: nat)
    requires
        a < b,
    ensures
        magnitude_value(a) < magnitude_value(b),
{
    reveal(magnitude_value);
    let m = FRACTIONS as nat;
    let ea = a / m;
    let eb = b / m;
    let fa = a % m;
    let fb = b % m;
    assert(a == m * ea + fa && fa < m && b == m * eb + fb && fb < m) by (nonlinear_arith)
        requires
            m > 0,
            ea == a / m,
            eb == b / m,
            fa == a % m,
            fb == b % m,
    ;
    assert(ea <= eb) by (nonlinear_arith)
        requires
            a < b,
            a == m * ea + fa,
            b == m * eb + fb,
            fa < m,
            fb < m,
    ;
    if ea == eb {
        assert(fa < fb) by (nonlinear_arith)
            requires
                a < b,
                a == m * ea + fa,
                b == m * eb + fb,
                ea == eb,
        ;
        if ea > 0 {
            let p = pow2((ea - 1) as nat);
            lemma_pow2_pos((ea - 1) as nat);
            assert((m + fa) * p < (m + fb) * p) by (nonlinear_arith)
                requires
                    fa < fb,
                    p > 0,
            ;
        }
    } else {
        let q = pow2((eb - 1) as nat);
        lemma_pow2_pos((eb - 1) as nat);
        assert((m + fb) * q >= m * q) by (nonlinear_arith)
            requires
                q > 0,
        ;
        if ea == 0 {
            assert(m * q >= m) by (nonlinear_arith)
                requires
                    q > 0,
            ;
        } else {
            let p = pow2((ea - 1) as nat);
            lemma_pow2_pos((ea - 1) as nat);
            assert(q >= 2 * p) by {
                lemma_pow2_adds((ea - 1) as nat, 1);
                vstd::arithmetic::power2::lemma2_to64();
                if ea < eb - 1 {
                    lemma_pow2_strictly_increases(ea, (eb - 1) as nat);
                }
            }
            assert((m + fa) * p < m * q) by (nonlinear_arith)
                requires
                    fa < m,
                    p > 0,
                    q >= 2 * p,
            ;
        }
    }
}

proof fn lemma_no_magnitude()
    ensures
        magnitude_value(0) == 0,
{
    reveal(magnitude_value);
}

/// The number that the bits of a score stand for, in units of the least positive number.
pub open spec fn score_value(bits: u64) -> int {
    if bits >= SIGN_BIT {
        -(magnitude_value((bits - SIGN_BIT) as nat) as int)
    } else {
        magnitude_value(bits as nat) as int
    }
}

/// Whether the bits of a score stand for a number or an infinity.
pub open spec fn is_number(bits: u64) -> bool {
    bits <= INFINITY_BITS || SIGN_BIT <= bits <= SIGN_BIT + INFINITY_BITS
}

/// Scores compare as the numbers that they stand for, and what is not a number is neither greater nor
/// less than anything; a score is too low exactly if it is a number below the lowest accepted.
pub proof fn law_scores_compare_as_numbers(a: u64, b: u64)
    ensures
        is_number(a) && is_number(b) ==> (greater_score(a, b) <==> score_value(a) > score_value(b)),
        !is_number(a) || !is_number(b) ==> !greater_score(a, b),
        too_low(a) <==> is_number(a) && score_value(a) < score_value(MIN_SCORE_BITS),
{
    lemma_scores_compare(a, b);
    lemma_scores_compare(MIN_SCORE_BITS, a);
}

proof fn lemma_scores_compare(a: u64, b: u64)
    ensures
        is_number(a) && is_number(b) ==> (greater_score(a, b) <==> score_value(a) > score_value(b)),
        !is_number(a) || !is_number(b) ==> !greater_score(a, b),
{
    let ma: nat = if a >= SIGN_BIT {
        (a - SIGN_BIT) as nat
    } else {
        a as nat
    };
    let mb: nat = if b >= SIGN_BIT {
        (b - SIGN_BIT) as nat
    } else {
        b as nat
    };
    lemma_no_magnitude();
    if ma < mb {
        lemma_magnitude_value_grows(ma, mb);
    }
    if mb < ma {
        lemma_magnitude_value_grows(mb, ma);
    }
    if ma > 0 {
        lemma_magnitude_value_grows(0, ma);
    }
    if mb > 0 {
        lemma_magnitude_value_grows(0, mb);
    }
}

/// Being greater is a strict order: no score is greater than itself, and a score greater than a
/// greater one is greater.
pub proof fn law_greater_is_strict_order(a: u64, b: u64, c: u64)
    ensures
        !greater_score(a, a),
        greater_score(a, b) ==> !greater_score(b, a),
        greater_score(a, b) && greater_score(b, c) ==> greater_score(a, c),
{
}

} // verus!
