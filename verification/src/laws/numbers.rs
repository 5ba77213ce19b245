//! Numbers, vectors and their wording.

use crate::number::Real;
use crate::number::Vec3;
use vstd::prelude::*;

verus! {

/// Zero has the value zero. From one representation to the next the value grows by two to
/// the power of the exponent, and the sign bit turns the value round. So the values are
/// those of the binary representation, in multiples of the smallest positive number.
pub proof fn values_step_by_the_exponent(bits: u64)
    ensures
        (Real { bits: 0 }).value() == 0,
        bits < 0x7fff_ffff_ffff_ffff ==> (Real { bits: (bits + 1) as u64 }).value() - (Real {
            bits,
        }).value() == vstd::arithmetic::power2::pow2(
            if bits / 0x10_0000_0000_0000 == 0 {
                0
            } else {
                (bits / 0x10_0000_0000_0000 - 1) as nat
            },
        ),
        bits < 0x8000_0000_0000_0000 ==> (Real {
            bits: (bits + 0x8000_0000_0000_0000) as u64,
        }).value() == -(Real { bits }).value(),
{
    if bits < 0x7fff_ffff_ffff_ffff {
        let next = (bits + 1) as u64;
        let exponent = bits / 0x10_0000_0000_0000;
        let fraction = bits % 0x10_0000_0000_0000;
        assert(bits % crate::number::SIGN == bits);
        assert(next % crate::number::SIGN == next);
        vstd::arithmetic::power2::lemma_pow2(0);
        vstd::arithmetic::power2::lemma2_to64();
        if fraction + 1 < 0x10_0000_0000_0000 {
            assert(next / 0x10_0000_0000_0000 == exponent);
            assert(next % 0x10_0000_0000_0000 == fraction + 1);
            if exponent > 0 {
                let scale = vstd::arithmetic::power2::pow2((exponent - 1) as nat);
                assert((0x10_0000_0000_0000 + fraction + 1) * scale == (0x10_0000_0000_0000
                    + fraction) * scale + scale) by (nonlinear_arith);
            }
        } else {
            assert(next / 0x10_0000_0000_0000 == exponent + 1);
            assert(next % 0x10_0000_0000_0000 == 0);
            if exponent > 0 {
                let scale = vstd::arithmetic::power2::pow2((exponent - 1) as nat);
                vstd::arithmetic::power2::lemma_pow2_unfold(exponent as nat);
                let double = vstd::arithmetic::power2::pow2(exponent as nat);
                assert(double == 2 * scale);
                assert(0x10_0000_0000_0000 * double == (0x10_0000_0000_0000 + fraction) * scale
                    + scale) by (nonlinear_arith)
                    requires
                        double == 2 * scale,
                        fraction + 1 == 0x10_0000_0000_0000,
                ;
            }
        }
    }
    if bits < 0x8000_0000_0000_0000 {
        let turned = (bits + 0x8000_0000_0000_0000) as u64;
        assert(turned % crate::number::SIGN == bits % crate::number::SIGN);
        assert(turned % crate::number::FRACTIONS == bits % crate::number::FRACTIONS);
        if bits == 0 {
            assert(crate::number::magnitude(turned) == 0);
        }
    }
}

/// A number is finite below the infinities of its representation, and not a number above
/// them.
pub proof fn finiteness_is_read_off_the_bits(number: Real, finite: bool, nothing: bool)
    requires
        call_ensures(Real::is_finite, (number,), finite),
        call_ensures(Real::is_nan, (number,), nothing),
    ensures
        finite <==> number.bits % 0x8000_0000_0000_0000 < 0x7ff0_0000_0000_0000,
        nothing <==> number.bits % 0x8000_0000_0000_0000 > 0x7ff0_0000_0000_0000,
        finite == number.finite(),
        nothing == number.not_a_number(),
{
    let low = number.bits % 0x8000_0000_0000_0000;
    assert(low % 0x10_0000_0000_0000 == number.bits % 0x10_0000_0000_0000);
    assert(low == 0x10_0000_0000_0000 * (low / 0x10_0000_0000_0000) + low % 0x10_0000_0000_0000);
}

/// Comparisons of numbers are comparisons of their values.
pub proof fn comparisons_follow_values(
    number: Real,
    other: Real,
    positive: bool,
    zero: bool,
    below: bool,
    same: bool,
    size: Real,
)
    requires
        call_ensures(Real::is_positive, (number,), positive),
        call_ensures(Real::is_zero, (number,), zero),
        call_ensures(Real::is_below, (number, other), below),
        call_ensures(Real::is_same, (number, other), same),
        call_ensures(Real::abs, (number,), size),
        number.bits % 0x8000_0000_0000_0000 <= 0x7ff0_0000_0000_0000,
        other.bits % 0x8000_0000_0000_0000 <= 0x7ff0_0000_0000_0000,
    ensures
        positive <==> number.value() > 0,
        zero <==> number.value() == 0,
        below <==> number.value() < other.value(),
        same <==> number.value() == other.value(),
        size.value() == (if number.value() < 0 {
            -number.value()
        } else {
            number.value()
        }),
{
    assert(!number.not_a_number() && !other.not_a_number()) by {
        let low = number.bits % 0x8000_0000_0000_0000;
        assert(low % 0x10_0000_0000_0000 == number.bits % 0x10_0000_0000_0000);
        let more = other.bits % 0x8000_0000_0000_0000;
        assert(more % 0x10_0000_0000_0000 == other.bits % 0x10_0000_0000_0000);
    }
}

/// What is not a number is neither positive nor below anything nor above it, and no placement
/// turns by it.
pub proof fn nothing_compares_with_no_number(
    number: Real,
    other: Real,
    positive: bool,
    below: bool,
    above: bool,
    turn: bool,
    size: Real,
)
    requires
        call_ensures(Real::is_positive, (number,), positive),
        call_ensures(Real::is_below, (number, other), below),
        call_ensures(Real::is_below, (other, number), above),
        call_ensures(crate::copies::is_turn, (number,), turn),
        call_ensures(Real::abs, (number,), size),
        number.bits % 0x8000_0000_0000_0000 > 0x7ff0_0000_0000_0000,
    ensures
        !positive && !below && !above && !turn,
        size.not_a_number(),
{
    let low = number.bits % 0x8000_0000_0000_0000;
    assert(low % 0x10_0000_0000_0000 == number.bits % 0x10_0000_0000_0000);
    assert(number.not_a_number());
}

/// A vector is finite if all its components are, and zero if all of them are.
pub proof fn vectors_go_by_every_component(vector: Vec3, finite: bool, zero: bool)
    requires
        call_ensures(Vec3::is_finite, (vector,), finite),
        call_ensures(Vec3::is_zero, (vector,), zero),
    ensures
        finite <==> vector.x.finite() && vector.y.finite() && vector.z.finite(),
        zero <==> vector.x.value() == 0 && vector.y.value() == 0 && vector.z.value() == 0,
        finite == vector.finite(),
        zero == vector.zero(),
{
}

/// A placement turns by every angle whose value is beyond two to the power of -52 on either
/// side, and by no other.
pub proof fn turns_are_beyond_the_epsilon(angle: Real, turn: bool)
    requires
        call_ensures(crate::copies::is_turn, (angle,), turn),
        angle.bits % 0x8000_0000_0000_0000 <= 0x7ff0_0000_0000_0000,
    ensures
        turn <==> angle.value() > vstd::arithmetic::power2::pow2(1022) || -angle.value()
            > vstd::arithmetic::power2::pow2(1022),
{
    vstd::arithmetic::power2::lemma_pow2_pos(1022);
    let low = angle.bits % 0x8000_0000_0000_0000;
    assert(low % 0x10_0000_0000_0000 == angle.bits % 0x10_0000_0000_0000);
}

// ==================== Wording ====================

/// The number that decimal digits spell.
pub open spec fn spelled(text: Seq<char>) -> int
    decreases text.len(),
{
    if text.len() == 0 {
        0
    } else {
        10 * spelled(text.drop_last()) + (text.last() as int - '0' as int)
    }
}

proof fn digits_spell(digit: nat)
    requires
        digit < 10,
    ensures
        crate::text::digit_text(digit).len() == 1,
        crate::text::digit_text(digit)[0] as int == '0' as int + digit,
{
    reveal_strlit("0");
    reveal_strlit("1");
    reveal_strlit("2");
    reveal_strlit("3");
    reveal_strlit("4");
    reveal_strlit("5");
    reveal_strlit("6");
    reveal_strlit("7");
    reveal_strlit("8");
    reveal_strlit("9");
}

pub(crate) proof fn numbers_are_spelled(count: nat)
    ensures
        crate::text::decimal_digits(count).len() > 0,
        spelled(crate::text::decimal_digits(count)) == count,
        count > 0 ==> crate::text::decimal_digits(count)[0] != '0',
        count == 0 ==> crate::text::decimal_digits(count).len() == 1,
        forall|i: int|
            0 <= i < crate::text::decimal_digits(count).len() ==> '0'
                <= #[trigger] crate::text::decimal_digits(count)[i] <= '9',
    decreases count,
{
    let text = crate::text::decimal_digits(count);
    digits_spell(count % 10);
    if count < 10 {
        assert(text.drop_last() =~= seq![]);
        assert(spelled(seq![]) == 0);
    } else {
        numbers_are_spelled(count / 10);
        assert(text.drop_last() =~= crate::text::decimal_digits(count / 10));
        assert(text.last() == crate::text::digit_text(count % 10)[0]);
    }
}

/// A count is written in decimal digits that spell it, without leading zeros.
pub proof fn counts_are_spelled_in_decimal(count: usize, text: String)
    requires
        call_ensures(crate::text::decimal, (count,), text),
    ensures
        spelled(text@) == count,
        forall|i: int| 0 <= i < text@.len() ==> '0' <= #[trigger] text@[i] <= '9',
        count > 0 ==> text@.len() > 0 && text@[0] != '0',
        count == 0 ==> text@.len() == 1,
{
    numbers_are_spelled(count as nat);
}

/// A flag is written as the word that it is, and two texts are joined in order.
pub proof fn flags_and_joints_are_worded(
    flag: bool,
    word: &'static str,
    head: &str,
    tail: &str,
    text: String,
)
    requires
        call_ensures(crate::text::flag_word, (flag,), word),
        call_ensures(crate::text::joined, (head, tail), text),
    ensures
        flag ==> word@ == "true"@,
        !flag ==> word@ == "false"@,
        text@.len() == head@.len() + tail@.len(),
        forall|i: int| 0 <= i < head@.len() ==> #[trigger] text@[i] == head@[i],
        forall|i: int|
            head@.len() <= i < text@.len() ==> #[trigger] text@[i] == tail@[i - head@.len()],
{
}

} // verus!
