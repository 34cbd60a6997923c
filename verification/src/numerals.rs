//! What the numbers on the screen are.

use crate::rounding;
use crate::screen;
use crate::state::Progress;
use crate::units;
use vstd::arithmetic::div_mod::lemma_fundamental_div_mod;
use vstd::arithmetic::power2::{lemma_pow2_pos, lemma_pow2_unfold, pow2};
use vstd::prelude::*;

verus! {

// Decimal notation

/// The number that a row of digits stands for.
pub open spec fn value_of(digits: Seq<char>) -> int
    decreases digits.len(),
{
    if digits.len() == 0 {
        0
    } else {
        value_of(digits.drop_last()) * 10 + (digits.last() as int - '0' as int)
    }
}

/// A number is written with digits that stand for it, and without a zero ahead of others.
pub proof fn law_decimal_stands_for_number(number: nat)
    ensures
        value_of(units::decimal(number)) == number,
        units::decimal(number).len() > 0,
        forall|i: int|
            0 <= i < units::decimal(number).len() ==> '0' <= #[trigger] units::decimal(number)[i]
                <= '9',
        units::decimal(number).len() > 1 ==> units::decimal(number)[0] != '0',
    decreases number,
{
    let text = units::decimal(number);
    if number < 10 {
        assert(text.drop_last() =~= Seq::<char>::empty());
        assert(value_of(text.drop_last()) == 0);
    } else {
        let before = units::decimal(number / 10);
        law_decimal_stands_for_number(number / 10);
        assert(text.drop_last() =~= before);
        assert(text[0] == before[0]);
        if before.len() == 1 {
            if before[0] == '0' {
                assert(before.drop_last() =~= Seq::<char>::empty());
                assert(value_of(before.drop_last()) == 0);
            }
        }
        assert forall|i: int| 0 <= i < text.len() implies '0' <= #[trigger] text[i] <= '9' by {
            if i < before.len() {
                assert(text[i] == before[i]);
            }
        }
    }
}

// Rounding

/// Whether an integer is the nearest to a quotient, and even if another is as near.
pub open spec fn nearest_even(rounded: int, num: int, den: int) -> bool {
    &&& 2 * (rounded * den - num) <= den
    &&& 2 * (num - rounded * den) <= den
    &&& 2 * (rounded * den - num) == den || 2 * (num - rounded * den) == den ==> rounded % 2 == 0
}

/// Rounding gives the nearest integer, and an even one if two are as near.
pub proof fn law_rounds_to_nearest_even(num: nat, den: nat)
    requires
        den > 0,
    ensures
        nearest_even(rounding::round_half_even(num, den) as int, num as int, den as int),
{
    let whole = num / den;
    let rest = num % den;
    lemma_fundamental_div_mod(num as int, den as int);
    assert(den * whole == whole * den && (whole + 1) * den == den * whole + den)
        by (nonlinear_arith);
}

/// Rounding up gives the nearest integer, and the larger one if two are as near.
pub proof fn law_rounds_half_up(num: nat, den: nat)
    requires
        den > 0,
    ensures
        ({
            let rounded = rounding::round_half_up(num, den) as int;
            (2 * rounded - 1) * den <= 2 * num < (2 * rounded + 1) * den
        }),
{
    let rounded = rounding::round_half_up(num, den) as int;
    lemma_fundamental_div_mod((2 * num + den) as int, (2 * den) as int);
    assert((2 * den) * rounded == 2 * (rounded * den)) by (nonlinear_arith);
    assert((2 * rounded - 1) * den == 2 * (rounded * den) - den) by (nonlinear_arith);
    assert((2 * rounded + 1) * den == 2 * (rounded * den) + den) by (nonlinear_arith);
}

/// Whether a quotient is the number of 24 significant bits that is nearest to another quotient: it
/// is `bits`, times two `up` times or halved `down` times.
pub open spec fn single_with(
    single: rounding::Ratio,
    num: nat,
    den: nat,
    bits: nat,
    up: nat,
    down: nat,
) -> bool {
    &&& up == 0 || down == 0
    &&& 0x80_0000 <= bits <= 0x100_0000
    &&& single.num == bits * pow2(up)
    &&& single.den == pow2(down)
    &&& nearest_even(bits as int, (num * pow2(down)) as int, (den * pow2(up)) as int)
}

/// Whether a quotient represents another in single precision.
pub open spec fn represents(single: rounding::Ratio, num: nat, den: nat) -> bool {
    exists|bits: nat, up: nat, down: nat| single_with(single, num, den, bits, up, down)
}

proof fn lemma_spacing_is_power(num: nat, bound: nat) -> (up: nat)
    requires
        bound > 0,
    ensures
        rounding::spacing(num, bound) == pow2(up),
        num < bound ==> up == 0,
    decreases
            if num >= bound {
                num - bound + 1
            } else {
                0
            },
{
    if num < bound {
        vstd::arithmetic::power2::lemma2_to64();
        0
    } else {
        let above = lemma_spacing_is_power(num, 2 * bound);
        lemma_pow2_unfold(above + 1);
        above + 1
    }
}

proof fn lemma_refinement_is_power(num: nat, bound: nat) -> (down: nat)
    ensures
        rounding::refinement(num, bound) == pow2(down),
        num == 0 || 2 * num >= bound ==> down == 0,
    decreases
            if 2 * num < bound {
                bound - 2 * num
            } else {
                0
            },
{
    if num == 0 || 2 * num >= bound {
        vstd::arithmetic::power2::lemma2_to64();
        0
    } else {
        let below = lemma_refinement_is_power(2 * num, bound);
        lemma_pow2_unfold(below + 1);
        below + 1
    }
}

/// The single precision number of a quotient is the nearest of 24 significant bits.
pub proof fn law_single_represents(num: nat, den: nat)
    requires
        num > 0,
        den > 0,
    ensures
        represents(rounding::nearest_single(num, den), num, den),
{
    let bound = den * 0x100_0000;
    let fine = rounding::refinement(num, bound);
    let coarse = rounding::spacing(num, bound);
    rounding::lemma_single_bits(num, den);
    let up = lemma_spacing_is_power(num, bound);
    let down = lemma_refinement_is_power(num, bound);
    let bits = rounding::round_half_even(num * fine, den * coarse);
    law_rounds_to_nearest_even(num * fine, den * coarse);
    assert(single_with(rounding::nearest_single(num, den), num, den, bits, up, down));
}

/// Whether `part` is the share of `whole` that `done` of `total` parts are, as it is worked out in
/// single precision and rounded: `a` and `b` represent the two numbers, `q` their quotient, and `p`
/// its product with `whole`. If `clamped`, a quotient above 1 counts as 1.
pub open spec fn share_with(
    part: int,
    whole: nat,
    done: nat,
    total: nat,
    clamped: bool,
    a: rounding::Ratio,
    b: rounding::Ratio,
    q: rounding::Ratio,
    p: rounding::Ratio,
) -> bool {
    &&& represents(a, done, 1)
    &&& represents(b, total, 1)
    &&& represents(q, a.num * b.den, a.den * b.num)
    &&& if clamped && q.num > q.den {
        represents(p, whole, 1)
    } else {
        represents(p, q.num * whole, q.den)
    }
    &&& (2 * part - 1) * p.den <= 2 * p.num
    &&& 2 * p.num < (2 * part + 1) * p.den
}

/// Whether `part` is the share of `whole` that `done` of `total` parts are, as it is worked out in
/// single precision and rounded.
pub open spec fn is_share(part: int, whole: nat, done: nat, total: nat, clamped: bool) -> bool {
    exists|a: rounding::Ratio, b: rounding::Ratio, q: rounding::Ratio, p: rounding::Ratio|
        share_with(part, whole, done, total, clamped, a, b, q, p)
}

proof fn lemma_share(whole: nat, done: nat, total: nat)
    requires
        whole > 0,
        done > 0,
        total > 0,
    ensures
        is_share(
            rounding::rounded_part(rounding::single_quotient(done, total), whole) as int,
            whole,
            done,
            total,
            false,
        ),
        is_share(
            rounding::rounded_part(
                rounding::at_most_one(rounding::single_quotient(done, total)),
                whole,
            ) as int,
            whole,
            done,
            total,
            true,
        ),
{
    let a = rounding::nearest_single(done, 1);
    let b = rounding::nearest_single(total, 1);
    let q = rounding::single_quotient(done, total);
    let clamped = rounding::at_most_one(q);
    rounding::lemma_single_quotient_bits(done, total);
    law_single_represents(done, 1);
    law_single_represents(total, 1);
    law_single_represents(a.num * b.den, a.den * b.num);
    assert(q.num * whole > 0 && clamped.num * whole > 0) by (nonlinear_arith)
        requires
            q.num > 0,
            clamped.num > 0,
            whole > 0,
    ;
    let p = rounding::nearest_single(q.num * whole, q.den);
    rounding::lemma_single_bits(q.num * whole, q.den);
    law_single_represents(q.num * whole, q.den);
    law_rounds_half_up(p.num, p.den);
    assert(share_with(
        rounding::rounded_part(q, whole) as int,
        whole,
        done,
        total,
        false,
        a,
        b,
        q,
        p,
    ));
    let c = rounding::nearest_single(clamped.num * whole, clamped.den);
    rounding::lemma_single_bits(clamped.num * whole, clamped.den);
    law_single_represents(clamped.num * whole, clamped.den);
    law_rounds_half_up(c.num, c.den);
    assert(1 * whole == whole);
    assert(share_with(
        rounding::rounded_part(clamped, whole) as int,
        whole,
        done,
        total,
        true,
        a,
        b,
        q,
        c,
    ));
}

/// The percentage of what was sent is worked out in single precision and rounded. Of nothing it is
/// 0.
pub proof fn law_percentage_is_share(done: nat, total: nat)
    ensures
        done == 0 || total == 0 ==> rounding::percentage(done, total) == 0,
        done > 0 && total > 0 ==> is_share(
            rounding::percentage(done, total) as int,
            100,
            done,
            total,
            false,
        ),
{
    if done > 0 && total > 0 {
        lemma_share(100, done, total);
    }
}

/// The share of a length is worked out in single precision and rounded, and is never more than the
/// length. Nothing takes up nothing.
pub proof fn law_length_is_share(done: nat, total: nat, length: nat)
    requires
        length > 0,
    ensures
        done == 0 || total == 0 ==> rounding::length_share(done, total, length) == 0,
        done > 0 && total > 0 ==> is_share(
            rounding::length_share(done, total, length) as int,
            length,
            done,
            total,
            true,
        ),
{
    if done > 0 && total > 0 {
        lemma_share(length, done, total);
    }
}

/// The filled part of the progress bar is the share of 240 that was sent, worked out in single
/// precision and rounded, but 2 if that is less.
pub proof fn law_filled_width_is_share(progress: Progress)
    requires
        progress.done > 0,
        progress.total > 0,
    ensures
        exists|part: int| #[trigger]
            is_share(part, 240, progress.done as nat, progress.total as nat, true)
                && screen::filled_width(progress) == if part < 2 {
                2
            } else {
                part
            },
{
    let done = progress.done as nat;
    let total = progress.total as nat;
    let part = rounding::rounded_part(
        rounding::at_most_one(rounding::single_quotient(done, total)),
        240,
    ) as int;
    lemma_share(240, done, total);
    rounding::law_length_share_at_most_length(done, total, 240);
    assert(is_share(part, 240, done, total, true));
}

// How far the shares are from what they stand for

/// A single precision number differs from the quotient that it represents by at most one part in
/// two to the 24th.
pub proof fn law_single_is_close(num: nat, den: nat)
    requires
        num > 0,
        den > 0,
    ensures
        ({
            let single = rounding::nearest_single(num, den);
            &&& (single.num * den) * 0x100_0000 <= (num * single.den) * 0x100_0001
            &&& (num * single.den) * 0xff_ffff <= (single.num * den) * 0x100_0000
        }),
{
    let bound = den * 0x100_0000;
    let fine = rounding::refinement(num, bound);
    let coarse = rounding::spacing(num, bound);
    let size = den * coarse;
    let amount = num * fine;
    let bits = rounding::round_half_even(amount, size);
    rounding::lemma_single_bits(num, den);
    law_rounds_to_nearest_even(amount, size);
    assert((bits * coarse) * den == bits * size) by (nonlinear_arith)
        requires
            size == den * coarse,
    ;
}

/// A share differs from what it stands for by at most a half and one part in two to the 15th, if the
/// numbers can be represented exactly.
proof fn lemma_share_is_close(whole: nat, done: nat, total: nat)
    requires
        0 < whole <= 240,
        0 < done <= total,
        total <= 0x100_0000,
    ensures
        ({
            let part = rounding::rounded_part(
                rounding::single_quotient(done, total),
                whole,
            ) as int;
            &&& (part * total - whole * done) * 0x8000 <= total * 0x4001
            &&& (whole * done - part * total) * 0x8000 <= total * 0x4001
        }),
{
    let a = rounding::nearest_single(done, 1);
    let b = rounding::nearest_single(total, 1);
    let q = rounding::single_quotient(done, total);
    rounding::lemma_single_quotient_bits(done, total);
    rounding::lemma_small_integer_is_exact(done);
    rounding::lemma_small_integer_is_exact(total);
    let common = a.den * b.den;
    assert(a.num * b.den == done * common) by (nonlinear_arith)
        requires
            a.num == done * a.den,
            common == a.den * b.den,
    ;
    assert(a.den * b.num == total * common) by (nonlinear_arith)
        requires
            b.num == total * b.den,
            common == a.den * b.den,
    ;
    assert(common > 0) by (nonlinear_arith)
        requires
            common == a.den * b.den,
            a.den > 0,
            b.den > 0,
    ;
    law_single_is_close(a.num * b.den, a.den * b.num);
    lemma_cancel(q.num, total, common, done, q.den);
    assert(q.num * whole > 0) by (nonlinear_arith)
        requires
            q.num > 0,
            whole > 0,
    ;
    let p = rounding::nearest_single(q.num * whole, q.den);
    rounding::lemma_single_bits(q.num * whole, q.den);
    law_single_is_close(q.num * whole, q.den);
    law_rounds_half_up(p.num, p.den);
    let part = rounding::rounded_part(q, whole) as int;
    lemma_two_errors(
        part,
        p.num as int,
        p.den as int,
        q.num as int,
        q.den as int,
        done as int,
        total as int,
        whole as int,
    );
}

proof fn lemma_cancel(num: nat, total: nat, common: nat, done: nat, den: nat)
    requires
        common > 0,
        (num * (total * common)) * 0x100_0000 <= ((done * common) * den) * 0x100_0001,
        ((done * common) * den) * 0xff_ffff <= (num * (total * common)) * 0x100_0000,
    ensures
        (num * total) * 0x100_0000 <= (done * den) * 0x100_0001,
        (done * den) * 0xff_ffff <= (num * total) * 0x100_0000,
{
    let x = num * total;
    let y = done * den;
    assert(num * (total * common) == x * common) by (nonlinear_arith)
        requires
            x == num * total,
    ;
    assert((done * common) * den == y * common) by (nonlinear_arith)
        requires
            y == done * den,
    ;
    assert(x * 0x100_0000 <= y * 0x100_0001) by (nonlinear_arith)
        requires
            (x * common) * 0x100_0000 <= (y * common) * 0x100_0001,
            common > 0,
    ;
    assert(y * 0xff_ffff <= x * 0x100_0000) by (nonlinear_arith)
        requires
            (y * common) * 0xff_ffff <= (x * common) * 0x100_0000,
            common > 0,
    ;
}

proof fn lemma_two_errors(
    part: int,
    p_num: int,
    p_den: int,
    q_num: int,
    q_den: int,
    done: int,
    total: int,
    whole: int,
)
    requires
        p_den > 0,
        q_den > 0,
        p_num > 0,
        q_num > 0,
        0 < done <= total,
        0 < whole <= 240,
        (q_num * total) * 0x100_0000 <= (done * q_den) * 0x100_0001,
        (done * q_den) * 0xff_ffff <= (q_num * total) * 0x100_0000,
        (p_num * q_den) * 0x100_0000 <= ((q_num * whole) * p_den) * 0x100_0001,
        ((q_num * whole) * p_den) * 0xff_ffff <= (p_num * q_den) * 0x100_0000,
        (2 * part - 1) * p_den <= 2 * p_num < (2 * part + 1) * p_den,
    ensures
        (part * total - whole * done) * 0x8000 <= total * 0x4001,
        (whole * done - part * total) * 0x8000 <= total * 0x4001,
{
    // The two errors together.
    let target = whole * done;
    let scaled = p_num * total;
    let factor = whole * p_den;
    assert((scaled * q_den) * 0x100_0000 <= ((q_num * total) * factor) * 0x100_0001)
        by (nonlinear_arith)
        requires
            (p_num * q_den) * 0x100_0000 <= ((q_num * whole) * p_den) * 0x100_0001,
            scaled == p_num * total,
            factor == whole * p_den,
            total > 0,
    ;
    assert(((q_num * total) * factor) * 0xff_ffff <= (scaled * q_den) * 0x100_0000)
        by (nonlinear_arith)
        requires
            ((q_num * whole) * p_den) * 0xff_ffff <= (p_num * q_den) * 0x100_0000,
            scaled == p_num * total,
            factor == whole * p_den,
            total > 0,
    ;
    let x = q_num * total;
    let y = done * q_den;
    assert(factor > 0) by (nonlinear_arith)
        requires
            factor == whole * p_den,
            whole > 0,
            p_den > 0,
    ;
    assert((x * factor) * 0x100_0000 <= (y * factor) * 0x100_0001) by (nonlinear_arith)
        requires
            x * 0x100_0000 <= y * 0x100_0001,
            factor > 0,
    ;
    assert((y * factor) * 0xff_ffff <= (x * factor) * 0x100_0000) by (nonlinear_arith)
        requires
            y * 0xff_ffff <= x * 0x100_0000,
            factor > 0,
    ;
    let goal = target * p_den;
    assert(y * factor == goal * q_den) by (nonlinear_arith)
        requires
            y == done * q_den,
            factor == whole * p_den,
            goal == target * p_den,
            target == whole * done,
    ;
    assert(scaled * 0x1_0000_0000_0000 <= goal * 0x1_0000_0200_0001) by (nonlinear_arith)
        requires
            (scaled * q_den) * 0x1_0000_0000_0000 <= (goal * q_den) * 0x1_0000_0200_0001,
            q_den > 0,
    ;
    assert(goal * 0xffff_fe00_0001 <= scaled * 0x1_0000_0000_0000) by (nonlinear_arith)
        requires
            (goal * q_den) * 0xffff_fe00_0001 <= (scaled * q_den) * 0x1_0000_0000_0000,
            q_den > 0,
    ;
    // The rounding.
    assert((2 * part - 1) * total * 0x1_0000_0000_0000 <= 2 * target * 0x1_0000_0200_0001)
        by (nonlinear_arith)
        requires
            (2 * part - 1) * p_den <= 2 * p_num,
            scaled == p_num * total,
            goal == target * p_den,
            scaled * 0x1_0000_0000_0000 <= goal * 0x1_0000_0200_0001,
            p_den > 0,
            total > 0,
    ;
    assert(2 * target * 0xffff_fe00_0001 <= (2 * part + 1) * total * 0x1_0000_0000_0000)
        by (nonlinear_arith)
        requires
            2 * p_num < (2 * part + 1) * p_den,
            scaled == p_num * total,
            goal == target * p_den,
            goal * 0xffff_fe00_0001 <= scaled * 0x1_0000_0000_0000,
            p_den > 0,
            total > 0,
    ;
    assert(0 < target <= 240 * total) by (nonlinear_arith)
        requires
            target == whole * done,
            0 < whole <= 240,
            0 < done <= total,
    ;
    let product = part * total;
    assert((2 * part - 1) * total == 2 * product - total) by (nonlinear_arith)
        requires
            product == part * total,
    ;
    assert((2 * part + 1) * total == 2 * product + total) by (nonlinear_arith)
        requires
            product == part * total,
    ;
}

/// The percentage is within a half, and hardly more, of a hundred times the share that was sent.
pub proof fn law_percentage_is_close(done: nat, total: nat)
    requires
        0 < done <= total,
        total <= 0x100_0000,
    ensures
        (rounding::percentage(done, total) * total - 100 * done) * 0x8000 <= total * 0x4001,
        (100 * done - rounding::percentage(done, total) * total) * 0x8000 <= total * 0x4001,
{
    lemma_share_is_close(100, done, total);
}

/// The filled part of the progress bar is within a half, and hardly more, of 240 times the share
/// that was sent, but 2 wide if that is less.
pub proof fn law_filled_width_is_close(progress: Progress)
    requires
        0 < progress.done <= progress.total,
        progress.total <= 0x100_0000,
    ensures
        ({
            let width = screen::filled_width(progress);
            let done = progress.done;
            let total = progress.total;
            &&& (240 * done - width * total) * 0x8000 <= total * 0x4001
            &&& width >= 2
            &&& width > 2 ==> (width * total - 240 * done) * 0x8000 <= total * 0x4001
        }),
{
    let done = progress.done as nat;
    let total = progress.total as nat;
    let quotient = rounding::single_quotient(done, total);
    let part = rounding::rounded_part(quotient, 240);
    lemma_share_is_close(240, done, total);
    rounding::lemma_single_quotient_at_most_one(done, total);
    rounding::law_length_share_at_most_length(done, total, 240);
    assert(rounding::at_most_one(quotient) == quotient);
    if part < 2 {
        assert(part * total <= 2 * total) by (nonlinear_arith)
            requires
                part < 2,
        ;
    }
}

// Sizes

/// Whether an integer is the one of 53 significant bits that is nearest to another: it is `bits`,
/// times two `up` times.
pub open spec fn double_with(double: nat, number: nat, bits: nat, up: nat) -> bool {
    &&& 0x10_0000_0000_0000 <= bits <= 0x20_0000_0000_0000
    &&& double == bits * pow2(up)
    &&& nearest_even(bits as int, number as int, pow2(up) as int)
}

/// An integer that has at most 53 significant bits is represented by itself in double precision, and
/// another by the nearest that has.
pub proof fn law_double_represents(number: nat)
    ensures
        number < 0x20_0000_0000_0000 ==> rounding::nearest_double(number) == number,
        number >= 0x20_0000_0000_0000 ==> exists|bits: nat, up: nat| #[trigger]
            double_with(rounding::nearest_double(number), number, bits, up),
{
    let limit = 0x20_0000_0000_0000nat;
    if number >= limit {
        let unit = rounding::spacing(number, limit);
        rounding::lemma_spacing_fits(number, limit);
        let up = lemma_spacing_is_power(number, limit);
        let bits = rounding::round_half_even(number, unit);
        law_rounds_to_nearest_even(number, unit);
        assert(unit >= 2) by {
            reveal_with_fuel(rounding::spacing, 1);
            rounding::lemma_spacing_fits(number, 2 * limit);
        }
        rounding::lemma_round_half_even_bounds(number, unit, 0x10_0000_0000_0000, limit);
        assert(double_with(rounding::nearest_double(number), number, bits, up));
    }
}

/// The size of a unit and its name: bytes below 1024, and then each 1024 times the one before it,
/// up to TB.
pub open spec fn unit_of(bytes: nat, size: nat, name: Seq<char>) -> bool {
    ||| bytes < 1024 && size == 1 && name == "Bytes"@
    ||| 1024 <= bytes < 1024 * 1024 && size == 1024 && name == "KB"@
    ||| 1024 * 1024 <= bytes < 1024 * 1024 * 1024 && size == 1024 * 1024 && name == "MB"@
    ||| 1024 * 1024 * 1024 <= bytes < 1024 * 1024 * 1024 * 1024 && size == 1024 * 1024 * 1024
        && name == "GB"@
    ||| bytes >= 1024 * 1024 * 1024 * 1024 && size == 1024 * 1024 * 1024 * 1024 && name == "TB"@
}

/// A size is shown in the unit that suits it, in hundredths that are the nearest to what double
/// precision makes of it: as a number, a point, two digits, and the name of the unit.
pub proof fn law_size_is_shown(bytes: nat, size: nat, name: Seq<char>)
    requires
        bytes > 0,
        unit_of(bytes, size, name),
    ensures
        exists|hundredths: nat|
            nearest_even(
                hundredths as int,
                rounding::nearest_double(bytes) as int * 100,
                size as int,
            ) && #[trigger] units::two_places(hundredths) + " "@ + name == units::bytes_text(bytes),
        units::bytes_text(0) == "0 Bytes"@,
{
    let hundredths = rounding::round_half_even(rounding::nearest_double(bytes) * 100, size);
    law_rounds_to_nearest_even(rounding::nearest_double(bytes) * 100, size);
    assert(units::two_places(hundredths) + " "@ + name == units::bytes_text(bytes));
}

/// A number of hundredths is written as the whole, a point, and two digits, which together stand for
/// it.
pub proof fn law_two_places(hundredths: nat)
    ensures
        ({
            let text = units::two_places(hundredths);
            let whole = units::decimal(hundredths / 100);
            let point = whole.len() as int;
            &&& text.len() == point + 3
            &&& text.take(point) == whole
            &&& text[point] == '.'
            &&& '0' <= text[point + 1] <= '9'
            &&& '0' <= text[point + 2] <= '9'
            &&& hundredths == (hundredths / 100) * 100 + (text[point + 1] as int - '0' as int) * 10
                + (text[point + 2] as int - '0' as int)
        }),
{
    reveal_strlit(".");
    let text = units::two_places(hundredths);
    let whole = units::decimal(hundredths / 100);
    assert(text.take(whole.len() as int) =~= whole);
}

} // verus!
