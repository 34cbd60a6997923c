//! Rounding to the numbers that single and double precision can represent.

use vstd::arithmetic::div_mod::lemma_fundamental_div_mod;
use vstd::prelude::*;

verus! {

/// Integers up to this one have at most 53 significant bits, as many as double precision has.
pub const DOUBLE_LIMIT: u128 = 0x20_0000_0000_0000;

/// Integers up to this one have at most 24 significant bits, as many as single precision has.
pub const SINGLE_LIMIT: u128 = 0x100_0000;

/// An amount that can be quadrupled safely.
pub const HUGE: u128 = 0x1000_0000_0000_0000_0000_0000_0000_0000;

/// The nearest integer to a quotient, the even one of two that are equally near.
pub open spec fn round_half_even(amount: nat, size: nat) -> nat {
    let whole = amount / size;
    let rest = amount % size;
    if 2 * rest < size || (2 * rest == size && whole % 2 == 0) {
        whole
    } else {
        whole + 1
    }
}

/// The nearest integer to a quotient, the larger one of two that are equally near.
pub open spec fn round_half_up(amount: nat, size: nat) -> nat {
    (2 * amount + size) / (2 * size)
}

/// The least power of two that `bound` has to be multiplied by to exceed `num`.
pub open spec fn spacing(num: nat, bound: nat) -> nat
    decreases
            if num >= bound {
                num - bound + 1
            } else {
                0
            },
{
    if bound == 0 || num < bound {
        1
    } else {
        2 * spacing(num, 2 * bound)
    }
}

/// The least power of two that `num` has to be multiplied by to come to half of `bound`.
pub open spec fn refinement(num: nat, bound: nat) -> nat
    decreases
            if 2 * num < bound {
                bound - 2 * num
            } else {
                0
            },
{
    if num == 0 || 2 * num >= bound {
        1
    } else {
        2 * refinement(2 * num, bound)
    }
}

/// A quotient of natural numbers.
pub struct Ratio {
    pub num: nat,
    pub den: nat,
}

/// The single precision number that is nearest to a quotient, the even one of two that are
/// equally near.
pub open spec fn nearest_single(num: nat, den: nat) -> Ratio {
    let fine = refinement(num, den * SINGLE_LIMIT as nat);
    let coarse = spacing(num, den * SINGLE_LIMIT as nat);
    Ratio { num: round_half_even(num * fine, den * coarse) * coarse, den: fine }
}

/// The quotient of two integers in single precision.
pub open spec fn single_quotient(done: nat, total: nat) -> Ratio {
    let a = nearest_single(done, 1);
    let b = nearest_single(total, 1);
    nearest_single(a.num * b.den, a.den * b.num)
}

/// The product of a quotient and an integer in single precision.
pub open spec fn single_product(ratio: Ratio, factor: nat) -> Ratio {
    nearest_single(ratio.num * factor, ratio.den)
}

/// The quotient, or 1 if it is larger.
pub open spec fn at_most_one(ratio: Ratio) -> Ratio {
    if ratio.num > ratio.den {
        Ratio { num: 1, den: 1 }
    } else {
        ratio
    }
}

/// The part of `whole` that a quotient stands for, worked out in single precision and rounded to
/// an integer.
pub open spec fn rounded_part(ratio: Ratio, whole: nat) -> nat {
    let part = single_product(ratio, whole);
    round_half_up(part.num, part.den)
}

/// How many hundredths of `total` parts `done` of them are, rounded.
pub open spec fn percentage(done: nat, total: nat) -> nat {
    if done == 0 || total == 0 {
        0
    } else {
        rounded_part(single_quotient(done, total), 100)
    }
}

/// How much of a length `done` of `total` parts take up, rounded.
pub open spec fn length_share(done: nat, total: nat, length: nat) -> nat {
    if done == 0 || total == 0 {
        0
    } else {
        rounded_part(at_most_one(single_quotient(done, total)), length)
    }
}

/// The integer that double precision represents `number` by: the nearest that has 53 significant
/// bits, and of two that are equally near the one that is even in the last of them.
pub open spec fn nearest_double(number: nat) -> nat {
    if number < DOUBLE_LIMIT {
        number
    } else {
        let unit = spacing(number, DOUBLE_LIMIT as nat);
        round_half_even(number, unit) * unit
    }
}

/// Finds the nearest integer to a quotient.
pub fn round_to_even(amount: u128, size: u128) -> (rounded: u128)
    requires
        0 < size < HUGE,
    ensures
        rounded == round_half_even(amount as nat, size as nat),
        rounded <= amount,
{
    let whole: u128 = amount / size;
    let rest: u128 = amount % size;
    proof {
        lemma_fundamental_div_mod(amount as int, size as int);
        assert(whole + rest <= amount) by (nonlinear_arith)
            requires
                size > 0,
                amount == size * whole + rest,
                whole >= 0,
        ;
    }
    if 2 * rest < size || (2 * rest == size && whole % 2 == 0) {
        whole
    } else {
        whole + 1
    }
}

/// Finds the spacing of the numbers with few significant bits.
fn find_spacing(num: u128, bound: u128) -> (unit: u128)
    requires
        0 < bound < HUGE,
        num < HUGE,
    ensures
        unit == spacing(num as nat, bound as nat),
        unit >= 1,
        num < bound * unit,
        unit == 1 || bound * unit <= 2 * num,
{
    let mut scaled: u128 = bound;
    let mut unit: u128 = 1;
    while scaled <= num
        invariant
            0 < bound,
            num < HUGE,
            scaled == bound * unit,
            1 <= unit <= scaled,
            scaled < 2 * HUGE,
            unit == 1 || scaled <= 2 * num,
            unit * spacing(num as nat, scaled as nat) == spacing(num as nat, bound as nat),
        decreases 2 * HUGE - scaled,
    {
        proof {
            let above = spacing(num as nat, (2 * scaled) as nat);
            assert((unit * 2) * above == unit * (2 * above)) by (nonlinear_arith);
            assert(bound * (unit * 2) == 2 * (bound * unit)) by (nonlinear_arith);
        }
        scaled = scaled * 2;
        unit = unit * 2;
    }
    assert(spacing(num as nat, scaled as nat) == 1);
    assert(unit * 1 == unit);
    unit
}

/// Finds how much finer than integers the numbers with few significant bits are.
fn find_refinement(num: u128, bound: u128) -> (unit: u128)
    requires
        bound < HUGE,
        num < HUGE,
    ensures
        unit == refinement(num as nat, bound as nat),
        unit >= 1,
        unit == 1 || num * unit < bound,
        num == 0 || bound <= 2 * (num * unit),
{
    if num == 0 {
        return 1;
    }
    let mut scaled: u128 = num;
    let mut unit: u128 = 1;
    while 2 * scaled < bound
        invariant
            0 < num,
            bound < HUGE,
            scaled == num * unit,
            1 <= unit <= scaled,
            scaled < HUGE,
            unit == 1 || scaled < bound,
            unit * refinement(scaled as nat, bound as nat) == refinement(
                num as nat,
                bound as nat,
            ),
        decreases HUGE - scaled,
    {
        proof {
            let below = refinement((2 * scaled) as nat, bound as nat);
            assert((unit * 2) * below == unit * (2 * below)) by (nonlinear_arith);
            assert(num * (unit * 2) == 2 * (num * unit)) by (nonlinear_arith);
        }
        scaled = scaled * 2;
        unit = unit * 2;
    }
    assert(refinement(scaled as nat, bound as nat) == 1);
    assert(unit * 1 == unit);
    unit
}

/// A quotient of integers.
struct Quotient {
    num: u128,
    den: u128,
}

impl View for Quotient {
    type V = Ratio;

    closed spec fn view(&self) -> Ratio {
        Ratio { num: self.num as nat, den: self.den as nat }
    }
}

pub proof fn lemma_round_half_even_bounds(amount: nat, size: nat, low: nat, high: nat)
    requires
        size > 0,
        low * size <= amount <= high * size,
    ensures
        low <= round_half_even(amount, size) <= high,
{
    let whole = amount / size;
    let rest = amount % size;
    lemma_fundamental_div_mod(amount as int, size as int);
    assert(low <= whole) by (nonlinear_arith)
        requires
            low * size <= size * whole + rest,
            0 <= rest < size,
    ;
    assert(whole <= high) by (nonlinear_arith)
        requires
            size * whole + rest <= high * size,
            0 <= rest < size,
    ;
    if rest > 0 {
        assert(whole < high) by (nonlinear_arith)
            requires
                size * whole + rest <= high * size,
                0 < rest < size,
        ;
    }
}

proof fn lemma_round_integer(amount: nat)
    ensures
        round_half_even(amount, 1) == amount,
{
}

/// Finds the single precision number that is nearest to a quotient.
fn find_single(num: u128, den: u128) -> (single: Quotient)
    requires
        0 < num < 0x10_0000_0000_0000_0000_0000_0000,
        0 < den < 0x10_0000_0000_0000_0000_0000_0000,
    ensures
        single@ == nearest_single(num as nat, den as nat),
        0 < single.num <= 2 * num || 0 < single.num <= SINGLE_LIMIT,
        0 < single.den,
        single.den == 1 || num * single.den < den * SINGLE_LIMIT,
        den == 1 ==> single.den <= single.num <= 2 * num * single.den,
{
    let bound: u128 = den * SINGLE_LIMIT;
    let fine: u128 = find_refinement(num, bound);
    let coarse: u128 = find_spacing(num, bound);
    proof {
        let limit = SINGLE_LIMIT as int;
        assert(fine > 1 ==> num < bound) by (nonlinear_arith)
            requires
                fine == 1 || num * fine < bound,
                fine >= 1,
                num > 0,
        ;
        assert(coarse > 1 ==> num >= bound) by {
            reveal_with_fuel(spacing, 1);
        }
        assert(fine == 1 ==> num * fine == num) by (nonlinear_arith);
        assert(coarse == 1 ==> bound * coarse == bound) by (nonlinear_arith);
        assert(num * fine < HUGE);
        assert(bound * coarse == (den * coarse) * limit) by (nonlinear_arith)
            requires
                bound == den * limit,
        ;
        assert(den * coarse < HUGE);
        assert(den * coarse > 0) by (nonlinear_arith)
            requires
                den > 0,
                coarse >= 1,
        ;
        // The quotient lies between half the limit and the limit.
        assert(num * fine <= limit * (den * coarse));
        assert(0x80_0000 * (den * coarse) <= num * fine);
        lemma_round_half_even_bounds(
            (num * fine) as nat,
            (den * coarse) as nat,
            0x80_0000,
            limit as nat,
        );
    }
    let rounded: u128 = round_to_even(num * fine, den * coarse);
    proof {
        assert(coarse > 1 ==> rounded * coarse <= 2 * num) by (nonlinear_arith)
            requires
                rounded <= SINGLE_LIMIT,
                coarse == 1 || (den * coarse) * SINGLE_LIMIT <= 2 * num,
                den >= 1,
        ;
        assert(coarse == 1 ==> rounded * coarse == rounded) by (nonlinear_arith);
        assert(rounded * coarse > 0) by (nonlinear_arith)
            requires
                rounded > 0,
                coarse >= 1,
        ;
        if den == 1 && coarse == 1 {
            lemma_round_integer((num * fine) as nat);
            assert(den * coarse == 1);
            assert(rounded == num * fine);
            assert(fine <= num * fine <= 2 * num * fine) by (nonlinear_arith)
                requires
                    num >= 1,
                    fine >= 1,
            ;
        }
    }
    Quotient { num: rounded * coarse, den: fine }
}

/// Finds the quotient of two integers in single precision.
fn find_single_quotient(done: usize, total: usize) -> (quotient: Quotient)
    requires
        done > 0,
        total > 0,
    ensures
        quotient@ == single_quotient(done as nat, total as nat),
        0 < quotient.num < 0x800_0000_0000_0000_0000_0000,
        0 < quotient.den < 0x400_0000_0000_0000_0000_0000,
{
    let a = find_single(done as u128, 1);
    let b = find_single(total as u128, 1);
    proof {
        let limit = SINGLE_LIMIT as int;
        let words = 0x1_0000_0000_0000_0000int;
        assert(a.den <= limit) by (nonlinear_arith)
            requires
                a.den == 1 || done * a.den < 1 * limit,
                done >= 1,
                limit > 1,
        ;
        assert(b.den <= limit) by (nonlinear_arith)
            requires
                b.den == 1 || total * b.den < 1 * limit,
                total >= 1,
                limit > 1,
        ;
        assert(a.num * b.den <= 2 * words * limit) by (nonlinear_arith)
            requires
                a.num <= 2 * words,
                b.den <= limit,
                limit > 0,
        ;
        assert(a.den * b.num <= 2 * words * limit) by (nonlinear_arith)
            requires
                b.num <= 2 * words,
                a.den <= limit,
                limit > 0,
        ;
        assert(a.num * b.den > 0 && a.den * b.num > 0) by (nonlinear_arith)
            requires
                a.num > 0,
                a.den > 0,
                b.num > 0,
                b.den > 0,
        ;
        // The numerator is at least 1 and the denominator at most two words.
        assert(a.den * b.num <= (a.num * b.den) * (2 * words)) by (nonlinear_arith)
            requires
                a.den <= a.num,
                b.num <= 2 * total * b.den,
                total <= words,
                a.num > 0,
                b.den > 0,
        ;
    }
    let quotient = find_single(a.num * b.den, a.den * b.num);
    proof {
        let limit = SINGLE_LIMIT as int;
        let words = 0x1_0000_0000_0000_0000int;
        let num = (a.num * b.den) as int;
        let den = (a.den * b.num) as int;
        assert(quotient.den == 1 || quotient.den < 2 * words * limit) by (nonlinear_arith)
            requires
                quotient.den == 1 || num * quotient.den < den * limit,
                den <= num * (2 * words),
                num > 0,
                limit > 0,
        ;
    }
    quotient
}

/// Finds the part of `whole` that a quotient stands for.
fn find_rounded_part(quotient: Quotient, whole: u128) -> (part: u128)
    requires
        0 < quotient.num < 0x800_0000_0000_0000_0000_0000,
        0 < quotient.den < 0x400_0000_0000_0000_0000_0000,
        0 < whole <= 0x100,
    ensures
        part == rounded_part(quotient@, whole as nat),
        quotient.num <= quotient.den ==> part <= whole,
{
    proof {
        assert(0 < quotient.num * whole <= 0x800_0000_0000_0000_0000_0000 * 0x100)
            by (nonlinear_arith)
            requires
                0 < quotient.num < 0x800_0000_0000_0000_0000_0000,
                0 < whole <= 0x100,
        ;
    }
    let share = find_single(quotient.num * whole, quotient.den);
    proof {
        let num = (quotient.num * whole) as int;
        let limit = SINGLE_LIMIT as int;
        assert(share.den <= quotient.den * limit) by (nonlinear_arith)
            requires
                share.den == 1 || num * share.den < quotient.den * limit,
                num > 0,
                quotient.den > 0,
                limit > 1,
        ;
        if quotient.num <= quotient.den {
            assert(num <= quotient.den * whole) by (nonlinear_arith)
                requires
                    num == quotient.num * whole,
                    quotient.num <= quotient.den,
                    whole > 0,
            ;
            lemma_single_at_most(num as nat, quotient.den as nat, whole as nat);
            assert((2 * share.num + share.den) / (2 * share.den) <= whole) by (nonlinear_arith)
                requires
                    share.num <= whole * share.den,
                    share.den > 0,
            ;
        }
    }
    (2 * share.num + share.den) / (2 * share.den)
}

/// A quotient that is at most a small integer stays so in single precision.
proof fn lemma_single_at_most(num: nat, den: nat, most: nat)
    requires
        den > 0,
        num <= den * most,
        most < SINGLE_LIMIT,
    ensures
        nearest_single(num, den).num <= most * nearest_single(num, den).den,
{
    let limit = SINGLE_LIMIT as nat;
    let fine = refinement(num, den * limit);
    assert(num < den * limit) by (nonlinear_arith)
        requires
            num <= den * most,
            most < limit,
            den > 0,
    ;
    assert(spacing(num, den * limit) == 1);
    assert(num * fine <= (most * fine) * den) by (nonlinear_arith)
        requires
            num <= den * most,
    ;
    lemma_round_half_even_bounds(num * fine, den, 0, most * fine);
    assert(den * 1 == den);
}

/// Finds how many hundredths of `total` parts `done` of them are.
pub fn find_percentage(done: usize, total: usize) -> (percent: u128)
    ensures
        percent == percentage(done as nat, total as nat),
{
    if done == 0 || total == 0 {
        0
    } else {
        find_rounded_part(find_single_quotient(done, total), 100)
    }
}

/// Finds how much of a length `done` of `total` parts take up.
pub fn find_length_share(done: usize, total: usize, length: u32) -> (share: u32)
    requires
        0 < length <= 0x100,
    ensures
        share == length_share(done as nat, total as nat, length as nat),
        share <= length,
{
    if done == 0 || total == 0 {
        0
    } else {
        let quotient = find_single_quotient(done, total);
        let quotient = if quotient.num > quotient.den {
            Quotient { num: 1, den: 1 }
        } else {
            quotient
        };
        find_rounded_part(quotient, length as u128) as u32
    }
}

/// Finds the integer that double precision represents a number by.
pub fn find_nearest_double(number: u64) -> (nearest: u128)
    ensures
        nearest == nearest_double(number as nat),
        nearest <= 0x2_0000_0000_0000_0000,
{
    if (number as u128) < DOUBLE_LIMIT {
        return number as u128;
    }
    let unit: u128 = find_spacing(number as u128, DOUBLE_LIMIT);
    let rounded: u128 = round_to_even(number as u128, unit);
    proof {
        lemma_fundamental_div_mod(number as int, unit as int);
        let whole = number as int / unit as int;
        assert(rounded <= whole + 1);
        assert(rounded * unit <= number + unit) by (nonlinear_arith)
            requires
                rounded <= whole + 1,
                unit * whole <= number,
                unit >= 1,
        ;
    }
    rounded * unit
}

/// Whether a quotient is at most another.
pub open spec fn at_most(a: Ratio, b: Ratio) -> bool {
    a.num * b.den <= b.num * a.den
}

/// A number lies below `bound` spacings, and not below half as many if the spacing is not 1.
pub proof fn lemma_spacing_fits(num: nat, bound: nat)
    requires
        bound > 0,
    ensures
        spacing(num, bound) >= 1,
        num < bound * spacing(num, bound),
        spacing(num, bound) == 1 || bound * spacing(num, bound) <= 2 * num,
    decreases
            if num >= bound {
                num - bound + 1
            } else {
                0
            },
{
    if num >= bound {
        let above = spacing(num, 2 * bound);
        lemma_spacing_fits(num, 2 * bound);
        assert((2 * bound) * above == bound * (2 * above)) by (nonlinear_arith);
        if above == 1 {
            assert(bound * (2 * above) == 2 * bound) by (nonlinear_arith)
                requires
                    above == 1,
            ;
        }
    } else {
        assert(bound * 1 == bound);
    }
}

/// A number that is refined lies below `bound`, and not below half of it.
proof fn lemma_refinement_fits(num: nat, bound: nat)
    ensures
        refinement(num, bound) >= 1,
        refinement(num, bound) == 1 || num * refinement(num, bound) < bound,
        num == 0 || bound <= 2 * (num * refinement(num, bound)),
    decreases
            if 2 * num < bound {
                bound - 2 * num
            } else {
                0
            },
{
    if num > 0 && 2 * num < bound {
        let below = refinement(2 * num, bound);
        lemma_refinement_fits(2 * num, bound);
        assert((2 * num) * below == num * (2 * below)) by (nonlinear_arith);
        if below == 1 {
            assert(num * (2 * below) == 2 * num) by (nonlinear_arith)
                requires
                    below == 1,
            ;
        }
    } else {
        assert(num * 1 == num);
    }
}

/// The larger of two quotients has at least the spacing of the smaller.
proof fn lemma_spacing_grows(num: nat, bound: nat, larger_num: nat, larger_bound: nat)
    requires
        bound > 0,
        larger_bound > 0,
        num * larger_bound <= larger_num * bound,
    ensures
        spacing(larger_num, larger_bound) == spacing(num, bound) || spacing(
            larger_num,
            larger_bound,
        ) >= 2 * spacing(num, bound),
    decreases
            if larger_num >= larger_bound {
                larger_num - larger_bound + 1
            } else {
                0
            },
{
    if larger_num < larger_bound {
        assert(num < bound) by (nonlinear_arith)
            requires
                num * larger_bound <= larger_num * bound,
                larger_num < larger_bound,
                bound > 0,
        ;
    } else if num < bound {
        lemma_spacing_fits(larger_num, 2 * larger_bound);
    } else {
        assert(num * (2 * larger_bound) <= larger_num * (2 * bound)) by (nonlinear_arith)
            requires
                num * larger_bound <= larger_num * bound,
        ;
        lemma_spacing_grows(num, 2 * bound, larger_num, 2 * larger_bound);
    }
}

/// The smaller of two quotients has at least the refinement of the larger.
proof fn lemma_refinement_shrinks(num: nat, bound: nat, larger_num: nat, larger_bound: nat)
    requires
        num > 0,
        larger_num > 0,
        num * larger_bound <= larger_num * bound,
    ensures
        refinement(num, bound) == refinement(larger_num, larger_bound) || refinement(num, bound)
            >= 2 * refinement(larger_num, larger_bound),
    decreases
            if 2 * num < bound {
                bound - 2 * num
            } else {
                0
            },
{
    if 2 * num >= bound {
        assert(2 * larger_num >= larger_bound) by (nonlinear_arith)
            requires
                num * larger_bound <= larger_num * bound,
                2 * num >= bound,
                num > 0,
                larger_num > 0,
        ;
    } else if 2 * larger_num >= larger_bound {
        lemma_refinement_fits(2 * num, bound);
    } else {
        assert((2 * num) * larger_bound <= (2 * larger_num) * bound) by (nonlinear_arith)
            requires
                num * larger_bound <= larger_num * bound,
        ;
        lemma_refinement_shrinks(2 * num, bound, 2 * larger_num, larger_bound);
    }
}

/// The larger of two quotients has at least the whole part of the smaller.
proof fn lemma_whole_part_grows(num: nat, den: nat, larger_num: nat, larger_den: nat)
    requires
        den > 0,
        larger_den > 0,
        num * larger_den <= larger_num * den,
    ensures
        num / den <= larger_num / larger_den,
{
    let whole = num / den;
    let more = larger_num / larger_den;
    let rest = larger_num % larger_den;
    lemma_fundamental_div_mod(num as int, den as int);
    lemma_fundamental_div_mod(larger_num as int, larger_den as int);
    assert((den * whole) * larger_den <= num * larger_den) by (nonlinear_arith)
        requires
            den * whole <= num,
    ;
    assert(whole * larger_den <= larger_num) by (nonlinear_arith)
        requires
            (den * whole) * larger_den <= larger_num * den,
            den > 0,
    ;
    assert(whole <= more) by (nonlinear_arith)
        requires
            whole * larger_den <= larger_den * more + rest,
            0 <= rest < larger_den,
    ;
}

/// The larger of two quotients is not rounded below the smaller.
proof fn lemma_round_half_even_grows(num: nat, den: nat, larger_num: nat, larger_den: nat)
    requires
        den > 0,
        larger_den > 0,
        num * larger_den <= larger_num * den,
    ensures
        round_half_even(num, den) <= round_half_even(larger_num, larger_den),
{
    let whole = num / den;
    let rest = num % den;
    let larger_rest = larger_num % larger_den;
    lemma_fundamental_div_mod(num as int, den as int);
    lemma_fundamental_div_mod(larger_num as int, larger_den as int);
    lemma_whole_part_grows(num, den, larger_num, larger_den);
    if whole == larger_num / larger_den {
        assert(rest * larger_den <= larger_rest * den) by (nonlinear_arith)
            requires
                num * larger_den <= larger_num * den,
                num == den * whole + rest,
                larger_num == larger_den * whole + larger_rest,
        ;
        if 2 * rest > den {
            assert(2 * larger_rest > larger_den) by (nonlinear_arith)
                requires
                    rest * larger_den <= larger_rest * den,
                    2 * rest > den,
                    den > 0,
                    larger_den > 0,
            ;
        } else if 2 * rest == den {
            assert(2 * larger_rest >= larger_den) by (nonlinear_arith)
                requires
                    rest * larger_den <= larger_rest * den,
                    2 * rest == den,
                    den > 0,
                    larger_den > 0,
            ;
        }
    }
}

/// The larger of two quotients is not rounded below the smaller.
proof fn lemma_round_half_up_grows(num: nat, den: nat, larger_num: nat, larger_den: nat)
    requires
        den > 0,
        larger_den > 0,
        num * larger_den <= larger_num * den,
    ensures
        round_half_up(num, den) <= round_half_up(larger_num, larger_den),
{
    assert((2 * num + den) * (2 * larger_den) <= (2 * larger_num + larger_den) * (2 * den))
        by (nonlinear_arith)
        requires
            num * larger_den <= larger_num * den,
    ;
    lemma_whole_part_grows(
        2 * num + den,
        2 * den,
        2 * larger_num + larger_den,
        2 * larger_den,
    );
}

/// A single precision number has 24 significant bits: it is a multiple of its spacing between half
/// the limit and the limit.
pub proof fn lemma_single_bits(num: nat, den: nat)
    requires
        num > 0,
        den > 0,
    ensures
        ({
            let fine = refinement(num, den * SINGLE_LIMIT as nat);
            let coarse = spacing(num, den * SINGLE_LIMIT as nat);
            let rounded = round_half_even(num * fine, den * coarse);
            &&& fine >= 1
            &&& coarse >= 1
            &&& den * coarse > 0
            &&& fine == 1 || coarse == 1
            &&& 0x80_0000 * (den * coarse) <= num * fine
            &&& 0x80_0000 <= rounded <= SINGLE_LIMIT
            &&& nearest_single(num, den).num > 0
            &&& nearest_single(num, den).den > 0
        }),
{
    let limit = SINGLE_LIMIT as nat;
    let bound = den * limit;
    let fine = refinement(num, bound);
    let coarse = spacing(num, bound);
    let rounded = round_half_even(num * fine, den * coarse);
    assert(bound > 0) by (nonlinear_arith)
        requires
            bound == den * limit,
            den > 0,
            limit > 0,
    ;
    lemma_refinement_fits(num, bound);
    lemma_spacing_fits(num, bound);
    assert(bound * coarse == limit * (den * coarse)) by (nonlinear_arith)
        requires
            bound == den * limit,
    ;
    assert(den * coarse > 0) by (nonlinear_arith)
        requires
            den > 0,
            coarse >= 1,
    ;
    if num >= bound {
        assert(fine == 1 && coarse >= 2);
    } else {
        assert(coarse == 1);
    }
    assert(fine == 1 ==> num * fine == num) by (nonlinear_arith);
    assert(coarse == 1 ==> bound * coarse == bound) by (nonlinear_arith);
    lemma_round_half_even_bounds(num * fine, den * coarse, 0x80_0000, limit);
    assert(rounded * coarse > 0) by (nonlinear_arith)
        requires
            rounded > 0,
            coarse >= 1,
    ;
}

/// The larger of two quotients is not represented below the smaller.
proof fn lemma_single_grows(num: nat, den: nat, larger_num: nat, larger_den: nat)
    requires
        num > 0,
        den > 0,
        larger_num > 0,
        larger_den > 0,
        num * larger_den <= larger_num * den,
    ensures
        at_most(nearest_single(num, den), nearest_single(larger_num, larger_den)),
{
    let limit = SINGLE_LIMIT as nat;
    let bound = den * limit;
    let larger_bound = larger_den * limit;
    let fine = refinement(num, bound);
    let coarse = spacing(num, bound);
    let larger_fine = refinement(larger_num, larger_bound);
    let larger_coarse = spacing(larger_num, larger_bound);
    let rounded = round_half_even(num * fine, den * coarse);
    let larger_rounded = round_half_even(larger_num * larger_fine, larger_den * larger_coarse);
    lemma_single_bits(num, den);
    lemma_single_bits(larger_num, larger_den);
    assert(bound > 0 && larger_bound > 0) by (nonlinear_arith)
        requires
            bound == den * limit,
            larger_bound == larger_den * limit,
            den > 0,
            larger_den > 0,
            limit > 0,
    ;
    assert(num * larger_bound <= larger_num * bound) by (nonlinear_arith)
        requires
            num * larger_den <= larger_num * den,
            bound == den * limit,
            larger_bound == larger_den * limit,
    ;
    lemma_refinement_shrinks(num, bound, larger_num, larger_bound);
    lemma_spacing_grows(num, bound, larger_num, larger_bound);
    if fine == larger_fine && coarse == larger_coarse {
        assert((num * fine) * (larger_den * coarse) == (num * larger_den) * (fine * coarse))
            by (nonlinear_arith);
        assert((larger_num * fine) * (den * coarse) == (larger_num * den) * (fine * coarse))
            by (nonlinear_arith);
        assert((num * larger_den) * (fine * coarse) <= (larger_num * den) * (fine * coarse))
            by (nonlinear_arith)
            requires
                num * larger_den <= larger_num * den,
        ;
        lemma_round_half_even_grows(
            num * fine,
            den * coarse,
            larger_num * fine,
            larger_den * coarse,
        );
        assert((rounded * coarse) * fine <= (larger_rounded * coarse) * fine)
            by (nonlinear_arith)
            requires
                rounded <= larger_rounded,
        ;
    } else {
        assert(2 * (coarse * larger_fine) <= larger_coarse * fine) by (nonlinear_arith)
            requires
                coarse >= 1,
                larger_fine >= 1,
                fine == larger_fine || fine >= 2 * larger_fine,
                larger_coarse == coarse || larger_coarse >= 2 * coarse,
                fine >= 2 * larger_fine || larger_coarse >= 2 * coarse,
        ;
        let small = coarse * larger_fine;
        let large = larger_coarse * fine;
        assert((rounded * coarse) * larger_fine == rounded * small) by (nonlinear_arith)
            requires
                small == coarse * larger_fine,
        ;
        assert((larger_rounded * larger_coarse) * fine == larger_rounded * large)
            by (nonlinear_arith)
            requires
                large == larger_coarse * fine,
        ;
        assert(rounded * small <= larger_rounded * large) by (nonlinear_arith)
            requires
                rounded <= 0x100_0000,
                larger_rounded >= 0x80_0000,
                2 * small <= large,
        ;
    }
}

/// Integers up to the limit are represented exactly.
pub proof fn lemma_small_integer_is_exact(number: nat)
    requires
        0 < number <= SINGLE_LIMIT,
    ensures
        nearest_single(number, 1).num == number * nearest_single(number, 1).den,
        nearest_single(number, 1).den > 0,
{
    let limit = SINGLE_LIMIT as nat;
    let fine = refinement(number, limit);
    let coarse = spacing(number, limit);
    let single = nearest_single(number, 1);
    lemma_refinement_fits(number, limit);
    assert(1 * limit == limit);
    assert(1 * coarse == coarse);
    assert(single.den == fine);
    assert(single.num == round_half_even(number * fine, coarse) * coarse);
    if number < limit {
        assert(spacing(number, limit) == 1);
        let amount = number * fine;
        lemma_round_integer(amount);
        assert(round_half_even(amount, coarse) * coarse == amount) by (nonlinear_arith)
            requires
                round_half_even(amount, coarse) == amount,
                coarse == 1,
        ;
    } else {
        reveal_with_fuel(spacing, 2);
        assert(spacing(number, limit) == 2);
        assert(fine == 1);
        assert(number * fine == limit);
        assert(round_half_even(limit, 2) == 0x80_0000);
        assert(single.num == 0x80_0000 * 2);
    }
}

/// The two parts of a quotient of integers in single precision.
pub proof fn lemma_single_quotient_bits(done: nat, total: nat)
    requires
        done > 0,
        total > 0,
    ensures
        ({
            let a = nearest_single(done, 1);
            let b = nearest_single(total, 1);
            &&& a.num > 0
            &&& a.den > 0
            &&& b.num > 0
            &&& b.den > 0
            &&& a.num * b.den > 0
            &&& a.den * b.num > 0
        }),
        single_quotient(done, total).num > 0,
        single_quotient(done, total).den > 0,
{
    let a = nearest_single(done, 1);
    let b = nearest_single(total, 1);
    lemma_single_bits(done, 1);
    lemma_single_bits(total, 1);
    assert(a.num * b.den > 0 && a.den * b.num > 0) by (nonlinear_arith)
        requires
            a.num > 0,
            a.den > 0,
            b.num > 0,
            b.den > 0,
    ;
    lemma_single_bits(a.num * b.den, a.den * b.num);
}

/// A part is at most the whole in single precision too.
pub proof fn lemma_single_quotient_at_most_one(done: nat, total: nat)
    requires
        0 < done <= total,
    ensures
        single_quotient(done, total).num <= single_quotient(done, total).den,
        single_quotient(done, total).den > 0,
{
    let a = nearest_single(done, 1);
    let b = nearest_single(total, 1);
    let num = a.num * b.den;
    let den = a.den * b.num;
    lemma_single_quotient_bits(done, total);
    lemma_single_grows(done, 1, total, 1);
    assert(b.num * a.den == a.den * b.num) by (nonlinear_arith);
    assert(den * 1 == den);
    lemma_single_at_most(num, den, 1);
    assert(1 * nearest_single(num, den).den == nearest_single(num, den).den);
}

/// What is at least the whole is so in single precision too.
proof fn lemma_single_quotient_at_least_one(done: nat, total: nat)
    requires
        0 < total <= done,
    ensures
        single_quotient(done, total).num >= single_quotient(done, total).den,
        single_quotient(done, total).den > 0,
{
    let a = nearest_single(done, 1);
    let b = nearest_single(total, 1);
    let one = nearest_single(1, 1);
    let quotient = single_quotient(done, total);
    lemma_single_quotient_bits(done, total);
    lemma_single_grows(total, 1, done, 1);
    assert(b.num * a.den == a.den * b.num) by (nonlinear_arith);
    lemma_small_integer_is_exact(1);
    lemma_single_grows(1, 1, a.num * b.den, a.den * b.num);
    assert(one.num == one.den);
    assert(quotient.num >= quotient.den) by (nonlinear_arith)
        requires
            one.num * quotient.den <= quotient.num * one.den,
            one.num == one.den,
            one.den > 0,
    ;
}

/// The part of `whole` that a quotient of at most 1 stands for is at most `whole`.
proof fn lemma_rounded_part_at_most(ratio: Ratio, whole: nat)
    requires
        ratio.num <= ratio.den,
        ratio.den > 0,
        whole < SINGLE_LIMIT,
    ensures
        rounded_part(ratio, whole) <= whole,
{
    let num = ratio.num * whole;
    let den = ratio.den;
    let part = nearest_single(num, den);
    assert(num <= den * whole) by (nonlinear_arith)
        requires
            num == ratio.num * whole,
            ratio.num <= den,
    ;
    lemma_single_at_most(num, den, whole);
    lemma_refinement_fits(num, den * SINGLE_LIMIT as nat);
    assert((2 * part.num + part.den) / (2 * part.den) <= whole) by (nonlinear_arith)
        requires
            part.num <= whole * part.den,
            part.den > 0,
    ;
}

/// The larger of two quotients stands for no smaller part.
proof fn lemma_rounded_part_grows(ratio: Ratio, larger: Ratio, whole: nat)
    requires
        ratio.num > 0,
        ratio.den > 0,
        larger.num > 0,
        larger.den > 0,
        at_most(ratio, larger),
        whole > 0,
    ensures
        rounded_part(ratio, whole) <= rounded_part(larger, whole),
{
    let num = ratio.num * whole;
    let larger_num = larger.num * whole;
    assert(num > 0 && larger_num > 0) by (nonlinear_arith)
        requires
            num == ratio.num * whole,
            larger_num == larger.num * whole,
            ratio.num > 0,
            larger.num > 0,
            whole > 0,
    ;
    assert(num * larger.den <= larger_num * ratio.den) by (nonlinear_arith)
        requires
            num == ratio.num * whole,
            larger_num == larger.num * whole,
            ratio.num * larger.den <= larger.num * ratio.den,
    ;
    let part = nearest_single(num, ratio.den);
    let larger_part = nearest_single(larger_num, larger.den);
    lemma_single_bits(num, ratio.den);
    lemma_single_bits(larger_num, larger.den);
    lemma_single_grows(num, ratio.den, larger_num, larger.den);
    lemma_round_half_up_grows(part.num, part.den, larger_part.num, larger_part.den);
}

/// A quotient of 1 stands for the whole.
proof fn lemma_rounded_part_of_one(ratio: Ratio, whole: nat)
    requires
        ratio.num == ratio.den,
        ratio.den > 0,
        0 < whole < SINGLE_LIMIT,
    ensures
        rounded_part(ratio, whole) == whole,
{
    let num = ratio.num * whole;
    let exact = nearest_single(whole, 1);
    assert(num > 0) by (nonlinear_arith)
        requires
            num == ratio.num * whole,
            ratio.num > 0,
            whole > 0,
    ;
    assert(whole * ratio.den <= num * 1) by (nonlinear_arith)
        requires
            num == ratio.num * whole,
            ratio.num == ratio.den,
    ;
    lemma_small_integer_is_exact(whole);
    lemma_single_bits(num, ratio.den);
    lemma_single_grows(whole, 1, num, ratio.den);
    let part = nearest_single(num, ratio.den);
    lemma_round_half_up_grows(exact.num, exact.den, part.num, part.den);
    assert((2 * exact.num + exact.den) / (2 * exact.den) >= whole) by (nonlinear_arith)
        requires
            exact.num == whole * exact.den,
            exact.den > 0,
    ;
    lemma_rounded_part_at_most(ratio, whole);
}

/// A part of a whole is at most a hundred hundredths of it.
pub proof fn law_percentage_at_most_hundred(done: nat, total: nat)
    requires
        done <= total,
    ensures
        percentage(done, total) <= 100,
{
    if done > 0 {
        lemma_single_quotient_at_most_one(done, total);
        lemma_rounded_part_at_most(single_quotient(done, total), 100);
    }
}

/// No part takes up more than the length that the whole takes up.
pub proof fn law_length_share_at_most_length(done: nat, total: nat, length: nat)
    requires
        length < SINGLE_LIMIT,
    ensures
        length_share(done, total, length) <= length,
{
    if done > 0 && total > 0 {
        lemma_single_quotient_bits(done, total);
        lemma_rounded_part_at_most(at_most_one(single_quotient(done, total)), length);
    }
}

/// All of a whole, or more, takes up the whole length.
pub proof fn law_whole_takes_up_length(done: nat, total: nat, length: nat)
    requires
        0 < total <= done,
        0 < length < SINGLE_LIMIT,
    ensures
        length_share(done, total, length) == length,
{
    lemma_single_quotient_at_least_one(done, total);
    lemma_rounded_part_of_one(at_most_one(single_quotient(done, total)), length);
}

/// The larger of two quotients in single precision takes up no smaller length.
pub proof fn law_length_share_grows(
    done: nat,
    total: nat,
    larger_done: nat,
    larger_total: nat,
    length: nat,
)
    requires
        total > 0,
        larger_total > 0,
        at_most(single_quotient(done, total), single_quotient(larger_done, larger_total)),
        length > 0,
    ensures
        length_share(done, total, length) <= length_share(larger_done, larger_total, length),
{
    if done > 0 {
        let quotient = single_quotient(done, total);
        let larger = single_quotient(larger_done, larger_total);
        lemma_single_quotient_bits(done, total);
        if larger_done == 0 {
            law_more_than_nothing(done, total, larger_total);
        } else {
            lemma_single_quotient_bits(larger_done, larger_total);
            let shown = at_most_one(quotient);
            let larger_shown = at_most_one(larger);
            if larger.num <= larger.den && quotient.num > quotient.den {
                assert(false) by (nonlinear_arith)
                    requires
                        quotient.num * larger.den <= larger.num * quotient.den,
                        larger.num <= larger.den,
                        quotient.num > quotient.den,
                        larger.den > 0,
                ;
            }
            assert(1 * larger_shown.den == larger_shown.den);
            assert(1 * shown.den == shown.den);
            assert(shown.num * 1 == shown.num);
            lemma_rounded_part_grows(shown, larger_shown, length);
        }
    }
}

/// Nothing of a whole is zero in single precision.
pub proof fn lemma_no_part_is_zero(total: nat)
    requires
        total > 0,
    ensures
        single_quotient(0, total).num == 0,
        single_quotient(0, total).den > 0,
{
    let limit = SINGLE_LIMIT as nat;
    let a = nearest_single(0, 1);
    let b = nearest_single(total, 1);
    lemma_single_bits(total, 1);
    assert(a.num == 0 && a.den == 1) by {
        assert(0nat / 1 == 0);
    }
    let den = a.den * b.num;
    assert(den == b.num);
    assert(a.num * b.den == 0) by (nonlinear_arith)
        requires
            a.num == 0,
    ;
    assert(den * limit > 0) by (nonlinear_arith)
        requires
            den > 0,
            limit > 0,
    ;
    assert(spacing(0, den * limit) == 1);
    assert(den * 1 == den);
    assert(0nat / den == 0) by (nonlinear_arith)
        requires
            den > 0,
    ;
    assert(0nat % den == 0) by (nonlinear_arith)
        requires
            den > 0,
    ;
    assert(0 * 1 == 0);
}

/// Any part of a whole is more than nothing in single precision too.
pub proof fn law_more_than_nothing(done: nat, total: nat, other_total: nat)
    requires
        done > 0,
        total > 0,
        other_total > 0,
    ensures
        !at_most(single_quotient(done, total), single_quotient(0, other_total)),
{
    let quotient = single_quotient(done, total);
    let nothing = single_quotient(0, other_total);
    lemma_single_quotient_bits(done, total);
    lemma_no_part_is_zero(other_total);
    assert(quotient.num * nothing.den > 0) by (nonlinear_arith)
        requires
            quotient.num > 0,
            nothing.den > 0,
    ;
    assert(0 * quotient.den == 0);
}

/// The larger of two shares is no smaller in single precision, if the wholes are the same, or are
/// represented exactly.
pub proof fn law_single_quotient_grows(
    done: nat,
    total: nat,
    larger_done: nat,
    larger_total: nat,
)
    requires
        0 < total,
        0 < larger_total,
        done <= total,
        larger_done <= larger_total,
        done * larger_total <= larger_done * total,
        total == larger_total || (total <= SINGLE_LIMIT && larger_total <= SINGLE_LIMIT),
    ensures
        at_most(single_quotient(done, total), single_quotient(larger_done, larger_total)),
{
    if done == 0 {
        lemma_no_part_is_zero(total);
        assert(0 * single_quotient(larger_done, larger_total).den == 0);
    } else {
        assert(larger_done > 0) by (nonlinear_arith)
            requires
                done * larger_total <= larger_done * total,
                done > 0,
                larger_total > 0,
        ;
        let a = nearest_single(done, 1);
        let b = nearest_single(total, 1);
        let c = nearest_single(larger_done, 1);
        let d = nearest_single(larger_total, 1);
        lemma_single_quotient_bits(done, total);
        lemma_single_quotient_bits(larger_done, larger_total);
        if total == larger_total {
            assert(done <= larger_done) by (nonlinear_arith)
                requires
                    done * total <= larger_done * total,
                    total > 0,
            ;
            lemma_single_grows(done, 1, larger_done, 1);
            assert((a.num * b.den) * (c.den * b.num) == (a.num * c.den) * (b.den * b.num))
                by (nonlinear_arith);
            assert((c.num * b.den) * (a.den * b.num) == (c.num * a.den) * (b.den * b.num))
                by (nonlinear_arith);
            assert((a.num * c.den) * (b.den * b.num) <= (c.num * a.den) * (b.den * b.num))
                by (nonlinear_arith)
                requires
                    a.num * c.den <= c.num * a.den,
            ;
        } else {
            lemma_small_integer_is_exact(done);
            lemma_small_integer_is_exact(total);
            lemma_small_integer_is_exact(larger_done);
            lemma_small_integer_is_exact(larger_total);
            let common = (a.den * b.den) * (c.den * d.den);
            assert((a.num * b.den) * (c.den * d.num) == (done * larger_total) * common)
                by (nonlinear_arith)
                requires
                    a.num == done * a.den,
                    d.num == larger_total * d.den,
                    common == (a.den * b.den) * (c.den * d.den),
            ;
            assert((c.num * d.den) * (a.den * b.num) == (larger_done * total) * common)
                by (nonlinear_arith)
                requires
                    c.num == larger_done * c.den,
                    b.num == total * b.den,
                    common == (a.den * b.den) * (c.den * d.den),
            ;
            assert((done * larger_total) * common <= (larger_done * total) * common)
                by (nonlinear_arith)
                requires
                    done * larger_total <= larger_done * total,
            ;
        }
        lemma_single_grows(a.num * b.den, a.den * b.num, c.num * d.den, c.den * d.num);
    }
}

} // verus!
