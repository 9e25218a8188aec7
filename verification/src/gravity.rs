//! Time in fractions of a row, and the speed at which pieces fall.
//!
//! The engine counts in whole units so that every machine steps alike. A
//! row is `ROW_UNITS` units. A speed is a number of units per tick, and an
//! accumulator that has reached `ROW_UNITS` is worth one step.

use vstd::prelude::*;

verus! {

/// Units in one row. A multiple of 60, so that the slowest fall, a row in
/// 60 ticks, is a whole number of units.
pub const ROW_UNITS: u64 = 60_000_000;

/// The fastest fall: 40 rows, the height of the whole buffer, in one tick.
pub const MAX_GRAVITY: u64 = 2_400_000_000;

/// First level at which the fall is `MAX_GRAVITY`.
pub const TOP_LEVEL: u32 = 20;

/// `base` to the power of `exp`.
pub open spec fn power(base: int, exp: nat) -> int
    decreases exp,
{
    if exp == 0 {
        1
    } else {
        base * power(base, (exp - 1) as nat)
    }
}

/// Units per tick that a piece falls at `level`.
///
/// Below `TOP_LEVEL` this is the curve `1 / (60 * (0.8 - 0.007 * level) ^
/// level)` rows per tick, in units and rounded down. With 0.8 - 0.007 *
/// level written as (800 - 7 * level) / 1000 that is `ROW_UNITS * 1000 ^
/// level / (60 * (800 - 7 * level) ^ level)`. From `TOP_LEVEL` on the fall is
/// held at `MAX_GRAVITY`, which the curve has passed by then
/// (`lemma_curve_passes_top`): a piece that falls 40 rows in a tick reaches
/// the ground in every tick, and no faster fall can show.
pub open spec fn gravity_curve(level: nat) -> nat {
    if level < TOP_LEVEL {
        ((ROW_UNITS * power(1000, level)) / (60 * power(800 - 7 * level, level))) as nat
    } else {
        MAX_GRAVITY as nat
    }
}

proof fn lemma_floor_of_quotient(n: int, d: int, q: int)
    by (nonlinear_arith)
    requires
        d > 0,
        q * d <= n < (q + 1) * d,
    ensures
        n / d == q,
{
}

/// The values of the curve below `TOP_LEVEL`.
proof fn lemma_curve_table()
    ensures
        gravity_curve(0) == 1_000_000,
        gravity_curve(1) == 1_261_034,
        gravity_curve(2) == 1_618_657,
        gravity_curve(3) == 2_115_376,
        gravity_curve(4) == 2_815_339,
        gravity_curve(5) == 3_816_742,
        gravity_curve(6) == 5_272_113,
        gravity_curve(7) == 7_421_991,
        gravity_curve(8) == 10_651_640,
        gravity_curve(9) == 15_588_079,
        gravity_curve(10) == 23_268_661,
        gravity_curve(11) == 35_438_777,
        gravity_curve(12) == 55_086_316,
        gravity_curve(13) == 87_417_612,
        gravity_curve(14) == 141_670_827,
        gravity_curve(15) == 234_545_946,
        gravity_curve(16) == 396_812_174,
        gravity_curve(17) == 686_276_452,
        gravity_curve(18) == 1_213_729_373,
        gravity_curve(19) == 2_195_882_793,
{
    reveal_with_fuel(power, 20);
    lemma_floor_of_quotient(ROW_UNITS * power(1000, 0), 60 * power(800, 0), 1_000_000);
    lemma_floor_of_quotient(ROW_UNITS * power(1000, 1), 60 * power(793, 1), 1_261_034);
    lemma_floor_of_quotient(ROW_UNITS * power(1000, 2), 60 * power(786, 2), 1_618_657);
    lemma_floor_of_quotient(ROW_UNITS * power(1000, 3), 60 * power(779, 3), 2_115_376);
    lemma_floor_of_quotient(ROW_UNITS * power(1000, 4), 60 * power(772, 4), 2_815_339);
    lemma_floor_of_quotient(ROW_UNITS * power(1000, 5), 60 * power(765, 5), 3_816_742);
    lemma_floor_of_quotient(ROW_UNITS * power(1000, 6), 60 * power(758, 6), 5_272_113);
    lemma_floor_of_quotient(ROW_UNITS * power(1000, 7), 60 * power(751, 7), 7_421_991);
    lemma_floor_of_quotient(ROW_UNITS * power(1000, 8), 60 * power(744, 8), 10_651_640);
    lemma_floor_of_quotient(ROW_UNITS * power(1000, 9), 60 * power(737, 9), 15_588_079);
    lemma_floor_of_quotient(ROW_UNITS * power(1000, 10), 60 * power(730, 10), 23_268_661);
    lemma_floor_of_quotient(ROW_UNITS * power(1000, 11), 60 * power(723, 11), 35_438_777);
    lemma_floor_of_quotient(ROW_UNITS * power(1000, 12), 60 * power(716, 12), 55_086_316);
    lemma_floor_of_quotient(ROW_UNITS * power(1000, 13), 60 * power(709, 13), 87_417_612);
    lemma_floor_of_quotient(ROW_UNITS * power(1000, 14), 60 * power(702, 14), 141_670_827);
    lemma_floor_of_quotient(ROW_UNITS * power(1000, 15), 60 * power(695, 15), 234_545_946);
    lemma_floor_of_quotient(ROW_UNITS * power(1000, 16), 60 * power(688, 16), 396_812_174);
    lemma_floor_of_quotient(ROW_UNITS * power(1000, 17), 60 * power(681, 17), 686_276_452);
    lemma_floor_of_quotient(ROW_UNITS * power(1000, 18), 60 * power(674, 18), 1_213_729_373);
    lemma_floor_of_quotient(ROW_UNITS * power(1000, 19), 60 * power(667, 19), 2_195_882_793);
}

proof fn lemma_product_grows(a: int, b: int, x: int, y: int)
    by (nonlinear_arith)
    requires
        0 <= a <= b,
        0 <= x <= y,
    ensures
        0 <= a * x <= b * y,
{
}

/// A power grows with its base, for bases that are not negative.
proof fn lemma_power_grows(a: int, b: int, exp: nat)
    requires
        0 <= a <= b,
    ensures
        0 <= power(a, exp) <= power(b, exp),
    decreases exp,
{
    if exp > 0 {
        lemma_power_grows(a, b, (exp - 1) as nat);
        lemma_product_grows(a, b, power(a, (exp - 1) as nat), power(b, (exp - 1) as nat));
    }
}

/// 1000 ^ exp is at least 2400 * 660 ^ exp from exponent 20 on.
proof fn lemma_thousand_outgrows(exp: nat)
    requires
        exp >= 20,
    ensures
        power(1000, exp) >= 2400 * power(660, exp),
        power(660, exp) >= 0,
    decreases exp,
{
    if exp == 20 {
        reveal_with_fuel(power, 21);
    } else {
        lemma_thousand_outgrows((exp - 1) as nat);
    }
}

/// Where the fall is held at `MAX_GRAVITY`, the curve has passed it. This
/// holds up to level 114, the last level at which 0.8 - 0.007 * level is
/// positive and the curve has a value.
pub proof fn lemma_curve_passes_top(level: nat)
    requires
        TOP_LEVEL <= level <= 114,
    ensures
        800 - 7 * level > 0,
        ROW_UNITS * power(1000, level) >= MAX_GRAVITY * (60 * power(800 - 7 * level, level)),
{
    lemma_thousand_outgrows(level);
    lemma_power_grows(800 - 7 * level, 660, level);
}

/// The fall is never slower than a row in 60 ticks and never faster than
/// `MAX_GRAVITY`, and it does not slow down from one level to the next.
pub proof fn lemma_curve_is_bounded(level: nat)
    ensures
        ROW_UNITS / 60 <= gravity_curve(level) <= MAX_GRAVITY,
        gravity_curve(level) <= gravity_curve(level + 1),
{
    lemma_curve_table();
    if level < TOP_LEVEL {
        assert(level == 0 || level == 1 || level == 2 || level == 3 || level == 4 || level == 5
            || level == 6 || level == 7 || level == 8 || level == 9 || level == 10 || level == 11
            || level == 12 || level == 13 || level == 14 || level == 15 || level == 16 || level
            == 17 || level == 18 || level == 19);
    }
}

/// The fall at `level`, from a table of the curve's values.
pub fn gravity_for_level(level: u32) -> (g: u64)
    ensures
        g == gravity_curve(level as nat),
        ROW_UNITS / 60 <= g <= MAX_GRAVITY,
{
    proof {
        lemma_curve_table();
    }
    match level {
        0 => 1_000_000,
        1 => 1_261_034,
        2 => 1_618_657,
        3 => 2_115_376,
        4 => 2_815_339,
        5 => 3_816_742,
        6 => 5_272_113,
        7 => 7_421_991,
        8 => 10_651_640,
        9 => 15_588_079,
        10 => 23_268_661,
        11 => 35_438_777,
        12 => 55_086_316,
        13 => 87_417_612,
        14 => 141_670_827,
        15 => 234_545_946,
        16 => 396_812_174,
        17 => 686_276_452,
        18 => 1_213_729_373,
        19 => 2_195_882_793,
        _ => MAX_GRAVITY,
    }
}

} // verus!
