//! A fact's coordinates packed into one integer, so that a hash set of
//! integers can tell whether coordinates were seen before.
use vstd::prelude::*;

verus! {

/// Column position, year and identifier, each in its own bit range.
pub open spec fn fact_key(column: int, year: int, id: int) -> int {
    column * 0x1_0000_0000_0000_0000 + (year + 0x8000_0000) * 0x1_0000_0000 + (id + 0x8000_0000)
}

/// Distinct coordinates give distinct keys.
pub proof fn lemma_fact_key_injective(c1: int, y1: i32, i1: i32, c2: int, y2: i32, i2: i32)
    requires
        0 <= c1 <= usize::MAX,
        0 <= c2 <= usize::MAX,
        fact_key(c1, y1 as int, i1 as int) == fact_key(c2, y2 as int, i2 as int),
    ensures
        c1 == c2,
        y1 == y2,
        i1 == i2,
{
    let a1 = y1 + 0x8000_0000int;
    let a2 = y2 + 0x8000_0000int;
    let b1 = i1 + 0x8000_0000int;
    let b2 = i2 + 0x8000_0000int;
    let low1 = a1 * 0x1_0000_0000 + b1;
    let low2 = a2 * 0x1_0000_0000 + b2;
    assert(0 <= low1 < 0x1_0000_0000_0000_0000) by (nonlinear_arith)
        requires 0 <= a1 < 0x1_0000_0000, 0 <= b1 < 0x1_0000_0000, low1 == a1 * 0x1_0000_0000 + b1;
    assert(0 <= low2 < 0x1_0000_0000_0000_0000) by (nonlinear_arith)
        requires 0 <= a2 < 0x1_0000_0000, 0 <= b2 < 0x1_0000_0000, low2 == a2 * 0x1_0000_0000 + b2;
    assert(c1 == c2) by (nonlinear_arith)
        requires
            c1 * 0x1_0000_0000_0000_0000 + low1 == c2 * 0x1_0000_0000_0000_0000 + low2,
            0 <= low1 < 0x1_0000_0000_0000_0000,
            0 <= low2 < 0x1_0000_0000_0000_0000,
    ;
    assert(a1 == a2) by (nonlinear_arith)
        requires
            a1 * 0x1_0000_0000 + b1 == a2 * 0x1_0000_0000 + b2,
            0 <= b1 < 0x1_0000_0000,
            0 <= b2 < 0x1_0000_0000,
    ;
}

/// The key of a fact read from column `column`.
pub(crate) fn fact_key_exec(column: usize, year: i32, id: i32) -> (r: u128)
    ensures
        r as int == fact_key(column as int, year as int, id as int),
{
    let a = (year as i64 + 0x8000_0000) as u128;
    let b = (id as i64 + 0x8000_0000) as u128;
    assert(a * 0x1_0000_0000 + b < 0x1_0000_0000_0000_0000) by (nonlinear_arith)
        requires a < 0x1_0000_0000, b < 0x1_0000_0000;
    assert(column as u128 * 0x1_0000_0000_0000_0000 + 0x1_0000_0000_0000_0000 <= u128::MAX + 1) by (nonlinear_arith)
        requires column < 0x1_0000_0000_0000_0000;
    (column as u128) * 0x1_0000_0000_0000_0000 + (a * 0x1_0000_0000 + b)
}

} // verus!
