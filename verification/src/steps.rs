//! Moving a selection through a list by a signed step, stopping at either end.
use vstd::prelude::*;

verus! {

/// `x` brought into `lo..=hi`.
pub open spec fn clamp(x: int, lo: int, hi: int) -> int {
    if x < lo {
        lo
    } else if x > hi {
        hi
    } else {
        x
    }
}

/// Where a selection at `selected` lands after a step of `delta` in a list of `len` rows:
/// the step saturates at the ends of `i64`, then stops at the first and last row; an empty list
/// selects row 0.
pub open spec fn moved(selected: usize, delta: i64, len: nat) -> nat {
    if len == 0 {
        0
    } else {
        clamp(clamp((selected as i64) + delta, i64::MIN as int, i64::MAX as int), 0, len - 1) as nat
    }
}

/// `a + b`, held at the ends of `i64`.
pub fn saturating_add(a: i64, b: i64) -> (r: i64)
    ensures
        r == clamp(a + b, i64::MIN as int, i64::MAX as int),
{
    if b > 0 && a > i64::MAX - b {
        i64::MAX
    } else if b < 0 && a < i64::MIN - b {
        i64::MIN
    } else {
        a + b
    }
}

/// Where a selection at `selected` lands after a step of `delta` in a list of `len` rows.
pub fn move_selection(selected: usize, delta: i64, len: usize) -> (r: usize)
    ensures
        r == moved(selected, delta, len as nat),
        len > 0 ==> r < len,
        len == 0 ==> r == 0,
{
    if len == 0 {
        return 0;
    }
    let target = saturating_add(selected as i64, delta);
    if target < 0 {
        0
    } else if target as u64 >= len as u64 {
        len - 1
    } else {
        target as usize
    }
}

/// A step never leaves the list, a zero step keeps an in-range selection, and no step is
/// needed past the ends: moving by the list's length in either direction reaches an end.
pub proof fn law_moves_stay_in_the_list(selected: usize, delta: i64, len: nat)
    requires
        len > 0,
        selected < len,
        len <= i64::MAX,
    ensures
        moved(selected, delta, len) < len,
        moved(selected, 0, len) == selected,
        delta >= len ==> moved(selected, delta, len) == len - 1,
        delta <= -(len as int) ==> moved(selected, delta, len) == 0,
{
}

} // verus!
