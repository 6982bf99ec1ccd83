use vstd::prelude::*;

verus! {

/// The number of modes the debug uniform cycles through (0 is off).
pub const UNIFORM_MODES: u32 = 7;

/// The number of modes the debug view cycles through (0 is off).
pub const DEBUG_MODES: u32 = 8;

/// The debug uniform's mode after a step: modes 0 to 5 advance by one, anything else wraps to 0.
pub fn next_uniform_mode(mode: u32) -> (r: u32)
    ensures
        r == if mode < UNIFORM_MODES - 1 { mode + 1 } else { 0 },
{
    match mode {
        0 => 1,
        1 => 2,
        2 => 3,
        3 => 4,
        4 => 5,
        5 => 6,
        _ => 0,
    }
}

/// The debug view's mode after a step: the next mode, wrapping to 0 past mode 7.
pub fn next_debug_mode(mode: u32) -> (r: u32)
    requires
        mode < u32::MAX,
    ensures
        r == if mode + 1 > DEBUG_MODES - 1 { 0 } else { mode + 1 },
{
    let mut next = if mode == 0 {
        1
    } else {
        let current_mode = mode;
        current_mode + 1
    };
    if next > 7 {
        next = 0;
    }
    next
}

/// The `n`-fold step of a mode function.
pub open spec fn iterate(f: spec_fn(int) -> int, n: nat, x: int) -> int
    decreases n,
{
    if n == 0 {
        x
    } else {
        f(iterate(f, (n - 1) as nat, x))
    }
}

/// Stepping the debug uniform's mode stays among its modes, and seven steps from any of them
/// come back to it.
pub proof fn law_uniform_mode_cycle(mode: int)
    requires
        0 <= mode < UNIFORM_MODES,
    ensures
        ({
            let f = |m: int| if m < UNIFORM_MODES - 1 { m + 1 } else { 0 };
            &&& 0 <= f(mode) < UNIFORM_MODES
            &&& iterate(f, UNIFORM_MODES as nat, mode) == mode
        }),
{
    let f = |m: int| if m < UNIFORM_MODES - 1 { m + 1 } else { 0 };
    reveal_with_fuel(iterate, 8);
}

/// Stepping the debug view's mode stays among its modes, and eight steps from any of them come
/// back to it.
pub proof fn law_debug_mode_cycle(mode: int)
    requires
        0 <= mode < DEBUG_MODES,
    ensures
        ({
            let f = |m: int| if m + 1 > DEBUG_MODES - 1 { 0 } else { m + 1 };
            &&& 0 <= f(mode) < DEBUG_MODES
            &&& iterate(f, DEBUG_MODES as nat, mode) == mode
        }),
{
    reveal_with_fuel(iterate, 9);
}

} // verus!
