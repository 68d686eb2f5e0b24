//! Load of the graphics processor from the time it spent in each of its
//! power states.

use vstd::prelude::*;
use vstd::string::*;

verus! {

/// Whether a power state, by its name, is one in which the processor does
/// no work.
pub open spec fn is_idle_state(name: Seq<char>) -> bool {
    name == "OFF"@ || name == "IDLE"@ || name == "DOWN"@
}

/// Time spent in the first `n` states that are idle, if `idle` is set, or
/// that are not, if it is not.
pub open spec fn residency_sum(states: Seq<(Seq<char>, i64)>, n: nat, idle: bool) -> int
    decreases n,
{
    if n == 0 {
        0
    } else {
        residency_sum(states, (n - 1) as nat, idle) + (if is_idle_state(states[n - 1].0) == idle {
            states[n - 1].1 as int
        } else {
            0
        })
    }
}

/// A value limited to what an `i64` holds.
pub open spec fn clamped(v: int) -> int {
    if v < i64::MIN {
        i64::MIN as int
    } else if v > i64::MAX {
        i64::MAX as int
    } else {
        v
    }
}

/// The share of the time that was spent in states that are not idle, in
/// thousandths of a percent, rounded down; nothing if no time was spent at
/// all.
pub open spec fn spec_residency_usage(states: Seq<(Seq<char>, i64)>) -> int {
    let active = residency_sum(states, states.len(), false);
    let total = active + residency_sum(states, states.len(), true);
    if total > 0 {
        clamped(active * 100_000 / total)
    } else {
        0
    }
}

/// The states as mathematical values.
pub open spec fn states_view(states: Seq<(String, i64)>) -> Seq<(Seq<char>, i64)> {
    states.map_values(|s: (String, i64)| (s.0@, s.1))
}

fn idle_state(name: &String) -> (r: bool)
    ensures
        r == is_idle_state(name@),
{
    let off = String::from_str("OFF");
    let idle = String::from_str("IDLE");
    let down = String::from_str("DOWN");
    *name == off || *name == idle || *name == down
}

/// Computes the load of the graphics processor from the residency of each
/// power state, given by name: the share of the time spent in states other
/// than `OFF`, `IDLE` and `DOWN`. The number of states is a 32-bit count.
pub fn calc_residency_usage(states: &Vec<(String, i64)>) -> (r: i64)
    requires
        states@.len() <= i32::MAX,
    ensures
        r == spec_residency_usage(states_view(states@)),
{
    let ghost sv = states_view(states@);
    let mut total_idle: i128 = 0;
    let mut total_active: i128 = 0;
    let mut i: usize = 0;
    while i < states.len()
        invariant
            i <= states@.len(),
            states@.len() <= i32::MAX,
            sv == states_view(states@),
            total_idle == residency_sum(sv, i as nat, true),
            total_active == residency_sum(sv, i as nat, false),
            -(i as int) * 0x8000_0000_0000_0000 <= total_idle <= i as int * 0x8000_0000_0000_0000,
            -(i as int) * 0x8000_0000_0000_0000 <= total_active <= i as int * 0x8000_0000_0000_0000,
        decreases states@.len() - i,
    {
        let state = &states[i];
        assert(sv[i as int] == (state.0@, state.1));
        if idle_state(&state.0) {
            total_idle = total_idle + state.1 as i128;
        } else {
            total_active = total_active + state.1 as i128;
        }
        i += 1;
    }
    let total: i128 = total_active + total_idle;
    if total > 0 {
        let scaled: i128 = total_active * 100_000;
        let share: i128 = if scaled >= 0 {
            scaled / total
        } else {
            -((-scaled + total - 1) / total)
        };
        assert(share == scaled as int / total as int) by (nonlinear_arith)
            requires
                total > 0,
                scaled >= 0 ==> share == scaled as int / total as int,
                scaled < 0 ==> share == -((-scaled + total - 1) / total as int),
        ;
        if share < i64::MIN as i128 {
            i64::MIN
        } else if share > i64::MAX as i128 {
            i64::MAX
        } else {
            share as i64
        }
    } else {
        0
    }
}

} // verus!
