//! Counting and summing over a population snapshot.
//!
//! Every flocking rule walks the whole population and folds the agents a
//! selector accepts. `scan_count` and `scan_sum` are that fold; the lemmas
//! tie them to the prefix-at-a-time shape of the executable loops.

use crate::agent::Agent;
use vstd::prelude::*;

verus! {

/// How many agents of `s` the selector accepts.
pub open spec fn scan_count(s: Seq<Agent>, sel: spec_fn(Agent) -> bool) -> int
    decreases s.len(),
{
    if s.len() == 0 {
        0
    } else {
        scan_count(s.drop_last(), sel) + if sel(s.last()) {
            1int
        } else {
            0int
        }
    }
}

/// Sum of `f` over the agents of `s` the selector accepts.
pub open spec fn scan_sum(s: Seq<Agent>, sel: spec_fn(Agent) -> bool, f: spec_fn(Agent) -> int) -> int
    decreases s.len(),
{
    if s.len() == 0 {
        0
    } else {
        scan_sum(s.drop_last(), sel, f) + if sel(s.last()) {
            f(s.last())
        } else {
            0int
        }
    }
}

/// Extending the scanned prefix by one agent adds that agent's contribution.
pub proof fn lemma_scan_step(s: Seq<Agent>, sel: spec_fn(Agent) -> bool, f: spec_fn(Agent) -> int, j: int)
    requires
        0 <= j < s.len(),
    ensures
        scan_count(s.take(j + 1), sel) == scan_count(s.take(j), sel) + if sel(s[j]) {
            1int
        } else {
            0int
        },
        scan_sum(s.take(j + 1), sel, f) == scan_sum(s.take(j), sel, f) + if sel(s[j]) {
            f(s[j])
        } else {
            0int
        },
{
    assert(s.take(j + 1).drop_last() =~= s.take(j));
    assert(s.take(j + 1).last() == s[j]);
}

/// A selector that accepts no agent of `s` counts none.
pub proof fn lemma_scan_count_none(s: Seq<Agent>, sel: spec_fn(Agent) -> bool)
    requires
        forall|i: int| 0 <= i < s.len() ==> !sel(#[trigger] s[i]),
    ensures
        scan_count(s, sel) == 0,
    decreases s.len(),
{
    if s.len() > 0 {
        assert(!sel(s[s.len() - 1]));
        lemma_scan_count_none(s.drop_last(), sel);
    }
}

/// A selector that accepts exactly the agent at index `i` counts one.
pub proof fn lemma_scan_count_single(s: Seq<Agent>, sel: spec_fn(Agent) -> bool, i: int)
    requires
        0 <= i < s.len(),
        sel(s[i]),
        forall|j: int| 0 <= j < s.len() && j != i ==> !sel(#[trigger] s[j]),
    ensures
        scan_count(s, sel) == 1,
    decreases s.len(),
{
    if i == s.len() - 1 {
        lemma_scan_count_none(s.drop_last(), sel);
    } else {
        assert(!sel(s[s.len() - 1]));
        lemma_scan_count_single(s.drop_last(), sel, i);
    }
}

} // verus!
