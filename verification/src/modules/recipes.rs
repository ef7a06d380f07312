//! Assembly for the older recipe read endpoint.
//!
//! Steps come back from the store in arbitrary order, each carrying its
//! position; the endpoint sorts them by that position before assembling the
//! response.  The sort is verified: the result is ordered by index and is a
//! permutation of the input.

use vstd::multiset::Multiset;
use vstd::prelude::*;
use vstd::seq_lib::{group_to_multiset_ensures, to_multiset_build, to_multiset_remove};

verus! {

/// Why the recipe read endpoint failed: it wraps whatever the store said.
#[derive(Debug)]
pub enum RecipeGetError {
    UnexpectedError(String),
}

/// One preparation step as stored: its position and its instructions.
#[derive(PartialEq, Debug)]
pub struct Step {
    pub index: i32,
    pub instructions: String,
}

/// A sequence of steps ordered by position.
pub open spec fn steps_sorted(s: Seq<Step>) -> bool {
    forall|i: int, j: int| 0 <= i < j < s.len() ==> (#[trigger] s[i]).index <= (#[trigger] s[j]).index
}

/// Sorts steps by their position: the result is ordered and holds exactly
/// the input steps.
pub fn sort_steps(steps: Vec<Step>) -> (r: Vec<Step>)
    ensures
        steps_sorted(r@),
        r@.to_multiset() == steps@.to_multiset(),
{
    broadcast use group_to_multiset_ensures;
    broadcast use vstd::multiset::group_multiset_axioms;

    let ghost initial = steps@;
    let mut rest = steps;
    let mut out: Vec<Step> = Vec::new();
    while rest.len() > 0
        invariant
            out@.to_multiset().add(rest@.to_multiset()) == initial.to_multiset(),
            steps_sorted(out@),
            forall|i: int, j: int|
                0 <= i < out@.len() && 0 <= j < rest@.len() ==> (#[trigger] out@[i]).index <= (
                #[trigger] rest@[j]).index,
        decreases rest@.len(),
    {
        // The position of the smallest remaining index.
        let mut m: usize = 0;
        let mut i: usize = 1;
        while i < rest.len()
            invariant
                m < rest@.len(),
                i <= rest@.len(),
                forall|j: int| 0 <= j < i ==> rest@[m as int].index <= (#[trigger] rest@[j]).index,
            decreases rest@.len() - i,
        {
            if rest[i].index < rest[m].index {
                m = i;
            }
            i = i + 1;
        }
        let ghost rest_pre = rest@;
        let ghost out_pre = out@;
        let x = rest.remove(m);
        out.push(x);
        proof {
            assert(rest_pre.contains(rest_pre[m as int]));
            assert(x == rest_pre[m as int]);
            assert(rest@ == rest_pre.remove(m as int));
            to_multiset_remove::<Step>(rest_pre, m as int);
            assert(out@ == out_pre.push(x));
            to_multiset_build::<Step>(out_pre, x);
            rest_pre.to_multiset_ensures();
            assert(rest_pre.to_multiset().count(x) > 0);
            assert(out@.to_multiset().add(rest@.to_multiset()) =~= initial.to_multiset());
            assert forall|i2: int, j2: int|
                0 <= i2 < out@.len() && 0 <= j2 < rest@.len() implies (#[trigger] out@[i2]).index
                <= (#[trigger] rest@[j2]).index by {
                let j0 = if j2 < m {
                    j2
                } else {
                    j2 + 1
                };
                assert(rest@[j2] == rest_pre[j0]);
                assert(rest_pre[m as int].index <= rest_pre[j0].index);
                if i2 < out_pre.len() {
                    assert(out@[i2] == out_pre[i2]);
                    assert(out_pre[i2].index <= rest_pre[j0].index);
                } else {
                    assert(out@[i2] == x);
                }
            }
        }
    }
    proof {
        assert(rest@.to_multiset() =~= Multiset::<Step>::empty());
        assert(out@.to_multiset() =~= initial.to_multiset());
    }
    out
}

} // verus!
