//! Chance, as far as the engine needs it: a random order of the numbers
//! below a bound.

use rand::Rng;
use vstd::prelude::*;

verus! {

/// `Rng::gen_range` on the generator of the thread picks a number from the
/// range that starts at zero and ends before the bound. Which one, nothing
/// says. An empty range is not asked for.
#[verifier::external_body]
pub(crate) fn random_below(bound: usize) -> (number: usize)
    requires
        bound > 0,
    ensures
        number < bound,
{
    rand::thread_rng().gen_range(0..bound)
}

/// Whether a sequence holds every number below its length and nothing else.
pub open spec fn is_order(order: Seq<usize>) -> bool {
    &&& forall|number: usize| number < order.len() ==> order.contains(number)
    &&& forall|at: int| 0 <= at < order.len() ==> (#[trigger] order[at]) < order.len()
}

/// Puts the numbers below `count` into a random order.
pub fn random_order(count: usize) -> (order: Vec<usize>)
    ensures
        order@.len() == count,
        is_order(order@),
{
    let mut order: Vec<usize> = Vec::new();
    let mut next: usize = 0;
    while next < count
        invariant
            next <= count,
            order@.len() == next,
            forall|at: int| 0 <= at < next ==> (#[trigger] order@[at]) == at,
        decreases count - next,
    {
        order.push(next);
        next += 1;
    }
    assert forall|number: usize| number < order@.len() implies order@.contains(number) by {
        assert(order@[number as int] == number);
    }
    let mut first: usize = 0;
    while first < count
        invariant
            order@.len() == count,
            is_order(order@),
        decreases count - first,
    {
        let second = first + random_below(count - first);
        let ghost before = order@;
        let a = order[first];
        let b = order[second];
        order.set(first, b);
        order.set(second, a);
        proof {
            assert forall|number: usize| number < count implies order@.contains(number) by {
                assert(before.contains(number));
                let at = choose|at: int| 0 <= at < before.len() && before[at] == number;
                if at == first {
                    assert(order@[second as int] == number);
                } else if at == second {
                    assert(order@[first as int] == number);
                } else {
                    assert(order@[at] == number);
                }
            }
        }
        first += 1;
    }
    order
}

} // verus!
