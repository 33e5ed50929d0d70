//! Drawing a session: the shuffled slot order and the passages to retype.
//! The random draws come from rand's `StdRng`; everything built from them is
//! stated over what every draw satisfies.

use crate::activity::Activity;
use crate::timeline::{autonomous_script, base_slots, script, Step, SLOT_COUNT};
use rand::rngs::StdRng;
use rand::seq::SliceRandom;
use rand::Rng;
use vstd::prelude::*;

verus! {

#[verifier::external_type_specification]
#[verifier::external_body]
pub struct ExStdRng(StdRng);

/// Number of passages that a typing slot can ask the subject to retype.
pub const PASSAGE_COUNT: usize = 5;

/// Relies on rand's `SliceRandom::shuffle`: it permutes the slice in place
/// (Fisher-Yates, by swaps), so the items stay the same.
#[verifier::external_body]
fn shuffle_slots(v: &mut Vec<Activity>, rng: &mut StdRng)
    ensures
        final(v)@.to_multiset() == old(v)@.to_multiset(),
{
    v.shuffle(rng);
}

/// Relies on rand's `Rng::random_range`: a value in the range `..n`, which
/// panics when the range is empty.
#[verifier::external_body]
fn draw_below(n: usize, rng: &mut StdRng) -> (r: usize)
    requires
        n > 0,
    ensures
        r < n,
{
    rng.random_range(..n)
}

/// The slot order and passage choices of one session.
pub struct SessionPlan {
    /// The activity of each slot, in the order the slots run.
    pub order: Vec<Activity>,
    /// For each slot, the passage to retype: drawn for typing slots, 0 for
    /// the others.
    pub passages: Vec<usize>,
}

impl SessionPlan {
    /// A plan is sound when its order is a permutation of the base slots and
    /// each slot has a passage below `PASSAGE_COUNT`, 0 unless it types.
    pub open spec fn wf(&self) -> bool {
        &&& self.order@.to_multiset() == base_slots().to_multiset()
        &&& self.order@.len() == SLOT_COUNT
        &&& self.passages@.len() == SLOT_COUNT
        &&& forall|k: int|
            0 <= k < SLOT_COUNT ==> #[trigger] self.passages@[k] < PASSAGE_COUNT && (
            self.order@[k] != Activity::Typing ==> self.passages@[k] == 0)
    }

    /// The timeline of this plan.
    pub fn script(&self) -> (r: Vec<Step>)
        requires
            self.wf(),
        ensures
            r@ == script(self.order@, self.passages@),
    {
        autonomous_script(&self.order, &self.passages)
    }
}

/// The slots before shuffling: two each of nothing, typing, scrolling and
/// fidgeting.
pub fn base_slot_vec() -> (r: Vec<Activity>)
    ensures
        r@ == base_slots(),
{
    let mut v: Vec<Activity> = Vec::new();
    v.push(Activity::Nothing);
    v.push(Activity::Nothing);
    v.push(Activity::Typing);
    v.push(Activity::Typing);
    v.push(Activity::Scrolling);
    v.push(Activity::Scrolling);
    v.push(Activity::Fidgeting);
    v.push(Activity::Fidgeting);
    assert(v@ =~= base_slots());
    v
}

/// Draws a session from `rng`: the base slots shuffled, then a passage for
/// each typing slot in slot order.
pub fn plan_session(rng: &mut StdRng) -> (r: SessionPlan)
    ensures
        r.wf(),
{
    let mut order = base_slot_vec();
    shuffle_slots(&mut order, rng);
    proof {
        broadcast use vstd::seq_lib::group_to_multiset_ensures;

        assert(order@.to_multiset().len() == order@.len());
        assert(base_slots().to_multiset().len() == base_slots().len());
    }
    let mut passages: Vec<usize> = Vec::new();
    let mut k: usize = 0;
    while k < SLOT_COUNT
        invariant
            k <= SLOT_COUNT,
            order@.len() == SLOT_COUNT,
            passages@.len() == k,
            forall|i: int|
                0 <= i < k ==> #[trigger] passages@[i] < PASSAGE_COUNT && (order@[i]
                    != Activity::Typing ==> passages@[i] == 0),
        decreases SLOT_COUNT - k,
    {
        if order[k] == Activity::Typing {
            let p = draw_below(PASSAGE_COUNT, rng);
            passages.push(p);
        } else {
            passages.push(0);
        }
        k = k + 1;
    }
    SessionPlan { order, passages }
}

} // verus!
