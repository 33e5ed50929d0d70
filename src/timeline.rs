//! The autonomous activity timeline: eight slots, two of each real activity,
//! each opened by an `Other` label and a countdown, then labelled with its
//! activity and held for a fixed time. The timeline is a script of steps;
//! the program performs them in order, and the labels it writes are the
//! `Label` steps stamped with the time that the `Wait` steps have taken.

use crate::activity::Activity;
use vstd::prelude::*;
use vstd::multiset::Multiset;
use vstd::seq_lib::lemma_multiset_commutative;

verus! {

/// Ticks of the countdown before each slot.
pub const COUNTDOWN_FROM: u32 = 5;

/// Length of one countdown tick, in milliseconds.
pub const TICK_MS: u64 = 1000;

/// How long each activity window is held, in milliseconds.
pub const ACTIVE_MS: u64 = 15000;

/// Number of slots in a session.
pub const SLOT_COUNT: usize = 8;

/// One step of the timeline.
#[derive(Clone, Copy, Debug, PartialEq, Eq, Structural)]
pub enum Step {
    /// Write a label event with this activity, stamped with the current time.
    Label(Activity),
    /// Show the countdown cue of `activity` with `remaining` ticks left.
    Prepare { activity: Activity, remaining: u32 },
    /// Block for `ms` milliseconds.
    Wait { ms: u64 },
    /// Show the instruction of `activity`; for typing, with passage `passage`.
    Instruct { activity: Activity, passage: usize },
    /// Show the completion message.
    Finish,
}

/// The slots before shuffling: two of each real activity.
pub open spec fn base_slots() -> Seq<Activity> {
    seq![
        Activity::Nothing,
        Activity::Nothing,
        Activity::Typing,
        Activity::Typing,
        Activity::Scrolling,
        Activity::Scrolling,
        Activity::Fidgeting,
        Activity::Fidgeting,
    ]
}

/// The countdown to `a` from `n` ticks: a cue and a tick per number, down to 1.
pub open spec fn countdown(a: Activity, n: nat) -> Seq<Step>
    decreases n,
{
    if n == 0 {
        seq![]
    } else {
        seq![Step::Prepare { activity: a, remaining: n as u32 }, Step::Wait { ms: TICK_MS }]
            + countdown(a, (n - 1) as nat)
    }
}

/// The steps of one slot of activity `a`, with passage `p` for typing.
pub open spec fn slot_steps(a: Activity, p: usize) -> Seq<Step> {
    seq![Step::Label(Activity::Other)] + countdown(a, COUNTDOWN_FROM as nat) + seq![
        Step::Instruct { activity: a, passage: p },
        Step::Label(a),
        Step::Wait { ms: ACTIVE_MS },
    ]
}

/// The whole timeline for slots `order`, slot `k` using passage `passages[k]`:
/// the slots in order, then a final `Other` label and the completion message.
pub open spec fn script(order: Seq<Activity>, passages: Seq<usize>) -> Seq<Step>
    decreases order.len(),
{
    if order.len() == 0 {
        seq![Step::Label(Activity::Other), Step::Finish]
    } else {
        slot_steps(order[0], passages[0]) + script(order.drop_first(), passages.drop_first())
    }
}

/// Time that the steps take, in milliseconds: the sum of their waits.
pub open spec fn duration(steps: Seq<Step>) -> int
    decreases steps.len(),
{
    if steps.len() == 0 {
        0
    } else {
        (match steps[0] {
            Step::Wait { ms } => ms as int,
            _ => 0,
        }) + duration(steps.drop_first())
    }
}

/// The label events that the steps write when begun at time `t`: each
/// `Label` step gives `(time, activity)`, the time having advanced by every
/// wait before it.
pub open spec fn label_trace(steps: Seq<Step>, t: int) -> Seq<(int, Activity)>
    decreases steps.len(),
{
    if steps.len() == 0 {
        seq![]
    } else {
        match steps[0] {
            Step::Label(a) => seq![(t, a)] + label_trace(steps.drop_first(), t),
            Step::Wait { ms } => label_trace(steps.drop_first(), t + ms),
            _ => label_trace(steps.drop_first(), t),
        }
    }
}

/// The activity codes of a label trace, in order.
pub open spec fn trace_codes(tr: Seq<(int, Activity)>) -> Seq<Activity> {
    tr.map_values(|e: (int, Activity)| e.1)
}

/// The label events of slots `order` begun at `t`, slot by slot: `Other` at
/// the slot's start, its activity when the countdown ends, and a final
/// `Other` after the last slot.
pub open spec fn slot_trace(order: Seq<Activity>, t: int) -> Seq<(int, Activity)>
    decreases order.len(),
{
    if order.len() == 0 {
        seq![(t, Activity::Other)]
    } else {
        seq![(t, Activity::Other), (t + countdown_ms(), order[0])] + slot_trace(
            order.drop_first(),
            t + slot_ms(),
        )
    }
}

/// Length of the countdown, in milliseconds.
pub open spec fn countdown_ms() -> int {
    COUNTDOWN_FROM * TICK_MS
}

/// Length of one slot, in milliseconds.
pub open spec fn slot_ms() -> int {
    countdown_ms() + ACTIVE_MS
}

proof fn lemma_append(a: Seq<Step>, b: Seq<Step>, t: int)
    ensures
        label_trace(a + b, t) == label_trace(a, t) + label_trace(b, t + duration(a)),
        duration(a + b) == duration(a) + duration(b),
    decreases a.len(),
{
    if a.len() == 0 {
        assert(a + b =~= b);
        assert(label_trace(a, t) + label_trace(b, t) =~= label_trace(b, t));
    } else {
        assert((a + b).drop_first() =~= a.drop_first() + b);
        assert((a + b)[0] == a[0]);
        match a[0] {
            Step::Wait { ms } => {
                lemma_append(a.drop_first(), b, t + ms);
            },
            Step::Label(x) => {
                lemma_append(a.drop_first(), b, t);
                assert(seq![(t, x)] + label_trace(a.drop_first(), t) + label_trace(
                    b,
                    t + duration(a),
                ) =~= seq![(t, x)] + (label_trace(a.drop_first(), t) + label_trace(
                    b,
                    t + duration(a),
                )));
            },
            _ => {
                lemma_append(a.drop_first(), b, t);
            },
        }
    }
}

proof fn lemma_countdown(a: Activity, n: nat, t: int)
    ensures
        label_trace(countdown(a, n), t) == Seq::<(int, Activity)>::empty(),
        duration(countdown(a, n)) == n * TICK_MS,
    decreases n,
{
    if n > 0 {
        let head = seq![Step::Prepare { activity: a, remaining: n as u32 }, Step::Wait { ms: TICK_MS }];
        lemma_countdown(a, (n - 1) as nat, t + TICK_MS);
        lemma_append(head, countdown(a, (n - 1) as nat), t);
        assert(head.drop_first().drop_first() =~= Seq::<Step>::empty());
        reveal_with_fuel(label_trace, 3);
        reveal_with_fuel(duration, 3);
        assert(label_trace(head, t) =~= Seq::<(int, Activity)>::empty());
        assert(duration(head) == TICK_MS);
        assert(n * TICK_MS == TICK_MS + (n - 1) * TICK_MS) by (nonlinear_arith);
    } else {
        assert(label_trace(countdown(a, n), t) =~= Seq::<(int, Activity)>::empty());
    }
}

proof fn lemma_slot(a: Activity, p: usize, t: int)
    ensures
        label_trace(slot_steps(a, p), t) == seq![(t, Activity::Other), (t + countdown_ms(), a)],
        duration(slot_steps(a, p)) == slot_ms(),
{
    let first = seq![Step::Label(Activity::Other)];
    let cd = countdown(a, COUNTDOWN_FROM as nat);
    let last = seq![Step::Instruct { activity: a, passage: p }, Step::Label(a), Step::Wait { ms: ACTIVE_MS }];
    lemma_countdown(a, COUNTDOWN_FROM as nat, t);
    lemma_append(first, cd, t);
    lemma_append(first + cd, last, t);
    assert(first.drop_first() =~= Seq::<Step>::empty());
    reveal_with_fuel(label_trace, 4);
    reveal_with_fuel(duration, 4);
    assert(label_trace(first, t) =~= seq![(t, Activity::Other)]);
    assert(duration(first) == 0);
    let t2 = t + countdown_ms();
    assert(last.drop_first() =~= seq![Step::Label(a), Step::Wait { ms: ACTIVE_MS }]);
    assert(last.drop_first().drop_first() =~= seq![Step::Wait { ms: ACTIVE_MS }]);
    assert(last.drop_first().drop_first().drop_first() =~= Seq::<Step>::empty());
    assert(label_trace(last, t2) =~= seq![(t2, a)]);
    assert(duration(last) == ACTIVE_MS);
    assert(label_trace(first, t) + Seq::<(int, Activity)>::empty() + label_trace(last, t2)
        =~= seq![(t, Activity::Other), (t2, a)]);
}

/// The label events of a timeline are, slot by slot, an `Other` label at the
/// slot's start and the slot's activity a countdown later, with one more
/// `Other` label at the end.
pub proof fn lemma_script_labels(order: Seq<Activity>, passages: Seq<usize>, t: int)
    ensures
        label_trace(script(order, passages), t) == slot_trace(order, t),
    decreases order.len(),
{
    if order.len() == 0 {
        let s = seq![Step::Label(Activity::Other), Step::Finish];
        assert(s.drop_first().drop_first() =~= Seq::<Step>::empty());
        reveal_with_fuel(label_trace, 3);
        assert(label_trace(s, t) =~= seq![(t, Activity::Other)]);
    } else {
        let head = slot_steps(order[0], passages[0]);
        let rest = script(order.drop_first(), passages.drop_first());
        lemma_slot(order[0], passages[0], t);
        lemma_append(head, rest, t);
        lemma_script_labels(order.drop_first(), passages.drop_first(), t + slot_ms());
    }
}

/// How many times `y` occurs in `s`.
pub open spec fn occurrences(s: Seq<Activity>, y: Activity) -> nat
    decreases s.len(),
{
    if s.len() == 0 {
        0
    } else {
        (if s[0] == y {
            1nat
        } else {
            0nat
        }) + occurrences(s.drop_first(), y)
    }
}

proof fn lemma_count_cons(x: Activity, s: Seq<Activity>, y: Activity)
    ensures
        (seq![x] + s).to_multiset().count(y) == s.to_multiset().count(y) + (if x == y {
            1nat
        } else {
            0nat
        }),
{
    broadcast use vstd::seq_lib::group_to_multiset_ensures;
    broadcast use vstd::multiset::group_multiset_axioms;

    lemma_multiset_commutative(seq![x], s);
    assert(seq![x] =~= Seq::<Activity>::empty().push(x));
    vstd::multiset::lemma_multiset_empty_len(Seq::<Activity>::empty().to_multiset());
    assert(Seq::<Activity>::empty().to_multiset() =~= Multiset::empty());
}

proof fn lemma_occurrences(s: Seq<Activity>, y: Activity)
    ensures
        s.to_multiset().count(y) == occurrences(s, y),
    decreases s.len(),
{
    broadcast use vstd::seq_lib::group_to_multiset_ensures;
    broadcast use vstd::multiset::group_multiset_axioms;

    if s.len() == 0 {
        vstd::multiset::lemma_multiset_empty_len(s.to_multiset());
    } else {
        assert(s =~= seq![s[0]] + s.drop_first());
        lemma_count_cons(s[0], s.drop_first(), y);
        lemma_occurrences(s.drop_first(), y);
    }
}

proof fn lemma_base_counts(y: Activity)
    ensures
        base_slots().to_multiset().count(y) == (if y == Activity::Other {
            0nat
        } else {
            2nat
        }),
        base_slots().len() == SLOT_COUNT,
{
    let b = base_slots();
    lemma_occurrences(b, y);
    reveal_with_fuel(occurrences, 9);
    assert(b.drop_first() =~= b.subrange(1, 8));
    assert(b.drop_first().drop_first() =~= b.subrange(2, 8));
    assert(b.subrange(2, 8).drop_first() =~= b.subrange(3, 8));
    assert(b.subrange(3, 8).drop_first() =~= b.subrange(4, 8));
    assert(b.subrange(4, 8).drop_first() =~= b.subrange(5, 8));
    assert(b.subrange(5, 8).drop_first() =~= b.subrange(6, 8));
    assert(b.subrange(6, 8).drop_first() =~= b.subrange(7, 8));
    assert(b.subrange(7, 8).drop_first() =~= Seq::<Activity>::empty());
}

proof fn lemma_slot_trace_counts(order: Seq<Activity>, t: int, y: Activity)
    ensures
        trace_codes(slot_trace(order, t)).to_multiset().count(y) == order.to_multiset().count(y)
            + (if y == Activity::Other {
            order.len() + 1
        } else {
            0
        }),
        trace_codes(slot_trace(order, t)).len() == 2 * order.len() + 1,
    decreases order.len(),
{
    broadcast use vstd::seq_lib::group_to_multiset_ensures;
    broadcast use vstd::multiset::group_multiset_axioms;

    let tr = slot_trace(order, t);
    if order.len() == 0 {
        assert(trace_codes(tr) =~= seq![Activity::Other] + Seq::<Activity>::empty());
        lemma_count_cons(Activity::Other, Seq::<Activity>::empty(), y);
        vstd::multiset::lemma_multiset_empty_len(order.to_multiset());
        vstd::multiset::lemma_multiset_empty_len(Seq::<Activity>::empty().to_multiset());
    } else {
        let rest = slot_trace(order.drop_first(), t + slot_ms());
        lemma_slot_trace_counts(order.drop_first(), t + slot_ms(), y);
        assert(trace_codes(tr) =~= seq![Activity::Other] + (seq![order[0]] + trace_codes(rest)));
        lemma_count_cons(Activity::Other, seq![order[0]] + trace_codes(rest), y);
        lemma_count_cons(order[0], trace_codes(rest), y);
        assert(order =~= seq![order[0]] + order.drop_first());
        lemma_count_cons(order[0], order.drop_first(), y);
    }
}

/// In a full session, whatever order the shuffle gave, the label stream holds
/// seventeen events: nine `Other` labels (one before each slot and one at the
/// end) and eight real ones, each real activity exactly twice.
pub proof fn lemma_session_label_counts(order: Seq<Activity>, passages: Seq<usize>)
    requires
        order.to_multiset() == base_slots().to_multiset(),
    ensures
        trace_codes(label_trace(script(order, passages), 0)).len() == 2 * SLOT_COUNT + 1,
        trace_codes(label_trace(script(order, passages), 0)).to_multiset().count(Activity::Other)
            == SLOT_COUNT + 1,
        forall|a: Activity|
            a != Activity::Other ==> #[trigger] trace_codes(
                label_trace(script(order, passages), 0),
            ).to_multiset().count(a) == 2,
{
    broadcast use vstd::seq_lib::group_to_multiset_ensures;

    lemma_script_labels(order, passages, 0);
    lemma_base_counts(Activity::Other);
    assert(order.to_multiset().len() == order.len());
    assert(base_slots().to_multiset().len() == base_slots().len());
    lemma_slot_trace_counts(order, 0, Activity::Other);
    assert forall|a: Activity| a != Activity::Other implies #[trigger] trace_codes(
        label_trace(script(order, passages), 0),
    ).to_multiset().count(a) == 2 by {
        lemma_base_counts(a);
        lemma_slot_trace_counts(order, 0, a);
    }
}

#[verifier::rlimit(40)]
proof fn lemma_slot_trace_pairs(order: Seq<Activity>, t: int)
    ensures
        slot_trace(order, t).len() == 2 * order.len() + 1,
        slot_trace(order, t)[0] == (t, Activity::Other),
        forall|j: int|
            0 <= j < slot_trace(order, t).len() && (#[trigger] slot_trace(order, t)[j]).1
                != Activity::Other ==> j >= 1 && slot_trace(order, t)[j - 1].1 == Activity::Other
                && slot_trace(order, t)[j].0 - slot_trace(order, t)[j - 1].0 == countdown_ms(),
    decreases order.len(),
{
    if order.len() > 0 {
        let tr = slot_trace(order, t);
        let t1 = t + slot_ms();
        let rest = slot_trace(order.drop_first(), t1);
        let head = seq![(t, Activity::Other), (t + countdown_ms(), order[0])];
        lemma_slot_trace_pairs(order.drop_first(), t1);
        assert(tr == head + rest);
        assert forall|j: int|
            0 <= j < tr.len() && (#[trigger] tr[j]).1 != Activity::Other implies j >= 1 && tr[j
                - 1].1 == Activity::Other && tr[j].0 - tr[j - 1].0 == countdown_ms() by {
            if j >= 2 {
                assert(tr[j] == rest[j - 2]);
                if j >= 3 {
                    assert(tr[j - 1] == rest[j - 3]);
                    assert(rest[j - 2].1 != Activity::Other);
                }
            }
        }
    }
}

/// Every real label event is immediately preceded, in the label stream, by an
/// `Other` event exactly one countdown (five one-second ticks) earlier.
pub proof fn lemma_countdown_precedes_label(order: Seq<Activity>, passages: Seq<usize>)
    ensures
        forall|j: int|
            0 <= j < label_trace(script(order, passages), 0).len() && (#[trigger] label_trace(
                script(order, passages),
                0,
            )[j]).1 != Activity::Other ==> j >= 1 && label_trace(script(order, passages), 0)[j
                - 1].1 == Activity::Other && label_trace(script(order, passages), 0)[j].0
                - label_trace(script(order, passages), 0)[j - 1].0 == COUNTDOWN_FROM * TICK_MS,
{
    lemma_script_labels(order, passages, 0);
    lemma_slot_trace_pairs(order, 0);
}

fn push_countdown(v: &mut Vec<Step>, a: Activity)
    ensures
        final(v)@ == old(v)@ + countdown(a, COUNTDOWN_FROM as nat),
{
    let ghost start = v@;
    let mut n: u32 = COUNTDOWN_FROM;
    while n > 0
        invariant
            n <= COUNTDOWN_FROM,
            v@ + countdown(a, n as nat) == start + countdown(a, COUNTDOWN_FROM as nat),
        decreases n,
    {
        let ghost before = v@;
        v.push(Step::Prepare { activity: a, remaining: n });
        v.push(Step::Wait { ms: TICK_MS });
        assert(before + countdown(a, n as nat) =~= v@ + countdown(a, (n - 1) as nat));
        n = n - 1;
    }
    assert(v@ + countdown(a, 0) =~= v@);
}

fn push_slot(v: &mut Vec<Step>, a: Activity, p: usize)
    ensures
        final(v)@ == old(v)@ + slot_steps(a, p),
{
    let ghost start = v@;
    v.push(Step::Label(Activity::Other));
    push_countdown(v, a);
    v.push(Step::Instruct { activity: a, passage: p });
    v.push(Step::Label(a));
    v.push(Step::Wait { ms: ACTIVE_MS });
    assert(v@ =~= start + slot_steps(a, p));
}

/// The timeline for slots `order`, slot `k` using passage `passages[k]`.
pub fn autonomous_script(order: &Vec<Activity>, passages: &Vec<usize>) -> (r: Vec<Step>)
    requires
        order.len() == passages.len(),
    ensures
        r@ == script(order@, passages@),
{
    let n = order.len();
    let mut v: Vec<Step> = Vec::new();
    let mut k: usize = 0;
    assert(order@.subrange(0, n as int) =~= order@);
    assert(passages@.subrange(0, n as int) =~= passages@);
    while k < n
        invariant
            k <= n,
            n == order.len(),
            n == passages.len(),
            v@ + script(order@.subrange(k as int, n as int), passages@.subrange(k as int, n as int))
                == script(order@, passages@),
        decreases n - k,
    {
        let ghost before = v@;
        let ghost os = order@.subrange(k as int, n as int);
        let ghost ps = passages@.subrange(k as int, n as int);
        assert(os.drop_first() =~= order@.subrange(k + 1, n as int));
        assert(ps.drop_first() =~= passages@.subrange(k + 1, n as int));
        push_slot(&mut v, order[k], passages[k]);
        assert(before + script(os, ps) =~= v@ + script(
            order@.subrange(k + 1, n as int),
            passages@.subrange(k + 1, n as int),
        ));
        k = k + 1;
    }
    let ghost before = v@;
    assert(order@.subrange(n as int, n as int) =~= Seq::<Activity>::empty());
    v.push(Step::Label(Activity::Other));
    v.push(Step::Finish);
    assert(v@ =~= before + seq![Step::Label(Activity::Other), Step::Finish]);
    v
}

} // verus!
