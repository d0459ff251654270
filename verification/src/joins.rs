//! Fan-in semantics: how a join or race over several inputs concludes for
//! one session. A join waits for every input; a race takes the first. In
//! both, the tie-break between disposal and cancellation is the same: when
//! every unresolved input merely ended in disposal the fan-in is disposed
//! (no productive outcome), and as soon as one input was cancelled the
//! fan-in is cancelled, carrying the full breakdown of its inputs.

use vstd::prelude::*;

use crate::NodeId;
use crate::cancel::CancellationCause;
use crate::cancel::JoinCancelled;
use crate::cancel::RaceCancelled;
use crate::disposal::JoinImpossible;
use crate::shared::share;
use std::sync::Arc;

verus! {

/// How one input of a fan-in ended up for the session.
pub enum InputResolution {
    /// The input delivered its value.
    Delivered(NodeId),
    /// The input is still awaited.
    Pending(NodeId),
    /// The input was disposed: it will never produce a value, without
    /// anything being wrong.
    Disposed(NodeId),
    /// The input was cancelled with this cause.
    Cancelled(NodeId, Arc<CancellationCause>),
}

/// Every input has delivered.
pub open spec fn all_delivered(inputs: Seq<InputResolution>) -> bool {
    forall|j: int| 0 <= j < inputs.len() ==> (#[trigger] inputs[j]) is Delivered
}

/// At least one input was cancelled.
pub open spec fn any_cancelled(inputs: Seq<InputResolution>) -> bool {
    exists|j: int| 0 <= j < inputs.len() && (#[trigger] inputs[j]) is Cancelled
}

/// At least one input was disposed.
pub open spec fn any_disposed(inputs: Seq<InputResolution>) -> bool {
    exists|j: int| 0 <= j < inputs.len() && (#[trigger] inputs[j]) is Disposed
}

/// The join concludes as a disposal: nothing was cancelled, but a disposal
/// makes completion impossible.
pub open spec fn join_is_disposed(inputs: Seq<InputResolution>) -> bool {
    !all_delivered(inputs) && !any_cancelled(inputs) && any_disposed(inputs)
}

/// The join concludes as a cancellation: some input was cancelled.
pub open spec fn join_is_cancelled(inputs: Seq<InputResolution>) -> bool {
    !all_delivered(inputs) && any_cancelled(inputs)
}

/// The inputs that delivered, in input order.
pub open spec fn delivered_nodes(inputs: Seq<InputResolution>) -> Seq<NodeId>
    decreases inputs.len(),
{
    if inputs.len() == 0 {
        Seq::empty()
    } else {
        let rest = delivered_nodes(inputs.drop_last());
        match inputs.last() {
            InputResolution::Delivered(n) => rest.push(n),
            _ => rest,
        }
    }
}

/// The inputs still awaited, in input order.
pub open spec fn pending_nodes(inputs: Seq<InputResolution>) -> Seq<NodeId>
    decreases inputs.len(),
{
    if inputs.len() == 0 {
        Seq::empty()
    } else {
        let rest = pending_nodes(inputs.drop_last());
        match inputs.last() {
            InputResolution::Pending(n) => rest.push(n),
            _ => rest,
        }
    }
}

/// The inputs that were disposed, in input order.
pub open spec fn disposed_nodes(inputs: Seq<InputResolution>) -> Seq<NodeId>
    decreases inputs.len(),
{
    if inputs.len() == 0 {
        Seq::empty()
    } else {
        let rest = disposed_nodes(inputs.drop_last());
        match inputs.last() {
            InputResolution::Disposed(n) => rest.push(n),
            _ => rest,
        }
    }
}

/// The causes of the inputs that were cancelled, in input order.
pub open spec fn cancelled_causes(inputs: Seq<InputResolution>) -> Seq<Arc<CancellationCause>>
    decreases inputs.len(),
{
    if inputs.len() == 0 {
        Seq::empty()
    } else {
        let rest = cancelled_causes(inputs.drop_last());
        match inputs.last() {
            InputResolution::Cancelled(_, c) => rest.push(c),
            _ => rest,
        }
    }
}

/// What a join over a fixed set of inputs does next for one session.
pub enum JoinVerdict {
    /// Every input delivered: the join fires.
    Complete,
    /// Nothing has failed, some inputs are still awaited: keep waiting.
    Wait,
    /// No productive outcome is possible, and nothing went wrong: the join
    /// is disposed, not cancelled.
    Disposed(JoinImpossible),
    /// At least one input was cancelled: the join is cancelled, carrying
    /// the full breakdown of its inputs.
    Cancelled(JoinCancelled),
}

/// What a race over a set of inputs does next for one session.
pub enum RaceVerdict {
    /// The first input to deliver wins the race.
    Won(NodeId),
    /// No input has delivered and none has failed: keep waiting.
    Wait,
    /// Every input was disposed: the race is disposed, not cancelled.
    Disposed(Vec<NodeId>),
    /// All inputs ended and at least one was cancelled: the race is
    /// cancelled, carrying the breakdown.
    Cancelled(RaceCancelled),
}

/// The position of the first delivered input, or `-1` when none delivered.
pub open spec fn first_delivered_index(inputs: Seq<InputResolution>, upto: int) -> int
    decreases upto,
{
    if upto <= 0 {
        -1
    } else {
        let before = first_delivered_index(inputs, upto - 1);
        if before >= 0 {
            before
        } else if inputs[upto - 1] is Delivered {
            upto - 1
        } else {
            -1
        }
    }
}

/// Classify a join's inputs for one session: complete when everything
/// delivered; cancelled (with the full breakdown) when anything was
/// cancelled; disposed when completion is impossible but nothing was
/// cancelled; otherwise keep waiting.
pub fn classify_join(join: NodeId, inputs: &Vec<InputResolution>) -> (r: JoinVerdict)
    ensures
        all_delivered(inputs@) ==> r is Complete,
        join_is_cancelled(inputs@) ==> (r matches JoinVerdict::Cancelled(jc) && jc.join == join
            && jc.delivered@ == delivered_nodes(inputs@) && jc.pending@ == pending_nodes(inputs@)
            && jc.disposals@ == disposed_nodes(inputs@) && jc.cancellations@ == cancelled_causes(
            inputs@,
        )),
        join_is_disposed(inputs@) ==> (r matches JoinVerdict::Disposed(ji) && ji.join == join
            && ji.unreachable@ == disposed_nodes(inputs@)),
        (!all_delivered(inputs@) && !any_cancelled(inputs@) && !any_disposed(inputs@)) ==> r
            is Wait,
{
    let (delivered, pending, disposals, cancellations) = split_resolutions(inputs);
    let n = inputs.len();
    if delivered.len() == n {
        proof {
            lemma_counts_characterize(inputs@);
        }
        return JoinVerdict::Complete;
    }
    proof {
        lemma_counts_characterize(inputs@);
    }
    if cancellations.len() > 0 {
        JoinVerdict::Cancelled(
            JoinCancelled { join, delivered, pending, disposals, cancellations },
        )
    } else if disposals.len() > 0 {
        JoinVerdict::Disposed(JoinImpossible { join, unreachable: disposals })
    } else {
        JoinVerdict::Wait
    }
}

/// Classify a race's inputs for one session: the first delivery wins; with
/// no delivery, the same disposal-versus-cancellation tie-break as for a
/// join decides how the race ends.
pub fn classify_race(race: NodeId, inputs: &Vec<InputResolution>) -> (r: RaceVerdict)
    ensures
        ({
            let idx = first_delivered_index(inputs@, inputs@.len() as int);
            &&& idx >= 0 ==> (r matches RaceVerdict::Won(n) && inputs@[idx]
                == InputResolution::Delivered(n))
            &&& (idx < 0 && any_cancelled(inputs@)) ==> (r matches RaceVerdict::Cancelled(rc)
                && rc.race == race && rc.disposals@ == disposed_nodes(inputs@)
                && rc.cancellations@ == cancelled_causes(inputs@))
            &&& (idx < 0 && !any_cancelled(inputs@) && any_disposed(inputs@) && !(exists|j: int|
                0 <= j < inputs@.len() && (#[trigger] inputs@[j]) is Pending)) ==> (r
                matches RaceVerdict::Disposed(d) && d@ == disposed_nodes(inputs@))
            &&& (idx < 0 && !any_cancelled(inputs@) && (exists|j: int|
                0 <= j < inputs@.len() && (#[trigger] inputs@[j]) is Pending)) ==> r is Wait
        }),
{
    let n = inputs.len();
    let mut i: usize = 0;
    while i < n
        invariant
            i <= n,
            n == inputs@.len(),
            first_delivered_index(inputs@, i as int) == -1,
        decreases n - i,
    {
        match &inputs[i] {
            InputResolution::Delivered(winner) => {
                proof {
                    lemma_first_delivered_extend(inputs@, i as int);
                    lemma_first_delivered_stable(inputs@, i + 1, inputs@.len() as int);
                }
                return RaceVerdict::Won(*winner);
            }
            _ => {}
        }
        proof {
            lemma_first_delivered_extend(inputs@, i as int);
        }
        i = i + 1;
    }
    let (_delivered, pending, disposals, cancellations) = split_resolutions(inputs);
    proof {
        lemma_counts_characterize(inputs@);
    }
    if cancellations.len() > 0 {
        RaceVerdict::Cancelled(RaceCancelled { race, disposals, cancellations })
    } else if pending.len() == 0 && disposals.len() > 0 {
        RaceVerdict::Disposed(disposals)
    } else {
        RaceVerdict::Wait
    }
}

/// Split the inputs into the four breakdown lists, in input order.
fn split_resolutions(inputs: &Vec<InputResolution>) -> (r: (
    Vec<NodeId>,
    Vec<NodeId>,
    Vec<NodeId>,
    Vec<Arc<CancellationCause>>,
))
    ensures
        r.0@ == delivered_nodes(inputs@),
        r.1@ == pending_nodes(inputs@),
        r.2@ == disposed_nodes(inputs@),
        r.3@ == cancelled_causes(inputs@),
{
    let mut delivered: Vec<NodeId> = Vec::new();
    let mut pending: Vec<NodeId> = Vec::new();
    let mut disposals: Vec<NodeId> = Vec::new();
    let mut cancellations: Vec<Arc<CancellationCause>> = Vec::new();
    let n = inputs.len();
    let mut i: usize = 0;
    while i < n
        invariant
            i <= n,
            n == inputs@.len(),
            delivered@ == delivered_nodes(inputs@.take(i as int)),
            pending@ == pending_nodes(inputs@.take(i as int)),
            disposals@ == disposed_nodes(inputs@.take(i as int)),
            cancellations@ == cancelled_causes(inputs@.take(i as int)),
        decreases n - i,
    {
        proof {
            assert(inputs@.take(i + 1 as int).drop_last() =~= inputs@.take(i as int));
            assert(inputs@.take(i + 1 as int).last() == inputs@[i as int]);
        }
        match &inputs[i] {
            InputResolution::Delivered(node) => delivered.push(*node),
            InputResolution::Pending(node) => pending.push(*node),
            InputResolution::Disposed(node) => disposals.push(*node),
            InputResolution::Cancelled(_, cause) => cancellations.push(share(cause)),
        }
        i = i + 1;
    }
    proof {
        assert(inputs@.take(n as int) =~= inputs@);
    }
    (delivered, pending, disposals, cancellations)
}

/// The breakdown lists reflect the predicates: everything delivered
/// exactly when the delivered list is full-length, and a cancellation or
/// disposal exists exactly when its list is nonempty.
proof fn lemma_counts_characterize(inputs: Seq<InputResolution>)
    ensures
        delivered_nodes(inputs).len() <= inputs.len(),
        (delivered_nodes(inputs).len() == inputs.len()) <==> all_delivered(inputs),
        (cancelled_causes(inputs).len() > 0) <==> any_cancelled(inputs),
        (disposed_nodes(inputs).len() > 0) <==> any_disposed(inputs),
        (pending_nodes(inputs).len() > 0) <==> exists|j: int|
            0 <= j < inputs.len() && (#[trigger] inputs[j]) is Pending,
    decreases inputs.len(),
{
    if inputs.len() == 0 {
    } else {
        let head = inputs.drop_last();
        lemma_counts_characterize(head);
        assert(forall|j: int| 0 <= j < head.len() ==> head[j] == inputs[j]);
        assert(inputs.last() == inputs[inputs.len() - 1]);
        if all_delivered(head) && inputs.last() is Delivered {
            assert(all_delivered(inputs));
        }
        if any_cancelled(head) {
            let j = choose|j: int| 0 <= j < head.len() && (#[trigger] head[j]) is Cancelled;
            assert(inputs[j] is Cancelled);
        }
        if any_disposed(head) {
            let j = choose|j: int| 0 <= j < head.len() && (#[trigger] head[j]) is Disposed;
            assert(inputs[j] is Disposed);
        }
        if exists|j: int| 0 <= j < head.len() && (#[trigger] head[j]) is Pending {
            let j = choose|j: int| 0 <= j < head.len() && (#[trigger] head[j]) is Pending;
            assert(inputs[j] is Pending);
        }
        if any_cancelled(inputs) && !(inputs.last() is Cancelled) {
            let j = choose|j: int| 0 <= j < inputs.len() && (#[trigger] inputs[j]) is Cancelled;
            assert(head[j] is Cancelled);
        }
        if any_disposed(inputs) && !(inputs.last() is Disposed) {
            let j = choose|j: int| 0 <= j < inputs.len() && (#[trigger] inputs[j]) is Disposed;
            assert(head[j] is Disposed);
        }
        if (exists|j: int| 0 <= j < inputs.len() && (#[trigger] inputs[j]) is Pending) && !(
        inputs.last() is Pending) {
            let j = choose|j: int| 0 <= j < inputs.len() && (#[trigger] inputs[j]) is Pending;
            assert(head[j] is Pending);
        }
        if all_delivered(inputs) {
            assert(all_delivered(head));
        }
    }
}

/// Scanning one more input either keeps the first delivery or finds it at
/// the scanned position.
proof fn lemma_first_delivered_extend(inputs: Seq<InputResolution>, i: int)
    requires
        0 <= i < inputs.len(),
        first_delivered_index(inputs, i) == -1,
    ensures
        inputs[i] is Delivered ==> first_delivered_index(inputs, i + 1) == i,
        !(inputs[i] is Delivered) ==> first_delivered_index(inputs, i + 1) == -1,
{
}

/// Once the first delivery is found, scanning further does not move it.
proof fn lemma_first_delivered_stable(inputs: Seq<InputResolution>, from: int, upto: int)
    requires
        0 < from <= upto <= inputs.len(),
        first_delivered_index(inputs, from) >= 0,
    ensures
        first_delivered_index(inputs, upto) == first_delivered_index(inputs, from),
    decreases upto - from,
{
    if from < upto {
        lemma_first_delivered_stable(inputs, from + 1, upto);
    }
}

/// Law (join and race tie-break): a fan-in whose inputs all ended in
/// disposal is disposed, never cancelled; a fan-in with at least one
/// cancelled input is cancelled, never disposed, and the cause of every
/// cancelled input appears in its breakdown.
pub proof fn lemma_join_tie_break(inputs: Seq<InputResolution>)
    requires
        inputs.len() > 0,
    ensures
        (forall|j: int| 0 <= j < inputs.len() ==> (#[trigger] inputs[j]) is Disposed) ==> (
        join_is_disposed(inputs) && !join_is_cancelled(inputs)),
        any_cancelled(inputs) ==> (join_is_cancelled(inputs) && !join_is_disposed(inputs)),
        forall|j: int|
            0 <= j < inputs.len() && (#[trigger] inputs[j]) is Cancelled ==> cancelled_causes(
                inputs,
            ).contains(inputs[j]->Cancelled_1),
{
    if forall|j: int| 0 <= j < inputs.len() ==> (#[trigger] inputs[j]) is Disposed {
        assert(inputs[0] is Disposed);
        assert(!(inputs[0] is Delivered));
    }
    if any_cancelled(inputs) {
        let j = choose|j: int| 0 <= j < inputs.len() && (#[trigger] inputs[j]) is Cancelled;
        assert(!(inputs[j] is Delivered));
    }
    assert forall|j: int|
        0 <= j < inputs.len() && (#[trigger] inputs[j]) is Cancelled implies cancelled_causes(
        inputs,
    ).contains(inputs[j]->Cancelled_1) by {
        lemma_cancelled_cause_listed(inputs, j);
    }
}

/// The cause of a cancelled input appears in the breakdown's cause list.
proof fn lemma_cancelled_cause_listed(inputs: Seq<InputResolution>, j: int)
    requires
        0 <= j < inputs.len(),
        inputs[j] is Cancelled,
    ensures
        cancelled_causes(inputs).contains(inputs[j]->Cancelled_1),
    decreases inputs.len(),
{
    if j == inputs.len() - 1 {
        let causes = cancelled_causes(inputs);
        assert(causes.last() == inputs[j]->Cancelled_1);
        assert(causes.contains(causes[causes.len() - 1]));
    } else {
        let head = inputs.drop_last();
        assert(head[j] == inputs[j]);
        lemma_cancelled_cause_listed(head, j);
        let c = inputs[j]->Cancelled_1;
        let k = choose|k: int|
            0 <= k < cancelled_causes(head).len() && cancelled_causes(head)[k] == c;
        match inputs.last() {
            InputResolution::Cancelled(_, tail_cause) => {
                assert(cancelled_causes(inputs)[k] == c);
            }
            _ => {
                assert(cancelled_causes(inputs)[k] == c);
            }
        }
    }
}

/// How often a race delivers downstream over a run of arrivals, starting
/// from whether it has already delivered: the first arrival at a fresh
/// race delivers, and from then on the race is done and nothing more is
/// ever delivered.
pub open spec fn race_deliveries(done: bool, arrivals: nat) -> nat
    decreases arrivals,
{
    if arrivals == 0 {
        0
    } else {
        (if done {
            0nat
        } else {
            1nat
        }) + race_deliveries(true, (arrivals - 1) as nat)
    }
}

/// One arrival at a race for a session: the arrival is passed downstream
/// exactly when the race has not delivered yet, and afterwards the race
/// has delivered in every case.
pub fn race_accept(done: &mut bool) -> (deliver: bool)
    ensures
        deliver == !*old(done),
        *final(done),
{
    let deliver = !*done;
    *done = true;
    deliver
}

/// Law (race exclusivity): over any number of arrivals at a fresh race,
/// exactly one is delivered downstream — the rest are turned away.
pub proof fn lemma_race_exclusivity(arrivals: nat)
    requires
        arrivals >= 1,
    ensures
        race_deliveries(false, arrivals) == 1,
{
    lemma_race_done_delivers_none((arrivals - 1) as nat);
}

/// A race that has delivered never delivers again.
pub proof fn lemma_race_done_delivers_none(arrivals: nat)
    ensures
        race_deliveries(true, arrivals) == 0,
    decreases arrivals,
{
    if arrivals > 0 {
        lemma_race_done_delivers_none((arrivals - 1) as nat);
    }
}

} // verus!
