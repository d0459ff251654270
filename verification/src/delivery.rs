//! Delivery policy for service providers: serial providers run one request
//! at a time, parallel providers run anything concurrently except requests
//! that share a delivery label. A preemptive request supplants unfinished
//! earlier requests with its label, unless those are ensured, in which case
//! the preemptive request queues up behind them.

use vstd::prelude::*;

use crate::NodeId;
use crate::SessionId;
use crate::instructions::DeliveryInstructions;
use std::collections::HashMap;

verus! {

broadcast use {vstd::std_specs::hash::group_hash_axioms, vstd::seq_lib::group_seq_lib_default};

/// One request waiting for (or undergoing) delivery at a provider.
#[derive(Clone, Copy, PartialEq, Eq, Structural, Debug)]
pub struct DeliveryOrder {
    /// The node that made the request.
    pub source: NodeId,
    /// The session the request belongs to.
    pub session: SessionId,
    /// The label, preemption and ensure settings of the request, if any.
    pub instructions: Option<DeliveryInstructions>,
}

/// Whether `incoming` supplants `other`: `incoming` is preemptive, the two
/// share a delivery label, and `other` is not ensured.
pub open spec fn supplants(incoming: DeliveryOrder, other: DeliveryOrder) -> bool {
    match (incoming.instructions, other.instructions) {
        (Some(i), Some(o)) => i.preempt && i.label == o.label && !o.ensure,
        _ => false,
    }
}

/// Executable mirror of [`supplants`].
pub fn order_supplants(incoming: &DeliveryOrder, other: &DeliveryOrder) -> (r: bool)
    ensures
        r == supplants(*incoming, *other),
{
    match (&incoming.instructions, &other.instructions) {
        (Some(i), Some(o)) => i.preempt && i.label == o.label && !o.ensure,
        _ => false,
    }
}

/// The queued orders that survive the arrival of `incoming`.
pub open spec fn kept_queue(queue: Seq<DeliveryOrder>, incoming: DeliveryOrder) -> Seq<
    DeliveryOrder,
> {
    queue.filter(|other: DeliveryOrder| !supplants(incoming, other))
}

/// The queued orders that `incoming` supplants.
pub open spec fn supplanted_queue(queue: Seq<DeliveryOrder>, incoming: DeliveryOrder) -> Seq<
    DeliveryOrder,
> {
    queue.filter(|other: DeliveryOrder| supplants(incoming, other))
}

/// Whether `incoming` supplants the in-flight order.
pub open spec fn supplants_active(active: Option<DeliveryOrder>, incoming: DeliveryOrder) -> bool {
    active matches Some(a) && supplants(incoming, a)
}

/// The in-flight order after `incoming` arrives: an idle provider takes
/// `incoming` at once; a supplanted in-flight order is replaced by the
/// front of the surviving queue, or by `incoming` if nothing survives; an
/// in-flight order that is not supplanted keeps running.
pub open spec fn active_after_insert(
    active: Option<DeliveryOrder>,
    queue: Seq<DeliveryOrder>,
    incoming: DeliveryOrder,
) -> Option<DeliveryOrder> {
    if active is None {
        Some(incoming)
    } else if supplants_active(active, incoming) {
        if kept_queue(queue, incoming).len() == 0 {
            Some(incoming)
        } else {
            Some(kept_queue(queue, incoming)[0])
        }
    } else {
        active
    }
}

/// The waiting queue after `incoming` arrives.
pub open spec fn queue_after_insert(
    active: Option<DeliveryOrder>,
    queue: Seq<DeliveryOrder>,
    incoming: DeliveryOrder,
) -> Seq<DeliveryOrder> {
    if active is None {
        queue
    } else if supplants_active(active, incoming) {
        if kept_queue(queue, incoming).len() == 0 {
            Seq::empty()
        } else {
            kept_queue(queue, incoming).skip(1).push(incoming)
        }
    } else {
        kept_queue(queue, incoming).push(incoming)
    }
}

/// The order (if any) that becomes ready to dispatch when `incoming`
/// arrives. This is `None` exactly when an order that `incoming` does not
/// supplant is already in flight.
pub open spec fn ready_after_insert(
    active: Option<DeliveryOrder>,
    queue: Seq<DeliveryOrder>,
    incoming: DeliveryOrder,
) -> Option<DeliveryOrder> {
    if active is None {
        Some(incoming)
    } else if supplants_active(active, incoming) {
        active_after_insert(active, queue, incoming)
    } else {
        None
    }
}

/// The in-flight order that `incoming` cancels, if any.
pub open spec fn cancelled_active_after_insert(
    active: Option<DeliveryOrder>,
    incoming: DeliveryOrder,
) -> Option<DeliveryOrder> {
    if supplants_active(active, incoming) {
        active
    } else {
        None
    }
}

/// What one insertion into a delivery queue decided.
#[derive(Debug)]
pub struct DeliveryInsertion {
    /// An order that should be dispatched now.
    pub ready: Option<DeliveryOrder>,
    /// The in-flight order that was supplanted and must be cancelled.
    pub supplanted_active: Option<DeliveryOrder>,
    /// Queued orders that were supplanted before ever running.
    pub supplanted_queued: Vec<DeliveryOrder>,
}

/// The per-provider (or per-label) queue that serializes requests: at most
/// one order is in flight, the rest wait in arrival order.
#[derive(Debug)]
pub struct DeliveryQueue {
    /// The order currently being delivered, if any.
    pub active: Option<DeliveryOrder>,
    /// Orders waiting for the active one to resolve, oldest first.
    pub queue: Vec<DeliveryOrder>,
}

impl DeliveryQueue {
    /// Nothing waits while nothing is in flight.
    pub open spec fn wf(&self) -> bool {
        self.active is None ==> self.queue@.len() == 0
    }

    /// An idle queue.
    pub fn new() -> (r: Self)
        ensures
            r.active is None,
            r.queue@.len() == 0,
            r.wf(),
    {
        Self { active: None, queue: Vec::new() }
    }

    /// Admit a new order. Exactly one of three things happens: the idle
    /// provider dispatches it at once; it supplants unfinished orders with
    /// its label and is dispatched or queued accordingly; or it queues up
    /// behind the order in flight.
    pub fn insert(&mut self, incoming: DeliveryOrder) -> (r: DeliveryInsertion)
        ensures
            final(self).wf(),
            final(self).active == active_after_insert(
                old(self).active,
                old(self).queue@,
                incoming,
            ),
            final(self).queue@ == queue_after_insert(old(self).active, old(self).queue@, incoming),
            r.ready == ready_after_insert(old(self).active, old(self).queue@, incoming),
            r.supplanted_active == cancelled_active_after_insert(old(self).active, incoming),
            r.supplanted_queued@ == supplanted_queue(old(self).queue@, incoming),
    {
        let ghost original_queue = self.queue@;
        let mut kept: Vec<DeliveryOrder> = Vec::new();
        let mut dropped: Vec<DeliveryOrder> = Vec::new();
        let n = self.queue.len();
        let mut i: usize = 0;
        while i < n
            invariant
                i <= n,
                n == self.queue@.len(),
                self.queue@ == original_queue,
                kept@ == kept_queue(original_queue.take(i as int), incoming),
                dropped@ == supplanted_queue(original_queue.take(i as int), incoming),
            decreases n - i,
        {
            let x = self.queue[i];
            proof {
                reveal_with_fuel(Seq::filter, 2);
                assert(original_queue.take(i + 1 as int) =~= original_queue.take(i as int)
                    + seq![x]);
            }
            if order_supplants(&incoming, &x) {
                dropped.push(x);
            } else {
                kept.push(x);
            }
            i = i + 1;
        }
        proof {
            assert(original_queue.take(n as int) =~= original_queue);
        }
        match self.active {
            None => {
                self.active = Some(incoming);
                DeliveryInsertion {
                    ready: Some(incoming),
                    supplanted_active: None,
                    supplanted_queued: dropped,
                }
            }
            Some(current) => {
                if order_supplants(&incoming, &current) {
                    if kept.len() == 0 {
                        self.active = Some(incoming);
                        self.queue = Vec::new();
                        DeliveryInsertion {
                            ready: Some(incoming),
                            supplanted_active: Some(current),
                            supplanted_queued: dropped,
                        }
                    } else {
                        let next = kept.remove(0);
                        let ghost survivors = kept_queue(original_queue, incoming);
                        proof {
                            assert(kept@ =~= survivors.skip(1));
                        }
                        kept.push(incoming);
                        self.active = Some(next);
                        self.queue = kept;
                        DeliveryInsertion {
                            ready: Some(next),
                            supplanted_active: Some(current),
                            supplanted_queued: dropped,
                        }
                    }
                } else {
                    kept.push(incoming);
                    self.queue = kept;
                    DeliveryInsertion {
                        ready: None,
                        supplanted_active: None,
                        supplanted_queued: dropped,
                    }
                }
            }
        }
    }

    /// Resolve the in-flight order (delivered or cancelled). Only the
    /// order actually in flight can resolve: a late token from an order
    /// that was supplanted earlier changes nothing. The next waiting
    /// order, if any, moves in flight and is returned so the caller
    /// dispatches it; a serial provider therefore never has two orders in
    /// flight at once.
    pub fn finish_active(&mut self, finished: &DeliveryOrder) -> (r: Option<DeliveryOrder>)
        ensures
            old(self).wf() ==> final(self).wf(),
            ({
                let resolving = old(self).active matches Some(a) && a.source == finished.source
                    && a.session == finished.session;
                &&& !resolving ==> *final(self) == *old(self) && r is None
                &&& (resolving && old(self).queue@.len() == 0) ==> final(self).active is None
                    && r is None && final(self).queue@ == old(self).queue@
                &&& (resolving && old(self).queue@.len() > 0) ==> final(self).active == Some(
                    old(self).queue@[0],
                ) && r == Some(old(self).queue@[0]) && final(self).queue@ == old(
                    self,
                ).queue@.skip(1)
            }),
    {
        let resolving = match &self.active {
            Some(a) => a.source == finished.source && a.session == finished.session,
            None => false,
        };
        if !resolving {
            return None;
        }
        if self.queue.len() == 0 {
            self.active = None;
            None
        } else {
            let next = self.queue.remove(0);
            proof {
                assert(self.queue@ =~= old(self).queue@.skip(1));
            }
            self.active = Some(next);
            Some(next)
        }
    }
}

/// Law: two requests sent to one serial-delivery provider never have
/// overlapping delivery windows. The first request sent to an idle
/// provider is dispatched at once; a second, non-preemptive request is not
/// dispatched while the first is in flight, and it is exactly the order
/// promoted when the first resolves.
pub proof fn lemma_serial_delivery_mutual_exclusion(first: DeliveryOrder, second: DeliveryOrder)
    requires
        !(second.instructions matches Some(i) && i.preempt),
    ensures
        ({
            let empty = Seq::<DeliveryOrder>::empty();
            let active1 = active_after_insert(None, empty, first);
            let queue1 = queue_after_insert(None, empty, first);
            let queue2 = queue_after_insert(active1, queue1, second);
            &&& ready_after_insert(None, empty, first) == Some(first)
            &&& active1 == Some(first)
            &&& ready_after_insert(active1, queue1, second) is None
            &&& active_after_insert(active1, queue1, second) == Some(first)
            &&& queue2.len() == 1 && queue2[0] == second
        }),
{
    reveal_with_fuel(Seq::filter, 2);
    let empty = Seq::<DeliveryOrder>::empty();
    assert(!supplants(second, first));
    assert(kept_queue(empty, second) =~= empty);
}

/// Law: a preemptive labeled request supplants an unfinished earlier
/// request that shares its label and is not ensured: the earlier request
/// is cancelled and the preemptive request is dispatched in its place.
pub proof fn lemma_preemption_cancels_unensured(first: DeliveryOrder, second: DeliveryOrder)
    requires
        first.instructions matches Some(f) && second.instructions matches Some(s) && s.preempt
            && !f.ensure && f.label == s.label,
    ensures
        ({
            let empty = Seq::<DeliveryOrder>::empty();
            &&& cancelled_active_after_insert(Some(first), second) == Some(first)
            &&& ready_after_insert(Some(first), empty, second) == Some(second)
            &&& active_after_insert(Some(first), empty, second) == Some(second)
            &&& queue_after_insert(Some(first), empty, second).len() == 0
        }),
{
    reveal_with_fuel(Seq::filter, 2);
    let empty = Seq::<DeliveryOrder>::empty();
    assert(supplants(second, first));
    assert(kept_queue(empty, second) =~= empty);
}

/// Law: an ensured request is immune to preemption. A preemptive request
/// arriving with the same label does not cancel it and is queued behind it
/// instead.
pub proof fn lemma_ensured_resists_preemption(first: DeliveryOrder, second: DeliveryOrder)
    requires
        first.instructions matches Some(f) && second.instructions matches Some(s) && s.preempt
            && f.ensure && f.label == s.label,
    ensures
        ({
            let empty = Seq::<DeliveryOrder>::empty();
            let queue2 = queue_after_insert(Some(first), empty, second);
            &&& cancelled_active_after_insert(Some(first), second) is None
            &&& ready_after_insert(Some(first), empty, second) is None
            &&& active_after_insert(Some(first), empty, second) == Some(first)
            &&& queue2.len() == 1 && queue2[0] == second
        }),
{
    reveal_with_fuel(Seq::filter, 2);
    let empty = Seq::<DeliveryOrder>::empty();
    assert(!supplants(second, first));
    assert(kept_queue(empty, second) =~= empty);
}

/// How a provider delivers requests: serial providers (and blocking
/// providers, which are always serial) run one request at a time through a
/// single queue; parallel providers dispatch unlabeled requests at once and
/// serialize only requests that share a label.
#[derive(Debug)]
pub enum Delivery {
    /// Only one request in flight per provider at a time.
    Serial(DeliveryQueue),
    /// Concurrent dispatch; mutual exclusion only per delivery label.
    Parallel(HashMap<u64, DeliveryQueue>),
}

impl Delivery {
    /// Every queue of the policy is well-formed.
    pub open spec fn wf(&self) -> bool {
        match *self {
            Delivery::Serial(q) => q.wf(),
            Delivery::Parallel(m) => forall|k: u64| m@.contains_key(k) ==> (#[trigger] m@[k]).wf(),
        }
    }

    /// A serial delivery policy.
    pub fn serial() -> (r: Self)
        ensures
            r matches Delivery::Serial(q) && q.active is None && q.queue@.len() == 0,
            r.wf(),
    {
        Delivery::Serial(DeliveryQueue::new())
    }

    /// A parallel delivery policy.
    pub fn parallel() -> (r: Self)
        ensures
            r matches Delivery::Parallel(m) && m@ == Map::<u64, DeliveryQueue>::empty(),
            r.wf(),
    {
        Delivery::Parallel(HashMap::new())
    }

    /// Admit a new order under this policy. A parallel provider dispatches
    /// an unlabeled order immediately; everything else goes through the
    /// provider's queue or the label's queue.
    pub fn insert(&mut self, incoming: DeliveryOrder) -> (r: DeliveryInsertion)
        ensures
            old(self).wf() ==> final(self).wf(),
            *old(self) matches Delivery::Serial(q) ==> {
                &&& *final(self) matches Delivery::Serial(q2) && q2.active == active_after_insert(
                    q.active,
                    q.queue@,
                    incoming,
                ) && q2.queue@ == queue_after_insert(q.active, q.queue@, incoming)
                &&& r.ready == ready_after_insert(q.active, q.queue@, incoming)
                &&& r.supplanted_active == cancelled_active_after_insert(q.active, incoming)
                &&& r.supplanted_queued@ == supplanted_queue(q.queue@, incoming)
            },
            *old(self) matches Delivery::Parallel(m) ==> incoming.instructions is None ==> {
                &&& *final(self) == *old(self)
                &&& r.ready == Some(incoming)
                &&& r.supplanted_active is None
                &&& r.supplanted_queued@.len() == 0
            },
            *old(self) matches Delivery::Parallel(m) ==> incoming.instructions matches Some(ins)
                ==> {
                let before_active = if m@.contains_key(ins.label.value) {
                    m@[ins.label.value].active
                } else {
                    None::<DeliveryOrder>
                };
                let before_queue = if m@.contains_key(ins.label.value) {
                    m@[ins.label.value].queue@
                } else {
                    Seq::<DeliveryOrder>::empty()
                };
                &&& *final(self) matches Delivery::Parallel(m2) && m2@.dom() == m@.dom().insert(
                    ins.label.value,
                ) && (forall|k: u64|
                    k != ins.label.value && m2@.contains_key(k) ==> #[trigger] m2@[k] == m@[k])
                    && m2@[ins.label.value].active == active_after_insert(
                    before_active,
                    before_queue,
                    incoming,
                ) && m2@[ins.label.value].queue@ == queue_after_insert(
                    before_active,
                    before_queue,
                    incoming,
                )
                &&& r.ready == ready_after_insert(before_active, before_queue, incoming)
                &&& r.supplanted_active == cancelled_active_after_insert(before_active, incoming)
                &&& r.supplanted_queued@ == supplanted_queue(before_queue, incoming)
            },
    {
        match self {
            Delivery::Serial(queue) => queue.insert(incoming),
            Delivery::Parallel(queues) => {
                match &incoming.instructions {
                    None => DeliveryInsertion {
                        ready: Some(incoming),
                        supplanted_active: None,
                        supplanted_queued: Vec::new(),
                    },
                    Some(ins) => {
                        let key = ins.label.value;
                        let mut queue = match queues.remove(&key) {
                            Some(q) => q,
                            None => DeliveryQueue::new(),
                        };
                        let outcome = queue.insert(incoming);
                        queues.insert(key, queue);
                        outcome
                    }
                }
            }
        }
    }

    /// Resolve the in-flight order for the queue the given order occupied,
    /// promoting and returning the next order of that queue, if any.
    pub fn finish(&mut self, finished: &DeliveryOrder) -> (r: Option<DeliveryOrder>)
        ensures
            old(self).wf() ==> final(self).wf(),
            *old(self) matches Delivery::Serial(q) ==> {
                let resolving = q.active matches Some(a) && a.source == finished.source
                    && a.session == finished.session;
                &&& (resolving && q.queue@.len() == 0) ==> r is None
                &&& (resolving && q.queue@.len() > 0) ==> r == Some(q.queue@[0])
                &&& !resolving ==> r is None
            },
            (*old(self) matches Delivery::Parallel(m) && finished.instructions is None) ==> r
                is None,
    {
        match self {
            Delivery::Serial(queue) => queue.finish_active(finished),
            Delivery::Parallel(queues) => {
                match &finished.instructions {
                    None => None,
                    Some(ins) => {
                        let key = ins.label.value;
                        match queues.remove(&key) {
                            Some(mut queue) => {
                                let next = queue.finish_active(finished);
                                queues.insert(key, queue);
                                next
                            }
                            None => None,
                        }
                    }
                }
            }
        }
    }
}

} // verus!
