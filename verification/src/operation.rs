//! The operation roster and the per-node state of the engine's store.
//!
//! The roster is the deferred side-effect buffer of the whole engine: while
//! an operation runs it only records intentions (run a node, cancel a node,
//! note a disposal, release a serialization token), and the drain loop
//! applies them until the roster is empty.

use vstd::prelude::*;

use crate::NodeId;
use crate::SessionId;
use crate::cancel::Cancel;
use crate::cancel::CancelSignal;
use crate::delivery::Delivery;
use crate::disposal::Disposal;
use crate::instructions::DeliveryInstructions;
use crate::promise::PromiseSender;

verus! {

broadcast use vstd::seq_lib::group_seq_lib_default;

/// One buffered input: a payload waiting at a node for one session.
#[derive(Debug)]
pub struct Input<V> {
    /// The session the payload belongs to.
    pub session: SessionId,
    /// The payload itself.
    pub data: V,
}

/// An entry in a node's list of outstanding background tasks.
#[derive(Clone, Copy, PartialEq, Eq, Structural, Debug)]
pub struct ActiveTask {
    /// The node that represents the in-flight task.
    pub task_id: NodeId,
    /// The session the task belongs to.
    pub session: SessionId,
}

/// A serialization token: while a provider delivers one request, the token
/// remembers which order is in flight so that resolving it can dispatch the
/// next one.
#[derive(Clone, Copy, PartialEq, Eq, Structural, Debug)]
pub struct Blocker {
    /// The provider whose delivery queue is blocked.
    pub provider: NodeId,
    /// The node whose request is being delivered.
    pub source: NodeId,
    /// The session being delivered.
    pub session: SessionId,
    /// The delivery instructions of the order in flight.
    pub instructions: Option<DeliveryInstructions>,
}

/// A note that a disposal happened inside a scope, so the scope should
/// re-check whether the session can still finish.
#[derive(Clone, Copy, PartialEq, Eq, Structural, Debug)]
pub struct DisposedSignal {
    /// The scope to re-check.
    pub scope: NodeId,
    /// The session the disposal belongs to.
    pub session: SessionId,
}

/// The mutable, per-tick queue of pending effects. Operations push onto it
/// re-entrantly while the drain loop pops from it; nothing here touches the
/// store itself.
#[derive(Debug)]
pub struct OperationRoster {
    /// Nodes marked for execution, oldest first.
    pub queue: Vec<NodeId>,
    /// Cancellations waiting to be delivered.
    pub cancel: Vec<Cancel>,
    /// Serialization tokens waiting to be released.
    pub unblock: Vec<Blocker>,
    /// Scopes that should re-check reachability.
    pub disposed: Vec<DisposedSignal>,
}

impl OperationRoster {
    /// An empty roster.
    pub fn new() -> (r: Self)
        ensures
            r.queue@.len() == 0,
            r.cancel@.len() == 0,
            r.unblock@.len() == 0,
            r.disposed@.len() == 0,
    {
        Self { queue: Vec::new(), cancel: Vec::new(), unblock: Vec::new(), disposed: Vec::new() }
    }

    /// Mark a node for execution on the next drain pass.
    pub fn queue(&mut self, node: NodeId)
        ensures
            *final(self) == (OperationRoster { queue: final(self).queue, ..*old(self) }),
            final(self).queue@ == old(self).queue@.push(node),
    {
        self.queue.push(node);
    }

    /// Enqueue a cancellation for delivery.
    pub fn cancel(&mut self, cancel: Cancel)
        ensures
            *final(self) == (OperationRoster { cancel: final(self).cancel, ..*old(self) }),
            final(self).cancel@.len() == old(self).cancel@.len() + 1,
            final(self).cancel@ == old(self).cancel@.push(cancel),
    {
        self.cancel.push(cancel);
    }

    /// Release a serialization token.
    pub fn unblock(&mut self, blocker: Blocker)
        ensures
            *final(self) == (OperationRoster { unblock: final(self).unblock, ..*old(self) }),
            final(self).unblock@ == old(self).unblock@.push(blocker),
    {
        self.unblock.push(blocker);
    }

    /// Note that a disposal occurred, so the scope should re-check whether
    /// the session can still finish.
    pub fn disposed(&mut self, scope: NodeId, session: SessionId)
        ensures
            *final(self) == (OperationRoster { disposed: final(self).disposed, ..*old(self) }),
            final(self).disposed@ == old(self).disposed@.push(DisposedSignal { scope, session }),
    {
        self.disposed.push(DisposedSignal { scope, session });
    }

    /// Whether nothing is pending.
    pub fn is_empty(&self) -> (r: bool)
        ensures
            r == (self.queue@.len() == 0 && self.cancel@.len() == 0 && self.unblock@.len() == 0
                && self.disposed@.len() == 0),
    {
        self.queue.len() == 0 && self.cancel.len() == 0 && self.unblock.len() == 0
            && self.disposed.len() == 0
    }
}

/// What behavior a node performs when the roster dispatches it: the
/// closed set of operation kinds, dispatched by tag.
#[derive(Clone, Copy, PartialEq, Eq, Structural, Debug)]
pub enum NodeKind {
    /// Offers a value that was injected by the caller.
    Seed,
    /// Applies a caller-supplied synchronous map to its input.
    BlockingMap,
    /// Launches a background task that computes its result.
    AsyncMap,
    /// An in-flight background task.
    Task,
    /// Delivers the chain's final response to a promise.
    Terminate,
    /// Stores the final response as an attribute of another node.
    Store,
    /// Pushes the final response into a collection on another node.
    Push,
    /// Requests delivery from a service provider.
    ServiceRequest,
    /// Offers a service under a delivery policy.
    Provider,
    /// Passes on the first input to arrive per session and turns every
    /// later one away.
    Race,
}

/// The lifecycle of a background task node.
#[derive(Debug)]
pub enum TaskState<V> {
    /// The computation is running in the background.
    Running,
    /// The computation finished with this result; the node delivers it when
    /// next executed.
    Ready(V),
    /// The task was asked to stop; its resources are released only once the
    /// host confirms the computation has actually stopped.
    CleanupPending,
}

/// A response stored as an attribute of a node.
#[derive(Debug)]
pub struct Storage<V> {
    /// The stored response.
    pub data: V,
    /// The session that produced it.
    pub session: SessionId,
}

/// Responses collected from multiple chains into one container.
#[derive(Debug)]
pub struct Collection<V> {
    /// The items that have been collected.
    pub items: Vec<Storage<V>>,
}

/// One node of the graph: its behavior tag and every attribute the engine
/// reads or writes. Absent attributes are empty or `None`; an operation
/// that needs a missing attribute reports a broken node instead of
/// panicking.
#[verifier::reject_recursive_types(V)]
pub struct Node<V> {
    /// The behavior this node performs when executed.
    pub kind: NodeKind,
    /// The single downstream target, if wired.
    pub target: Option<NodeId>,
    /// The upstream nodes that can still send input here.
    pub sources: Vec<NodeId>,
    /// The scope that watches this node's session lifecycle.
    pub scope: Option<NodeId>,
    /// Buffered inputs, oldest first.
    pub inputs: Vec<Input<V>>,
    /// Sessions this node has marked for its own bookkeeping: a
    /// synchronous map marks sessions whose result the host still owes, a
    /// request link marks sessions already handed to its provider, and a
    /// race marks sessions that already delivered.
    pub marked_sessions: Vec<SessionId>,
    /// Background tasks owned by this node.
    pub active_tasks: Vec<ActiveTask>,
    /// Disposals recorded here, per session.
    pub disposals: Vec<(SessionId, Disposal)>,
    /// Cancellation signals waiting to be read by this node.
    pub cancel_signals: Vec<CancelSignal>,
    /// Whether this node accepts cancellation signals.
    pub cancellable: bool,
    /// Whether this node is a chain target that nothing consumes yet.
    pub unused_target: bool,
    /// Whether the chain up to this node runs even if downstream is dropped.
    pub detached: bool,
    /// The delivery policy, for provider nodes.
    pub delivery: Option<Delivery>,
    /// Delivery instructions attached to this node's requests.
    pub instructions: Option<DeliveryInstructions>,
    /// The provider this node requests delivery from.
    pub provider: Option<NodeId>,
    /// The session a task node belongs to.
    pub session: Option<SessionId>,
    /// The node that owns a task node.
    pub owner: Option<NodeId>,
    /// The serialization token a task node must release when it resolves.
    pub blocker: Option<Blocker>,
    /// The lifecycle of a task node.
    pub task_state: TaskState<V>,
    /// The promise sender of a terminate node.
    pub sender: Option<PromiseSender<V>>,
    /// A response stored on this node.
    pub storage: Option<Storage<V>>,
    /// Responses collected on this node.
    pub collection: Collection<V>,
    /// Sessions for which this node already emitted an unreachability
    /// cancellation, so it is never emitted twice.
    pub unreachable_emitted: Vec<SessionId>,
}

/// The position of the first buffered input for a session, or `-1` if the
/// session has no buffered input.
pub open spec fn first_input_index<V>(inputs: Seq<Input<V>>, session: SessionId) -> int
    decreases inputs.len(),
{
    if inputs.len() == 0 {
        -1
    } else if inputs[0].session == session {
        0
    } else {
        let sub = first_input_index(inputs.skip(1), session);
        if sub == -1 {
            -1
        } else {
            sub + 1
        }
    }
}

/// How many inputs are buffered for a session.
pub open spec fn session_input_count<V>(inputs: Seq<Input<V>>, session: SessionId) -> nat {
    inputs.filter(|i: Input<V>| i.session == session).len()
}

/// The first buffered input for a session is a real input for that session,
/// everything before it belongs to other sessions, and taking it out
/// removes exactly one input of the session.
pub proof fn lemma_first_input_index<V>(inputs: Seq<Input<V>>, session: SessionId)
    ensures
        ({
            let idx = first_input_index(inputs, session);
            &&& idx == -1 || idx >= 0
            &&& idx == -1 ==> session_input_count(inputs, session) == 0
            &&& idx >= 0 ==> idx < inputs.len() && inputs[idx].session == session && (forall|
                j: int,
            |
                0 <= j < idx ==> (#[trigger] inputs[j]).session != session) && session_input_count(
                inputs.remove(idx),
                session,
            ) + 1 == session_input_count(inputs, session)
        }),
    decreases inputs.len(),
{
    reveal_with_fuel(Seq::filter, 2);
    let pred = |i: Input<V>| i.session == session;
    let idx = first_input_index(inputs, session);
    if inputs.len() == 0 {
        assert(inputs.filter(pred) =~= Seq::empty());
    } else {
        let head = seq![inputs[0]];
        let tail = inputs.skip(1);
        assert(inputs =~= head + tail);
        assert(inputs.filter(pred) == head.filter(pred) + tail.filter(pred));
        if inputs[0].session == session {
            assert(head.filter(pred) =~= head);
            assert(inputs.remove(0) =~= tail);
            assert(session_input_count(inputs, session) == 1 + session_input_count(tail, session));
        } else {
            assert(head.filter(pred) =~= Seq::<Input<V>>::empty());
            assert(session_input_count(inputs, session) == session_input_count(tail, session));
            lemma_first_input_index(tail, session);
            let sub = first_input_index(tail, session);
            if sub >= 0 {
                assert(idx == sub + 1);
                assert(inputs[idx] == tail[sub]);
                assert(forall|j: int|
                    1 <= j < idx ==> (#[trigger] inputs[j]) == tail[j - 1]);
                assert(inputs.remove(sub + 1) =~= head + tail.remove(sub));
                assert(inputs.remove(sub + 1).filter(pred) == head.filter(pred) + tail.remove(
                    sub,
                ).filter(pred));
            }
        }
    }
}

/// Law (exactly-once delivery): when a node holds exactly one buffered
/// input for a session, executing the node takes that input, and after the
/// take the session has no buffered input left, so running the node again
/// can never deliver a second time.
pub proof fn lemma_exactly_once_delivery<V>(inputs: Seq<Input<V>>, session: SessionId)
    requires
        session_input_count(inputs, session) == 1,
    ensures
        ({
            let idx = first_input_index(inputs, session);
            &&& 0 <= idx < inputs.len() && inputs[idx].session == session
            &&& first_input_index(inputs.remove(idx), session) == -1
        }),
{
    lemma_first_input_index(inputs, session);
    let idx = first_input_index(inputs, session);
    assert(idx >= 0);
    lemma_first_input_index(inputs.remove(idx), session);
    let idx2 = first_input_index(inputs.remove(idx), session);
    if idx2 >= 0 {
        assert(session_input_count(inputs.remove(idx), session) >= 1);
    }
}

/// Law (delivery adds exactly one input): giving input to a node buffers
/// exactly one more input for that session and none for any other.
pub proof fn lemma_delivery_adds_one<V>(
    inputs: Seq<Input<V>>,
    session: SessionId,
    other: SessionId,
    data: V,
)
    ensures
        session_input_count(inputs.push(Input { session, data }), session) == session_input_count(
            inputs,
            session,
        ) + 1,
        other != session ==> session_input_count(inputs.push(Input { session, data }), other)
            == session_input_count(inputs, other),
{
    reveal_with_fuel(Seq::filter, 2);
    let added = Input { session, data };
    assert(inputs.push(added) =~= inputs + seq![added]);
    assert(inputs.push(added).filter(|i: Input<V>| i.session == session) == inputs.filter(
        |i: Input<V>| i.session == session,
    ) + seq![added].filter(|i: Input<V>| i.session == session));
    assert(seq![added].filter(|i: Input<V>| i.session == session) =~= seq![added]);
    if other != session {
        assert(inputs.push(added).filter(|i: Input<V>| i.session == other) == inputs.filter(
            |i: Input<V>| i.session == other,
        ) + seq![added].filter(|i: Input<V>| i.session == other));
        assert(seq![added].filter(|i: Input<V>| i.session == other) =~= Seq::empty());
    }
}

impl<V> Node<V> {
    /// A bare node of the given kind, with no attributes set.
    pub fn new(kind: NodeKind) -> (r: Self)
        ensures
            r.kind == kind,
            r.target is None,
            r.sources@.len() == 0,
            r.scope is None,
            r.inputs@.len() == 0,
            r.marked_sessions@.len() == 0,
            r.active_tasks@.len() == 0,
            r.disposals@.len() == 0,
            r.cancel_signals@.len() == 0,
            !r.cancellable,
            !r.unused_target,
            !r.detached,
            r.delivery is None,
            r.instructions is None,
            r.provider is None,
            r.session is None,
            r.owner is None,
            r.blocker is None,
            r.task_state is Running,
            r.sender is None,
            r.storage is None,
            r.collection.items@.len() == 0,
            r.unreachable_emitted@.len() == 0,
    {
        Self {
            kind,
            target: None,
            sources: Vec::new(),
            scope: None,
            inputs: Vec::new(),
            marked_sessions: Vec::new(),
            active_tasks: Vec::new(),
            disposals: Vec::new(),
            cancel_signals: Vec::new(),
            cancellable: false,
            unused_target: false,
            detached: false,
            delivery: None,
            instructions: None,
            provider: None,
            session: None,
            owner: None,
            blocker: None,
            task_state: TaskState::Running,
            sender: None,
            storage: None,
            collection: Collection { items: Vec::new() },
            unreachable_emitted: Vec::new(),
        }
    }

    /// Buffer an input at this node.
    pub fn give_input(&mut self, session: SessionId, data: V)
        ensures
            *final(self) == (Node { inputs: final(self).inputs, ..*old(self) }),
            final(self).inputs@ == old(self).inputs@.push(Input { session, data }),
    {
        self.inputs.push(Input { session, data });
    }

    /// Whether this node holds buffered input for the session.
    pub fn has_input(&self, session: SessionId) -> (r: bool)
        ensures
            r == (first_input_index(self.inputs@, session) >= 0),
    {
        proof {
            lemma_first_input_index(self.inputs@, session);
        }
        let n = self.inputs.len();
        let mut i: usize = 0;
        while i < n
            invariant
                i <= n,
                n == self.inputs@.len(),
                forall|j: int| 0 <= j < i ==> (#[trigger] self.inputs@[j]).session != session,
            decreases n - i,
        {
            if self.inputs[i].session == session {
                proof {
                    lemma_first_index_is_first(self.inputs@, session, i as int);
                }
                return true;
            }
            i = i + 1;
        }
        false
    }

    /// The session of the oldest buffered input, if any input is buffered.
    pub fn first_input_session(&self) -> (r: Option<SessionId>)
        ensures
            self.inputs@.len() == 0 ==> r is None,
            self.inputs@.len() > 0 ==> r == Some(self.inputs@[0].session),
    {
        if self.inputs.len() > 0 {
            Some(self.inputs[0].session)
        } else {
            None
        }
    }

    /// Take the oldest buffered input, whatever session it belongs to.
    pub fn pop_input(&mut self) -> (r: Option<Input<V>>)
        ensures
            old(self).inputs@.len() == 0 ==> r is None && *final(self) == *old(self),
            old(self).inputs@.len() > 0 ==> r == Some(old(self).inputs@[0]) && *final(self)
                == (Node { inputs: final(self).inputs, ..*old(self) }) && final(self).inputs@
                == old(self).inputs@.skip(1),
    {
        if self.inputs.len() > 0 {
            let entry = self.inputs.remove(0);
            proof {
                assert(self.inputs@ =~= old(self).inputs@.skip(1));
            }
            Some(entry)
        } else {
            None
        }
    }

    /// Take the oldest buffered input for the session out of this node.
    pub fn take_input(&mut self, session: SessionId) -> (r: Option<V>)
        ensures
            ({
                let idx = first_input_index(old(self).inputs@, session);
                &&& idx == -1 ==> r is None && *final(self) == *old(self)
                &&& idx >= 0 ==> r == Some(old(self).inputs@[idx].data) && *final(self) == (Node {
                    inputs: final(self).inputs,
                    ..*old(self)
                }) && final(self).inputs@ == old(self).inputs@.remove(idx)
            }),
    {
        proof {
            lemma_first_input_index(self.inputs@, session);
        }
        let n = self.inputs.len();
        let mut i: usize = 0;
        while i < n
            invariant
                i <= n,
                n == self.inputs@.len(),
                *self == *old(self),
                forall|j: int| 0 <= j < i ==> (#[trigger] self.inputs@[j]).session != session,
            decreases n - i,
        {
            if self.inputs[i].session == session {
                proof {
                    lemma_first_index_is_first(self.inputs@, session, i as int);
                }
                let taken = self.inputs.remove(i);
                return Some(taken.data);
            }
            i = i + 1;
        }
        None
    }

    /// How many inputs this node holds buffered for the session.
    pub fn session_input_total(&self, session: SessionId) -> (r: usize)
        ensures
            r == session_input_count(self.inputs@, session),
    {
        let ghost pred = |x: Input<V>| x.session == session;
        let n = self.inputs.len();
        let mut i: usize = 0;
        let mut total: usize = 0;
        while i < n
            invariant
                i <= n,
                n == self.inputs@.len(),
                total == session_input_count(self.inputs@.take(i as int), session),
                total <= i,
            decreases n - i,
        {
            proof {
                reveal_with_fuel(Seq::filter, 2);
                assert(self.inputs@.take(i + 1 as int) =~= self.inputs@.take(i as int) + seq![
                    self.inputs@[i as int],
                ]);
                assert((self.inputs@.take(i as int) + seq![self.inputs@[i as int]]).filter(pred)
                    == self.inputs@.take(i as int).filter(pred) + seq![
                    self.inputs@[i as int],
                ].filter(pred));
            }
            if self.inputs[i].session == session {
                total = total + 1;
            }
            i = i + 1;
        }
        proof {
            assert(self.inputs@.take(n as int) =~= self.inputs@);
        }
        total
    }

    /// How many background tasks this node owns for the session.
    pub fn session_task_total(&self, session: SessionId) -> (r: usize)
        ensures
            r == session_task_count(self.active_tasks@, session),
    {
        let n = self.active_tasks.len();
        let mut i: usize = 0;
        let mut total: usize = 0;
        while i < n
            invariant
                i <= n,
                n == self.active_tasks@.len(),
                total == session_task_count(self.active_tasks@.take(i as int), session),
                total <= i,
            decreases n - i,
        {
            proof {
                lemma_session_task_count_take(self.active_tasks@, session, i as int);
            }
            if self.active_tasks[i].session == session {
                total = total + 1;
            }
            i = i + 1;
        }
        proof {
            assert(self.active_tasks@.take(n as int) =~= self.active_tasks@);
        }
        total
    }
}

/// The disposals recorded for a session, in recording order.
pub open spec fn session_disposals(
    pairs: Seq<(SessionId, Disposal)>,
    session: SessionId,
) -> Seq<Disposal>
    decreases pairs.len(),
{
    if pairs.len() == 0 {
        Seq::empty()
    } else {
        let rest = session_disposals(pairs.drop_last(), session);
        if pairs.last().0 == session {
            rest.push(pairs.last().1)
        } else {
            rest
        }
    }
}

/// The recorded disposals that belong to other sessions, in order.
pub open spec fn kept_disposals(
    pairs: Seq<(SessionId, Disposal)>,
    session: SessionId,
) -> Seq<(SessionId, Disposal)>
    decreases pairs.len(),
{
    if pairs.len() == 0 {
        Seq::empty()
    } else {
        let rest = kept_disposals(pairs.drop_last(), session);
        if pairs.last().0 == session {
            rest
        } else {
            rest.push(pairs.last())
        }
    }
}

/// Clearing a session's disposals leaves nothing recorded for it: the
/// kept records all belong to other sessions.
pub proof fn lemma_kept_disposals_clear(pairs: Seq<(SessionId, Disposal)>, session: SessionId)
    ensures
        session_disposals(kept_disposals(pairs, session), session) == Seq::<Disposal>::empty(),
    decreases pairs.len(),
{
    if pairs.len() > 0 {
        lemma_kept_disposals_clear(pairs.drop_last(), session);
        if pairs.last().0 != session {
            let kept = kept_disposals(pairs, session);
            assert(kept.drop_last() =~= kept_disposals(pairs.drop_last(), session));
            assert(kept.last() == pairs.last());
        }
    }
}

/// The position of the first listed task with the given id, or `-1`.
pub open spec fn first_task_index(list: Seq<ActiveTask>, task: NodeId) -> int
    decreases list.len(),
{
    if list.len() == 0 {
        -1
    } else if list[0].task_id == task {
        0
    } else {
        let sub = first_task_index(list.skip(1), task);
        if sub == -1 {
            -1
        } else {
            sub + 1
        }
    }
}

/// The first listed task with the given id really is the first: it is in
/// range and carries the id, and everything before it does not.
pub proof fn lemma_first_task_index(list: Seq<ActiveTask>, task: NodeId)
    ensures
        ({
            let idx = first_task_index(list, task);
            &&& idx == -1 || idx >= 0
            &&& idx == -1 ==> forall|j: int| 0 <= j < list.len() ==> (#[trigger] list[j]).task_id != task
            &&& idx >= 0 ==> idx < list.len() && list[idx].task_id == task && (forall|j: int|
                0 <= j < idx ==> (#[trigger] list[j]).task_id != task)
        }),
    decreases list.len(),
{
    if list.len() > 0 && list[0].task_id != task {
        lemma_first_task_index(list.skip(1), task);
        let sub = first_task_index(list.skip(1), task);
        assert(forall|j: int| 1 <= j < list.len() ==> (#[trigger] list[j]) == list.skip(1)[j - 1]);
    }
}

/// A task found at position `i`, with no earlier occurrence, is the first.
pub proof fn lemma_first_task_is_first(list: Seq<ActiveTask>, task: NodeId, i: int)
    requires
        0 <= i < list.len(),
        list[i].task_id == task,
        forall|j: int| 0 <= j < i ==> (#[trigger] list[j]).task_id != task,
    ensures
        first_task_index(list, task) == i,
    decreases i,
{
    if i > 0 {
        assert(list.skip(1)[i - 1] == list[i]);
        assert(forall|j: int| 0 <= j < i - 1 ==> list.skip(1)[j] == (#[trigger] list[j + 1]));
        lemma_first_task_is_first(list.skip(1), task, i - 1);
    }
}

/// The ids of the listed tasks that belong to the session, in order.
pub open spec fn session_task_ids(list: Seq<ActiveTask>, session: SessionId) -> Seq<NodeId>
    decreases list.len(),
{
    if list.len() == 0 {
        Seq::empty()
    } else {
        let rest = session_task_ids(list.skip(1), session);
        if list[0].session == session {
            seq![list[0].task_id] + rest
        } else {
            rest
        }
    }
}

/// There are as many session task ids as the session's count says.
pub proof fn lemma_session_task_ids_len(list: Seq<ActiveTask>, session: SessionId)
    ensures
        session_task_ids(list, session).len() == session_task_count(list, session),
    decreases list.len(),
{
    if list.len() > 0 {
        lemma_session_task_ids_len(list.skip(1), session);
    }
}

/// Scanning one more task extends the session's id list exactly when the
/// task belongs to the session.
pub proof fn lemma_session_task_ids_take(list: Seq<ActiveTask>, session: SessionId, i: int)
    requires
        0 <= i < list.len(),
    ensures
        session_task_ids(list.take(i + 1), session) == if list[i].session == session {
            session_task_ids(list.take(i), session).push(list[i].task_id)
        } else {
            session_task_ids(list.take(i), session)
        },
    decreases i,
{
    if i == 0 {
        assert(list.take(1).skip(1) =~= Seq::empty());
        assert(list.take(0) =~= Seq::empty());
        assert(list.take(1)[0] == list[0]);
        if list[0].session == session {
            assert(seq![list[0].task_id] + Seq::<NodeId>::empty() =~= Seq::empty().push(
                list[0].task_id,
            ));
        }
    } else {
        assert(list.take(i + 1)[0] == list[0]);
        assert(list.take(i)[0] == list[0]);
        assert(list.take(i + 1).skip(1) =~= list.skip(1).take(i));
        assert(list.take(i).skip(1) =~= list.skip(1).take(i - 1));
        assert(list.skip(1)[i - 1] == list[i]);
        lemma_session_task_ids_take(list.skip(1), session, i - 1);
        if list[0].session == session {
            if list[i].session == session {
                assert(seq![list[0].task_id] + session_task_ids(list.skip(1).take(i), session)
                    =~= (seq![list[0].task_id] + session_task_ids(
                    list.skip(1).take(i - 1),
                    session,
                )).push(list[i].task_id));
            }
        }
    }
}

/// How many of the listed tasks belong to the session.
pub open spec fn session_task_count(list: Seq<ActiveTask>, session: SessionId) -> nat
    decreases list.len(),
{
    if list.len() == 0 {
        0
    } else {
        (if list[0].session == session {
            1nat
        } else {
            0nat
        }) + session_task_count(list.skip(1), session)
    }
}

/// Counting one more task at the end: the count grows by one exactly when
/// the new task belongs to the session.
pub proof fn lemma_session_task_count_take(list: Seq<ActiveTask>, session: SessionId, i: int)
    requires
        0 <= i < list.len(),
    ensures
        session_task_count(list.take(i + 1), session) == session_task_count(list.take(i), session)
            + (if list[i].session == session {
            1nat
        } else {
            0nat
        }),
    decreases i,
{
    if i == 0 {
        assert(list.take(1).skip(1) =~= Seq::empty());
        assert(list.take(0) =~= Seq::empty());
        assert(list.take(1)[0] == list[0]);
    } else {
        assert(list.take(i + 1)[0] == list[0]);
        assert(list.take(i)[0] == list[0]);
        assert(list.take(i + 1).skip(1) =~= list.skip(1).take(i));
        assert(list.take(i).skip(1) =~= list.skip(1).take(i - 1));
        lemma_session_task_count_take(list.skip(1), session, i - 1);
    }
}

/// Removing one listed task lowers the session's count by one exactly when
/// the removed task belongs to the session.
pub proof fn lemma_session_task_count_remove(list: Seq<ActiveTask>, session: SessionId, i: int)
    requires
        0 <= i < list.len(),
    ensures
        session_task_count(list.remove(i), session) + (if list[i].session == session {
            1nat
        } else {
            0nat
        }) == session_task_count(list, session),
    decreases i,
{
    if i == 0 {
        assert(list.remove(0) =~= list.skip(1));
    } else {
        assert(list.remove(i)[0] == list[0]);
        assert(list.remove(i).skip(1) =~= list.skip(1).remove(i - 1));
        lemma_session_task_count_remove(list.skip(1), session, i - 1);
    }
}

/// Law (cleanup completeness): confirming stopped tasks one at a time
/// lowers the session's outstanding count by exactly one each time, so
/// after all of them have confirmed the count is zero and the cleanup
/// notice fires exactly once — at the last confirmation and never before.
pub proof fn lemma_cleanup_completes_after_last_task(
    list: Seq<ActiveTask>,
    session: SessionId,
    i: int,
)
    requires
        0 <= i < list.len(),
        list[i].session == session,
    ensures
        session_task_count(list, session) >= 1,
        session_task_count(list.remove(i), session) == session_task_count(list, session) - 1,
        session_task_count(list, session) == 1 ==> session_task_count(list.remove(i), session)
            == 0,
{
    lemma_session_task_count_remove(list, session, i);
}

/// If an input with the session exists at position `i` and everything
/// before `i` belongs to other sessions, then `i` is the first input index.
pub proof fn lemma_first_index_is_first<V>(inputs: Seq<Input<V>>, session: SessionId, i: int)
    requires
        0 <= i < inputs.len(),
        inputs[i].session == session,
        forall|j: int| 0 <= j < i ==> (#[trigger] inputs[j]).session != session,
    ensures
        first_input_index(inputs, session) == i,
    decreases i,
{
    if i == 0 {
    } else {
        assert(inputs.skip(1)[i - 1] == inputs[i]);
        assert(forall|j: int|
            0 <= j < i - 1 ==> (#[trigger] inputs.skip(1)[j]).session != session) by {
            assert(forall|j: int|
                0 <= j < i - 1 ==> inputs.skip(1)[j] == (#[trigger] inputs[j + 1]));
        }
        lemma_first_index_is_first(inputs.skip(1), session, i - 1);
    }
}

} // verus!
