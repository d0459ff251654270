//! The engine: a store of nodes, the roster drain loop, and the host-facing
//! surface. Background work (maps, service bodies, async tasks) is not run
//! here: when the engine decides such work must happen it records an
//! [`Action`], and the host reports the outcome back through the completion
//! calls or the wake queue. Every decision in between is verified.

use vstd::prelude::*;

use crate::NodeId;
use crate::SessionId;
use crate::cancel::Cancel;
use crate::cancel::CancelFailure;
use crate::cancel::CancelSignal;
use crate::cancel::Cancellation;
use crate::cancel::CancellationCause;
use crate::cancel::OperationError;
use crate::cancel::UnhandledErrors;
use crate::channels::WakeQueue;
use crate::channels::channel_send;
use crate::channels::channel_sender_clone;
use crate::channels::channel_try_recv;
use crate::delivery::DeliveryOrder;
use crate::diagnostics::capture_backtrace;
use crate::disposal::Disposal;
use crate::disposal::DisposalCause;
use crate::disposal::DisposalFailure;
use crate::disposal::ServiceUnavailable;
use crate::instructions::DeliveryInstructions;
use crate::operation::ActiveTask;
use crate::operation::Blocker;
use crate::operation::DisposedSignal;
use crate::operation::Input;
use crate::operation::Node;
use crate::operation::NodeKind;
use crate::operation::OperationRoster;
use crate::operation::Storage;
use crate::operation::TaskState;
use crate::operation::first_input_index;
use crate::operation::first_task_index;
use crate::operation::kept_disposals;
use crate::operation::session_disposals;
use crate::operation::session_task_count;
use crate::operation::session_task_ids;
use crate::promise::Promise;
use crate::service::Service;
use crate::shared::share;
use std::collections::HashMap;

verus! {

broadcast use {vstd::std_specs::hash::group_hash_axioms, vstd::seq_lib::group_seq_lib_default};

/// Work that only the host can perform. The engine appends these while it
/// drains; the host takes them, performs them, and reports back through
/// [`Engine::deliver_map_result`], [`Engine::complete_task`],
/// [`Engine::confirm_task_stopped`] or the wake queue.
pub enum Action<V> {
    /// Run the synchronous map of `node` on `request` and hand the result
    /// back with [`Engine::deliver_map_result`].
    RunBlockingMap { node: NodeId, session: SessionId, request: V },
    /// Start the background computation that `task` stands for and report
    /// its result with [`Engine::complete_task`].
    StartTask { task: NodeId, owner: NodeId, session: SessionId, request: V },
    /// Stop the background computation of `task` and, once it has really
    /// stopped, confirm with [`Engine::confirm_task_stopped`].
    StopTask { task: NodeId },
}

/// One request waiting to be dispatched to a provider. Queued rather than
/// dispatched immediately when a dispatch is already draining, to avoid
/// re-entrant recursion through the same call stack.
#[derive(Clone, Copy, PartialEq, Eq, Structural, Debug)]
pub struct ServiceRequest {
    /// The provider to dispatch to.
    pub provider: NodeId,
    /// The node whose buffered input is the request.
    pub source: NodeId,
    /// The session being requested.
    pub session: SessionId,
}

/// A chain under construction: the most recent operation node and the
/// still-unused target that the next link (or a promise) will claim.
#[derive(Clone, Copy, PartialEq, Eq, Structural, Debug)]
pub struct ImpulseChain {
    /// The node that will produce this link's response.
    pub source: NodeId,
    /// The node the response will be delivered to.
    pub target: NodeId,
    /// The session of the request traveling down this chain.
    pub session: SessionId,
}

/// A record that per-session cleanup finished at a node: every buffered
/// input was released and every background task confirmed stopped.
#[derive(Clone, Copy, PartialEq, Eq, Structural, Debug)]
pub struct CleanupNotice {
    /// The node whose per-session state is fully released.
    pub node: NodeId,
    /// The session that is finished at that node.
    pub session: SessionId,
}

/// The workflow engine. All graph mutation happens on the thread that holds
/// it; background work communicates back only through the wake queue and
/// the completion calls.
#[verifier::reject_recursive_types(V)]
pub struct Engine<V> {
    /// The attribute store: every node of the graph, keyed by id.
    pub nodes: HashMap<u64, Node<V>>,
    /// The next id to hand out; ids double as session identifiers.
    pub next_id: u64,
    /// The deferred side-effect buffer driving the drain loop.
    pub roster: OperationRoster,
    /// The process-wide sink for failures that could not be delivered.
    pub unhandled: UnhandledErrors,
    /// Work the host still has to perform.
    pub actions: Vec<Action<V>>,
    /// Cleanup completions, in the order they were confirmed.
    pub cleaned: Vec<CleanupNotice>,
    /// Whether a service dispatch is already draining.
    pub dispatch_in_progress: bool,
    /// Requests that arrived while a dispatch was draining.
    pub pending_service_requests: Vec<ServiceRequest>,
    /// Chain targets that no consumer has claimed yet.
    pub unused_targets: Vec<NodeId>,
    /// The cross-thread wake notification channel.
    pub wake: WakeQueue,
}

impl<V> Engine<V> {
    /// An empty engine.
    pub fn new() -> (r: Self)
        ensures
            r.nodes@ == Map::<u64, Node<V>>::empty(),
            r.roster.queue@.len() == 0 && r.roster.cancel@.len() == 0 && r.roster.unblock@.len()
                == 0 && r.roster.disposed@.len() == 0,
            r.unhandled.cancellations@.len() == 0 && r.unhandled.operations@.len() == 0
                && r.unhandled.disposals@.len() == 0 && r.unhandled.stop_tasks@.len() == 0
                && r.unhandled.unused_targets@.len() == 0,
            r.actions@.len() == 0,
            r.cleaned@.len() == 0,
            !r.dispatch_in_progress,
            r.pending_service_requests@.len() == 0,
            r.unused_targets@.len() == 0,
    {
        Engine {
            nodes: HashMap::new(),
            next_id: 1,
            roster: OperationRoster::new(),
            unhandled: UnhandledErrors::new(),
            actions: Vec::new(),
            cleaned: Vec::new(),
            dispatch_in_progress: false,
            pending_service_requests: Vec::new(),
            unused_targets: Vec::new(),
            wake: WakeQueue::new(),
        }
    }

    /// A sender that background work can use to wake a node from another
    /// thread: send the node's id and the next flush will queue it.
    pub fn wake_sender(&self) -> crossbeam::channel::Sender<u64> {
        channel_sender_clone(&self.wake.sender)
    }

    /// Hand out the host's pending work, leaving none recorded.
    pub fn take_actions(&mut self) -> (r: Vec<Action<V>>)
        ensures
            r@ == old(self).actions@,
            final(self).actions@.len() == 0,
            *final(self) == (Engine { actions: final(self).actions, ..*old(self) }),
    {
        let mut taken: Vec<Action<V>> = Vec::new();
        core::mem::swap(&mut taken, &mut self.actions);
        taken
    }

    fn alloc_id(&mut self) -> (r: u64)
        ensures
            r == old(self).next_id,
            *final(self) == (Engine { next_id: final(self).next_id, ..*old(self) }),
    {
        let id = self.next_id;
        self.next_id = if self.next_id < u64::MAX {
            self.next_id + 1
        } else {
            u64::MAX
        };
        id
    }

    fn spawn(&mut self, node: Node<V>) -> (r: NodeId)
        ensures
            final(self).nodes@ == old(self).nodes@.insert(r, node),
            *final(self) == (Engine {
                nodes: final(self).nodes,
                next_id: final(self).next_id,
                ..*old(self)
            }),
    {
        let id = self.alloc_id();
        self.nodes.insert(id, node);
        id
    }

    /// Deliver one input into a node's buffer and queue the node for
    /// execution. When the target is gone, reports a broken link and
    /// changes nothing.
    pub fn give_input(&mut self, target: NodeId, session: SessionId, data: V) -> (r: Result<
        (),
        OperationError,
    >)
        ensures
            r is Ok <==> old(self).nodes@.contains_key(target),
            r is Ok ==> {
                let after = final(self).nodes@[target];
                &&& final(self).nodes@ == old(self).nodes@.insert(target, after)
                &&& after == (Node { inputs: after.inputs, ..old(self).nodes@[target] })
                &&& after.inputs@ == old(self).nodes@[target].inputs@.push(
                    Input { session, data },
                )
                &&& final(self).roster.queue@ == old(self).roster.queue@.push(target)
                &&& final(self).roster == (OperationRoster {
                    queue: final(self).roster.queue,
                    ..old(self).roster
                })
                &&& *final(self) == (Engine {
                    nodes: final(self).nodes,
                    roster: final(self).roster,
                    ..*old(self)
                })
            },
            r is Err ==> *final(self) == *old(self),
    {
        if !self.nodes.contains_key(&target) {
            return Err(OperationError::NotReady);
        }
        match self.nodes.remove(&target) {
            Some(mut node) => {
                node.give_input(session, data);
                self.nodes.insert(target, node);
                proof {
                    assert(self.nodes@ =~= old(self).nodes@.insert(
                        target,
                        self.nodes@[target],
                    ));
                }
                self.roster.queue(target);
                Ok(())
            }
            None => Err(OperationError::NotReady),
        }
    }

    /// Inject a request value, starting a fresh session. The returned chain
    /// ends in a target that must be claimed by another link, a promise, or
    /// a detach before the next flush, or the whole chain is cancelled as
    /// unused.
    pub fn provide(&mut self, value: V) -> (r: ImpulseChain)
        ensures
            final(self).nodes@.contains_key(r.source),
            final(self).nodes@.contains_key(r.target),
            final(self).roster.queue@ == old(self).roster.queue@.push(r.source),
            final(self).unused_targets@ == old(self).unused_targets@.push(r.target),
            *final(self) == (Engine {
                nodes: final(self).nodes,
                next_id: final(self).next_id,
                roster: final(self).roster,
                unused_targets: final(self).unused_targets,
                ..*old(self)
            }),
            final(self).roster == (OperationRoster {
                queue: final(self).roster.queue,
                ..old(self).roster
            }),
            r.source != r.target ==> ({
                let seed = final(self).nodes@[r.source];
                let end = final(self).nodes@[r.target];
                &&& final(self).nodes@ == old(self).nodes@.insert(r.source, seed).insert(
                    r.target,
                    end,
                )
                &&& seed.kind is Seed && seed.target == Some(r.target) && seed.inputs@.len() == 1
                    && seed.inputs@[0] == (Input { session: r.session, data: value })
                    && !seed.unused_target
                &&& end.kind is Terminate && end.unused_target && end.sender is None
                    && end.sources@ == seq![r.source] && end.inputs@.len() == 0 && end.target
                    is None
            }),
    {
        let session = self.alloc_id();
        let mut seed = Node::new(NodeKind::Seed);
        let mut target_node = Node::new(NodeKind::Terminate);
        target_node.unused_target = true;
        seed.give_input(session, value);
        let source = self.alloc_id();
        let target = self.alloc_id();
        seed.target = Some(target);
        target_node.sources.push(source);
        proof {
            assert(target_node.sources@ =~= seq![source]);
        }
        self.nodes.insert(source, seed);
        self.nodes.insert(target, target_node);
        proof {
            if source != target {
                assert(self.nodes@ =~= old(self).nodes@.insert(source, self.nodes@[source]).insert(
                    target,
                    self.nodes@[target],
                ));
            }
        }
        self.unused_targets.push(target);
        self.roster.queue(source);
        ImpulseChain { source, target, session }
    }

    fn remove_unused_mark(&mut self, id: NodeId)
        ensures
            *final(self) == (Engine { unused_targets: final(self).unused_targets, ..*old(self) }),
            final(self).unused_targets@ == old(self).unused_targets@.filter(
                |m: NodeId| m != id,
            ),
    {
        let ghost original = self.unused_targets@;
        let mut kept: Vec<NodeId> = Vec::new();
        let n = self.unused_targets.len();
        let mut i: usize = 0;
        while i < n
            invariant
                i <= n,
                n == self.unused_targets@.len(),
                self.unused_targets@ == original,
                kept@ == original.take(i as int).filter(|m: NodeId| m != id),
                *self == (Engine { unused_targets: self.unused_targets, ..*old(self) }),
            decreases n - i,
        {
            let mark = self.unused_targets[i];
            proof {
                reveal_with_fuel(Seq::filter, 2);
                assert(original.take(i + 1 as int) =~= original.take(i as int) + seq![mark]);
            }
            if mark != id {
                kept.push(mark);
            }
            i = i + 1;
        }
        proof {
            assert(original.take(n as int) =~= original);
        }
        self.unused_targets = kept;
    }

    /// Turn the chain's unused target into an operation node of the given
    /// kind and open a fresh unused target after it.
    fn then_kind(
        &mut self,
        chain: ImpulseChain,
        kind: NodeKind,
        provider: Option<NodeId>,
        instructions: Option<DeliveryInstructions>,
    ) -> (r: ImpulseChain)
        ensures
            r.source == chain.target,
            r.session == chain.session,
            final(self).unused_targets@ == old(self).unused_targets@.filter(
                |m: NodeId| m != chain.target,
            ).push(r.target),
            (old(self).nodes@.contains_key(chain.target) && r.target != chain.target) ==> ({
                let op = final(self).nodes@[chain.target];
                let end = final(self).nodes@[r.target];
                &&& final(self).nodes@ == old(self).nodes@.insert(chain.target, op).insert(
                    r.target,
                    end,
                )
                &&& op == (Node {
                    kind,
                    unused_target: false,
                    cancellable: true,
                    target: Some(r.target),
                    provider,
                    instructions,
                    ..old(self).nodes@[chain.target]
                })
                &&& end.kind is Terminate && end.unused_target && end.sender is None
                    && end.sources@ == seq![chain.target] && end.inputs@.len() == 0
            }),
            !old(self).nodes@.contains_key(chain.target) ==> ({
                final(self).unhandled.operations@.len() == old(self).unhandled.operations@.len()
                    + 1
            }),
    {
        let target = self.alloc_id();
        match self.nodes.remove(&chain.target) {
            Some(mut node) => {
                node.kind = kind;
                node.unused_target = false;
                node.cancellable = true;
                node.target = Some(target);
                node.provider = provider;
                node.instructions = instructions;
                self.nodes.insert(chain.target, node);
                proof {
                    assert(self.nodes@ =~= old(self).nodes@.insert(
                        chain.target,
                        self.nodes@[chain.target],
                    ));
                }
            }
            None => {
                self.unhandled.operations.push(OperationError::Broken(None));
            }
        }
        self.remove_unused_mark(chain.target);
        let mut target_node = Node::new(NodeKind::Terminate);
        target_node.unused_target = true;
        target_node.sources.push(chain.target);
        proof {
            assert(target_node.sources@ =~= seq![chain.target]);
        }
        self.nodes.insert(target, target_node);
        proof {
            if self.nodes@.contains_key(chain.target) && target != chain.target
                && old(self).nodes@.contains_key(chain.target) {
                assert(self.nodes@ =~= old(self).nodes@.insert(
                    chain.target,
                    self.nodes@[chain.target],
                ).insert(target, self.nodes@[target]));
            }
        }
        self.unused_targets.push(target);
        ImpulseChain { source: chain.target, target, session: chain.session }
    }

    /// Continue the chain with a synchronous map that the host runs.
    pub fn map_block(&mut self, chain: ImpulseChain) -> (r: ImpulseChain)
        ensures
            r.source == chain.target,
            r.session == chain.session,
    {
        self.then_kind(chain, NodeKind::BlockingMap, None, None)
    }

    /// Continue the chain with a map that runs as a background task.
    pub fn map_async(&mut self, chain: ImpulseChain) -> (r: ImpulseChain)
        ensures
            r.source == chain.target,
            r.session == chain.session,
    {
        self.then_kind(chain, NodeKind::AsyncMap, None, None)
    }

    /// Continue the chain by requesting a service from a provider.
    pub fn then_service(&mut self, chain: ImpulseChain, service: &Service) -> (r: ImpulseChain)
        ensures
            r.source == chain.target,
            r.session == chain.session,
    {
        self.then_kind(
            chain,
            NodeKind::ServiceRequest,
            Some(service.provider()),
            service.instructions_value(),
        )
    }

    /// Take the response of the chain as a promise. The chain will run, and
    /// the promise resolves when the response reaches the chain's end, or
    /// is cancelled when the chain is.
    pub fn take_response(&mut self, chain: ImpulseChain) -> (r: Promise<V>)
        ensures
            r.state is Pending,
            final(self).unused_targets@ == old(self).unused_targets@.filter(
                |m: NodeId| m != chain.target,
            ),
            old(self).nodes@.contains_key(chain.target) ==> ({
                let end = final(self).nodes@[chain.target];
                &&& final(self).nodes@ == old(self).nodes@.insert(chain.target, end)
                &&& end == (Node {
                    kind: NodeKind::Terminate,
                    unused_target: false,
                    cancellable: true,
                    sender: end.sender,
                    ..old(self).nodes@[chain.target]
                })
                &&& end.sender matches Some(s) && s.target == r.target && s.cond == r.cond
            }),
    {
        let (promise, sender) = Promise::new();
        match self.nodes.remove(&chain.target) {
            Some(mut node) => {
                node.kind = NodeKind::Terminate;
                node.unused_target = false;
                node.cancellable = true;
                node.sender = Some(sender);
                self.nodes.insert(chain.target, node);
                proof {
                    assert(self.nodes@ =~= old(self).nodes@.insert(
                        chain.target,
                        self.nodes@[chain.target],
                    ));
                }
            }
            None => {
                self.unhandled.operations.push(OperationError::Broken(None));
            }
        }
        self.remove_unused_mark(chain.target);
        promise
    }

    /// The caller no longer wants the chain's response: the chain's end is
    /// cancelled as a dropped target, which resolves its promise (if one
    /// was taken) as cancelled and cleans the session up at that node.
    pub fn release_response(&mut self, chain: ImpulseChain)
        ensures
            ({
                let pushed = final(self).roster.cancel@.last();
                &&& final(self).roster.cancel@.len() == old(self).roster.cancel@.len() + 1
                &&& old(self).roster.cancel@.is_prefix_of(final(self).roster.cancel@)
                &&& pushed.source == chain.target && pushed.target == chain.target
                &&& pushed.session == Some(chain.session)
                &&& pushed.cancellation.cause == CancellationCause::TargetDropped(chain.target)
                &&& *final(self) == (Engine { roster: final(self).roster, ..*old(self) })
            }),
    {
        let cancellation = Cancellation::target_dropped(chain.target);
        self.roster.cancel(
            Cancel {
                source: chain.target,
                target: chain.target,
                session: Some(chain.session),
                cancellation,
            },
        );
        proof {
            let pre = old(self).roster.cancel@;
            assert(self.roster.cancel@.take(pre.len() as int) =~= pre);
        }
    }

    /// Let the chain run to completion and discard its response, even if
    /// nothing downstream ever claims it.
    pub fn detach(&mut self, chain: ImpulseChain)
        ensures
            final(self).unused_targets@ == old(self).unused_targets@.filter(
                |m: NodeId| m != chain.target,
            ),
            old(self).nodes@.contains_key(chain.target) ==> ({
                let after = final(self).nodes@[chain.target];
                &&& final(self).nodes@ == old(self).nodes@.insert(chain.target, after)
                &&& after == (Node {
                    detached: true,
                    unused_target: false,
                    ..old(self).nodes@[chain.target]
                })
            }),
    {
        match self.nodes.remove(&chain.target) {
            Some(mut node) => {
                node.detached = true;
                node.unused_target = false;
                self.nodes.insert(chain.target, node);
                proof {
                    assert(self.nodes@ =~= old(self).nodes@.insert(
                        chain.target,
                        self.nodes@[chain.target],
                    ));
                }
            }
            None => {
                self.unhandled.operations.push(OperationError::Broken(None));
            }
        }
        self.remove_unused_mark(chain.target);
    }

    /// Store the chain's response as an attribute of `at`.
    pub fn store_response(&mut self, chain: ImpulseChain, at: NodeId)
        ensures
            final(self).unused_targets@ == old(self).unused_targets@.filter(
                |m: NodeId| m != chain.target,
            ),
            old(self).nodes@.contains_key(chain.target) ==> ({
                let after = final(self).nodes@[chain.target];
                &&& final(self).nodes@ == old(self).nodes@.insert(chain.target, after)
                &&& after == (Node {
                    kind: NodeKind::Store,
                    unused_target: false,
                    cancellable: true,
                    target: Some(at),
                    ..old(self).nodes@[chain.target]
                })
            }),
    {
        match self.nodes.remove(&chain.target) {
            Some(mut node) => {
                node.kind = NodeKind::Store;
                node.unused_target = false;
                node.cancellable = true;
                node.target = Some(at);
                self.nodes.insert(chain.target, node);
                proof {
                    assert(self.nodes@ =~= old(self).nodes@.insert(
                        chain.target,
                        self.nodes@[chain.target],
                    ));
                }
            }
            None => {
                self.unhandled.operations.push(OperationError::Broken(None));
            }
        }
        self.remove_unused_mark(chain.target);
    }

    /// Push the chain's response into a collection attribute of `at`.
    pub fn push_response(&mut self, chain: ImpulseChain, at: NodeId)
        ensures
            final(self).unused_targets@ == old(self).unused_targets@.filter(
                |m: NodeId| m != chain.target,
            ),
            old(self).nodes@.contains_key(chain.target) ==> ({
                let after = final(self).nodes@[chain.target];
                &&& final(self).nodes@ == old(self).nodes@.insert(chain.target, after)
                &&& after == (Node {
                    kind: NodeKind::Push,
                    unused_target: false,
                    cancellable: true,
                    target: Some(at),
                    ..old(self).nodes@[chain.target]
                })
            }),
    {
        match self.nodes.remove(&chain.target) {
            Some(mut node) => {
                node.kind = NodeKind::Push;
                node.unused_target = false;
                node.cancellable = true;
                node.target = Some(at);
                self.nodes.insert(chain.target, node);
                proof {
                    assert(self.nodes@ =~= old(self).nodes@.insert(
                        chain.target,
                        self.nodes@[chain.target],
                    ));
                }
            }
            None => {
                self.unhandled.operations.push(OperationError::Broken(None));
            }
        }
        self.remove_unused_mark(chain.target);
    }

    /// Funnel several chains of one request into a race: whichever branch
    /// delivers first, per session, wins and continues downstream; the
    /// rest are disposed. Every chain's open target becomes a branch that
    /// forwards into the race node, and the race ends in a fresh unused
    /// target for the next link or promise to claim.
    pub fn race(&mut self, chains: &Vec<ImpulseChain>) -> (r: ImpulseChain)
        ensures
            final(self).nodes@.contains_key(r.source),
            ({
                let fresh = r.source != r.target && (forall|j: int|
                    0 <= j < chains@.len() ==> (#[trigger] chains@[j]).target != r.source
                        && chains@[j].target != r.target);
                fresh ==> ({
                    let race_node = final(self).nodes@[r.source];
                    let end = final(self).nodes@[r.target];
                    &&& final(self).nodes@.contains_key(r.target)
                    &&& race_node.kind is Race && race_node.cancellable && race_node.target
                        == Some(r.target) && race_node.inputs@.len() == 0
                        && race_node.marked_sessions@.len() == 0
                    &&& race_node.sources@.len() == chains@.len()
                    &&& forall|j: int|
                        0 <= j < chains@.len() ==> race_node.sources@[j] == (
                        #[trigger] chains@[j]).target
                    &&& end.kind is Terminate && end.unused_target && end.sources@ == seq![
                        r.source,
                    ] && end.sender is None
                    &&& forall|j: int|
                        0 <= j < chains@.len() && old(self).nodes@.contains_key(
                            (#[trigger] chains@[j]).target,
                        ) ==> ({
                            let branch = final(self).nodes@[chains@[j].target];
                            &&& branch.kind is Seed
                            &&& branch.target == Some(r.source)
                            &&& !branch.unused_target
                            &&& branch.cancellable
                        })
                })
            }),
    {
        let race_id = self.alloc_id();
        let mut race_node = Node::new(NodeKind::Race);
        race_node.cancellable = true;
        let n = chains.len();
        let mut i: usize = 0;
        while i < n
            invariant
                i <= n,
                n == chains@.len(),
                race_node.sources@.len() == i,
                forall|j: int|
                    0 <= j < i ==> race_node.sources@[j] == (#[trigger] chains@[j]).target,
                race_node.kind is Race && race_node.cancellable && race_node.target is None
                    && race_node.inputs@.len() == 0 && race_node.marked_sessions@.len() == 0,
                forall|j: int|
                    0 <= j < i && old(self).nodes@.contains_key((#[trigger] chains@[j]).target)
                        ==> ({
                        let branch = self.nodes@[chains@[j].target];
                        &&& self.nodes@.contains_key(chains@[j].target)
                        &&& branch.kind is Seed
                        &&& branch.target == Some(race_id)
                        &&& !branch.unused_target
                        &&& branch.cancellable
                    }),
                forall|b: u64|
                    self.nodes@.contains_key(b) == old(self).nodes@.contains_key(b),
            decreases n - i,
        {
            let branch = chains[i].target;
            match self.nodes.remove(&branch) {
                Some(mut node) => {
                    node.kind = NodeKind::Seed;
                    node.unused_target = false;
                    node.cancellable = true;
                    node.target = Some(race_id);
                    self.nodes.insert(branch, node);
                    proof {
                        assert(forall|b: u64|
                            self.nodes@.contains_key(b) == old(self).nodes@.contains_key(b));
                    }
                }
                None => {
                    self.unhandled.operations.push(OperationError::Broken(None));
                }
            }
            self.remove_unused_mark(branch);
            race_node.sources.push(branch);
            i = i + 1;
        }
        let target = self.alloc_id();
        let mut target_node = Node::new(NodeKind::Terminate);
        target_node.unused_target = true;
        target_node.sources.push(race_id);
        proof {
            assert(target_node.sources@ =~= seq![race_id]);
        }
        race_node.target = Some(target);
        self.nodes.insert(race_id, race_node);
        self.nodes.insert(target, target_node);
        self.unused_targets.push(target);
        let session = if chains.len() > 0 {
            chains[0].session
        } else {
            self.alloc_id()
        };
        ImpulseChain { source: race_id, target, session }
    }

    /// A holder of a buffer-access key was dropped. While other holders
    /// still share the key nothing has concluded, and the accessor's branch
    /// is given a disposal notice so its scope re-checks the session: the
    /// dropped key means this branch of the buffer access will not produce
    /// anything more by itself. The drop of the last holder changes
    /// nothing; the buffer's own lifecycle is unaffected either way.
    pub fn buffer_access_dropped(
        &mut self,
        accessor: NodeId,
        buffer: NodeId,
        session: SessionId,
        still_in_use: bool,
    )
        ensures
            !still_in_use ==> *final(self) == *old(self),
            still_in_use ==> ({
                let before = old(self).nodes@;
                &&& (before.contains_key(accessor) && before[accessor].scope is Some) ==> ({
                    let after = final(self).nodes@[accessor];
                    &&& final(self).nodes@ == before.insert(accessor, after)
                    &&& after.disposals@.len() == before[accessor].disposals@.len() + 1
                    &&& after.disposals@.last().0 == session
                    &&& final(self).roster.disposed@ == old(self).roster.disposed@.push(
                        DisposedSignal { scope: before[accessor].scope->0, session },
                    )
                })
                &&& !(before.contains_key(accessor) && before[accessor].scope is Some) ==> ({
                    let sink = final(self).unhandled.disposals@;
                    &&& sink.len() == old(self).unhandled.disposals@.len() + 1
                    &&& sink.last().broken_node == accessor
                })
            }),
    {
        if !still_in_use {
            return ;
        }
        let disposal = Disposal::branching(accessor, buffer, None);
        self.emit_disposal(accessor, session, disposal);
    }

    /// A plain node that responses can be stored on or collected into.
    pub fn spawn_holder(&mut self) -> (r: NodeId)
        ensures
            final(self).nodes@.contains_key(r),
    {
        self.spawn(Node::new(NodeKind::Provider))
    }

    /// Register a service provider with the given delivery policy, taken
    /// from one of the builder's delivery choices.
    pub fn add_service(&mut self, delivery: crate::delivery::Delivery) -> (r: Service)
        ensures
            final(self).nodes@.contains_key(r.provider),
    {
        let mut node = Node::new(NodeKind::Provider);
        node.delivery = Some(delivery);
        let id = self.spawn(node);
        Service::new(id)
    }

    /// Remove a provider from the graph. Requests dispatched to it
    /// afterwards are disposed as unavailable rather than hanging.
    pub fn despawn(&mut self, node: NodeId)
        ensures
            final(self).nodes@ == old(self).nodes@.remove(node),
            *final(self) == (Engine { nodes: final(self).nodes, ..*old(self) }),
    {
        let _removed = self.nodes.remove(&node);
        proof {
            assert(self.nodes@ =~= old(self).nodes@.remove(node));
        }
    }

    /// Record a disposal against the source node: the branch will not
    /// produce a result, without anything being wrong. The scope is told to
    /// re-check reachability; a node outside any scope cannot deliver a
    /// disposal, which is itself recorded in the unhandled-errors sink.
    pub fn emit_disposal(&mut self, source: NodeId, session: SessionId, disposal: Disposal)
        ensures
            (old(self).nodes@.contains_key(source) && old(self).nodes@[source].scope is Some) ==> {
                let scope = old(self).nodes@[source].scope->0;
                let after = final(self).nodes@[source];
                &&& final(self).nodes@ == old(self).nodes@.insert(source, after)
                &&& after == (Node { disposals: after.disposals, ..old(self).nodes@[source] })
                &&& after.disposals@ == old(self).nodes@[source].disposals@.push(
                    (session, disposal),
                )
                &&& final(self).roster.disposed@ == old(self).roster.disposed@.push(
                    DisposedSignal { scope, session },
                )
                &&& final(self).unhandled.disposals@ == old(self).unhandled.disposals@
                &&& *final(self) == (Engine {
                    nodes: final(self).nodes,
                    roster: final(self).roster,
                    ..*old(self)
                })
                &&& final(self).roster == (OperationRoster {
                    disposed: final(self).roster.disposed,
                    ..old(self).roster
                })
            },
            !(old(self).nodes@.contains_key(source) && old(self).nodes@[source].scope is Some)
                ==> ({
                let sink = final(self).unhandled.disposals@;
                &&& sink.len() == old(self).unhandled.disposals@.len() + 1
                &&& sink.last().disposal == disposal
                &&& sink.last().broken_node == source
                &&& final(self).nodes@ == old(self).nodes@
                &&& *final(self) == (Engine {
                    nodes: final(self).nodes,
                    unhandled: final(self).unhandled,
                    ..*old(self)
                })
                &&& final(self).unhandled == (UnhandledErrors {
                    disposals: final(self).unhandled.disposals,
                    ..old(self).unhandled
                })
            }),
    {
        match self.nodes.remove(&source) {
            Some(mut node) => {
                match node.scope {
                    Some(scope) => {
                        node.disposals.push((session, disposal));
                        self.nodes.insert(source, node);
                        proof {
                            assert(self.nodes@ =~= old(self).nodes@.insert(
                                source,
                                self.nodes@[source],
                            ));
                        }
                        self.roster.disposed(scope, session);
                    }
                    None => {
                        self.nodes.insert(source, node);
                        proof {
                            assert(self.nodes@ =~= old(self).nodes@);
                        }
                        self.unhandled.disposals.push(
                            DisposalFailure {
                                disposal,
                                broken_node: source,
                                backtrace: Some(capture_backtrace()),
                            },
                        );
                    }
                }
            }
            None => {
                self.unhandled.disposals.push(
                    DisposalFailure {
                        disposal,
                        broken_node: source,
                        backtrace: Some(capture_backtrace()),
                    },
                );
            }
        }
    }

    /// Put a node under a scope, so its disposals and reachability are
    /// watched by that scope.
    pub fn set_scope(&mut self, node: NodeId, scope: NodeId)
        ensures
            old(self).nodes@.contains_key(node) ==> {
                let after = final(self).nodes@[node];
                &&& final(self).nodes@ == old(self).nodes@.insert(node, after)
                &&& after == (Node { scope: Some(scope), ..old(self).nodes@[node] })
            },
    {
        match self.nodes.remove(&node) {
            Some(mut taken) => {
                taken.scope = Some(scope);
                self.nodes.insert(node, taken);
                proof {
                    assert(self.nodes@ =~= old(self).nodes@.insert(node, self.nodes@[node]));
                }
            }
            None => {}
        }
    }

    /// Have a node emit a cancellation: it goes to the node's scope if it
    /// has one, otherwise to its downstream target; a node with neither
    /// cannot deliver a cancellation, and the failure lands in the
    /// unhandled-errors sink.
    pub fn emit_cancel(
        &mut self,
        source: NodeId,
        session: Option<SessionId>,
        cancellation: Cancellation,
    )
        ensures
            ({
                let known = old(self).nodes@.contains_key(source);
                let can_route = known && (old(self).nodes@[source].scope is Some || old(
                    self,
                ).nodes@[source].target is Some);
                let routed = if known && old(self).nodes@[source].scope is Some {
                    old(self).nodes@[source].scope->0
                } else if known && old(self).nodes@[source].target is Some {
                    old(self).nodes@[source].target->0
                } else {
                    source
                };
                &&& can_route ==> ({
                    &&& final(self).roster.cancel@ == old(self).roster.cancel@.push(
                        Cancel { source, target: routed, session, cancellation },
                    )
                    &&& *final(self) == (Engine { roster: final(self).roster, ..*old(self) })
                    &&& final(self).roster == (OperationRoster {
                        cancel: final(self).roster.cancel,
                        ..old(self).roster
                    })
                })
                &&& !can_route ==> ({
                    let sink = final(self).unhandled.cancellations@;
                    &&& sink.len() == old(self).unhandled.cancellations@.len() + 1
                    &&& sink.last().cancel == (Cancel {
                        source,
                        target: source,
                        session,
                        cancellation,
                    })
                    &&& *final(self) == (Engine { unhandled: final(self).unhandled, ..*old(self) })
                    &&& final(self).unhandled == (UnhandledErrors {
                        cancellations: final(self).unhandled.cancellations,
                        ..old(self).unhandled
                    })
                })
            }),
    {
        match self.nodes.get(&source) {
            Some(node) => {
                if let Some(scope) = node.scope {
                    self.roster.cancel(Cancel { source, target: scope, session, cancellation });
                } else if let Some(target) = node.target {
                    self.roster.cancel(Cancel { source, target, session, cancellation });
                } else {
                    self.unhandled.cancellations.push(
                        CancelFailure {
                            error: OperationError::Broken(Some(capture_backtrace())),
                            cancel: Cancel { source, target: source, session, cancellation },
                        },
                    );
                }
            }
            None => {
                self.unhandled.cancellations.push(
                    CancelFailure {
                        error: OperationError::Broken(Some(capture_backtrace())),
                        cancel: Cancel { source, target: source, session, cancellation },
                    },
                );
            }
        }
    }

    /// Release the per-session state of a node: the session's buffered
    /// inputs are dropped, and every outstanding background task of the
    /// session is marked as stopping, with one stop request to the host per
    /// task. When no task is outstanding the cleanup completes at once and
    /// the notice is recorded immediately; otherwise the notice waits until
    /// the last task confirms it stopped.
    pub fn cleanup(&mut self, node: NodeId, session: SessionId)
        ensures
            !old(self).nodes@.contains_key(node) ==> *final(self) == *old(self),
            old(self).nodes@.contains_key(node) ==> ({
                let before = old(self).nodes@[node];
                let list = before.active_tasks@;
                let cnt = session_task_count(list, session);
                let ids = session_task_ids(list, session);
                &&& cnt == 0 ==> final(self).cleaned@ == old(self).cleaned@.push(
                    CleanupNotice { node, session },
                )
                &&& cnt > 0 ==> final(self).cleaned@ == old(self).cleaned@
                &&& final(self).actions@.len() == old(self).actions@.len() + cnt
                &&& old(self).actions@.is_prefix_of(final(self).actions@)
                &&& forall|k: int|
                    0 <= k < cnt ==> final(self).actions@[old(self).actions@.len() + k]
                        == (Action::<V>::StopTask { task: ids[k] })
                &&& final(self).nodes@.dom() == old(self).nodes@.dom()
                &&& final(self).nodes@.contains_key(node)
                &&& first_input_index(final(self).nodes@[node].inputs@, session) == -1
                &&& final(self).nodes@[node].cancel_signals@ == before.cancel_signals@
                &&& final(self).nodes@[node].sender == before.sender
                &&& final(self).nodes@[node].target == before.target
                &&& forall|j: int|
                    0 <= j < list.len() && (#[trigger] list[j]).session == session
                        && list[j].task_id != node && old(self).nodes@.contains_key(
                        list[j].task_id,
                    ) ==> final(self).nodes@[list[j].task_id].task_state is CleanupPending
                &&& *final(self) == (Engine {
                    nodes: final(self).nodes,
                    actions: final(self).actions,
                    cleaned: final(self).cleaned,
                    ..*old(self)
                })
            }),
    {
        if !self.nodes.contains_key(&node) {
            return ;
        }
        match self.nodes.remove(&node) {
            Some(mut taken) => {
                self.drop_session_inputs(&mut taken, session);
                let outstanding = taken.session_task_total(session);
                let list = clone_active_tasks(&taken.active_tasks);
                self.nodes.insert(node, taken);
                proof {
                    assert(self.nodes@ =~= old(self).nodes@.insert(node, self.nodes@[node]));
                    assert(self.nodes@.dom() =~= old(self).nodes@.dom());
                }
                let ghost list0 = old(self).nodes@[node].active_tasks@;
                let n = list.len();
                let mut i: usize = 0;
                while i < n
                    invariant
                        i <= n,
                        n == list@.len(),
                        list@ == list0,
                        self.cleaned@ == old(self).cleaned@,
                        self.nodes@.dom() == old(self).nodes@.dom(),
                        self.nodes@.contains_key(node),
                        first_input_index(self.nodes@[node].inputs@, session) == -1,
                        self.nodes@[node].cancel_signals@ == old(
                            self,
                        ).nodes@[node].cancel_signals@,
                        self.nodes@[node].sender == old(self).nodes@[node].sender,
                        self.nodes@[node].target == old(self).nodes@[node].target,
                        self.actions@.len() == old(self).actions@.len() + session_task_count(
                            list0.take(i as int),
                            session,
                        ),
                        old(self).actions@.is_prefix_of(self.actions@),
                        forall|k: int|
                            0 <= k < session_task_count(list0.take(i as int), session)
                                ==> self.actions@[old(self).actions@.len() + k]
                                == (Action::<V>::StopTask {
                                task: session_task_ids(list0.take(i as int), session)[k],
                            }),
                        forall|j: int|
                            0 <= j < i && (#[trigger] list0[j]).session == session
                                && list0[j].task_id != node && old(self).nodes@.contains_key(
                                list0[j].task_id,
                            ) ==> self.nodes@[list0[j].task_id].task_state is CleanupPending,
                        *self == (Engine {
                            nodes: self.nodes,
                            actions: self.actions,
                            cleaned: self.cleaned,
                            ..*old(self)
                        }),
                    decreases n - i,
                {
                    proof {
                        crate::operation::lemma_session_task_count_take(list0, session, i as int);
                        crate::operation::lemma_session_task_ids_take(list0, session, i as int);
                        crate::operation::lemma_session_task_ids_len(
                            list0.take(i as int),
                            session,
                        );
                        crate::operation::lemma_session_task_ids_len(
                            list0.take(i + 1 as int),
                            session,
                        );
                    }
                    let entry = list[i];
                    if entry.session == session {
                        self.stop_task(entry.task_id);
                    }
                    i = i + 1;
                }
                proof {
                    assert(list0.take(n as int) =~= list0);
                }
                if outstanding == 0 {
                    self.cleaned.push(CleanupNotice { node, session });
                }
            }
            None => {}
        }
    }

    /// Drop every buffered input a node holds for the session.
    fn drop_session_inputs(&mut self, node: &mut Node<V>, session: SessionId)
        ensures
            *final(self) == *old(self),
            *final(node) == (Node { inputs: final(node).inputs, ..*old(node) }),
            first_input_index(final(node).inputs@, session) == -1,
    {
        loop
            invariant
                *self == *old(self),
                *node == (Node { inputs: node.inputs, ..*old(node) }),
            decreases node.inputs@.len(),
        {
            let ghost before = node.inputs@;
            proof {
                crate::operation::lemma_first_input_index(node.inputs@, session);
            }
            match node.take_input(session) {
                Some(_) => {
                    proof {
                        assert(node.inputs@.len() < before.len());
                    }
                }
                None => {
                    return ;
                }
            }
        }
    }

    /// Ask one task to stop: it is marked as awaiting confirmation and the
    /// host is told to stop the computation.
    fn stop_task(&mut self, task: NodeId)
        ensures
            final(self).actions@ == old(self).actions@.push(Action::StopTask { task }),
            final(self).cleaned@ == old(self).cleaned@,
            final(self).nodes@.dom() == old(self).nodes@.dom(),
            *final(self) == (Engine {
                nodes: final(self).nodes,
                actions: final(self).actions,
                ..*old(self)
            }),
            old(self).nodes@.contains_key(task) ==> ({
                let after = final(self).nodes@[task];
                &&& final(self).nodes@ == old(self).nodes@.insert(task, after)
                &&& after == (Node { task_state: after.task_state, ..old(self).nodes@[task] })
                &&& after.task_state is CleanupPending
            }),
            !old(self).nodes@.contains_key(task) ==> final(self).nodes@ == old(self).nodes@,
    {
        match self.nodes.remove(&task) {
            Some(mut node) => {
                node.task_state = TaskState::CleanupPending;
                self.nodes.insert(task, node);
                proof {
                    assert(self.nodes@.dom() =~= old(self).nodes@.dom());
                    assert(self.nodes@ =~= old(self).nodes@.insert(task, self.nodes@[task]));
                }
            }
            None => {}
        }
        self.actions.push(Action::StopTask { task });
    }

    /// The host confirms that a stopping task's computation has really
    /// terminated. The task node is despawned and removed from its owner's
    /// active list; when it was the session's last outstanding task at the
    /// owner, the owner's cleanup notice fires now.
    pub fn confirm_task_stopped(&mut self, task: NodeId)
        ensures
            !old(self).nodes@.contains_key(task) ==> *final(self) == *old(self),
            old(self).nodes@.contains_key(task) ==> ({
                !(old(self).nodes@[task].task_state is CleanupPending) ==> final(self).nodes@
                    == old(self).nodes@ && *final(self) == (Engine {
                    nodes: final(self).nodes,
                    ..*old(self)
                })
            }),
            (old(self).nodes@.contains_key(task)
                && old(self).nodes@[task].task_state is CleanupPending) ==> ({
                let stopped = old(self).nodes@[task];
                &&& !final(self).nodes@.contains_key(task)
                &&& (stopped.blocker matches Some(b) ==> final(self).roster.unblock@ == old(self).roster.unblock@.push(b))
                &&& (stopped.blocker is None ==> final(self).roster == old(self).roster)
                &&& (stopped.owner matches Some(o) ==> stopped.session matches Some(s) ==> o
                    != task ==> old(self).nodes@.contains_key(o) ==> ({
                    let list = old(self).nodes@[o].active_tasks@;
                    let idx = first_task_index(list, task);
                    let survivors = if idx >= 0 {
                        list.remove(idx)
                    } else {
                        list
                    };
                    &&& final(self).nodes@.contains_key(o)
                    &&& final(self).nodes@[o].active_tasks@ == survivors
                    &&& session_task_count(survivors, s) == 0 ==> final(self).cleaned@
                        == old(self).cleaned@.push(CleanupNotice { node: o, session: s })
                    &&& session_task_count(survivors, s) > 0 ==> final(self).cleaned@
                        == old(self).cleaned@
                }))
                &&& ((stopped.owner is None || stopped.session is None) ==> final(self).unhandled.stop_tasks@.len()
                    == old(self).unhandled.stop_tasks@.len() + 1
                    && final(self).unhandled.stop_tasks@.last().task == task)
            }),
    {
        if !self.nodes.contains_key(&task) {
            return ;
        }
        let removed = self.nodes.remove(&task);
        match removed {
            Some(node) => {
                match node.task_state {
                    TaskState::CleanupPending => {
                        if let Some(blocker) = node.blocker {
                            self.roster.unblock(blocker);
                        }
                        match (node.owner, node.session) {
                            (Some(owner), Some(session)) => {
                                proof {
                                    if owner != task && old(self).nodes@.contains_key(owner) {
                                        assert(self.nodes@ =~= old(self).nodes@.remove(task));
                                        assert(self.nodes@.contains_key(owner));
                                        assert(self.nodes@[owner] == old(self).nodes@[owner]);
                                    }
                                }
                                let remaining = self.remove_owner_task(owner, task, session);
                                if remaining == Some(0) {
                                    self.cleaned.push(CleanupNotice { node: owner, session });
                                }
                            }
                            _ => {
                                self.unhandled.stop_tasks.push(
                                    crate::cancel::StopTaskFailure {
                                        task,
                                        backtrace: Some(capture_backtrace()),
                                    },
                                );
                            }
                        }
                    }
                    _ => {
                        // The task was never asked to stop; put it back.
                        self.nodes.insert(task, node);
                        proof {
                            assert(self.nodes@ =~= old(self).nodes@);
                        }
                    }
                }
            }
            None => {}
        }
    }

    /// Remove a task from its owner's active list, returning how many of
    /// the session's tasks remain there afterwards.
    fn remove_owner_task(&mut self, owner: NodeId, task: NodeId, session: SessionId) -> (r: Option<
        usize,
    >)
        ensures
            final(self).nodes@.dom() == old(self).nodes@.dom(),
            *final(self) == (Engine { nodes: final(self).nodes, ..*old(self) }),
            !old(self).nodes@.contains_key(owner) ==> r is None && final(self).nodes@
                == old(self).nodes@,
            old(self).nodes@.contains_key(owner) ==> ({
                let list = old(self).nodes@[owner].active_tasks@;
                let idx = first_task_index(list, task);
                let after = final(self).nodes@[owner];
                &&& idx == -1 || (0 <= idx < list.len() && list[idx].task_id == task)
                &&& final(self).nodes@ == old(self).nodes@.insert(owner, after)
                &&& after == (Node { active_tasks: after.active_tasks, ..old(self).nodes@[owner] })
                &&& idx >= 0 ==> after.active_tasks@ == list.remove(idx)
                &&& idx == -1 ==> after.active_tasks@ == list
                &&& r matches Some(rem) && rem == session_task_count(
                    after.active_tasks@,
                    session,
                )
            }),
    {
        if !self.nodes.contains_key(&owner) {
            return None;
        }
        match self.nodes.remove(&owner) {
            Some(mut node) => {
                proof {
                    crate::operation::lemma_first_task_index(node.active_tasks@, task);
                }
                let mut found: Option<usize> = None;
                let n = node.active_tasks.len();
                let mut i: usize = 0;
                while i < n && found.is_none()
                    invariant
                        i <= n,
                        n == node.active_tasks@.len(),
                        found is None ==> forall|j: int|
                            0 <= j < i ==> (#[trigger] node.active_tasks@[j]).task_id != task,
                        found matches Some(at) ==> at < n && node.active_tasks@[
                            at as int
                        ].task_id == task && (forall|j: int|
                            0 <= j < at ==> (#[trigger] node.active_tasks@[j]).task_id != task),
                    decreases n - i + (if found is None { 1int } else { 0int }),
                {
                    if node.active_tasks[i].task_id == task {
                        found = Some(i);
                    } else {
                        i = i + 1;
                    }
                }
                if let Some(at) = found {
                    if at < node.active_tasks.len() {
                        proof {
                            crate::operation::lemma_first_task_is_first(
                                node.active_tasks@,
                                task,
                                at as int,
                            );
                        }
                        let _entry = node.active_tasks.remove(at);
                    }
                }
                let remaining = node.session_task_total(session);
                self.nodes.insert(owner, node);
                proof {
                    assert(self.nodes@.dom() =~= old(self).nodes@.dom());
                    assert(self.nodes@ =~= old(self).nodes@.insert(owner, self.nodes@[owner]));
                }
                Some(remaining)
            }
            None => None,
        }
    }

    /// The host reports that a background task's computation finished. The
    /// result is parked on the task node and the node is queued, so the
    /// next flush delivers it downstream. A task that is already stopping
    /// ignores the late result.
    pub fn complete_task(&mut self, task: NodeId, result: V) -> (r: bool)
        ensures
            ({
                let before = old(self).nodes@;
                let after = final(self).nodes@;
                &&& r <==> (before.contains_key(task) && before[task].task_state is Running)
                &&& r ==> after[task].task_state == TaskState::Ready(result) && after
                    == before.insert(task, after[task])
            }),
    {
        if !self.nodes.contains_key(&task) {
            return false;
        }
        match self.nodes.remove(&task) {
            Some(mut node) => {
                match node.task_state {
                    TaskState::Running => {
                        node.task_state = TaskState::Ready(result);
                        self.nodes.insert(task, node);
                        proof {
                            assert(self.nodes@ =~= old(self).nodes@.insert(
                                task,
                                self.nodes@[task],
                            ));
                        }
                        // Wake the node the way a background waker does:
                        // through the wake channel, which the next flush
                        // drains. Queue directly only if the channel is
                        // somehow gone.
                        if !channel_send(&self.wake.sender, task) {
                            self.roster.queue(task);
                        }
                        true
                    }
                    _ => {
                        self.nodes.insert(task, node);
                        false
                    }
                }
            }
            None => false,
        }
    }

    /// The host reports the result of a synchronous map. The result is
    /// delivered to the map's target exactly once: a session the map is not
    /// awaiting (already delivered, or cancelled meanwhile) delivers
    /// nothing.
    pub fn deliver_map_result(&mut self, node: NodeId, session: SessionId, result: V) -> (r: bool)
        ensures
            !old(self).nodes@.contains_key(node) ==> !r && *final(self) == *old(self),
            r <==> ({
                let before = old(self).nodes@;
                &&& before.contains_key(node)
                &&& before[node].marked_sessions@.contains(session)
                &&& before[node].target matches Some(t) && (t == node || before.contains_key(t))
            }),
            r ==> (old(self).nodes@[node].target matches Some(t) ==> t != node ==> ({
                let before = old(self).nodes@;
                let after = final(self).nodes@;
                &&& before.contains_key(t)
                &&& after.contains_key(t)
                &&& after[t].inputs@ == before[t].inputs@.push(Input { session, data: result })
            })),
            r ==> final(self).unhandled == old(self).unhandled,
    {
        if !self.nodes.contains_key(&node) {
            return false;
        }
        let target_and_detached = match self.nodes.remove(&node) {
            Some(mut taken) => {
                let mut found: Option<usize> = None;
                let n = taken.marked_sessions.len();
                let mut i: usize = 0;
                while i < n && found.is_none()
                    invariant
                        i <= n,
                        n == taken.marked_sessions@.len(),
                        found is None ==> forall|j: int|
                            0 <= j < i ==> taken.marked_sessions@[j] != session,
                        found matches Some(at) ==> at < n && taken.marked_sessions@[
                            at as int
                        ] == session,
                    decreases n - i + (if found is None { 1int } else { 0int }),
                {
                    if taken.marked_sessions[i] == session {
                        found = Some(i);
                    } else {
                        i = i + 1;
                    }
                }
                proof {
                    assert(taken.marked_sessions@ == old(self).nodes@[node].marked_sessions@);
                    if found is None {
                        assert(forall|j: int|
                            0 <= j < taken.marked_sessions@.len()
                                ==> taken.marked_sessions@[j] != session);
                        assert(!taken.marked_sessions@.contains(session));
                    }
                }
                let mut awaiting = false;
                if let Some(at) = found {
                    if at < taken.marked_sessions.len() {
                        taken.marked_sessions.remove(at);
                        awaiting = true;
                    }
                }
                let target = taken.target;
                let detached = taken.detached;
                self.nodes.insert(node, taken);
                proof {
                    assert(self.nodes@ =~= old(self).nodes@.insert(node, self.nodes@[node]));
                }
                if awaiting {
                    Some((target, detached))
                } else {
                    None
                }
            }
            None => None,
        };
        match target_and_detached {
            Some((Some(target), detached)) => {
                match self.give_input(target, session, result) {
                    Ok(_) => true,
                    Err(_) => {
                        if !detached {
                            self.unhandled.operations.push(OperationError::Broken(None));
                        }
                        false
                    }
                }
            }
            Some((None, detached)) => {
                if !detached {
                    self.unhandled.operations.push(OperationError::Broken(None));
                }
                false
            }
            None => false,
        }
    }

    /// Executable mirror of [`reachable_spec`]: whether any upstream path
    /// can still produce input for the session at this node.
    pub fn is_reachable(&self, node: NodeId, session: SessionId, fuel: usize) -> (r: bool)
        ensures
            r == reachable_spec(self.nodes@, node, session, fuel as nat),
        decreases fuel,
    {
        if fuel == 0 {
            return true;
        }
        match self.nodes.get(&node) {
            Some(found) => {
                if found.has_input(session) {
                    return true;
                }
                if found.session_task_total(session) > 0 {
                    return true;
                }
                if found.kind == NodeKind::Task {
                    if let Some(s) = found.session {
                        if s == session {
                            return true;
                        }
                    }
                }
                let n = found.sources.len();
                let mut i: usize = 0;
                while i < n
                    invariant
                        i <= n,
                        n == found.sources@.len(),
                        fuel >= 1,
                        self.nodes@.contains_key(node),
                        found == self.nodes@[node],
                        forall|j: int|
                            0 <= j < i ==> !reachable_spec(
                                self.nodes@,
                                (#[trigger] found.sources@[j]),
                                session,
                                (fuel - 1) as nat,
                            ),
                    decreases n - i,
                {
                    if self.is_reachable(found.sources[i], session, fuel - 1) {
                        return true;
                    }
                    i = i + 1;
                }
                false
            }
            None => false,
        }
    }

    /// Read one pending cancellation signal at a node, newest first, as a
    /// node's cancellation handler does while resolving what to do.
    pub fn try_receive_cancel(&mut self, node: NodeId) -> (r: Result<
        Option<CancelSignal>,
        OperationError,
    >)
        ensures
            r is Ok <==> old(self).nodes@.contains_key(node),
            r is Err ==> *final(self) == *old(self),
            r is Ok ==> ({
                let before = old(self).nodes@[node].cancel_signals@;
                let after = final(self).nodes@[node];
                &&& final(self).nodes@ == old(self).nodes@.insert(node, after)
                &&& before.len() == 0 ==> (r matches Ok(sig) && sig is None
                    && after.cancel_signals@ == before)
                &&& before.len() > 0 ==> (r matches Ok(sig) && sig == Some(before.last())
                    && after.cancel_signals@ == before.drop_last())
            }),
    {
        if !self.nodes.contains_key(&node) {
            return Err(OperationError::Broken(None));
        }
        match self.nodes.remove(&node) {
            Some(mut taken) => {
                let signal = taken.cancel_signals.pop();
                self.nodes.insert(node, taken);
                proof {
                    assert(self.nodes@ =~= old(self).nodes@.insert(node, self.nodes@[node]));
                }
                Ok(signal)
            }
            None => Err(OperationError::Broken(None)),
        }
    }

    /// Forget the disposals a node recorded for a session, once the
    /// session's processing at that node has concluded. Records of every
    /// other session stay in place.
    pub fn clear_disposals(&mut self, node: NodeId, session: SessionId)
        ensures
            final(self).nodes@.dom() == old(self).nodes@.dom(),
            *final(self) == (Engine { nodes: final(self).nodes, ..*old(self) }),
            old(self).nodes@.contains_key(node) ==> ({
                let after = final(self).nodes@[node];
                &&& final(self).nodes@ == old(self).nodes@.insert(node, after)
                &&& after == (Node { disposals: after.disposals, ..old(self).nodes@[node] })
                &&& after.disposals@ == kept_disposals(old(self).nodes@[node].disposals@, session)
                &&& session_disposals(after.disposals@, session).len() == 0
            }),
            !old(self).nodes@.contains_key(node) ==> *final(self) == *old(self),
    {
        proof {
            if old(self).nodes@.contains_key(node) {
                crate::operation::lemma_kept_disposals_clear(
                    old(self).nodes@[node].disposals@,
                    session,
                );
            }
        }
        let _cleared = self.take_session_disposals(node, session);
    }

    /// The disposals a node has recorded for a session, in recording order,
    /// sharing the same causes; the records themselves stay in place.
    pub fn get_disposals(&self, node: NodeId, session: SessionId) -> (r: Vec<Disposal>)
        ensures
            !self.nodes@.contains_key(node) ==> r@.len() == 0,
            self.nodes@.contains_key(node) ==> r@ == session_disposals(
                self.nodes@[node].disposals@,
                session,
            ),
    {
        let mut out: Vec<Disposal> = Vec::new();
        match self.nodes.get(&node) {
            Some(found) => {
                let n = found.disposals.len();
                let mut i: usize = 0;
                while i < n
                    invariant
                        i <= n,
                        n == found.disposals@.len(),
                        out@ == session_disposals(found.disposals@.take(i as int), session),
                    decreases n - i,
                {
                    proof {
                        assert(found.disposals@.take(i + 1 as int).drop_last()
                            =~= found.disposals@.take(i as int));
                        assert(found.disposals@.take(i + 1 as int).last() == found.disposals@[
                            i as int
                        ]);
                    }
                    let entry = &found.disposals[i];
                    if entry.0 == session {
                        out.push(Disposal { cause: share(&entry.1.cause) });
                        proof {
                            assert(out@.last() == found.disposals@[i as int].1);
                        }
                    }
                    i = i + 1;
                }
                proof {
                    assert(found.disposals@.take(n as int) =~= found.disposals@);
                }
                out
            }
            None => out,
        }
    }

    /// Take out the disposals a node recorded for a session, so they can
    /// ride along in the cancellation that reports why the session ended.
    /// Records of other sessions stay in place.
    fn take_session_disposals(&mut self, node: NodeId, session: SessionId) -> (r: Vec<Disposal>)
        ensures
            final(self).nodes@.dom() == old(self).nodes@.dom(),
            *final(self) == (Engine { nodes: final(self).nodes, ..*old(self) }),
            !old(self).nodes@.contains_key(node) ==> r@.len() == 0 && *final(self) == *old(self),
            old(self).nodes@.contains_key(node) ==> ({
                let after = final(self).nodes@[node];
                &&& final(self).nodes@ == old(self).nodes@.insert(node, after)
                &&& after == (Node { disposals: after.disposals, ..old(self).nodes@[node] })
                &&& after.disposals@ == kept_disposals(old(self).nodes@[node].disposals@, session)
                &&& r@ == session_disposals(old(self).nodes@[node].disposals@, session)
            }),
    {
        if !self.nodes.contains_key(&node) {
            return Vec::new();
        }
        match self.nodes.remove(&node) {
            Some(mut taken) => {
                let mut all: Vec<(SessionId, Disposal)> = Vec::new();
                core::mem::swap(&mut all, &mut taken.disposals);
                let ghost orig = all@;
                let mut kept: Vec<(SessionId, Disposal)> = Vec::new();
                let mut out: Vec<Disposal> = Vec::new();
                let n = all.len();
                let mut i: usize = 0;
                while i < n
                    invariant
                        i <= n,
                        n == orig.len(),
                        all@ == orig.skip(i as int),
                        out@ == session_disposals(orig.take(i as int), session),
                        kept@ == kept_disposals(orig.take(i as int), session),
                    decreases n - i,
                {
                    proof {
                        assert(orig.take(i + 1 as int).drop_last() =~= orig.take(i as int));
                        assert(orig.take(i + 1 as int).last() == orig[i as int]);
                        assert(all@[0] == orig[i as int]);
                    }
                    let entry = all.remove(0);
                    proof {
                        assert(all@ =~= orig.skip(i + 1 as int));
                    }
                    if entry.0 == session {
                        out.push(entry.1);
                    } else {
                        kept.push(entry);
                    }
                    i = i + 1;
                }
                proof {
                    assert(orig.take(n as int) =~= orig);
                }
                taken.disposals = kept;
                self.nodes.insert(node, taken);
                proof {
                    assert(self.nodes@.dom() =~= old(self).nodes@.dom());
                    assert(self.nodes@ =~= old(self).nodes@.insert(node, self.nodes@[node]));
                }
                out
            }
            None => Vec::new(),
        }
    }
}

/// A copy of an active-task list, for walking it while the store is
/// borrowed elsewhere.
fn clone_active_tasks(list: &Vec<ActiveTask>) -> (r: Vec<ActiveTask>)
    ensures
        r@ == list@,
{
    let mut out: Vec<ActiveTask> = Vec::new();
    let n = list.len();
    let mut i: usize = 0;
    while i < n
        invariant
            i <= n,
            n == list@.len(),
            out@ == list@.take(i as int),
        decreases n - i,
    {
        out.push(list[i]);
        proof {
            assert(list@.take(i + 1 as int) =~= list@.take(i as int).push(list@[i as int]));
        }
        i = i + 1;
    }
    proof {
        assert(list@.take(n as int) =~= list@);
    }
    out
}

/// How one cancellation record is resolved, over the views of the store,
/// the undeliverable sink and the pending-cancellation lane. A target that
/// is gone or has no cancellation handler sends the record to the sink,
/// with everything else untouched; a live target gets the record queued as
/// a signal, its promise sender (if any) taken so the promise resolves as
/// cancelled, and, unless it is the chain's end, one forwarded record with
/// the same shared cause appended for its downstream target.
pub open spec fn cancel_delivery<V>(
    pre_nodes: Map<u64, Node<V>>,
    post_nodes: Map<u64, Node<V>>,
    pre_sink: Seq<CancelFailure>,
    post_sink: Seq<CancelFailure>,
    pre_pending: Seq<Cancel>,
    post_pending: Seq<Cancel>,
    c: Cancel,
) -> bool {
    let deliverable = pre_nodes.contains_key(c.target) && (pre_nodes[c.target].cancellable
        || pre_nodes[c.target].kind is Terminate);
    &&& !deliverable ==> ({
        &&& post_nodes == pre_nodes
        &&& post_sink.len() == pre_sink.len() + 1
        &&& post_sink.last().cancel == c
        &&& post_pending == pre_pending
    })
    &&& pre_pending.is_prefix_of(post_pending)
    &&& deliverable ==> ({
        let before = pre_nodes[c.target];
        let forwards = before.kind != NodeKind::Terminate && before.target is Some;
        &&& post_sink == pre_sink
        &&& post_nodes.contains_key(c.target)
        &&& post_nodes[c.target].cancel_signals@ == before.cancel_signals@.push(
            CancelSignal { session: c.session, cancellation: c.cancellation },
        )
        &&& post_nodes[c.target].sender is None
        &&& forwards ==> ({
            let forwarded = post_pending.last();
            &&& post_pending.len() == pre_pending.len() + 1
            &&& forwarded.source == c.target
            &&& forwarded.target == before.target->0
            &&& forwarded.session == c.session
            &&& forwarded.cancellation.cause == c.cancellation.cause
            &&& forwarded.cancellation.while_cancelling@.len() == 0
        })
        &&& !forwards ==> post_pending == pre_pending
    })
}

/// Whether any upstream path can still produce input for the session at a
/// node: it has buffered input, an outstanding task of the session, is
/// itself the session's task, or one of its recorded sources can still
/// reach it. The recursion is budgeted: with the budget exhausted a node
/// counts as reachable, so no session is ever cancelled for
/// unreachability by mistake.
pub open spec fn reachable_spec<V>(
    nodes: Map<u64, Node<V>>,
    node: NodeId,
    session: SessionId,
    fuel: nat,
) -> bool
    decreases fuel,
{
    if fuel == 0 {
        true
    } else if !nodes.contains_key(node) {
        false
    } else {
        let here = nodes[node];
        ||| first_input_index(here.inputs@, session) >= 0
        ||| session_task_count(here.active_tasks@, session) > 0
        ||| (here.kind is Task && here.session == Some(session))
        ||| exists|j: int|
            0 <= j < here.sources@.len() && reachable_spec(
                nodes,
                here.sources@[j],
                session,
                (fuel - 1) as nat,
            )
    }
}

/// Whether a scope must emit an unreachability cancellation for a session:
/// the session can no longer be reached and no such cancellation has been
/// emitted before.
pub open spec fn should_emit_unreachable(
    emitted: Seq<SessionId>,
    reachable: bool,
    session: SessionId,
) -> bool {
    !reachable && !emitted.contains(session)
}

/// Law (reachability drives termination, emitted once): when a scope emits
/// the unreachability cancellation for a session it records the session,
/// and with the session recorded no later re-check can emit a second one,
/// whatever that re-check concludes about reachability.
pub proof fn lemma_unreachable_emitted_once(
    emitted: Seq<SessionId>,
    reachable: bool,
    later: bool,
    session: SessionId,
)
    requires
        should_emit_unreachable(emitted, reachable, session),
    ensures
        !should_emit_unreachable(emitted.push(session), later, session),
{
    assert(emitted.push(session)[emitted.len() as int] == session);
}

/// Whether a list of session ids holds the given session.
fn contains_session(list: &Vec<SessionId>, session: SessionId) -> (r: bool)
    ensures
        r == list@.contains(session),
{
    let n = list.len();
    let mut i: usize = 0;
    while i < n
        invariant
            i <= n,
            n == list@.len(),
            forall|j: int| 0 <= j < i ==> list@[j] != session,
        decreases n - i,
    {
        if list[i] == session {
            return true;
        }
        i = i + 1;
    }
    false
}

impl<V> Engine<V> {
    /// Inject a request value and submit it to a service, starting a fresh
    /// session.
    pub fn request(&mut self, value: V, service: &Service) -> (r: ImpulseChain) {
        let chain = self.provide(value);
        self.then_service(chain, service)
    }

    /// Apply one pending effect of the roster, in lane priority order:
    /// cancellations first, then released serialization tokens, then
    /// disposal notices, then queued operations, and finally one wake
    /// notification from background tasks. Exactly the head of the first
    /// nonempty lane is consumed and handed to that lane's handler — a
    /// consumed cancellation is resolved as [`cancel_delivery`] states —
    /// and nothing is ever discarded. Returns whether there was anything
    /// to do; with every lane empty and no wake pending, nothing changes.
    pub fn flush_one(&mut self) -> (progressed: bool)
        ensures
            old(self).roster.cancel@.len() > 0 ==> ({
                &&& progressed
                &&& old(self).roster.cancel@.skip(1).is_prefix_of(final(self).roster.cancel@)
                &&& cancel_delivery(
                    old(self).nodes@,
                    final(self).nodes@,
                    old(self).unhandled.cancellations@,
                    final(self).unhandled.cancellations@,
                    old(self).roster.cancel@.skip(1),
                    final(self).roster.cancel@,
                    old(self).roster.cancel@[0],
                )
            }),
            (old(self).roster.cancel@.len() == 0 && old(self).roster.unblock@.len() > 0)
                ==> progressed,
            (old(self).roster.cancel@.len() == 0 && old(self).roster.unblock@.len() == 0 && old(
                self,
            ).roster.disposed@.len() > 0) ==> ({
                &&& progressed
                &&& final(self).roster.disposed@ == old(self).roster.disposed@.skip(1)
            }),
            (old(self).roster.cancel@.len() == 0 && old(self).roster.unblock@.len() == 0 && old(
                self,
            ).roster.disposed@.len() == 0 && old(self).roster.queue@.len() > 0) ==> progressed,
            !progressed ==> *final(self) == *old(self) && final(self).roster.cancel@.len() == 0
                && final(self).roster.unblock@.len() == 0 && final(self).roster.disposed@.len()
                == 0 && final(self).roster.queue@.len() == 0,
    {
        if self.roster.cancel.len() > 0 {
            let c = self.roster.cancel.remove(0);
            proof {
                assert(self.roster.cancel@ =~= old(self).roster.cancel@.skip(1));
            }
            self.deliver_cancellation(c);
            true
        } else if self.roster.unblock.len() > 0 {
            let b = self.roster.unblock.remove(0);
            proof {
                assert(self.roster.unblock@ =~= old(self).roster.unblock@.skip(1));
            }
            self.finish_delivery(b);
            true
        } else if self.roster.disposed.len() > 0 {
            let d = self.roster.disposed.remove(0);
            proof {
                assert(self.roster.disposed@ =~= old(self).roster.disposed@.skip(1));
            }
            let count = self.nodes.len();
            let fuel = if count < usize::MAX {
                count + 1
            } else {
                count
            };
            self.process_disposed(d, fuel);
            true
        } else if self.roster.queue.len() > 0 {
            let id = self.roster.queue.remove(0);
            proof {
                assert(self.roster.queue@ =~= old(self).roster.queue@.skip(1));
            }
            self.execute_node(id);
            true
        } else {
            match channel_try_recv(&self.wake.receiver) {
                Some(id) => {
                    self.roster.queue(id);
                    true
                }
                None => false,
            }
        }
    }

    /// Drain the roster by iterating [`flush_one`] — which states what each
    /// step does — for at most `fuel` steps, after cancelling the chains
    /// whose targets nothing claimed. Returns whether everything drained,
    /// in which case the roster is empty and the wake channel had nothing
    /// waiting.
    pub fn flush(&mut self, fuel: usize) -> (r: bool)
        ensures
            r ==> final(self).roster.queue@.len() == 0 && final(self).roster.cancel@.len() == 0
                && final(self).roster.unblock@.len() == 0 && final(self).roster.disposed@.len()
                == 0,
    {
        self.flush_unused_targets();
        let mut remaining = fuel;
        loop
            decreases remaining,
        {
            if remaining == 0 {
                return false;
            }
            remaining = remaining - 1;
            let progressed = self.flush_one();
            if !progressed {
                return true;
            }
        }
    }

    /// Cancel every chain whose final target nothing ever claimed: the
    /// target is recorded in the unhandled-errors sink and the chain that
    /// feeds it is despawned before any of it runs. Afterwards no target
    /// is left marked unused.
    fn flush_unused_targets(&mut self)
        ensures
            final(self).unused_targets@.len() == 0,
            old(self).unused_targets@.len() == 0 ==> *final(self) == *old(self),
    {
        loop
            invariant
                old(self).unused_targets@.len() == 0 ==> *self == *old(self),
            decreases self.unused_targets@.len(),
        {
            if self.unused_targets.len() == 0 {
                return ;
            }
            let at = self.unused_targets.len() - 1;
            let id = self.unused_targets.remove(at);
            let is_unused = match self.nodes.get(&id) {
                Some(node) => node.unused_target && !node.detached,
                None => false,
            };
            if is_unused {
                self.unhandled.unused_targets.push(id);
                self.cancel_upstream_from(id);
            }
        }
    }

    /// Despawn the chain that feeds an abandoned target, so the request
    /// never runs at all. The walk stops below a detached node: that node
    /// keeps running, and its response is discarded for want of a target.
    fn cancel_upstream_from(&mut self, target: NodeId)
        ensures
            final(self).unused_targets == old(self).unused_targets,
    {
        let mut current = target;
        let mut budget = self.nodes.len();
        loop
            invariant
                self.unused_targets == old(self).unused_targets,
            decreases budget,
        {
            if budget == 0 {
                return ;
            }
            budget = budget - 1;
            match self.nodes.remove(&current) {
                Some(node) => {
                    if node.sources.len() > 0 {
                        let next = node.sources[0];
                        let upstream_detached = match self.nodes.get(&next) {
                            Some(up) => up.detached,
                            None => true,
                        };
                        if upstream_detached {
                            self.clear_target(next);
                            return ;
                        }
                        current = next;
                    } else {
                        return ;
                    }
                }
                None => {
                    return ;
                }
            }
        }
    }

    /// Unwire a node's downstream target.
    fn clear_target(&mut self, node: NodeId)
        ensures
            final(self).unused_targets == old(self).unused_targets,
    {
        match self.nodes.remove(&node) {
            Some(mut taken) => {
                taken.target = None;
                self.nodes.insert(node, taken);
            }
            None => {}
        }
    }

    /// Deliver one cancellation to its target node, as [`cancel_delivery`]
    /// states: an undeliverable record lands in the sink; a delivered one
    /// is queued as a signal on its target, whose promise sender (if any)
    /// resolves as cancelled, whose per-session state is cleaned up, and
    /// which forwards the cancellation downstream with the same shared
    /// cause, stopping at the chain's end.
    fn deliver_cancellation(&mut self, c: Cancel)
        ensures
            cancel_delivery(
                old(self).nodes@,
                final(self).nodes@,
                old(self).unhandled.cancellations@,
                final(self).unhandled.cancellations@,
                old(self).roster.cancel@,
                final(self).roster.cancel@,
                c,
            ),
    {
        let deliverable = match self.nodes.get(&c.target) {
            Some(node) => node.cancellable || node.kind == NodeKind::Terminate,
            None => false,
        };
        if !deliverable {
            self.unhandled.cancellations.push(
                CancelFailure {
                    error: OperationError::Broken(Some(capture_backtrace())),
                    cancel: c,
                },
            );
            proof {
                let pre = old(self).roster.cancel@;
                assert(self.roster.cancel@.take(pre.len() as int) =~= pre);
            }
            return ;
        }
        let shared_cause = share(&c.cancellation.cause);
        let session = c.session;
        let target = c.target;
        match self.nodes.remove(&target) {
            Some(mut node) => {
                if let Some(sender) = node.sender.take() {
                    sender.cancel();
                }
                let downstream = node.target;
                let kind = node.kind;
                node.cancel_signals.push(CancelSignal { session, cancellation: c.cancellation });
                self.nodes.insert(target, node);
                proof {
                    assert(self.nodes@ =~= old(self).nodes@.insert(target, self.nodes@[target]));
                }
                if let Some(s) = session {
                    self.cleanup(target, s);
                }
                if kind != NodeKind::Terminate {
                    if let Some(next) = downstream {
                        self.roster.cancel(
                            Cancel {
                                source: target,
                                target: next,
                                session,
                                cancellation: Cancellation {
                                    cause: shared_cause,
                                    while_cancelling: Vec::new(),
                                },
                            },
                        );
                    }
                }
                proof {
                    let pre = old(self).roster.cancel@;
                    assert(self.roster.cancel@.take(pre.len() as int) =~= pre);
                }
            }
            None => {}
        }
    }

    /// A serialization token was released: the provider's queue resolves
    /// the order the token stood for and dispatches the next waiting order,
    /// if any.
    fn finish_delivery(&mut self, blocker: Blocker) {
        let order = DeliveryOrder {
            source: blocker.source,
            session: blocker.session,
            instructions: blocker.instructions,
        };
        let next = match self.nodes.remove(&blocker.provider) {
            Some(mut provider) => {
                let mut promoted: Option<DeliveryOrder> = None;
                match provider.delivery.take() {
                    Some(mut delivery) => {
                        promoted = delivery.finish(&order);
                        provider.delivery = Some(delivery);
                    }
                    None => {}
                }
                self.nodes.insert(blocker.provider, provider);
                promoted
            }
            None => None,
        };
        if let Some(next_order) = next {
            self.deliver_order(blocker.provider, next_order);
        }
    }

    /// Start delivering one ready order: take the request's input from its
    /// source node, spawn the task node that stands for the running service
    /// body, and tell the host to start the work. An order whose input is
    /// gone (cancelled while it waited) just releases its token so the next
    /// order runs.
    fn deliver_order(&mut self, provider: NodeId, order: DeliveryOrder) {
        let blocker = Blocker {
            provider,
            source: order.source,
            session: order.session,
            instructions: order.instructions,
        };
        match self.nodes.remove(&order.source) {
            Some(mut source) => {
                let input = source.take_input(order.session);
                let target = source.target;
                self.nodes.insert(order.source, source);
                match input {
                    Some(request) => {
                        let mut task = Node::new(NodeKind::Task);
                        task.session = Some(order.session);
                        task.owner = Some(order.source);
                        task.target = target;
                        task.blocker = Some(blocker);
                        let task_id = self.spawn(task);
                        self.add_active_task(order.source, task_id, order.session);
                        self.actions.push(
                            Action::StartTask {
                                task: task_id,
                                owner: order.source,
                                session: order.session,
                                request,
                            },
                        );
                    }
                    None => {
                        self.roster.unblock(blocker);
                    }
                }
            }
            None => {
                self.roster.unblock(blocker);
            }
        }
    }

    /// Note a freshly spawned task in its owner's active list.
    fn add_active_task(&mut self, owner: NodeId, task: NodeId, session: SessionId) {
        match self.nodes.remove(&owner) {
            Some(mut node) => {
                node.active_tasks.push(ActiveTask { task_id: task, session });
                self.nodes.insert(owner, node);
            }
            None => {}
        }
    }

    /// Funnel a request through the dispatch queue: while a dispatch is
    /// already draining, new requests are queued and the existing drain
    /// picks them up, instead of recursing on the call stack.
    fn dispatch_service(&mut self, req: ServiceRequest) {
        if self.dispatch_in_progress {
            self.pending_service_requests.push(req);
            return ;
        }
        self.dispatch_in_progress = true;
        self.dispatch_one(req);
        let mut budget = self.pending_service_requests.len();
        loop
            decreases budget,
        {
            if budget == 0 || self.pending_service_requests.len() == 0 {
                self.dispatch_in_progress = false;
                return ;
            }
            budget = budget - 1;
            let next = self.pending_service_requests.remove(0);
            self.dispatch_one(next);
        }
    }

    /// Dispatch one request to its provider's delivery queue. A despawned
    /// provider (or one without a delivery policy) disposes the request as
    /// unavailable rather than letting it hang. Orders the new request
    /// supplants are cancelled, and whatever order the queue makes ready is
    /// delivered.
    fn dispatch_one(&mut self, req: ServiceRequest)
        ensures
            ({
                let before = old(self).nodes@;
                let available = before.contains_key(req.provider)
                    && before[req.provider].delivery is Some;
                let gone_cause = DisposalCause::ServiceUnavailable(
                    ServiceUnavailable { service: req.provider, for_node: req.source },
                );
                !available ==> ({
                    &&& (before.contains_key(req.source) && before[req.source].scope is Some)
                        ==> ({
                        let after = final(self).nodes@[req.source];
                        &&& final(self).nodes@ == before.insert(req.source, after)
                        &&& after.disposals@.len() == before[req.source].disposals@.len() + 1
                        &&& after.disposals@.last().0 == req.session
                        &&& after.disposals@.last().1.cause == gone_cause
                        &&& final(self).roster.disposed@ == old(self).roster.disposed@.push(
                            DisposedSignal {
                                scope: before[req.source].scope->0,
                                session: req.session,
                            },
                        )
                    })
                    &&& !(before.contains_key(req.source) && before[req.source].scope is Some)
                        ==> ({
                        let sink = final(self).unhandled.disposals@;
                        &&& sink.len() == old(self).unhandled.disposals@.len() + 1
                        &&& sink.last().broken_node == req.source
                        &&& sink.last().disposal.cause == gone_cause
                    })
                })
            }),
    {
        let instructions = match self.nodes.get(&req.source) {
            Some(node) => node.instructions,
            None => None,
        };
        let order = DeliveryOrder { source: req.source, session: req.session, instructions };
        let available = match self.nodes.get(&req.provider) {
            Some(node) => node.delivery.is_some(),
            None => false,
        };
        if !available {
            self.emit_disposal(
                req.source,
                req.session,
                Disposal::service_unavailable(req.provider, req.source),
            );
            return ;
        }
        let insertion = match self.nodes.remove(&req.provider) {
            Some(mut provider) => {
                let mut outcome = None;
                match provider.delivery.take() {
                    Some(mut delivery) => {
                        outcome = Some(delivery.insert(order));
                        provider.delivery = Some(delivery);
                    }
                    None => {}
                }
                self.nodes.insert(req.provider, provider);
                outcome
            }
            None => None,
        };
        if let Some(result) = insertion {
            let mut queued_losers = result.supplanted_queued;
            loop
                decreases queued_losers@.len(),
            {
                if queued_losers.len() == 0 {
                    break ;
                }
                let lost = queued_losers.remove(0);
                self.roster.cancel(
                    Cancel {
                        source: req.source,
                        target: lost.source,
                        session: Some(lost.session),
                        cancellation: Cancellation::supplanted(
                            lost.source,
                            req.source,
                            req.session,
                        ),
                    },
                );
            }
            if let Some(active_lost) = result.supplanted_active {
                self.roster.cancel(
                    Cancel {
                        source: req.source,
                        target: active_lost.source,
                        session: Some(active_lost.session),
                        cancellation: Cancellation::supplanted(
                            active_lost.source,
                            req.source,
                            req.session,
                        ),
                    },
                );
            }
            if let Some(ready) = result.ready {
                self.deliver_order(req.provider, ready);
            }
        }
    }

    /// React to a disposal notice: when the session has become unreachable
    /// at the scope, emit the Unreachable cancellation for it, exactly
    /// once. The emission is recorded on the scope before the cancellation
    /// is queued, so a later notice for the same session finds the record
    /// and emits nothing ([`should_emit_unreachable`] captures the rule).
    fn process_disposed(&mut self, signal: DisposedSignal, fuel: usize)
        ensures
            ({
                let before = old(self).nodes@;
                let scope = signal.scope;
                let session = signal.session;
                let emits = before.contains_key(scope) && should_emit_unreachable(
                    before[scope].unreachable_emitted@,
                    reachable_spec(before, scope, session, fuel as nat),
                    session,
                );
                &&& final(self).roster.disposed@ == old(self).roster.disposed@
                &&& !emits ==> final(self).roster.cancel@ == old(self).roster.cancel@
                &&& emits ==> ({
                    let pushed = final(self).roster.cancel@.last();
                    &&& final(self).roster.cancel@.len() == old(self).roster.cancel@.len() + 1
                    &&& pushed.source == scope && pushed.target == scope && pushed.session
                        == Some(session)
                    &&& *pushed.cancellation.cause matches CancellationCause::Unreachable(u)
                        && u.scope == scope && u.session == session && u.disposals@
                        == session_disposals(before[scope].disposals@, session)
                    &&& final(self).nodes@.contains_key(scope)
                    &&& final(self).nodes@[scope].unreachable_emitted@ == before[
                        scope
                    ].unreachable_emitted@.push(session)
                })
            }),
    {
        let scope = signal.scope;
        let session = signal.session;
        let already = match self.nodes.get(&scope) {
            Some(node) => contains_session(&node.unreachable_emitted, session),
            None => true,
        };
        if already {
            return ;
        }
        if self.is_reachable(scope, session, fuel) {
            return ;
        }
        match self.nodes.remove(&scope) {
            Some(mut node) => {
                node.unreachable_emitted.push(session);
                self.nodes.insert(scope, node);
                proof {
                    assert(self.nodes@ =~= old(self).nodes@.insert(scope, self.nodes@[scope]));
                }
            }
            None => {
                return ;
            }
        }
        let disposals = self.take_session_disposals(scope, session);
        let cancellation = Cancellation::unreachable(scope, session, disposals);
        self.roster.cancel(
            Cancel { source: scope, target: scope, session: Some(session), cancellation },
        );
    }

    /// Run one node's operation, dispatching on its behavior tag.
    fn execute_node(&mut self, id: NodeId) {
        let kind = match self.nodes.get(&id) {
            Some(node) => node.kind,
            None => {
                return ;
            }
        };
        match kind {
            NodeKind::Seed => self.execute_seed(id),
            NodeKind::BlockingMap => self.execute_blocking_map(id),
            NodeKind::AsyncMap => self.execute_async_map(id),
            NodeKind::Task => self.execute_task(id),
            NodeKind::Terminate => self.execute_terminate(id),
            NodeKind::Store => self.execute_store(id, false),
            NodeKind::Push => self.execute_store(id, true),
            NodeKind::ServiceRequest => self.execute_service_request(id),
            NodeKind::Provider => {}
            NodeKind::Race => self.execute_race(id),
        }
    }

    /// The first input to arrive for a session wins the race and goes
    /// downstream; every later arrival for that session is disposed, never
    /// delivered.
    fn execute_race(&mut self, id: NodeId)
        ensures
            !old(self).nodes@.contains_key(id) ==> *final(self) == *old(self),
            (old(self).nodes@.contains_key(id) && old(self).nodes@[id].inputs@.len() > 0 && old(
                self,
            ).nodes@[id].target != Some(id)) ==> ({
                let before = old(self).nodes@;
                let racer = before[id];
                let entry = racer.inputs@[0];
                let won = !racer.marked_sessions@.contains(entry.session);
                let after = final(self).nodes@;
                &&& after.contains_key(id)
                &&& after[id].inputs@ == racer.inputs@.skip(1)
                &&& won ==> after[id].marked_sessions@ == racer.marked_sessions@.push(
                    entry.session,
                )
                &&& !won ==> after[id].marked_sessions@ == racer.marked_sessions@
                &&& (racer.target matches Some(t) ==> (t != id && before.contains_key(t)) ==> ({
                    &&& won ==> after[t].inputs@ == before[t].inputs@.push(
                        Input { session: entry.session, data: entry.data },
                    )
                    &&& !won ==> after[t].inputs@ == before[t].inputs@
                }))
                &&& !won ==> (racer.scope is None ==> ({
                    let sink = final(self).unhandled.disposals@;
                    sink.len() == old(self).unhandled.disposals@.len() + 1
                        && sink.last().broken_node == id
                }))
                &&& !won ==> (racer.scope matches Some(sc) ==> final(self).roster.disposed@
                    == old(self).roster.disposed@.push(
                    DisposedSignal { scope: sc, session: entry.session },
                ))
            }),
    {
        if !self.nodes.contains_key(&id) {
            return ;
        }
        let arrival = match self.nodes.remove(&id) {
            Some(mut node) => {
                let outcome = match node.pop_input() {
                    Some(entry) => {
                        if contains_session(&node.marked_sessions, entry.session) {
                            Some((entry, false))
                        } else {
                            node.marked_sessions.push(entry.session);
                            Some((entry, true))
                        }
                    }
                    None => None,
                };
                let target = node.target;
                let detached = node.detached;
                self.nodes.insert(id, node);
                proof {
                    assert(self.nodes@ =~= old(self).nodes@.insert(id, self.nodes@[id]));
                }
                match outcome {
                    Some(pair) => Some((pair.0, pair.1, target, detached)),
                    None => None,
                }
            }
            None => {
                proof {
                    assert(self.nodes@ =~= old(self).nodes@);
                }
                None
            }
        };
        match arrival {
            Some(entry4) => {
                let entry = entry4.0;
                let won = entry4.1;
                let target = entry4.2;
                let detached = entry4.3;
                if won {
                    self.deliver_response(target, detached, entry.session, entry.data);
                } else {
                    let loser_target = match target {
                        Some(t) => t,
                        None => id,
                    };
                    self.emit_disposal(
                        id,
                        entry.session,
                        Disposal::branching(id, loser_target, None),
                    );
                }
            }
            None => {}
        }
    }

    /// Pass a produced response on to a downstream target. A detached chain
    /// end silently discards the response; anywhere else a missing target
    /// is a broken link, recorded in the sink.
    fn deliver_response(
        &mut self,
        target: Option<NodeId>,
        detached: bool,
        session: SessionId,
        data: V,
    )
        ensures
            target matches Some(t) ==> (old(self).nodes@.contains_key(t) ==> ({
                let after = final(self).nodes@[t];
                &&& final(self).nodes@ == old(self).nodes@.insert(t, after)
                &&& after == (Node { inputs: after.inputs, ..old(self).nodes@[t] })
                &&& after.inputs@ == old(self).nodes@[t].inputs@.push(Input { session, data })
                &&& final(self).roster.queue@ == old(self).roster.queue@.push(t)
                &&& final(self).roster == (OperationRoster {
                    queue: final(self).roster.queue,
                    ..old(self).roster
                })
                &&& *final(self) == (Engine {
                    nodes: final(self).nodes,
                    roster: final(self).roster,
                    ..*old(self)
                })
            })),
            target matches Some(t) ==> (!old(self).nodes@.contains_key(t) ==> ({
                &&& final(self).nodes@ == old(self).nodes@
                &&& final(self).roster == old(self).roster
                &&& detached ==> *final(self) == *old(self)
            })),
            target is None ==> final(self).nodes@ == old(self).nodes@ && final(self).roster
                == old(self).roster && (detached ==> *final(self) == *old(self)),
    {
        match target {
            Some(t) => {
                match self.give_input(t, session, data) {
                    Ok(_) => {}
                    Err(_) => {
                        if !detached {
                            self.unhandled.operations.push(OperationError::Broken(None));
                        }
                    }
                }
            }
            None => {
                if !detached {
                    self.unhandled.operations.push(OperationError::Broken(None));
                }
            }
        }
    }

    /// A seed offers the value that was injected with it.
    fn execute_seed(&mut self, id: NodeId) {
        match self.nodes.remove(&id) {
            Some(mut node) => {
                let input = node.pop_input();
                let target = node.target;
                let detached = node.detached;
                self.nodes.insert(id, node);
                if let Some(entry) = input {
                    self.deliver_response(target, detached, entry.session, entry.data);
                }
            }
            None => {}
        }
    }

    /// A synchronous map hands its input to the host and awaits the result
    /// for that session; [`Engine::deliver_map_result`] completes it.
    fn execute_blocking_map(&mut self, id: NodeId) {
        match self.nodes.remove(&id) {
            Some(mut node) => {
                match node.pop_input() {
                    Some(entry) => {
                        node.marked_sessions.push(entry.session);
                        self.nodes.insert(id, node);
                        self.actions.push(
                            Action::RunBlockingMap {
                                node: id,
                                session: entry.session,
                                request: entry.data,
                            },
                        );
                    }
                    None => {
                        self.nodes.insert(id, node);
                    }
                }
            }
            None => {}
        }
    }

    /// An asynchronous map wraps its oldest buffered input in a task node,
    /// records the task in its active list, and tells the host to start the
    /// computation.
    fn execute_async_map(&mut self, id: NodeId)
        ensures
            !old(self).nodes@.contains_key(id) ==> *final(self) == *old(self),
            (old(self).nodes@.contains_key(id) && old(self).nodes@[id].inputs@.len() == 0) ==> (
            final(self).nodes@ == old(self).nodes@ && *final(self) == (Engine {
                nodes: final(self).nodes,
                ..*old(self)
            })),
            (old(self).nodes@.contains_key(id) && old(self).nodes@[id].inputs@.len() > 0) ==> ({
                let before = old(self).nodes@;
                let after = final(self).nodes@;
                let entry = before[id].inputs@[0];
                &&& final(self).actions@.len() == old(self).actions@.len() + 1
                &&& final(self).actions@.last() matches Action::StartTask {
                    task,
                    owner,
                    session,
                    request,
                } && owner == id && session == entry.session && request == entry.data && (task
                    != id ==> ({
                    &&& after.contains_key(task)
                    &&& after[task].kind is Task
                    &&& after[task].session == Some(entry.session)
                    &&& after[task].owner == Some(id)
                    &&& after[task].target == before[id].target
                    &&& after[task].task_state is Running
                    &&& after[task].blocker is None
                    &&& after[id].inputs@ == before[id].inputs@.skip(1)
                    &&& after[id].active_tasks@ == before[id].active_tasks@.push(
                        ActiveTask { task_id: task, session: entry.session },
                    )
                }))
            }),
    {
        if !self.nodes.contains_key(&id) {
            return ;
        }
        match self.nodes.remove(&id) {
            Some(mut node) => {
                match node.pop_input() {
                    Some(entry) => {
                        let mut task = Node::new(NodeKind::Task);
                        task.session = Some(entry.session);
                        task.owner = Some(id);
                        task.target = node.target;
                        let task_id = self.spawn(task);
                        node.active_tasks.push(
                            ActiveTask { task_id, session: entry.session },
                        );
                        self.nodes.insert(id, node);
                        proof {
                            if task_id != id {
                                assert(self.nodes@.contains_key(task_id));
                                assert(self.nodes@.contains_key(id));
                            }
                        }
                        self.actions.push(
                            Action::StartTask {
                                task: task_id,
                                owner: id,
                                session: entry.session,
                                request: entry.data,
                            },
                        );
                    }
                    None => {
                        self.nodes.insert(id, node);
                        proof {
                            assert(self.nodes@ =~= old(self).nodes@);
                        }
                    }
                }
            }
            None => {}
        }
    }

    /// Poll a task node: a finished computation delivers its result to the
    /// recorded target, releases its serialization token, leaves its
    /// owner's active list and despawns the node; an unfinished one stays
    /// exactly as it was, delivering nothing.
    fn execute_task(&mut self, id: NodeId)
        ensures
            !old(self).nodes@.contains_key(id) ==> *final(self) == *old(self),
            old(self).nodes@.contains_key(id) ==> ({
                let before = old(self).nodes@;
                !(before[id].task_state is Ready) ==> final(self).nodes@ == before && *final(self)
                    == (Engine { nodes: final(self).nodes, ..*old(self) })
            }),
            old(self).nodes@.contains_key(id) ==> (old(
                self,
            ).nodes@[id].task_state matches TaskState::Ready(result) ==> ({
                let before = old(self).nodes@;
                let after = final(self).nodes@;
                let done = before[id];
                &&& (done.owner matches Some(o) ==> done.session matches Some(s) ==> ({
                    &&& !after.contains_key(id)
                    &&& (done.target matches Some(t) ==> (t != id && before.contains_key(t))
                        ==> ({
                        &&& after.contains_key(t)
                        &&& (t != o ==> after[t].inputs@ == before[t].inputs@.push(
                            Input { session: s, data: result },
                        ))
                        &&& final(self).roster.queue@ == old(self).roster.queue@.push(t)
                    }))
                    &&& (done.blocker matches Some(b) ==> final(self).roster.unblock@
                        == old(self).roster.unblock@.push(b))
                    &&& (done.blocker is None ==> final(self).roster.unblock@
                        == old(self).roster.unblock@)
                }))
                &&& ((done.owner is None || done.session is None) ==> ({
                    let sink = final(self).unhandled.operations@;
                    sink.len() == old(self).unhandled.operations@.len() + 1
                }))
            })),
    {
        if !self.nodes.contains_key(&id) {
            return ;
        }
        match self.nodes.remove(&id) {
            Some(mut node) => {
                let mut state = TaskState::Running;
                core::mem::swap(&mut node.task_state, &mut state);
                match state {
                    TaskState::Ready(result) => {
                        let target = node.target;
                        let detached = node.detached;
                        let blocker = node.blocker;
                        match (node.owner, node.session) {
                            (Some(owner_id), Some(session)) => {
                                let _remaining = self.remove_owner_task(owner_id, id, session);
                                proof {
                                    match target {
                                        Some(t) => {
                                            if t != id && t != owner_id && old(
                                                self,
                                            ).nodes@.contains_key(t) {
                                                assert(self.nodes@.contains_key(t));
                                                assert(self.nodes@[t] == old(self).nodes@[t]);
                                            }
                                        }
                                        None => {}
                                    }
                                }
                                self.deliver_response(target, detached, session, result);
                            }
                            _ => {
                                self.unhandled.operations.push(OperationError::Broken(None));
                            }
                        }
                        if let Some(b) = blocker {
                            self.roster.unblock(b);
                        }
                    }
                    other => {
                        node.task_state = other;
                        self.nodes.insert(id, node);
                        proof {
                            assert(self.nodes@ =~= old(self).nodes@);
                        }
                    }
                }
            }
            None => {}
        }
    }

    /// The chain's end: resolve the promise with the response, or discard
    /// the response when the chain was detached or never capped.
    fn execute_terminate(&mut self, id: NodeId) {
        match self.nodes.remove(&id) {
            Some(mut node) => {
                match node.pop_input() {
                    Some(entry) => {
                        match node.sender.take() {
                            Some(sender) => sender.send(entry.data),
                            None => {}
                        }
                        self.nodes.insert(id, node);
                    }
                    None => {
                        self.nodes.insert(id, node);
                    }
                }
            }
            None => {}
        }
    }

    /// Store or collect the response on the node recorded as this link's
    /// target.
    fn execute_store(&mut self, id: NodeId, append: bool) {
        match self.nodes.remove(&id) {
            Some(mut node) => {
                let input = node.pop_input();
                let target = node.target;
                let detached = node.detached;
                self.nodes.insert(id, node);
                if let Some(entry) = input {
                    match target {
                        Some(at) => {
                            if !self.store_at(at, entry.session, entry.data, append) {
                                if !detached {
                                    self.unhandled.operations.push(
                                        OperationError::Broken(None),
                                    );
                                }
                            }
                        }
                        None => {
                            if !detached {
                                self.unhandled.operations.push(OperationError::Broken(None));
                            }
                        }
                    }
                }
            }
            None => {}
        }
    }

    /// Write a response into a holder node's storage or collection.
    fn store_at(&mut self, at: NodeId, session: SessionId, data: V, append: bool) -> (r: bool) {
        match self.nodes.remove(&at) {
            Some(mut node) => {
                if append {
                    node.collection.items.push(Storage { data, session });
                } else {
                    node.storage = Some(Storage { data, session });
                }
                self.nodes.insert(at, node);
                true
            }
            None => false,
        }
    }

    /// A request link asks its provider for delivery of its oldest buffered
    /// session, once per session; the input stays buffered until the
    /// provider's queue makes the order ready.
    fn execute_service_request(&mut self, id: NodeId) {
        let decision = match self.nodes.remove(&id) {
            Some(mut node) => {
                let provider = node.provider;
                let session = node.first_input_session();
                let outcome = match session {
                    Some(s) => {
                        if contains_session(&node.marked_sessions, s) {
                            None
                        } else {
                            node.marked_sessions.push(s);
                            Some(s)
                        }
                    }
                    None => None,
                };
                self.nodes.insert(id, node);
                match (outcome, provider) {
                    (Some(s), Some(p)) => Some((p, s)),
                    (Some(_), None) => {
                        self.unhandled.operations.push(OperationError::Broken(None));
                        None
                    }
                    _ => None,
                }
            }
            None => None,
        };
        if let Some((provider, session)) = decision {
            self.dispatch_service(ServiceRequest { provider, source: id, session });
        }
    }
}

} // verus!
