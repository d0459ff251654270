//! Cancellations: the signal that a session's path through the graph is
//! being terminated abnormally. A cancellation targets exactly one node and
//! session; if it cannot be delivered it is recorded in the process-wide
//! unhandled-errors sink rather than being dropped or unwinding the drain.

use vstd::prelude::*;

use crate::NodeId;
use crate::SessionId;
use crate::disposal::Disposal;
use crate::disposal::DisposalFailure;
use crate::disposal::Filtered;
use crate::disposal::Supplanted;
use std::sync::Arc;

verus! {

/// Information about a cancellation that occurred. The cause is shared and
/// immutable: several downstream consumers may inspect the same record.
#[derive(Debug)]
pub struct Cancellation {
    /// The cause of the cancellation.
    pub cause: Arc<CancellationCause>,
    /// Cancellations that occurred within cancellation workflows that were
    /// themselves triggered by this cancellation.
    pub while_cancelling: Vec<Cancellation>,
}

impl Cancellation {
    /// Wrap a cause as a cancellation record.
    pub fn from_cause(cause: CancellationCause) -> (r: Self)
        ensures
            r.cause == cause,
            r.while_cancelling.len() == 0,
    {
        Self { cause: Arc::new(cause), while_cancelling: Vec::new() }
    }

    /// A filtering node triggered a cancellation.
    pub fn filtered(filtered_at_node: NodeId, reason: Option<anyhow::Error>) -> (r: Self)
        ensures
            *r.cause matches CancellationCause::Filtered(f) && f.filtered_at_node
                == filtered_at_node,
            r.while_cancelling.len() == 0,
    {
        Self::from_cause(CancellationCause::Filtered(Filtered { filtered_at_node, reason }))
    }

    /// A labeled request supplanted an earlier one.
    pub fn supplanted(
        supplanted_at_node: NodeId,
        supplanted_by_node: NodeId,
        supplanting_session: SessionId,
    ) -> (r: Self)
        ensures
            r.cause == CancellationCause::Supplanted(
                Supplanted { supplanted_at_node, supplanted_by_node, supplanting_session },
            ),
            r.while_cancelling.len() == 0,
    {
        Self::from_cause(
            CancellationCause::Supplanted(
                Supplanted { supplanted_at_node, supplanted_by_node, supplanting_session },
            ),
        )
    }

    /// The promise at the end of a chain was dropped without being detached.
    pub fn target_dropped(target: NodeId) -> (r: Self)
        ensures
            r.cause == CancellationCause::TargetDropped(target),
            r.while_cancelling.len() == 0,
    {
        Self::from_cause(CancellationCause::TargetDropped(target))
    }

    /// The session can no longer reach the node.
    pub fn unreachable(scope: NodeId, session: SessionId, disposals: Vec<Disposal>) -> (r: Self)
        ensures
            *r.cause matches CancellationCause::Unreachable(u) && u.scope == scope && u.session
                == session && u.disposals == disposals,
            r.while_cancelling.len() == 0,
    {
        Self::from_cause(
            CancellationCause::Unreachable(Unreachability { scope, session, disposals }),
        )
    }

    /// A node of the graph is broken: despawned or missing an attribute.
    pub fn broken(node: NodeId, backtrace: Option<backtrace::Backtrace>) -> (r: Self)
        ensures
            *r.cause matches CancellationCause::Broken(b) && b.node == node,
            r.while_cancelling.len() == 0,
    {
        Self::from_cause(CancellationCause::Broken(Broken { node, backtrace }))
    }
}

/// Why a cancellation occurred.
#[derive(Debug)]
pub enum CancellationCause {
    /// The promise taken by the requester was dropped without being
    /// detached, so the chain's result has no consumer.
    TargetDropped(NodeId),
    /// There is no path that can still deliver input for the session.
    Unreachable(Unreachability),
    /// A filtering node triggered a cancellation.
    Filtered(Filtered),
    /// A queued request was supplanted by a newer request with the same
    /// delivery label.
    Supplanted(Supplanted),
    /// A promise can never be delivered because the mutex inside of it was
    /// poisoned.
    PoisonedMutexInPromise,
    /// A node in the workflow was broken, for example despawned or missing
    /// an attribute. This indicates the graph was modified in an
    /// unsupported way.
    Broken(Broken),
    /// All the branches of a fork were cancelled.
    ForkCancelled(ForkCancelled),
    /// A join was cancelled because at least one of its resolved inputs was
    /// cancelled. If every unresolved input is a disposal instead, the join
    /// is disposed, not cancelled.
    JoinCancelled(JoinCancelled),
    /// A race was cancelled because all of its inputs were cancelled or
    /// disposed, with at least one cancellation. If all of them are
    /// disposals, the race is disposed, not cancelled.
    RaceCancelled(RaceCancelled),
}

/// A variant of [`CancellationCause`].
#[derive(Debug)]
pub struct Broken {
    /// The node where the breakage was detected.
    pub node: NodeId,
    /// Where the breakage was detected, if a backtrace was captured.
    pub backtrace: Option<backtrace::Backtrace>,
}

/// A variant of [`CancellationCause`].
#[derive(Debug)]
pub struct Unreachability {
    /// The scope whose termination became unreachable.
    pub scope: NodeId,
    /// The session whose termination became unreachable.
    pub session: SessionId,
    /// The disposals that occurred for this session.
    pub disposals: Vec<Disposal>,
}

impl Unreachability {
    pub fn new(scope: NodeId, session: SessionId, disposals: Vec<Disposal>) -> (r: Self)
        ensures
            r == (Unreachability { scope, session, disposals }),
    {
        Self { scope, session, disposals }
    }
}

/// A variant of [`CancellationCause`].
#[derive(Debug)]
pub struct ForkCancelled {
    /// The source node of the fork.
    pub fork: NodeId,
    /// The cancellation cause of each cancelled downstream branch.
    pub cancelled: Vec<Arc<CancellationCause>>,
}

/// A variant of [`CancellationCause`].
#[derive(Debug)]
pub struct JoinCancelled {
    /// The source node of the join.
    pub join: NodeId,
    /// The inputs of the join which were delivered.
    pub delivered: Vec<NodeId>,
    /// The inputs of the join which were still waiting for a delivery.
    pub pending: Vec<NodeId>,
    /// The inputs of the join which were disposed.
    pub disposals: Vec<NodeId>,
    /// The causes of the inputs of the join which were cancelled.
    pub cancellations: Vec<Arc<CancellationCause>>,
}

/// A variant of [`CancellationCause`].
#[derive(Debug)]
pub struct RaceCancelled {
    /// The source node of the race.
    pub race: NodeId,
    /// The inputs of the race that were disposed.
    pub disposals: Vec<NodeId>,
    /// The causes of the inputs of the race that were cancelled.
    pub cancellations: Vec<Arc<CancellationCause>>,
}

/// Passed into the roster to deliver a cancel signal to its target.
#[derive(Debug)]
pub struct Cancel {
    /// The node that triggered the cancellation.
    pub source: NodeId,
    /// The target of the cancellation.
    pub target: NodeId,
    /// The session which is being cancelled for the target, if the
    /// cancellation is specific to one session.
    pub session: Option<SessionId>,
    /// Why the cancellation is happening.
    pub cancellation: Cancellation,
}

/// Signals that a cancellation has arrived at a node. Receivers read these
/// out of the node's signal queue while handling the cancellation.
#[derive(Debug)]
pub struct CancelSignal {
    pub session: Option<SessionId>,
    pub cancellation: Cancellation,
}

/// Why an operation failed: either a broken node (despawned or missing an
/// attribute), or an operation that was asked to run before its inputs
/// were ready.
#[derive(Debug)]
pub enum OperationError {
    /// The graph is structurally corrupt at some node.
    Broken(Option<backtrace::Backtrace>),
    /// The operation cannot run yet.
    NotReady,
}

/// A cancellation that could not be delivered to its intended target.
#[derive(Debug)]
pub struct CancelFailure {
    /// The error produced while the cancellation was happening.
    pub error: OperationError,
    /// The cancellation that was being emitted.
    pub cancel: Cancel,
}

impl CancelFailure {
    pub fn new(error: OperationError, cancel: Cancel) -> (r: Self)
        ensures
            r == (CancelFailure { error, cancel }),
    {
        Self { error, cancel }
    }
}

/// A background task whose computation could not be confirmed stopped.
#[derive(Debug)]
pub struct StopTaskFailure {
    /// The task that was unable to be stopped.
    pub task: NodeId,
    /// The backtrace to indicate why it failed.
    pub backtrace: Option<backtrace::Backtrace>,
}

/// The process-wide sink for failures that could not be delivered to their
/// intended target. Nothing in the engine is allowed to abort the drain
/// loop; whatever cannot be handled lands here for later inspection.
#[derive(Debug)]
pub struct UnhandledErrors {
    /// Cancellations that could not be delivered.
    pub cancellations: Vec<CancelFailure>,
    /// Operations that failed with nowhere to report it.
    pub operations: Vec<OperationError>,
    /// Disposals that could not be delivered.
    pub disposals: Vec<DisposalFailure>,
    /// Tasks that failed to stop.
    pub stop_tasks: Vec<StopTaskFailure>,
    /// Chain targets that were left unused by their builder.
    pub unused_targets: Vec<NodeId>,
}

impl UnhandledErrors {
    /// An empty sink.
    pub fn new() -> (r: Self)
        ensures
            r.cancellations.len() == 0,
            r.operations.len() == 0,
            r.disposals.len() == 0,
            r.stop_tasks.len() == 0,
            r.unused_targets.len() == 0,
    {
        Self {
            cancellations: Vec::new(),
            operations: Vec::new(),
            disposals: Vec::new(),
            stop_tasks: Vec::new(),
            unused_targets: Vec::new(),
        }
    }

    /// Whether nothing has gone unhandled.
    pub fn is_empty(&self) -> (r: bool)
        ensures
            r == (self.cancellations.len() == 0 && self.operations.len() == 0
                && self.disposals.len() == 0 && self.stop_tasks.len() == 0
                && self.unused_targets.len() == 0),
    {
        self.cancellations.len() == 0 && self.operations.len() == 0 && self.disposals.len() == 0
            && self.stop_tasks.len() == 0 && self.unused_targets.len() == 0
    }
}

impl Default for UnhandledErrors {
    fn default() -> (r: Self)
        ensures
            r.cancellations.len() == 0,
            r.operations.len() == 0,
            r.disposals.len() == 0,
            r.stop_tasks.len() == 0,
            r.unused_targets.len() == 0,
    {
        UnhandledErrors::new()
    }
}

} // verus!
