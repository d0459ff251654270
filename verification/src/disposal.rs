//! Disposals: the signal that one branch of a workflow will not produce a
//! result, without anything having gone wrong. Disposals accumulate per
//! (node, session) and prompt the scope to re-check whether the session
//! can still finish.

use vstd::prelude::*;

use crate::NodeId;
use crate::SessionId;
use crate::cancel::Cancellation;
use std::sync::Arc;

verus! {

/// Why a branch was given up without an error.
#[derive(Debug)]
pub enum DisposalCause {
    /// Some services queue up requests to deliver them one at a time.
    /// Depending on the label of the incoming requests, a new request might
    /// supplant an earlier one, causing the earlier request to be disposed.
    Supplanted(Supplanted),
    /// A node filtered out a response.
    Filtered(Filtered),
    /// A node disposed of one of its output branches.
    Branching(DisposedBranch),
    /// A join was halted because one or more of its inputs became
    /// unreachable.
    JoinImpossible(JoinImpossible),
    /// A service provider needed by the chain was despawned or had a
    /// critical attribute removed.
    ServiceUnavailable(ServiceUnavailable),
    /// An output was disposed because a mutex was poisoned.
    PoisonedMutex(PoisonedMutexDisposal),
    /// A scope was cancelled, so its output has been disposed.
    Scope(Cancellation),
}

/// A record that one branch of a session's workflow terminated without
/// producing a result. Shareable and immutable once created.
#[derive(Debug, Clone)]
pub struct Disposal {
    pub cause: Arc<DisposalCause>,
}

impl Disposal {
    /// Wrap a cause as a disposal record.
    pub fn from_cause(cause: DisposalCause) -> (r: Disposal)
        ensures
            r.cause == cause,
    {
        Disposal { cause: Arc::new(cause) }
    }

    /// A provider the chain needed is gone.
    pub fn service_unavailable(service: NodeId, for_node: NodeId) -> (r: Disposal)
        ensures
            r.cause == DisposalCause::ServiceUnavailable(
                ServiceUnavailable { service, for_node },
            ),
    {
        Disposal::from_cause(
            DisposalCause::ServiceUnavailable(ServiceUnavailable { service, for_node }),
        )
    }

    /// A node dropped one of its output branches.
    pub fn branching(
        branched_at_node: NodeId,
        disposed_for_target: NodeId,
        reason: Option<anyhow::Error>,
    ) -> (r: Disposal)
        ensures
            *r.cause matches DisposalCause::Branching(b) && b.branched_at_node == branched_at_node
                && b.disposed_for_target == disposed_for_target,
    {
        Disposal::from_cause(
            DisposalCause::Branching(
                DisposedBranch { branched_at_node, disposed_for_target, reason },
            ),
        )
    }

    /// An earlier request was supplanted by a newer one with the same label.
    pub fn supplanted(
        supplanted_at_node: NodeId,
        supplanted_by_node: NodeId,
        supplanting_session: SessionId,
    ) -> (r: Disposal)
        ensures
            r.cause == DisposalCause::Supplanted(
                Supplanted { supplanted_at_node, supplanted_by_node, supplanting_session },
            ),
    {
        Disposal::from_cause(
            DisposalCause::Supplanted(
                Supplanted { supplanted_at_node, supplanted_by_node, supplanting_session },
            ),
        )
    }

    /// A node filtered out a response.
    pub fn filtered(filtered_at_node: NodeId, reason: Option<anyhow::Error>) -> (r: Disposal)
        ensures
            *r.cause matches DisposalCause::Filtered(f) && f.filtered_at_node == filtered_at_node,
    {
        Disposal::from_cause(DisposalCause::Filtered(Filtered { filtered_at_node, reason }))
    }
}

/// A variant of [`DisposalCause`].
#[derive(Debug)]
pub struct Supplanted {
    /// The node whose request was supplanted.
    pub supplanted_at_node: NodeId,
    /// The node that did the supplanting.
    pub supplanted_by_node: NodeId,
    /// The session that did the supplanting.
    pub supplanting_session: SessionId,
}

impl Supplanted {
    pub fn new(
        cancelled_at_node: NodeId,
        supplanting_node: NodeId,
        supplanting_session: SessionId,
    ) -> (r: Self)
        ensures
            r == (Supplanted {
                supplanted_at_node: cancelled_at_node,
                supplanted_by_node: supplanting_node,
                supplanting_session,
            }),
    {
        Self {
            supplanted_at_node: cancelled_at_node,
            supplanted_by_node: supplanting_node,
            supplanting_session,
        }
    }
}

/// A variant of [`DisposalCause`].
#[derive(Debug)]
pub struct Filtered {
    /// The node that did the filtering.
    pub filtered_at_node: NodeId,
    /// Optionally, a reason given for why the filtering happened.
    pub reason: Option<anyhow::Error>,
}

impl Filtered {
    pub fn new(filtered_at_node: NodeId, reason: Option<anyhow::Error>) -> (r: Self)
        ensures
            r.filtered_at_node == filtered_at_node,
    {
        Self { filtered_at_node, reason }
    }
}

/// A variant of [`DisposalCause`].
#[derive(Debug)]
pub struct DisposedBranch {
    /// The node where the branching happened.
    pub branched_at_node: NodeId,
    /// The target node whose input was disposed.
    pub disposed_for_target: NodeId,
    /// Optionally, a reason given for the branching.
    pub reason: Option<anyhow::Error>,
}

/// A variant of [`DisposalCause`].
#[derive(Debug)]
pub struct JoinImpossible {
    /// The source node of the join.
    pub join: NodeId,
    /// The unreachable input nodes.
    pub unreachable: Vec<NodeId>,
}

/// A variant of [`DisposalCause`].
#[derive(Debug)]
pub struct ServiceUnavailable {
    /// The service that is no longer available.
    pub service: NodeId,
    /// The node that intended to use the service.
    pub for_node: NodeId,
}

/// A variant of [`DisposalCause`].
#[derive(Debug)]
pub struct PoisonedMutexDisposal {
    /// The node containing the poisoned mutex.
    pub for_node: NodeId,
}

/// When it is impossible for some reason to deliver a disposal, the
/// incident is logged in the unhandled-errors sink as one of these.
#[derive(Debug)]
pub struct DisposalFailure {
    /// The disposal that was attempted.
    pub disposal: Disposal,
    /// The node which was attempting to report the disposal.
    pub broken_node: NodeId,
    /// The backtrace indicating what led up to the failure.
    pub backtrace: Option<backtrace::Backtrace>,
}

} // verus!
