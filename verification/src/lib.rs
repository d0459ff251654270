//! A reactive workflow engine: services composed into chains, forks, joins
//! and races, with verified delivery, cancellation, disposal and cleanup
//! bookkeeping.
//!
//! The engine mutates a store of nodes on one logical thread. Background
//! work (async tasks, user-supplied service bodies) runs outside and talks
//! back through wake notifications and explicit completion calls, so every
//! decision the engine makes is an ordinary function from state and event
//! to state and actions, and is verified as such.

use vstd::prelude::*;

mod buffer;
mod cancel;
mod channels;
mod delivery;
mod engine;
mod diagnostics;
mod disposal;
mod instructions;
mod joins;
mod operation;
mod promise;
mod service;
mod shared;

pub use cancel::Broken;
pub use cancel::Cancel;
pub use cancel::CancelFailure;
pub use cancel::CancelSignal;
pub use cancel::Cancellation;
pub use cancel::CancellationCause;
pub use cancel::ForkCancelled;
pub use cancel::JoinCancelled;
pub use cancel::OperationError;
pub use cancel::RaceCancelled;
pub use cancel::StopTaskFailure;
pub use cancel::UnhandledErrors;
pub use cancel::Unreachability;
pub use channels::WakeQueue;
pub use engine::Action;
pub use engine::CleanupNotice;
pub use engine::Engine;
pub use engine::ImpulseChain;
pub use engine::ServiceRequest;
pub use engine::cancel_delivery;
pub use engine::lemma_unreachable_emitted_once;
pub use engine::reachable_spec;
pub use engine::should_emit_unreachable;
pub use delivery::Delivery;
pub use delivery::DeliveryInsertion;
pub use delivery::DeliveryOrder;
pub use delivery::DeliveryQueue;
pub use delivery::active_after_insert;
pub use delivery::cancelled_active_after_insert;
pub use delivery::kept_queue;
pub use delivery::lemma_ensured_resists_preemption;
pub use delivery::lemma_preemption_cancels_unensured;
pub use delivery::lemma_serial_delivery_mutual_exclusion;
pub use delivery::order_supplants;
pub use delivery::queue_after_insert;
pub use delivery::ready_after_insert;
pub use delivery::supplanted_queue;
pub use delivery::supplants;
pub use delivery::supplants_active;
pub use disposal::Disposal;
pub use disposal::DisposalCause;
pub use disposal::DisposalFailure;
pub use disposal::DisposedBranch;
pub use disposal::Filtered;
pub use disposal::JoinImpossible;
pub use disposal::PoisonedMutexDisposal;
pub use disposal::ServiceUnavailable;
pub use disposal::Supplanted;

pub use promise::Interrupter;
pub use promise::Promise;
pub use promise::PromiseResult;
pub use promise::PromiseSender;
pub use promise::PromiseState;
pub use promise::absorb;
pub use promise::state_evolution;

pub use joins::InputResolution;
pub use joins::JoinVerdict;
pub use joins::RaceVerdict;
pub use joins::all_delivered;
pub use joins::any_cancelled;
pub use joins::any_disposed;
pub use joins::cancelled_causes;
pub use joins::classify_join;
pub use joins::classify_race;
pub use joins::delivered_nodes;
pub use joins::disposed_nodes;
pub use joins::join_is_cancelled;
pub use joins::join_is_disposed;
pub use joins::lemma_join_tie_break;
pub use joins::first_delivered_index;
pub use joins::lemma_race_done_delivers_none;
pub use joins::lemma_race_exclusivity;
pub use joins::pending_nodes;
pub use joins::race_accept;
pub use joins::race_deliveries;
pub use operation::ActiveTask;
pub use operation::Blocker;
pub use operation::Collection;
pub use operation::DisposedSignal;
pub use operation::Input;
pub use operation::Node;
pub use operation::NodeKind;
pub use operation::OperationRoster;
pub use operation::Storage;
pub use operation::TaskState;
pub use operation::first_input_index;
pub use operation::lemma_first_input_index;
pub use operation::lemma_cleanup_completes_after_last_task;
pub use operation::lemma_delivery_adds_one;
pub use operation::lemma_exactly_once_delivery;
pub use operation::session_input_count;
pub use operation::session_disposals;
pub use operation::kept_disposals;
pub use operation::first_task_index;
pub use operation::session_task_ids;
pub use operation::session_task_count;

pub use service::BlockingChosen;
pub use service::ParallelChosen;
pub use service::SerialChosen;
pub use service::Service;

pub use instructions::AsDeliveryInstructions;
pub use instructions::DeliveryInstructions;
pub use instructions::DeliveryLabel;
pub use instructions::DeliveryLabelId;

verus! {

/// Identifies a node: one vertex of the workflow graph, a handle into the
/// engine's attribute store.
pub type NodeId = u64;

/// Identifies a session: one logical request traveling through the graph.
/// All per-request state is keyed by (node, session).
pub type SessionId = u64;

} // verus!
