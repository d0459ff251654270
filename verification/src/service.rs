//! The public handle for referring to a service provider, and the markers
//! a builder uses to choose the provider's delivery policy.

use vstd::prelude::*;

use crate::NodeId;
use crate::delivery::Delivery;
use crate::instructions::DeliveryInstructions;

verus! {

/// A handle for an existing service provider. Requests made through the
/// handle carry its delivery instructions.
#[derive(Clone, Copy, PartialEq, Eq, Structural, Debug)]
pub struct Service {
    /// The node the provider is associated with.
    pub provider: NodeId,
    /// Delivery instructions attached to requests made through this handle.
    pub instructions: Option<DeliveryInstructions>,
}

impl Service {
    /// Only the engine creates these, when a service is added.
    pub(crate) fn new(provider: NodeId) -> (r: Self)
        ensures
            r.provider == provider,
            r.instructions is None,
    {
        Self { provider, instructions: None }
    }

    /// The node that the service provider is associated with.
    pub fn provider(&self) -> (r: NodeId)
        ensures
            r == self.provider,
    {
        self.provider
    }

    /// The delivery instructions for this service.
    pub fn instructions(&self) -> (r: Option<&DeliveryInstructions>)
        ensures
            match r {
                Some(i) => self.instructions == Some(*i),
                None => self.instructions is None,
            },
    {
        self.instructions.as_ref()
    }

    /// Give delivery instructions for this service.
    pub fn instruct(self, instructions: DeliveryInstructions) -> (r: Self)
        ensures
            r.provider == self.provider,
            r.instructions == Some(instructions),
    {
        Self { provider: self.provider, instructions: Some(instructions) }
    }

    /// The instructions as they are attached to a request node.
    pub(crate) fn instructions_value(&self) -> (r: Option<DeliveryInstructions>)
        ensures
            r == self.instructions,
    {
        self.instructions
    }
}

/// The builder chose to always fulfill requests in serial: the provider
/// will not run until any prior run is finished, delivered or cancelled.
#[derive(Clone, Copy, PartialEq, Eq, Structural, Debug)]
pub struct SerialChosen;

impl SerialChosen {
    /// The delivery policy this choice stands for.
    pub fn apply(&self) -> (r: Delivery)
        ensures
            r matches Delivery::Serial(q) && q.active is None && q.queue@.len() == 0,
            r.wf(),
    {
        Delivery::serial()
    }
}

/// The builder chose to allow the provider to run in parallel. Requests
/// that share a delivery label are still run one at a time.
#[derive(Clone, Copy, PartialEq, Eq, Structural, Debug)]
pub struct ParallelChosen;

impl ParallelChosen {
    /// The delivery policy this choice stands for.
    pub fn apply(&self) -> (r: Delivery)
        ensures
            r matches Delivery::Parallel(m) && m@ == Map::<u64, crate::delivery::DeliveryQueue>::empty(),
            r.wf(),
    {
        Delivery::parallel()
    }
}

/// The builder chose a blocking service: it runs inline, so its delivery
/// is always serial.
#[derive(Clone, Copy, PartialEq, Eq, Structural, Debug)]
pub struct BlockingChosen;

impl BlockingChosen {
    /// The delivery policy this choice stands for.
    pub fn apply(&self) -> (r: Delivery)
        ensures
            r matches Delivery::Serial(q) && q.active is None && q.queue@.len() == 0,
            r.wf(),
    {
        Delivery::serial()
    }
}

} // verus!
