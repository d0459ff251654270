//! Delivery instructions: a label relating requests to one another at a
//! provider, plus the `preempt` and `ensure` modifiers that govern how
//! labeled requests queue up, supplant each other, or resist preemption.

use vstd::prelude::*;

verus! {

/// Identifier for a class of related requests delivered to one provider.
/// Requests sharing a label are mutually exclusive at that provider.
#[derive(Clone, Copy, PartialEq, Eq, Structural, Debug, Hash)]
pub struct DeliveryLabelId {
    pub value: u64,
}

/// A strongly-typed class of labels used to tag delivery instructions that
/// are related to each other. Implementors give each label value a stable
/// identifier.
pub trait DeliveryLabel {
    /// The identifier that requests carrying this label share.
    fn as_label(&self) -> DeliveryLabelId;
}

/// When using a service, you can bundle in delivery instructions that affect
/// how multiple requests to the same provider interact with each other.
///
/// Requests with the same [`DeliveryLabelId`] queue up behind each other by
/// default. `preempt` makes a new request cancel unfinished earlier requests
/// with the same label; `ensure` protects an earlier request from such
/// preemption, queueing the preemptive request behind it instead. A provider
/// never runs two requests with the same label at the same time.
#[derive(Clone, Copy, PartialEq, Eq, Structural, Debug)]
pub struct DeliveryInstructions {
    pub label: DeliveryLabelId,
    pub preempt: bool,
    pub ensure: bool,
}

impl DeliveryInstructions {
    /// Begin building delivery instructions for a request from a label.
    pub fn new(label: impl DeliveryLabel) -> (r: Self)
        ensures
            !r.preempt,
            !r.ensure,
    {
        Self { label: label.as_label(), preempt: false, ensure: false }
    }

    /// See the label for these delivery instructions.
    pub fn label(&self) -> (r: &DeliveryLabelId)
        ensures
            *r == self.label,
    {
        &self.label
    }

    /// New requests will preempt earlier requests with the same label,
    /// cancelling them if they have not finished yet.
    pub fn preempt(self) -> (r: Self)
        ensures
            r == (Self { preempt: true, ..self }),
    {
        Self { preempt: true, ..self }
    }

    /// Check whether the requests will be preemptive.
    pub fn is_preemptive(&self) -> (r: bool)
        ensures
            r == self.preempt,
    {
        self.preempt
    }

    /// Decide at runtime whether requests will be preemptive.
    pub fn with_preemptive(self, preempt: bool) -> (r: Self)
        ensures
            r == (Self { preempt, ..self }),
    {
        Self { preempt, ..self }
    }

    /// Ensure that this request is resolved even if a preemptive request
    /// with the same label arrives: the preemptive request queues instead.
    pub fn ensure(self) -> (r: Self)
        ensures
            r == (Self { ensure: true, ..self }),
    {
        Self { ensure: true, ..self }
    }

    /// Check whether the delivery instructions ensure resolution.
    pub fn is_ensured(&self) -> (r: bool)
        ensures
            r == self.ensure,
    {
        self.ensure
    }

    /// Decide at runtime whether the request resists preemption.
    pub fn with_ensured(self, ensure: bool) -> (r: Self)
        ensures
            r == (Self { ensure, ..self }),
    {
        Self { ensure, ..self }
    }
}

/// Allow anything that can act as a delivery label to reach the `preempt`
/// and `ensure` modifiers without building [`DeliveryInstructions`] first.
pub trait AsDeliveryInstructions {
    /// Instruct the delivery to have preemptive behavior.
    fn preempt(self) -> DeliveryInstructions;

    /// Decide at runtime whether to be preemptive.
    fn with_preemptive(self, preempt: bool) -> DeliveryInstructions;

    /// Instruct the delivery to be ensured.
    fn ensure(self) -> DeliveryInstructions;

    /// Decide at runtime whether to be ensured.
    fn with_ensured(self, ensure: bool) -> DeliveryInstructions;
}

impl<T: DeliveryLabel> AsDeliveryInstructions for T {
    fn preempt(self) -> DeliveryInstructions {
        DeliveryInstructions::new(self).preempt()
    }

    fn with_preemptive(self, preempt: bool) -> DeliveryInstructions {
        DeliveryInstructions::new(self).with_preemptive(preempt)
    }

    fn ensure(self) -> DeliveryInstructions {
        DeliveryInstructions::new(self).ensure()
    }

    fn with_ensured(self, ensure: bool) -> DeliveryInstructions {
        DeliveryInstructions::new(self).with_ensured(ensure)
    }
}

} // verus!
