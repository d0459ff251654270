//! Promises: the caller-facing handle for one response that will arrive in
//! the future. The engine writes the response (or a cancellation) into a
//! shared target cell; the promise owner polls or waits on that cell.
//!
//! The cell is shared across threads, so what a read returns is never
//! assumed: the state machine that absorbs a read into the promise's own
//! state is an ordinary verified function over every possible outcome.

use vstd::prelude::*;

use crate::shared::lock_swap;
use crate::shared::notify_all;
use crate::shared::share;
use std::sync::Arc;
use std::sync::Condvar;
use std::sync::Mutex;
use std::sync::atomic::AtomicBool;

verus! {

/// What a sender resolves a promise to.
pub enum PromiseResult<T> {
    /// The request finished and produced this response.
    Finished(T),
    /// The request was cancelled and will never produce a response.
    Canceled,
}

/// The shared cell that a sender fills and a promise drains.
pub struct PromiseTarget<T> {
    /// The result, once the sender has delivered it.
    pub result: Option<PromiseResult<T>>,
}

/// The state of a promise.
pub enum PromiseState<T> {
    /// The promise received its result and it can be seen in this state.
    Available(T),
    /// The promise is still pending, so you need to keep waiting for the state.
    Pending,
    /// The promise has been canceled and will never receive a response.
    Canceled,
    /// The promise was delivered and has been taken. It will never be
    /// available to take again.
    Taken,
}

impl<T> PromiseState<T> {
    /// View the state through a reference to the stored response.
    pub fn as_ref(&self) -> (r: PromiseState<&T>)
        ensures
            match *self {
                PromiseState::Available(ref v) => r matches PromiseState::Available(rv) && rv == v,
                PromiseState::Pending => r is Pending,
                PromiseState::Canceled => r is Canceled,
                PromiseState::Taken => r is Taken,
            },
    {
        match self {
            Self::Available(value) => PromiseState::Available(value),
            Self::Pending => PromiseState::Pending,
            Self::Canceled => PromiseState::Canceled,
            Self::Taken => PromiseState::Taken,
        }
    }

    /// Whether a response has arrived and is still held.
    pub fn is_received(&self) -> (r: bool)
        ensures
            r == (*self is Available),
    {
        matches!(self, Self::Available(_))
    }

    /// Whether the promise is still waiting for its result.
    pub fn is_pending(&self) -> (r: bool)
        ensures
            r == (*self is Pending),
    {
        matches!(self, Self::Pending)
    }

    /// Whether the promise was cancelled.
    pub fn is_canceled(&self) -> (r: bool)
        ensures
            r == (*self is Canceled),
    {
        matches!(self, Self::Canceled)
    }

    /// Whether the response was already taken out of the promise.
    pub fn is_taken(&self) -> (r: bool)
        ensures
            r == (*self is Taken),
    {
        matches!(self, Self::Taken)
    }

    /// Take the state out. An available response moves to the caller and
    /// the state becomes [`PromiseState::Taken`]; every other state is
    /// returned as it is and stays unchanged.
    pub fn take(&mut self) -> (r: PromiseState<T>)
        ensures
            r == *old(self),
            *final(self) == (if *old(self) is Available {
                PromiseState::<T>::Taken
            } else {
                *old(self)
            }),
    {
        let mut current = PromiseState::Taken;
        core::mem::swap(self, &mut current);
        match current {
            Self::Available(value) => PromiseState::Available(value),
            Self::Pending => {
                *self = PromiseState::Pending;
                PromiseState::Pending
            }
            Self::Canceled => {
                *self = PromiseState::Canceled;
                PromiseState::Canceled
            }
            Self::Taken => PromiseState::Taken,
        }
    }

    /// The response, if one is held in this state.
    pub fn available(self) -> (r: Option<T>)
        ensures
            match *&self {
                PromiseState::Available(v) => r == Some(v),
                _ => r is None,
            },
    {
        match self {
            Self::Available(value) => Some(value),
            _ => None,
        }
    }
}

/// Legal evolutions of a promise's state: a pending promise may move to any
/// state, and every other state is final.
pub open spec fn state_evolution<T>(before: PromiseState<T>, after: PromiseState<T>) -> bool {
    before is Pending || after == before
}

/// How a pending promise absorbs one read of its target cell. This is the
/// whole decision: a poisoned cell means the sender crashed while
/// delivering, so the promise is cancelled; otherwise the read's result,
/// if any, becomes the state.
pub fn absorb<T>(state: PromiseState<T>, poisoned: bool, read: Option<PromiseResult<T>>) -> (r:
    PromiseState<T>)
    requires
        state is Pending,
    ensures
        poisoned ==> r is Canceled,
        !poisoned ==> match read {
            Some(PromiseResult::Finished(v)) => r == PromiseState::Available(v),
            Some(PromiseResult::Canceled) => r is Canceled,
            None => r == state,
        },
{
    if poisoned {
        PromiseState::Canceled
    } else {
        match read {
            Some(PromiseResult::Finished(response)) => PromiseState::Available(response),
            Some(PromiseResult::Canceled) => PromiseState::Canceled,
            None => state,
        }
    }
}

/// A promise expects to receive a value in the future.
#[verifier::reject_recursive_types(T)]
pub struct Promise<T> {
    /// The locally-known state, synchronized with the sender on update.
    pub state: PromiseState<T>,
    /// The cell that the sender resolves.
    pub target: Arc<Mutex<PromiseTarget<T>>>,
    /// Wakes waiters when the cell is resolved.
    pub cond: Arc<Condvar>,
}

/// The sending half of a promise: the engine resolves the promise through
/// this handle, exactly once.
#[verifier::reject_recursive_types(T)]
pub struct PromiseSender<T> {
    /// The cell this sender resolves: the same cell its promise drains.
    pub target: Arc<Mutex<PromiseTarget<T>>>,
    /// Wakes the promise's waiters on resolution.
    pub cond: Arc<Condvar>,
}

/// The condition an interruptible waiter keeps sleeping on: no result has
/// arrived and the interrupt flag has not been raised.
pub(crate) fn still_waiting<T>(t: &PromiseTarget<T>, flag: &Arc<AtomicBool>) -> bool {
    t.result.is_none() && !flag_is_set(flag)
}

/// Relies on `Condvar::wait_while`: blocks until the target cell holds a
/// result, leaving the result in place. Returns immediately if the mutex
/// is poisoned (the sender crashed, so nothing more will ever arrive).
#[verifier::external_body]
fn block_while_empty<T>(lock: &Arc<Mutex<PromiseTarget<T>>>, cond: &Arc<Condvar>) {
    if let Ok(guard) = lock.lock() {
        let _unused = cond.wait_while(guard, |t| t.result.is_none());
    }
}

/// Relies on `Condvar::wait_while`: blocks until the target cell holds a
/// result or the interrupt flag is raised, leaving any result in place.
#[verifier::external_body]
fn block_while_waiting<T>(
    lock: &Arc<Mutex<PromiseTarget<T>>>,
    cond: &Arc<Condvar>,
    flag: &Arc<AtomicBool>,
) {
    if let Ok(guard) = lock.lock() {
        let _unused = cond.wait_while(guard, |t| still_waiting(t, flag));
    }
}

/// Relies on `Condvar::wait_while`, which returns only once its condition
/// is false: blocks until the target cell holds a result, then takes the
/// result out. The second component reports a poisoned mutex, in which
/// case the sender crashed and nothing was taken.
#[verifier::external_body]
fn block_take_result<T>(lock: &Arc<Mutex<PromiseTarget<T>>>, cond: &Arc<Condvar>) -> (r: (
    Option<PromiseResult<T>>,
    bool,
))
    ensures
        !r.1 ==> r.0 is Some,
{
    let guard = match lock.lock() {
        Ok(guard) => guard,
        Err(_) => return (None, true),
    };
    match cond.wait_while(guard, |t| t.result.is_none()) {
        Ok(mut guard) => (guard.result.take(), false),
        Err(_) => (None, true),
    }
}

/// Relies on `Condvar::wait_while`: blocks until the target cell holds a
/// result or the interrupt flag is raised, then takes any result that is
/// present. The second component reports a poisoned mutex.
#[verifier::external_body]
fn block_take_result_or_flag<T>(
    lock: &Arc<Mutex<PromiseTarget<T>>>,
    cond: &Arc<Condvar>,
    flag: &Arc<AtomicBool>,
) -> (r: (Option<PromiseResult<T>>, bool)) {
    let guard = match lock.lock() {
        Ok(guard) => guard,
        Err(_) => return (None, true),
    };
    match cond.wait_while(guard, |t| still_waiting(t, flag)) {
        Ok(mut guard) => (guard.result.take(), false),
        Err(_) => (None, true),
    }
}

impl<T> Promise<T> {
    /// Create a connected promise/sender pair: the sender resolves exactly
    /// the cell the promise drains.
    pub fn new() -> (r: (Promise<T>, PromiseSender<T>))
        ensures
            r.0.state is Pending,
            r.1.target == r.0.target,
            r.1.cond == r.0.cond,
    {
        let target = Arc::new(Mutex::new(PromiseTarget { result: None }));
        let cond = Arc::new(Condvar::new());
        let sender_target = share(&target);
        let sender_cond = share(&cond);
        (
            Promise { state: PromiseState::Pending, target, cond },
            PromiseSender { target: sender_target, cond: sender_cond },
        )
    }

    /// Check the last known state of the promise without performing any
    /// update. This will never block, but it might provide a state that is
    /// out of date.
    pub fn sneak_peek(&self) -> (r: PromiseState<&T>)
        ensures
            match self.state {
                PromiseState::Available(ref v) => r matches PromiseState::Available(rv) && rv == v,
                PromiseState::Pending => r is Pending,
                PromiseState::Canceled => r is Canceled,
                PromiseState::Taken => r is Taken,
            },
    {
        self.state.as_ref()
    }

    /// View the state of the promise, synchronizing with the sender first.
    /// If a response is available you will borrow it, and it will continue
    /// to be stored inside the promise.
    pub fn peek(&mut self) -> (r: PromiseState<&T>)
        ensures
            state_evolution(old(self).state, final(self).state),
            match final(self).state {
                PromiseState::Available(ref v) => r matches PromiseState::Available(rv) && rv == v,
                PromiseState::Pending => r is Pending,
                PromiseState::Canceled => r is Canceled,
                PromiseState::Taken => r is Taken,
            },
    {
        self.update();
        self.state.as_ref()
    }

    /// Try to take the response of the promise. If the response is
    /// available it will be contained within the returned state, and the
    /// internal state of this promise permanently changes to
    /// [`PromiseState::Taken`].
    pub fn take(&mut self) -> (r: PromiseState<T>)
        ensures
            !(final(self).state is Available),
            r is Available ==> final(self).state is Taken,
            old(self).state is Taken ==> r is Taken && final(self).state is Taken,
            old(self).state is Canceled ==> r is Canceled && final(self).state is Canceled,
            old(self).state is Available ==> r == *&old(self).state && final(self).state is Taken,
    {
        self.update();
        self.state.take()
    }

    /// Wait for the promise to be resolved. The internal state of the
    /// promise is not updated; that requires a follow-up call to one of
    /// the mutable methods.
    pub fn wait(&self) -> (r: &Self)
        ensures
            r == self,
    {
        if !self.state.is_pending() {
            return self;
        }
        block_while_empty(&self.target, &self.cond);
        self
    }

    /// Wait for the promise to be resolved, unless the interrupter tells
    /// the wait to stop early. The internal state is not updated.
    pub fn interruptible_wait(&self, interrupter: &Interrupter) -> (r: &Self)
        ensures
            r == self,
    {
        if !self.state.is_pending() {
            return self;
        }
        if let Some(interrupt) = interrupter.push(share(&self.cond)) {
            block_while_waiting(&self.target, &self.cond, &interrupt);
        }
        self
    }

    /// Wait for the promise to be resolved and update the internal state
    /// with the result.
    pub fn wait_mut(&mut self)
        ensures
            state_evolution(old(self).state, final(self).state),
            !(final(self).state is Pending),
    {
        if !self.state.is_pending() {
            return;
        }
        let (read, poisoned) = block_take_result(&self.target, &self.cond);
        let mut state = PromiseState::Pending;
        core::mem::swap(&mut self.state, &mut state);
        self.state = absorb(state, poisoned, read);
    }

    /// Wait for the promise to be resolved or for the interrupter to fire,
    /// updating the internal state with any result that arrived.
    pub fn interruptible_wait_mut(&mut self, interrupter: &Interrupter)
        ensures
            state_evolution(old(self).state, final(self).state),
    {
        self.update();
        if !self.state.is_pending() {
            return;
        }
        if let Some(interrupt) = interrupter.push(share(&self.cond)) {
            let (read, poisoned) = block_take_result_or_flag(&self.target, &self.cond, &interrupt);
            let mut state = PromiseState::Pending;
            core::mem::swap(&mut self.state, &mut state);
            self.state = absorb(state, poisoned, read);
        }
    }

    /// Update the internal state of the promise if it is still pending.
    /// A pending promise may stay pending, become available, or become
    /// cancelled; a resolved promise never changes again. The exact
    /// absorption of a read is [`absorb`].
    pub fn update(&mut self)
        ensures
            state_evolution(old(self).state, final(self).state),
            !(final(self).state is Taken) || old(self).state is Taken,
    {
        if self.state.is_pending() {
            let (inner, poisoned) = lock_swap(&self.target, PromiseTarget { result: None });
            let mut state = PromiseState::Pending;
            core::mem::swap(&mut self.state, &mut state);
            self.state = absorb(state, poisoned, inner.result);
        }
    }
}

impl<T> PromiseSender<T> {
    /// Deliver the response, resolving the promise.
    pub fn send(self, response: T) {
        let _ = lock_swap(
            &self.target,
            PromiseTarget { result: Some(PromiseResult::Finished(response)) },
        );
        notify_all(&self.cond);
    }

    /// Resolve the promise as cancelled.
    pub fn cancel(self) {
        let _ = lock_swap(&self.target, PromiseTarget { result: Some(PromiseResult::Canceled) });
        notify_all(&self.cond);
    }
}

/// Relies on `AtomicBool::store` through the shared handle: raises the flag.
#[verifier::external_body]
fn raise_flag(flag: &Arc<AtomicBool>) {
    flag.store(true, std::sync::atomic::Ordering::SeqCst);
}

/// Relies on `AtomicBool::load` through the shared handle: reads the flag.
#[verifier::external_body]
fn flag_is_set(flag: &Arc<AtomicBool>) -> (r: bool) {
    flag.load(std::sync::atomic::Ordering::SeqCst)
}

/// One waiter listening to an interrupter: the flag the waiter watches
/// and the condition variable that wakes it.
pub struct Interruptee {
    /// Raised to tell the waiter to stop waiting.
    pub interrupt: Arc<AtomicBool>,
    /// Wakes the waiter so it notices the flag.
    pub interruptible: Arc<Condvar>,
}

/// The waiters and trigger flag shared by the handles of one interrupter.
pub struct InterrupterInner {
    /// Whether the interrupter has fired and not been reset since.
    pub triggered: bool,
    /// The waiters currently listening.
    pub waiters: Vec<Interruptee>,
}

/// Tells promise waiters that are listening to it to stop waiting.
pub struct Interrupter {
    inner: Arc<Mutex<InterrupterInner>>,
}

impl Interrupter {
    /// A fresh interrupter with no waiters, not yet triggered.
    pub fn new() -> Self {
        Self {
            inner: Arc::new(
                Mutex::new(InterrupterInner { triggered: false, waiters: Vec::new() }),
            ),
        }
    }

    /// Tell all waiters that are listening to this interrupter to stop
    /// waiting. Any new waiter that arrives after this is triggered will
    /// not wait at all until [`Interrupter::reset`] is called.
    pub fn interrupt(&self) {
        let fresh = InterrupterInner { triggered: false, waiters: Vec::new() };
        let (inner, poisoned) = lock_swap(&self.inner, fresh);
        if poisoned {
            // A waiter registration panicked; the cell now holds a fresh
            // inner state, which is all that can be salvaged.
            return;
        }
        let mut i: usize = 0;
        while i < inner.waiters.len()
            decreases inner.waiters.len() - i,
        {
            raise_flag(&inner.waiters[i].interrupt);
            notify_all(&inner.waiters[i].interruptible);
            i = i + 1;
        }
        let _ = lock_swap(&self.inner, InterrupterInner { triggered: true, waiters: Vec::new() });
    }

    /// Clear the after-effect of a past [`Interrupter::interrupt`] call,
    /// letting new waiters wait for the next interrupt.
    pub fn reset(&self) {
        let fresh = InterrupterInner { triggered: false, waiters: Vec::new() };
        let (mut inner, poisoned) = lock_swap(&self.inner, fresh);
        if poisoned {
            return;
        }
        inner.triggered = false;
        let _ = lock_swap(&self.inner, inner);
    }

    /// Register a new waiter that the given condition variable can wake.
    /// Returns the flag the waiter should watch, or nothing if the
    /// interrupter has already been triggered, in which case the waiter
    /// should not wait at all.
    pub fn push(&self, interruptible: Arc<Condvar>) -> Option<Arc<AtomicBool>> {
        let fresh = InterrupterInner { triggered: false, waiters: Vec::new() };
        let (mut inner, poisoned) = lock_swap(&self.inner, fresh);
        if poisoned {
            inner = InterrupterInner { triggered: false, waiters: Vec::new() };
        }
        if inner.triggered {
            let _ = lock_swap(&self.inner, inner);
            return None;
        }
        let flag = Arc::new(AtomicBool::new(false));
        let watched = share(&flag);
        inner.waiters.push(Interruptee { interrupt: flag, interruptible });
        let _ = lock_swap(&self.inner, inner);
        Some(watched)
    }
}

impl Default for Interrupter {
    fn default() -> (r: Self) {
        Interrupter::new()
    }
}

} // verus!
