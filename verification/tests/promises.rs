use impulse_core::Engine;
use impulse_core::Interrupter;
use impulse_core::Promise;
use impulse_core::PromiseResult;
use impulse_core::PromiseState;
use impulse_core::absorb;

#[test]
fn promise_state_take_moves_the_response_once() {
    let mut state: PromiseState<u64> = PromiseState::Available(7);
    assert!(state.is_received());
    let taken = state.take();
    assert!(matches!(taken, PromiseState::Available(7)));
    assert!(state.is_taken());
    let again = state.take();
    assert!(matches!(again, PromiseState::Taken));

    let mut pending: PromiseState<u64> = PromiseState::Pending;
    assert!(matches!(pending.take(), PromiseState::Pending));
    assert!(pending.is_pending());

    let mut canceled: PromiseState<u64> = PromiseState::Canceled;
    assert!(matches!(canceled.take(), PromiseState::Canceled));
    assert!(canceled.is_canceled());
}

#[test]
fn promise_state_views() {
    let state: PromiseState<String> = PromiseState::Available("ready".to_owned());
    match state.as_ref() {
        PromiseState::Available(v) => assert_eq!(v, "ready"),
        _ => panic!("as_ref should preserve the variant"),
    }
    assert!(state.available().is_some_and(|v| v == "ready"));

    let state: PromiseState<String> = PromiseState::Pending;
    assert!(matches!(state.as_ref(), PromiseState::Pending));
    assert!(!state.is_received());
    assert!(state.available().is_none());
}

#[test]
fn absorb_resolves_a_pending_read() {
    let pending: PromiseState<u64> = PromiseState::Pending;
    let r = absorb(pending, false, Some(PromiseResult::Finished(3)));
    assert!(matches!(r, PromiseState::Available(3)));

    let pending: PromiseState<u64> = PromiseState::Pending;
    let r = absorb(pending, false, Some(PromiseResult::Canceled));
    assert!(r.is_canceled());

    let pending: PromiseState<u64> = PromiseState::Pending;
    let r = absorb(pending, false, None);
    assert!(r.is_pending());

    // A poisoned cell means the sender crashed: the promise is cancelled.
    let pending: PromiseState<u64> = PromiseState::Pending;
    let r = absorb(pending, true, None);
    assert!(r.is_canceled());
}

#[test]
fn promise_resolves_through_the_shared_cell() {
    let (mut promise, sender) = Promise::<String>::new();
    assert!(promise.sneak_peek().is_pending());
    sender.send("done".to_owned());
    promise.update();
    assert!(promise.peek().is_received());
    assert!(promise.take().available().is_some_and(|v| v == "done"));
    assert!(promise.take().is_taken());
}

#[test]
fn promise_cancelled_through_the_shared_cell() {
    let (mut promise, sender) = Promise::<u64>::new();
    sender.cancel();
    promise.update();
    assert!(promise.peek().is_canceled());
    assert!(promise.take().is_canceled());
}

#[test]
fn promise_wait_returns_once_resolved() {
    let (mut promise, sender) = Promise::<u64>::new();
    sender.send(11);
    promise.wait();
    promise.wait_mut();
    assert!(!promise.state.is_pending());
    assert!(promise.take().available().is_some_and(|v| v == 11));
}

#[test]
fn triggered_interrupter_stops_new_waiters_immediately() {
    let interrupter = Interrupter::new();
    interrupter.interrupt();

    // The promise is still pending, but the triggered interrupter makes
    // the wait return at once instead of blocking.
    let (mut promise, _sender) = Promise::<u64>::new();
    promise.interruptible_wait(&interrupter);
    promise.interruptible_wait_mut(&interrupter);
    assert!(promise.state.is_pending());
}

#[test]
fn reset_interrupter_lets_resolved_waits_finish() {
    let interrupter = Interrupter::new();
    interrupter.interrupt();
    interrupter.reset();

    let (mut promise, sender) = Promise::<u64>::new();
    sender.send(21);
    promise.interruptible_wait(&interrupter);
    promise.interruptible_wait_mut(&interrupter);
    assert!(promise.take().available().is_some_and(|v| v == 21));
}

#[test]
fn cleanup_with_no_tasks_completes_synchronously() {
    let mut engine: Engine<String> = Engine::new();
    let chain = engine.provide("idle".to_owned());
    let map = engine.map_block(chain);
    let tail = engine.map_block(map);
    let _promise = engine.take_response(tail);

    // The map node has no outstanding tasks for an unknown session, so
    // cleanup notifies immediately, and doing it again notifies again.
    engine.cleanup(map.source, 999);
    assert_eq!(engine.cleaned.len(), 1);
    assert_eq!(engine.cleaned[0].node, map.source);
    assert_eq!(engine.cleaned[0].session, 999);
    engine.cleanup(map.source, 999);
    assert_eq!(engine.cleaned.len(), 2);
}

#[test]
fn cleanup_with_outstanding_tasks_defers_until_confirmed() {
    let mut engine: Engine<String> = Engine::new();
    let chain = engine.provide("work".to_owned());
    let map = engine.map_async(chain);
    let _promise = engine.take_response(map);
    let session = chain.session;

    assert!(engine.flush(10_000));
    let actions = engine.take_actions();
    let task = match actions.into_iter().next().unwrap() {
        impulse_core::Action::StartTask { task, .. } => task,
        _ => panic!("expected the async map to start a task"),
    };

    // One task is outstanding: cleanup defers its notice and asks the
    // host to stop the computation.
    engine.cleanup(map.source, session);
    assert_eq!(engine.cleaned.len(), 0);
    let actions = engine.take_actions();
    assert!(actions.iter().any(|a| matches!(a, impulse_core::Action::StopTask { task: t } if *t == task)));

    // Only the host's confirmation completes the cleanup, and the task
    // node is gone afterwards: nothing is leaked.
    engine.confirm_task_stopped(task);
    assert_eq!(engine.cleaned.len(), 1);
    assert_eq!(engine.cleaned[0].node, map.source);
    assert_eq!(engine.cleaned[0].session, session);
    assert!(!engine.nodes.contains_key(&task));

    // A late result from the stopped computation is ignored.
    assert!(!engine.complete_task(task, "late".to_owned()));
}

#[test]
fn unreachable_session_is_cancelled_exactly_once() {
    let mut engine: Engine<u64> = Engine::new();
    let scope = engine.spawn_holder();
    engine.set_scope(scope, scope);
    let session: u64 = 42;

    // A branch of the session is disposed; the scope has no buffered
    // input, no tasks and no upstream source left, so it is unreachable.
    engine.emit_disposal(scope, session, impulse_core::Disposal::branching(scope, scope, None));
    assert!(engine.flush(10_000));

    // The Unreachable cancellation was emitted; the holder has no handler,
    // so it surfaces in the sink, carrying the recorded disposal.
    assert_eq!(engine.unhandled.cancellations.len(), 1);
    let failure = &engine.unhandled.cancellations[0];
    match &*failure.cancel.cancellation.cause {
        impulse_core::CancellationCause::Unreachable(u) => {
            assert_eq!(u.scope, scope);
            assert_eq!(u.session, session);
            assert_eq!(u.disposals.len(), 1);
        }
        _ => panic!("expected an unreachability cancellation"),
    }

    // A second disposal for the same session does not emit a second
    // cancellation: the emission is recorded on the scope.
    engine.emit_disposal(scope, session, impulse_core::Disposal::branching(scope, scope, None));
    assert!(engine.flush(10_000));
    assert_eq!(engine.unhandled.cancellations.len(), 1);
}

#[test]
fn disposal_without_scope_lands_in_the_sink() {
    let mut engine: Engine<u64> = Engine::new();
    let lone = engine.spawn_holder();
    let reason = anyhow::Error::msg("value out of range");
    engine.emit_disposal(lone, 7, impulse_core::Disposal::filtered(lone, Some(reason)));
    assert_eq!(engine.unhandled.disposals.len(), 1);
    let failure = &engine.unhandled.disposals[0];
    assert_eq!(failure.broken_node, lone);
    // The failure carries a captured backtrace and the filter's reason.
    assert!(failure.backtrace.is_some());
    match &*failure.disposal.cause {
        impulse_core::DisposalCause::Filtered(f) => {
            assert_eq!(f.filtered_at_node, lone);
            assert!(f.reason.is_some());
        }
        _ => panic!("expected a filtered disposal"),
    }
}

#[test]
fn input_to_a_missing_node_reports_broken() {
    let mut engine: Engine<u64> = Engine::new();
    let r = engine.give_input(12345, 1, 5);
    assert!(r.is_err());
}

#[test]
fn cancellation_routes_downstream_and_resolves_the_promise() {
    let mut engine: Engine<u64> = Engine::new();
    let chain = engine.provide(1);
    let map = engine.map_block(chain);
    let mut promise = engine.take_response(map);

    engine.emit_cancel(
        map.source,
        Some(chain.session),
        impulse_core::Cancellation::broken(map.source, None),
    );
    assert!(engine.flush(10_000));
    assert!(promise.take().is_canceled());
    assert_eq!(engine.unhandled.cancellations.len(), 0);
}

#[test]
fn cancellation_with_nowhere_to_go_lands_in_the_sink() {
    let mut engine: Engine<u64> = Engine::new();
    let lone = engine.spawn_holder();
    engine.emit_cancel(lone, None, impulse_core::Cancellation::target_dropped(lone));
    assert_eq!(engine.unhandled.cancellations.len(), 1);
    assert!(matches!(
        *engine.unhandled.cancellations[0].cancel.cancellation.cause,
        impulse_core::CancellationCause::TargetDropped(_)
    ));
}

#[test]
fn cleanup_waits_for_every_outstanding_task() {
    let mut engine: Engine<String> = Engine::new();
    let chain = engine.provide("one".to_owned());
    let map = engine.map_async(chain);
    let _promise = engine.take_response(map);
    let session = chain.session;

    // A second input for the same session puts two computations in
    // flight at the same owner.
    assert!(engine.give_input(map.source, session, "two".to_owned()).is_ok());
    assert!(engine.flush(10_000));
    let mut tasks: Vec<u64> = Vec::new();
    for action in engine.take_actions() {
        match action {
            impulse_core::Action::StartTask { task, .. } => tasks.push(task),
            _ => panic!("only tasks should start here"),
        }
    }
    assert_eq!(tasks.len(), 2);
    let baseline = engine.nodes.len() - tasks.len();

    // Cleanup defers its notice until the last of the two confirms.
    engine.cleanup(map.source, session);
    assert_eq!(engine.cleaned.len(), 0);
    engine.confirm_task_stopped(tasks[0]);
    assert_eq!(engine.cleaned.len(), 0);
    engine.confirm_task_stopped(tasks[1]);
    assert_eq!(engine.cleaned.len(), 1);

    // No task node is leaked: the store is back to its baseline.
    assert!(!engine.nodes.contains_key(&tasks[0]));
    assert!(!engine.nodes.contains_key(&tasks[1]));
    assert_eq!(engine.nodes.len(), baseline);
}

#[test]
fn cancel_signals_are_received_newest_first() {
    let mut engine: Engine<u64> = Engine::new();
    let chain = engine.provide(3);
    let map = engine.map_block(chain);
    let _promise = engine.take_response(map);

    engine.emit_cancel(
        map.source,
        Some(chain.session),
        impulse_core::Cancellation::target_dropped(map.target),
    );
    assert!(engine.flush(10_000));

    // The emitting node routed the cancellation to its downstream
    // target, where it is readable as a signal, once.
    let signal = engine
        .try_receive_cancel(map.target)
        .expect("the node exists")
        .expect("one signal was delivered");
    assert_eq!(signal.session, Some(chain.session));
    assert!(matches!(
        *signal.cancellation.cause,
        impulse_core::CancellationCause::TargetDropped(_)
    ));
    let empty = engine.try_receive_cancel(map.target).expect("the node exists");
    assert!(empty.is_none());
    assert!(engine.try_receive_cancel(987_654).is_err());
}

#[test]
fn disposals_can_be_inspected_and_cleared() {
    let mut engine: Engine<u64> = Engine::new();
    let scope = engine.spawn_holder();
    let worker = engine.spawn_holder();
    engine.set_scope(worker, scope);

    engine.emit_disposal(worker, 5, impulse_core::Disposal::branching(worker, scope, None));
    engine.emit_disposal(worker, 5, impulse_core::Disposal::filtered(worker, None));
    engine.emit_disposal(worker, 6, impulse_core::Disposal::filtered(worker, None));

    assert_eq!(engine.get_disposals(worker, 5).len(), 2);
    assert_eq!(engine.get_disposals(worker, 6).len(), 1);

    engine.clear_disposals(worker, 5);
    assert_eq!(engine.get_disposals(worker, 5).len(), 0);
    assert_eq!(engine.get_disposals(worker, 6).len(), 1);
}

#[test]
fn released_response_cancels_the_promise() {
    let mut engine: Engine<u64> = Engine::new();
    let chain = engine.provide(8);
    let map = engine.map_block(chain);
    let mut promise = engine.take_response(map);

    // The caller lets go of the response before it arrives.
    engine.release_response(map);
    assert!(engine.flush(10_000));
    assert!(promise.take().is_canceled());
    // The dropped-target cancellation found its handler: nothing unhandled.
    assert_eq!(engine.unhandled.cancellations.len(), 0);
}

#[test]
fn dropped_buffer_access_notifies_the_scope() {
    let mut engine: Engine<u64> = Engine::new();
    let scope = engine.spawn_holder();
    let buffer = engine.spawn_holder();
    let accessor = engine.spawn_holder();
    engine.set_scope(accessor, scope);

    // The last holder's drop concludes nothing.
    engine.buffer_access_dropped(accessor, buffer, 3, false);
    assert_eq!(engine.get_disposals(accessor, 3).len(), 0);
    assert_eq!(engine.roster.disposed.len(), 0);

    // A drop while other holders share the key disposes the branch and
    // tells the scope to re-check the session.
    engine.buffer_access_dropped(accessor, buffer, 3, true);
    assert_eq!(engine.get_disposals(accessor, 3).len(), 1);
    assert_eq!(engine.roster.disposed.len(), 1);
    assert_eq!(engine.roster.disposed[0].scope, scope);
    assert_eq!(engine.roster.disposed[0].session, 3);
}
