use impulse_core::Action;
use impulse_core::DeliveryInstructions;
use impulse_core::DeliveryLabel;
use impulse_core::DeliveryLabelId;
use impulse_core::Engine;
use impulse_core::ParallelChosen;

/// Drive every blocking-map action with `to_uppercase` until the host has
/// nothing left to do.
fn run_uppercase_host(engine: &mut Engine<String>) {
    loop {
        engine.flush(10_000);
        let actions = engine.take_actions();
        if actions.is_empty() {
            return;
        }
        for action in actions {
            match action {
                Action::RunBlockingMap { node, session, request } => {
                    let result = request.to_uppercase();
                    engine.deliver_map_result(node, session, result);
                }
                Action::StartTask { task, request, .. } => {
                    // The background computation returns its input as-is.
                    engine.complete_task(task, request);
                }
                Action::StopTask { task } => {
                    engine.confirm_task_stopped(task);
                }
            }
        }
    }
}

#[test]
fn test_blocking_map() {
    let mut engine: Engine<String> = Engine::new();
    let chain = engine.provide("hello".to_owned());
    let chain = engine.map_block(chain);
    let mut promise = engine.take_response(chain);

    run_uppercase_host(&mut engine);
    assert!(promise.take().available().is_some_and(|v| v == "HELLO"));
    assert!(engine.unhandled.is_empty());

    let chain = engine.provide("hello".to_owned());
    let chain = engine.map_block(chain);
    let mut promise = engine.take_response(chain);

    run_uppercase_host(&mut engine);
    assert!(promise.take().available().is_some_and(|v| v == "HELLO"));
    assert!(engine.unhandled.is_empty());
}

#[test]
fn test_async_map() {
    let mut engine: Engine<String> = Engine::new();
    let chain = engine.provide("hello".to_owned());
    let chain = engine.map_async(chain);
    let mut promise = engine.take_response(chain);

    assert!(engine.flush(10_000));
    let actions = engine.take_actions();
    assert_eq!(actions.len(), 1);
    match actions.into_iter().next().unwrap() {
        Action::StartTask { task, request, .. } => {
            assert_eq!(request, "hello");
            // The background computation resolves with its input.
            assert!(engine.complete_task(task, request));
        }
        _ => panic!("expected the async map to start a task"),
    }
    assert!(engine.flush(10_000));
    assert!(promise.take().available().is_some_and(|v| v == "hello"));
    assert!(engine.unhandled.is_empty());
}

#[test]
fn test_dropped_chain() {
    let mut engine: Engine<String> = Engine::new();
    let chain = engine.provide("hello".to_owned());
    let first_map = engine.map_block(chain);
    engine.detach(first_map);
    let second_map = engine.map_block(first_map);
    let _abandoned = engine.map_block(second_map);
    // The chain is dropped here without detach() or take() on its end.

    assert!(engine.flush(10_000));
    assert_eq!(engine.unhandled.unused_targets.len(), 1);

    // The part up to the detach point still runs.
    let actions = engine.take_actions();
    assert_eq!(actions.len(), 1);
    match actions.into_iter().next().unwrap() {
        Action::RunBlockingMap { node, session, request } => {
            assert_eq!(request, "hello");
            engine.deliver_map_result(node, session, request.to_uppercase());
        }
        _ => panic!("expected the first map to run"),
    }
    assert!(engine.flush(10_000));

    // The detach point receives "HELLO" and runs; its own response is
    // discarded because everything after it was dropped.
    let actions = engine.take_actions();
    assert_eq!(actions.len(), 1);
    match actions.into_iter().next().unwrap() {
        Action::RunBlockingMap { node, session, request } => {
            assert_eq!(request, "HELLO");
            engine.deliver_map_result(node, session, request.to_lowercase());
        }
        _ => panic!("expected the detached map to run"),
    }
    assert!(engine.flush(10_000));

    // Nothing after the detach point ever runs, and the only recorded
    // error is the one unused target.
    assert!(engine.take_actions().is_empty());
    assert_eq!(engine.unhandled.unused_targets.len(), 1);
    assert_eq!(engine.unhandled.cancellations.len(), 0);
}

struct TestLabel;

impl DeliveryLabel for TestLabel {
    fn as_label(&self) -> DeliveryLabelId {
        DeliveryLabelId { value: 1 }
    }
}

#[test]
fn test_instruction_preemption() {
    let mut engine: Engine<u64> = Engine::new();
    let service = engine.add_service(ParallelChosen.apply());
    let instruction = DeliveryInstructions::new(TestLabel);
    let preempt = instruction.preempt();
    let mut counter: u64 = 0;

    // Send a request, then preempt it with a second one before the first
    // service run completes.
    let first = engine.request(1, &service.instruct(instruction));
    let mut first_promise = engine.take_response(first);
    let second = engine.request(2, &service.instruct(preempt));
    let mut second_promise = engine.take_response(second);

    assert!(engine.flush(10_000));
    let actions = engine.take_actions();
    let mut started: Vec<u64> = Vec::new();
    let mut stopped: Vec<u64> = Vec::new();
    for action in &actions {
        match action {
            Action::StartTask { task, .. } => started.push(*task),
            Action::StopTask { task } => stopped.push(*task),
            _ => panic!("no blocking maps in this workflow"),
        }
    }
    assert_eq!(started.len(), 2);
    assert_eq!(stopped.len(), 1);
    // The service body increments the counter when it runs to completion;
    // a stopped task never reaches that point.
    for task in started {
        if stopped.contains(&task) {
            engine.confirm_task_stopped(task);
        } else {
            counter += 1;
            assert!(engine.complete_task(task, counter));
        }
    }
    assert!(engine.flush(10_000));

    assert_eq!(counter, 1);
    assert!(first_promise.take().is_canceled());
    assert!(second_promise.take().available().is_some_and(|v| v == 1));
    assert!(engine.unhandled.is_empty());
}

#[test]
fn abandoned_chain_never_starts_its_computation() {
    let mut engine: Engine<String> = Engine::new();
    let chain = engine.provide("hello".to_owned());
    let _chain = engine.map_block(chain);
    // The chain is dropped without detach() or a promise being taken.

    assert!(engine.flush(10_000));
    // Exactly one dropped-target incident is recorded, and the map's
    // computation was never started.
    assert_eq!(engine.unhandled.unused_targets.len(), 1);
    assert!(engine.take_actions().is_empty());
}

#[test]
fn serial_service_runs_one_request_at_a_time() {
    let mut engine: Engine<u64> = Engine::new();
    let service = engine.add_service(impulse_core::SerialChosen.apply());

    let first = engine.request(10, &service);
    let mut first_promise = engine.take_response(first);
    let second = engine.request(20, &service);
    let mut second_promise = engine.take_response(second);

    assert!(engine.flush(10_000));
    let actions = engine.take_actions();
    // Only the first request is delivered while the provider is busy.
    assert_eq!(actions.len(), 1);
    let first_task = match actions.into_iter().next().unwrap() {
        Action::StartTask { task, request, .. } => {
            assert_eq!(request, 10);
            task
        }
        _ => panic!("expected the first delivery to start"),
    };
    assert!(engine.complete_task(first_task, 100));
    assert!(engine.flush(10_000));

    // The second request is dispatched only after the first resolved.
    assert!(first_promise.take().available().is_some_and(|v| v == 100));
    let actions = engine.take_actions();
    assert_eq!(actions.len(), 1);
    match actions.into_iter().next().unwrap() {
        Action::StartTask { task, request, .. } => {
            assert_eq!(request, 20);
            assert!(engine.complete_task(task, 200));
        }
        _ => panic!("expected the second delivery to start"),
    }
    assert!(engine.flush(10_000));
    assert!(second_promise.take().available().is_some_and(|v| v == 200));
    assert!(engine.unhandled.is_empty());
}

#[test]
fn wake_channel_requeues_a_task() {
    let mut engine: Engine<String> = Engine::new();
    let chain = engine.provide("ping".to_owned());
    let chain = engine.map_async(chain);
    let mut promise = engine.take_response(chain);

    assert!(engine.flush(10_000));
    let actions = engine.take_actions();
    let task = match actions.into_iter().next().unwrap() {
        Action::StartTask { task, request, .. } => {
            engine.complete_task(task, request);
            task
        }
        _ => panic!("expected a task to start"),
    };

    // The completion travels through the cross-thread wake channel, and a
    // cloned sender can wake the same node from anywhere, as a background
    // waker would; a duplicate wake for a finished task is harmless.
    let sender = engine.wake_sender();
    assert!(sender.send(task).is_ok());
    assert!(engine.flush(10_000));
    assert!(promise.take().available().is_some_and(|v| v == "ping"));
}

#[test]
fn unavailable_service_disposes_the_request() {
    let mut engine: Engine<u64> = Engine::new();
    let service = engine.add_service(impulse_core::BlockingChosen.apply());
    engine.despawn(service.provider());

    let chain = engine.request(5, &service);
    let _promise = engine.take_response(chain);
    assert!(engine.flush(10_000));

    // The request could not be delivered, and the chain has no scope to
    // absorb the disposal, so the failure lands in the sink.
    assert_eq!(engine.unhandled.disposals.len(), 1);
    let failure = &engine.unhandled.disposals[0];
    assert!(matches!(
        *failure.disposal.cause,
        impulse_core::DisposalCause::ServiceUnavailable(_)
    ));
}

#[test]
fn store_and_push_collect_responses() {
    let mut engine: Engine<String> = Engine::new();
    let holder = engine.spawn_holder();

    let chain = engine.provide("alpha".to_owned());
    engine.store_response(chain, holder);
    let chain = engine.provide("beta".to_owned());
    engine.push_response(chain, holder);
    let chain = engine.provide("gamma".to_owned());
    engine.push_response(chain, holder);

    assert!(engine.flush(10_000));
    let node = engine.nodes.get(&holder).expect("holder should exist");
    assert_eq!(node.storage.as_ref().map(|s| s.data.as_str()), Some("alpha"));
    assert_eq!(node.collection.items.len(), 2);
    assert_eq!(node.collection.items[0].data, "beta");
    assert_eq!(node.collection.items[1].data, "gamma");
    assert!(engine.unhandled.is_empty());
}

#[test]
fn race_delivers_only_the_first_arrival_per_session() {
    let mut engine: Engine<String> = Engine::new();
    let left = engine.provide("left".to_owned());
    let right = engine.provide("right".to_owned());
    let session = left.session;

    let race = engine.race(&vec![left, right]);
    let mut promise = engine.take_response(race);

    // The left branch arrives first and wins its session's race.
    assert!(engine.flush(10_000));
    assert!(promise.take().available().is_some_and(|v| v == "left"));

    // Two more arrivals for the session that already delivered: both are
    // turned away, never delivered downstream. With no scope to take the
    // disposals they show up in the sink.
    assert!(engine.give_input(race.source, session, "late".to_owned()).is_ok());
    assert!(engine.give_input(race.source, session, "later".to_owned()).is_ok());
    assert!(engine.flush(10_000));
    assert_eq!(engine.unhandled.disposals.len(), 2);
    assert!(matches!(
        *engine.unhandled.disposals[0].disposal.cause,
        impulse_core::DisposalCause::Branching(_)
    ));
}
