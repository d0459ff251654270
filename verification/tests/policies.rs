use impulse_core::AsDeliveryInstructions;
use impulse_core::CancellationCause;
use impulse_core::Delivery;
use impulse_core::DeliveryInstructions;
use impulse_core::DeliveryLabel;
use impulse_core::DeliveryLabelId;
use impulse_core::DeliveryOrder;
use impulse_core::DeliveryQueue;
use impulse_core::InputResolution;
use impulse_core::JoinVerdict;
use impulse_core::RaceVerdict;
use impulse_core::classify_join;
use impulse_core::classify_race;
use impulse_core::race_accept;
use std::sync::Arc;

struct Label(u64);

impl DeliveryLabel for Label {
    fn as_label(&self) -> DeliveryLabelId {
        DeliveryLabelId { value: self.0 }
    }
}

fn order(source: u64, session: u64, instructions: Option<DeliveryInstructions>) -> DeliveryOrder {
    DeliveryOrder { source, session, instructions }
}

#[test]
fn instructions_builders_set_exactly_their_flag() {
    let base = DeliveryInstructions::new(Label(4));
    assert_eq!(base.label().value, 4);
    assert!(!base.is_preemptive());
    assert!(!base.is_ensured());

    let preemptive = base.preempt();
    assert!(preemptive.is_preemptive());
    assert!(!preemptive.is_ensured());

    let ensured = base.ensure();
    assert!(!ensured.is_preemptive());
    assert!(ensured.is_ensured());

    assert!(Label(1).preempt().is_preemptive());
    assert!(Label(1).ensure().is_ensured());
    assert!(Label(1).with_preemptive(true).is_preemptive());
    assert!(!Label(1).with_preemptive(false).is_preemptive());
    assert!(Label(1).with_ensured(true).is_ensured());
    assert!(!Label(1).with_ensured(false).is_ensured());
}

#[test]
fn serial_queue_dispatches_one_at_a_time() {
    let mut queue = DeliveryQueue::new();
    let first = order(1, 101, None);
    let second = order(2, 102, None);

    let insertion = queue.insert(first);
    assert_eq!(insertion.ready, Some(first));

    let insertion = queue.insert(second);
    assert_eq!(insertion.ready, None);
    assert_eq!(insertion.supplanted_active, None);
    assert!(insertion.supplanted_queued.is_empty());

    // The second order is dispatched only when the first resolves.
    let next = queue.finish_active(&first);
    assert_eq!(next, Some(second));
    let next = queue.finish_active(&second);
    assert_eq!(next, None);
}

#[test]
fn stale_finish_changes_nothing() {
    let mut queue = DeliveryQueue::new();
    let first = order(1, 101, None);
    let second = order(2, 102, None);
    queue.insert(first);
    queue.insert(second);

    // A token from an order that is not in flight resolves nothing.
    let next = queue.finish_active(&second);
    assert_eq!(next, None);
    assert_eq!(queue.active, Some(first));
}

#[test]
fn preemption_cancels_the_unensured_order() {
    let label = DeliveryInstructions::new(Label(9));
    let mut queue = DeliveryQueue::new();
    let first = order(1, 101, Some(label));
    let second = order(2, 102, Some(label.preempt()));

    queue.insert(first);
    let insertion = queue.insert(second);
    assert_eq!(insertion.supplanted_active, Some(first));
    assert_eq!(insertion.ready, Some(second));
}

#[test]
fn ensured_order_resists_preemption() {
    let label = DeliveryInstructions::new(Label(9));
    let mut queue = DeliveryQueue::new();
    let first = order(1, 101, Some(label.ensure()));
    let second = order(2, 102, Some(label.preempt()));

    queue.insert(first);
    let insertion = queue.insert(second);
    assert_eq!(insertion.supplanted_active, None);
    assert_eq!(insertion.ready, None);
    assert_eq!(queue.active, Some(first));
    assert_eq!(queue.queue.len(), 1);
    assert_eq!(queue.queue[0], second);
}

#[test]
fn preemption_drops_waiting_orders_with_the_label() {
    let label = DeliveryInstructions::new(Label(3));
    let other = DeliveryInstructions::new(Label(4));
    let mut queue = DeliveryQueue::new();
    let running = order(1, 101, Some(other));
    let waiting = order(2, 102, Some(label));
    let ensured = order(3, 103, Some(label.ensure()));
    let incoming = order(4, 104, Some(label.preempt()));

    queue.insert(running);
    queue.insert(waiting);
    queue.insert(ensured);
    let insertion = queue.insert(incoming);

    // The waiting same-label order is supplanted; the ensured one and the
    // unrelated running order survive; the preemptive order queues.
    assert_eq!(insertion.supplanted_active, None);
    assert_eq!(insertion.supplanted_queued, vec![waiting]);
    assert_eq!(insertion.ready, None);
    assert_eq!(queue.active, Some(running));
    assert_eq!(queue.queue.len(), 2);
    assert_eq!(queue.queue[0], ensured);
    assert_eq!(queue.queue[1], incoming);
}

#[test]
fn parallel_delivery_serializes_only_shared_labels() {
    let mut delivery = Delivery::parallel();
    let unlabeled = order(1, 101, None);
    let insertion = delivery.insert(unlabeled);
    assert_eq!(insertion.ready, Some(unlabeled));

    let label = DeliveryInstructions::new(Label(5));
    let first = order(2, 102, Some(label));
    let second = order(3, 103, Some(label));
    let insertion = delivery.insert(first);
    assert_eq!(insertion.ready, Some(first));
    let insertion = delivery.insert(second);
    assert_eq!(insertion.ready, None);

    // Resolving the first labeled order promotes the second.
    let next = delivery.finish(&first);
    assert_eq!(next, Some(second));
}

fn cause(node: u64) -> Arc<CancellationCause> {
    Arc::new(CancellationCause::TargetDropped(node))
}

#[test]
fn join_completes_when_everything_delivered() {
    let inputs = vec![
        InputResolution::Delivered(1),
        InputResolution::Delivered(2),
        InputResolution::Delivered(3),
    ];
    assert!(matches!(classify_join(9, &inputs), JoinVerdict::Complete));
}

#[test]
fn join_waits_while_inputs_are_pending() {
    let inputs = vec![InputResolution::Delivered(1), InputResolution::Pending(2)];
    assert!(matches!(classify_join(9, &inputs), JoinVerdict::Wait));
}

#[test]
fn join_of_disposals_is_disposed_not_cancelled() {
    let inputs = vec![InputResolution::Disposed(1), InputResolution::Disposed(2)];
    match classify_join(9, &inputs) {
        JoinVerdict::Disposed(ji) => {
            assert_eq!(ji.join, 9);
            assert_eq!(ji.unreachable, vec![1, 2]);
        }
        _ => panic!("an all-disposed join must be disposed"),
    }
}

#[test]
fn join_with_a_cancellation_is_cancelled_with_the_breakdown() {
    let inputs = vec![
        InputResolution::Delivered(1),
        InputResolution::Pending(2),
        InputResolution::Disposed(3),
        InputResolution::Cancelled(4, cause(4)),
    ];
    match classify_join(9, &inputs) {
        JoinVerdict::Cancelled(jc) => {
            assert_eq!(jc.join, 9);
            assert_eq!(jc.delivered, vec![1]);
            assert_eq!(jc.pending, vec![2]);
            assert_eq!(jc.disposals, vec![3]);
            assert_eq!(jc.cancellations.len(), 1);
            assert!(matches!(
                *jc.cancellations[0],
                CancellationCause::TargetDropped(4)
            ));
        }
        _ => panic!("a join with a cancelled input must be cancelled"),
    }
}

#[test]
fn race_first_delivery_wins() {
    let inputs = vec![
        InputResolution::Pending(1),
        InputResolution::Delivered(2),
        InputResolution::Delivered(3),
    ];
    assert!(matches!(classify_race(9, &inputs), RaceVerdict::Won(2)));
}

#[test]
fn race_tie_break_matches_the_join_rule() {
    let disposed = vec![InputResolution::Disposed(1), InputResolution::Disposed(2)];
    match classify_race(9, &disposed) {
        RaceVerdict::Disposed(d) => assert_eq!(d, vec![1, 2]),
        _ => panic!("an all-disposed race must be disposed"),
    }

    let cancelled = vec![
        InputResolution::Disposed(1),
        InputResolution::Cancelled(2, cause(2)),
    ];
    match classify_race(9, &cancelled) {
        RaceVerdict::Cancelled(rc) => {
            assert_eq!(rc.race, 9);
            assert_eq!(rc.disposals, vec![1]);
            assert_eq!(rc.cancellations.len(), 1);
        }
        _ => panic!("a race with a cancelled input must be cancelled"),
    }
}

#[test]
fn race_delivers_exactly_one_arrival() {
    let mut done = false;
    assert!(race_accept(&mut done));
    assert!(!race_accept(&mut done));
    assert!(!race_accept(&mut done));
}

#[test]
fn service_handles_carry_instructions() {
    let mut engine: impulse_core::Engine<u64> = impulse_core::Engine::new();
    let service = engine.add_service(impulse_core::SerialChosen.apply());
    assert!(service.instructions().is_none());
    let instructed = service.instruct(DeliveryInstructions::new(Label(2)).ensure());
    assert_eq!(instructed.provider(), service.provider());
    assert!(instructed.instructions().is_some_and(|i| i.is_ensured()));
}

#[test]
fn buffer_gate_counts_and_pulls_jointly() {
    let mut engine: impulse_core::Engine<String> = impulse_core::Engine::new();
    let left = engine.spawn_holder();
    let right = engine.spawn_holder();
    let session: u64 = 77;

    assert!(engine.give_input(left, session, "a1".to_owned()).is_ok());
    assert!(engine.give_input(left, session, "a2".to_owned()).is_ok());
    assert!(engine.give_input(right, session, "b1".to_owned()).is_ok());
    assert!(engine.give_input(right, 78, "other".to_owned()).is_ok());

    let buffers = vec![left, right];
    // The joint count is the least per-buffer count for the session.
    assert!(matches!(engine.buffered_count(left, session), Ok(2)));
    assert!(matches!(engine.buffered_count(right, session), Ok(1)));
    assert!(matches!(engine.buffered_count_all(&buffers, session), Ok(1)));

    let pulled = engine.pull_all(&buffers, session).expect("one joint pull is available");
    assert_eq!(pulled, vec!["a1".to_owned(), "b1".to_owned()]);
    assert!(matches!(engine.buffered_count_all(&buffers, session), Ok(0)));

    // A second joint pull fails: the right buffer has nothing left for
    // the session, and the other session's input is untouched.
    assert!(engine.pull_all(&buffers, session).is_err());
    assert!(matches!(engine.buffered_count(right, 78), Ok(1)));

    // An empty set of buffers can never supply a pull.
    let none: Vec<u64> = Vec::new();
    assert!(matches!(engine.buffered_count_all(&none, session), Ok(0)));

    // A missing buffer is a broken link, not a count of zero.
    let gone = vec![left, 99_999];
    assert!(engine.buffered_count_all(&gone, session).is_err());
}
