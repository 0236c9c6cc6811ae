use rxrust::{Hub, Notification, SharedSubject, Target, _LocalSubject};

fn counts(got: &[Notification<i32, ()>]) -> (usize, Option<i32>, usize) {
    let mut last_next_arg = None;
    let mut next_count = 0;
    let mut completed_count = 0;
    for n in got {
        match n {
            Notification::Next(i) => {
                last_next_arg = Some(*i);
                next_count += 1;
            }
            Notification::Complete => completed_count += 1,
            Notification::Error(_) => {}
        }
    }
    (next_count, last_next_arg, completed_count)
}

fn run_base_function() -> (usize, Option<i32>, usize) {
    let mut hub: Hub<i32, ()> = Hub::new();
    let notifier = _LocalSubject::new(&mut hub);
    let source = _LocalSubject::new(&mut hub);
    let o = hub.add_observer();
    source.clone().take_until(notifier.clone().id).subscribe(&mut hub, o);
    source.next(&mut hub, 5);
    notifier.next(&mut hub, 0);
    source.next(&mut hub, 6);
    notifier.complete(&mut hub);
    source.complete(&mut hub);
    counts(&hub.received(o))
}

#[test]
fn base_function() {
    let (next_count, last_next_arg, completed_count) = run_base_function();
    assert_eq!(next_count, 1);
    assert_eq!(last_next_arg, Some(5));
    assert_eq!(completed_count, 1);
}

#[test]
fn ininto_shared() {
    let mut hub: Hub<i32, ()> = Hub::new();
    let notifier = SharedSubject::new(&mut hub);
    let source = SharedSubject::new(&mut hub);
    let o = hub.add_observer();
    source.clone().take_until(notifier.clone().id).subscribe(&mut hub, o);
    source.next(&mut hub, 5);
    notifier.next(&mut hub, 0);
    source.next(&mut hub, 6);
    let (next_count, last_next_arg, completed_count) = counts(&hub.received(o));
    assert_eq!(next_count, 1);
    assert_eq!(last_next_arg, Some(5));
    assert_eq!(completed_count, 1);
}

#[test]
fn bench() {
    for _ in 0..100 {
        assert_eq!(run_base_function(), (1, Some(5), 1));
    }
}

#[test]
fn signal_tears_down_both_subscriptions() {
    let mut hub: Hub<i32, ()> = Hub::new();
    let notifier = _LocalSubject::new(&mut hub);
    let source = _LocalSubject::new(&mut hub);
    let o = hub.add_observer();
    let k = source.take_until(notifier.id).subscribe(&mut hub, o);
    assert_eq!(source.teardown_size(&hub), 1);
    assert_eq!(notifier.teardown_size(&hub), 1);
    assert!(!hub.is_link_closed(k));
    notifier.next(&mut hub, 0);
    assert!(hub.is_link_closed(k));
    assert_eq!(source.teardown_size(&hub), 0);
    assert_eq!(notifier.teardown_size(&hub), 0);
    assert_eq!(hub.received(o), vec![Notification::Complete]);
}

#[test]
fn notifier_error_goes_downstream() {
    let mut hub: Hub<i32, u8> = Hub::new();
    let notifier = _LocalSubject::new(&mut hub);
    let source = _LocalSubject::new(&mut hub);
    let o = hub.add_observer();
    source.take_until(notifier.id).subscribe(&mut hub, o);
    source.next(&mut hub, 1);
    notifier.error(&mut hub, 3);
    source.next(&mut hub, 2);
    assert_eq!(hub.received(o), vec![Notification::Next(1), Notification::Error(3)]);
}

#[test]
fn source_completion_ends_stage_once() {
    let mut hub: Hub<i32, ()> = Hub::new();
    let notifier = _LocalSubject::new(&mut hub);
    let source = _LocalSubject::new(&mut hub);
    let o = hub.add_observer();
    let k = source.take_until(notifier.id).subscribe(&mut hub, o);
    source.next(&mut hub, 1);
    source.complete(&mut hub);
    assert!(hub.is_link_closed(k));
    assert_eq!(notifier.teardown_size(&hub), 0);
    notifier.next(&mut hub, 0);
    assert_eq!(hub.received(o), vec![Notification::Next(1), Notification::Complete]);
}

#[test]
fn source_error_goes_downstream() {
    let mut hub: Hub<i32, u8> = Hub::new();
    let notifier = _LocalSubject::new(&mut hub);
    let source = _LocalSubject::new(&mut hub);
    let o = hub.add_observer();
    source.take_until(notifier.id).subscribe(&mut hub, o);
    source.error(&mut hub, 4);
    notifier.next(&mut hub, 0);
    assert_eq!(hub.received(o), vec![Notification::Error(4)]);
}

#[test]
fn notifier_completion_cancels_quietly() {
    let mut hub: Hub<i32, ()> = Hub::new();
    let notifier = _LocalSubject::new(&mut hub);
    let source = _LocalSubject::new(&mut hub);
    let o = hub.add_observer();
    let k = source.take_until(notifier.id).subscribe(&mut hub, o);
    notifier.complete(&mut hub);
    source.next(&mut hub, 1);
    assert!(hub.is_link_closed(k));
    assert_eq!(source.teardown_size(&hub), 0);
    assert_eq!(hub.received(o), vec![]);
}

#[test]
fn unsubscribing_stage_twice_is_once() {
    let mut hub: Hub<i32, ()> = Hub::new();
    let notifier = _LocalSubject::new(&mut hub);
    let source = _LocalSubject::new(&mut hub);
    let other = hub.add_observer();
    let o = hub.add_observer();
    source.subscribe(&mut hub, Target::Observer(other));
    let k = source.take_until(notifier.id).subscribe(&mut hub, o);
    hub.unsubscribe_link(k);
    hub.unsubscribe_link(k);
    assert!(hub.is_link_closed(k));
    assert_eq!(source.teardown_size(&hub), 1);
    source.next(&mut hub, 8);
    assert_eq!(hub.received(o), vec![]);
    assert_eq!(hub.received(other), vec![Notification::Next(8)]);
}

#[test]
fn chained_stages_stop_at_outer_signal() {
    let mut hub: Hub<i32, ()> = Hub::new();
    let source = _LocalSubject::new(&mut hub);
    let inner = _LocalSubject::new(&mut hub);
    let outer = _LocalSubject::new(&mut hub);
    let o = hub.add_observer();
    let k = source.take_until(inner.id).take_until(outer.id).subscribe(&mut hub, o);
    assert_eq!(source.teardown_size(&hub), 1);
    source.next(&mut hub, 1);
    outer.next(&mut hub, 0);
    source.next(&mut hub, 2);
    inner.next(&mut hub, 0);
    assert!(hub.is_link_closed(k));
    assert!(hub.is_link_closed(k + 1));
    assert_eq!(source.teardown_size(&hub), 0);
    assert_eq!(inner.teardown_size(&hub), 0);
    assert_eq!(outer.teardown_size(&hub), 0);
    assert_eq!(hub.received(o), vec![Notification::Next(1), Notification::Complete]);
}

#[test]
fn chained_stages_stop_at_inner_signal() {
    let mut hub: Hub<i32, ()> = Hub::new();
    let source = _LocalSubject::new(&mut hub);
    let inner = _LocalSubject::new(&mut hub);
    let outer = _LocalSubject::new(&mut hub);
    let o = hub.add_observer();
    let k = source.take_until(inner.id).take_until(outer.id).subscribe(&mut hub, o);
    source.next(&mut hub, 1);
    inner.next(&mut hub, 0);
    source.next(&mut hub, 2);
    outer.next(&mut hub, 0);
    assert!(hub.is_link_closed(k));
    assert!(hub.is_link_closed(k + 1));
    assert_eq!(outer.teardown_size(&hub), 0);
    assert_eq!(hub.received(o), vec![Notification::Next(1), Notification::Complete]);
}
