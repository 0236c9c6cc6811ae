use rxrust::{
    Hub, Notification, SharedBehaviorSubject, SharedSubject, Target, _LocalBehaviorSubject,
    _LocalSubject,
};

fn last_next<T: Copy, E>(got: &[Notification<T, E>]) -> Option<T> {
    got.iter().rev().find_map(|n| match n {
        Notification::Next(v) => Some(*v),
        _ => None,
    })
}

fn last_error<T, E: Copy>(got: &[Notification<T, E>]) -> Option<E> {
    got.iter().rev().find_map(|n| match n {
        Notification::Error(e) => Some(*e),
        _ => None,
    })
}

#[test]
fn local_subject_smoke() {
    let mut hub: Hub<i32, ()> = Hub::new();
    let test_code;
    {
        let subject = _LocalSubject::new(&mut hub);
        let o = hub.add_observer();
        subject.clone().subscribe(&mut hub, Target::Observer(o));
        subject.next(&mut hub, 2);

        assert_eq!(subject.teardown_size(&hub), 1);
        test_code = last_next(&hub.received(o)).unwrap_or(1);
    }
    assert_eq!(test_code, 2);
}

#[test]
fn emit_ref() {
    let mut check = 0;

    {
        let mut hub: Hub<&i32, ()> = Hub::new();
        let subject = _LocalSubject::new(&mut hub);
        let o = hub.add_observer();
        subject.clone().subscribe(&mut hub, Target::Observer(o));
        subject.next(&mut hub, &1);
        if let Some(v) = last_next(&hub.received(o)) {
            check = *v;
        }
    }
    assert_eq!(check, 1);

    {
        let mut hub: Hub<(), &i32> = Hub::new();
        let subject = _LocalSubject::new(&mut hub);
        let o = hub.add_observer();
        subject.clone().subscribe(&mut hub, Target::Observer(o));
        subject.error(&mut hub, &2);
        if let Some(err) = last_error(&hub.received(o)) {
            check = *err;
        }
    }
    assert_eq!(check, 2);

    {
        let mut hub: Hub<&i32, &()> = Hub::new();
        let subject = _LocalSubject::new(&mut hub);
        let o = hub.add_observer();
        subject.clone().subscribe(&mut hub, Target::Observer(o));
        subject.next(&mut hub, &1);
        if let Some(v) = last_next(&hub.received(o)) {
            check = *v;
        }
    }
    assert_eq!(check, 1);

    {
        let mut hub: Hub<&(), &i32> = Hub::new();
        let subject = _LocalSubject::new(&mut hub);
        let o = hub.add_observer();
        subject.clone().subscribe(&mut hub, Target::Observer(o));
        subject.error(&mut hub, &2);
        if let Some(err) = last_error(&hub.received(o)) {
            check = *err;
        }
    }
    assert_eq!(check, 2);
}

#[test]
fn shared_subject_smoke() {
    let mut hub: Hub<&str, ()> = Hub::new();
    let subject = SharedSubject::new(&mut hub);
    let o = hub.add_observer();
    subject.clone().subscribe(&mut hub, Target::Observer(o));
    subject.next(&mut hub, "test shared subject");
    let test_code = last_next(&hub.received(o)).unwrap_or("");
    assert_eq!(test_code, "test shared subject");
    assert_eq!(subject.teardown_size(&hub), 1);
}

#[test]
fn broadcast_reaches_observers_in_attachment_order() {
    let mut hub: Hub<i32, ()> = Hub::new();
    let subject = _LocalSubject::new(&mut hub);
    let a = hub.add_observer();
    let b = hub.add_observer();
    subject.subscribe(&mut hub, Target::Observer(b));
    subject.subscribe(&mut hub, Target::Observer(a));
    subject.next(&mut hub, 3);
    subject.next(&mut hub, 4);
    assert_eq!(hub.received(a), vec![Notification::Next(3), Notification::Next(4)]);
    assert_eq!(hub.received(b), vec![Notification::Next(3), Notification::Next(4)]);
    assert_eq!(subject.teardown_size(&hub), 2);
}

#[test]
fn unsubscribe_twice_is_unsubscribe_once() {
    let mut hub: Hub<i32, ()> = Hub::new();
    let subject = _LocalSubject::new(&mut hub);
    let a = hub.add_observer();
    let b = hub.add_observer();
    let sub_a = subject.subscribe(&mut hub, Target::Observer(a));
    let _sub_b = subject.subscribe(&mut hub, Target::Observer(b));
    assert!(!hub.is_closed(sub_a));
    hub.unsubscribe(sub_a);
    assert!(hub.is_closed(sub_a));
    assert_eq!(subject.teardown_size(&hub), 1);
    hub.unsubscribe(sub_a);
    assert!(hub.is_closed(sub_a));
    assert_eq!(subject.teardown_size(&hub), 1);
    subject.next(&mut hub, 9);
    assert_eq!(hub.received(a), vec![]);
    assert_eq!(hub.received(b), vec![Notification::Next(9)]);
}

#[test]
fn completion_closes_subscriptions() {
    let mut hub: Hub<i32, ()> = Hub::new();
    let subject = _LocalSubject::new(&mut hub);
    let a = hub.add_observer();
    let sub = subject.subscribe(&mut hub, Target::Observer(a));
    subject.complete(&mut hub);
    assert!(hub.is_closed(sub));
    assert_eq!(subject.teardown_size(&hub), 0);
}

#[test]
fn late_subscriber_gets_completion_only() {
    let mut hub: Hub<i32, ()> = Hub::new();
    let subject = _LocalSubject::new(&mut hub);
    let early = hub.add_observer();
    let late = hub.add_observer();
    subject.subscribe(&mut hub, Target::Observer(early));
    subject.next(&mut hub, 1);
    subject.complete(&mut hub);
    subject.next(&mut hub, 2);
    subject.complete(&mut hub);
    let sub = subject.subscribe(&mut hub, Target::Observer(late));
    subject.next(&mut hub, 3);
    assert_eq!(hub.received(early), vec![Notification::Next(1), Notification::Complete]);
    assert_eq!(hub.received(late), vec![Notification::Complete]);
    assert!(hub.is_closed(sub));
    assert_eq!(subject.teardown_size(&hub), 0);
}

#[test]
fn late_subscriber_gets_stored_error() {
    let mut hub: Hub<i32, u8> = Hub::new();
    let subject = _LocalSubject::new(&mut hub);
    let early = hub.add_observer();
    let late = hub.add_observer();
    subject.subscribe(&mut hub, Target::Observer(early));
    subject.error(&mut hub, 7);
    subject.error(&mut hub, 8);
    subject.subscribe(&mut hub, Target::Observer(late));
    assert_eq!(hub.received(early), vec![Notification::Error(7)]);
    assert_eq!(hub.received(late), vec![Notification::Error(7)]);
}

#[test]
fn behavior_subject_replays_initial_value() {
    let mut hub: Hub<i32, ()> = Hub::new();
    let subject = _LocalBehaviorSubject::new(&mut hub, 10);
    let o = hub.add_observer();
    subject.subject().subscribe(&mut hub, Target::Observer(o));
    subject.subject().next(&mut hub, 11);
    assert_eq!(hub.received(o), vec![Notification::Next(10), Notification::Next(11)]);
}

#[test]
fn behavior_subject_replays_last_value() {
    let mut hub: Hub<i32, ()> = Hub::new();
    let subject = SharedBehaviorSubject::new(&mut hub, 0);
    let first = hub.add_observer();
    let second = hub.add_observer();
    subject.subject().subscribe(&mut hub, Target::Observer(first));
    subject.subject().next(&mut hub, 5);
    subject.subject().subscribe(&mut hub, Target::Observer(second));
    subject.subject().next(&mut hub, 6);
    assert_eq!(hub.received(first), vec![Notification::Next(0), Notification::Next(5), Notification::Next(6)]);
    assert_eq!(hub.received(second), vec![Notification::Next(5), Notification::Next(6)]);
}

#[test]
fn closed_behavior_subject_gives_terminal_not_value() {
    let mut hub: Hub<i32, ()> = Hub::new();
    let subject = _LocalBehaviorSubject::new(&mut hub, 4);
    let o = hub.add_observer();
    subject.subject().complete(&mut hub);
    subject.subject().subscribe(&mut hub, Target::Observer(o));
    assert_eq!(hub.received(o), vec![Notification::Complete]);
}

#[test]
fn clone_reaches_the_same_subject() {
    let mut hub: Hub<i32, ()> = Hub::new();
    let subject = _LocalSubject::new(&mut hub);
    let copy = subject.clone();
    let a = hub.add_observer();
    let b = hub.add_observer();
    copy.subscribe(&mut hub, Target::Observer(a));
    subject.subscribe(&mut hub, Target::Observer(b));
    subject.next(&mut hub, 1);
    copy.next(&mut hub, 2);
    assert_eq!(subject.teardown_size(&hub), 2);
    assert_eq!(copy.teardown_size(&hub), 2);
    assert_eq!(hub.received(a), vec![Notification::Next(1), Notification::Next(2)]);
    assert_eq!(hub.received(a), hub.received(b));
}
