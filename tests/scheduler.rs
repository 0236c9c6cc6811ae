use futures::future::AbortHandle;
use rxrust::{first_delay, interval, interval_at, Firing, ManualScheduler, SpawnHandle};

#[test]
fn local_manual() {
    let mut scheduler = ManualScheduler::new(0);
    let mut ticks = 0;
    let delay: u64 = 1;
    let _sub = interval(delay).take(5).subscribe(&mut scheduler);
    assert_eq!(0, ticks);
    scheduler.advance(delay * 2);
    ticks += scheduler.run_tasks().len();
    assert_eq!(2, ticks);

    scheduler.advance(delay * 3);
    ticks += scheduler.run_tasks().len();
    assert_eq!(5, ticks);
}

#[test]
fn taken_interval_stops_at_limit() {
    let mut scheduler = ManualScheduler::new(0);
    let h = interval(1).take(5).subscribe(&mut scheduler);
    scheduler.advance(10);
    assert_eq!(scheduler.run_tasks().len(), 5);
    scheduler.advance(10);
    assert_eq!(scheduler.run_tasks().len(), 0);
    assert!(scheduler.is_closed(h));
}

#[test]
fn interval_ticks_are_consecutive() {
    let mut scheduler = ManualScheduler::new(100);
    let h = interval(4).subscribe(&mut scheduler);
    let mut ticks = Vec::new();
    for step in [3u64, 1, 9, 4, 0, 13] {
        scheduler.advance(step);
        for f in scheduler.run_tasks() {
            assert_eq!(f.task, h.task);
            ticks.push(f.tick);
        }
    }
    assert_eq!(ticks, (0..7).collect::<Vec<u64>>());
}

#[test]
fn catch_up_fires_every_missed_period() {
    let mut scheduler = ManualScheduler::new(0);
    let h = interval(2).subscribe(&mut scheduler);
    scheduler.advance(6);
    assert_eq!(
        scheduler.run_tasks(),
        vec![
            Firing { task: h.task, tick: 0 },
            Firing { task: h.task, tick: 1 },
            Firing { task: h.task, tick: 2 },
        ]
    );
}

#[test]
fn interval_at_start_in_the_past_fires_at_once() {
    let mut scheduler = ManualScheduler::new(50);
    let h = interval_at(10, 5).subscribe(&mut scheduler);
    assert_eq!(scheduler.run_tasks(), vec![Firing { task: h.task, tick: 0 }]);
    scheduler.advance(5);
    assert_eq!(scheduler.run_tasks(), vec![Firing { task: h.task, tick: 1 }]);
}

#[test]
fn interval_at_future_start_waits() {
    let mut scheduler = ManualScheduler::new(0);
    let h = interval_at(7, 5).subscribe(&mut scheduler);
    scheduler.advance(6);
    assert_eq!(scheduler.run_tasks(), vec![]);
    scheduler.advance(1);
    assert_eq!(scheduler.run_tasks(), vec![Firing { task: h.task, tick: 0 }]);
}

#[test]
fn first_delay_values() {
    assert_eq!(first_delay(10, 3, None), 3);
    assert_eq!(first_delay(10, 3, Some(15)), 5);
    assert_eq!(first_delay(10, 3, Some(10)), 0);
    assert_eq!(first_delay(10, 3, Some(4)), 0);
}

#[test]
fn ties_fire_in_schedule_order() {
    let mut scheduler = ManualScheduler::new(0);
    let a = scheduler.schedule_repeating(2, None, None);
    let b = scheduler.schedule_repeating(1, None, None);
    scheduler.advance(2);
    assert_eq!(
        scheduler.run_tasks(),
        vec![
            Firing { task: b.task, tick: 0 },
            Firing { task: a.task, tick: 0 },
            Firing { task: b.task, tick: 1 },
        ]
    );
}

#[test]
fn cancelled_task_fires_no_more() {
    let mut scheduler = ManualScheduler::new(0);
    let h = scheduler.schedule_repeating(1, None, None);
    scheduler.advance(2);
    assert_eq!(scheduler.run_tasks().len(), 2);
    assert!(!scheduler.is_closed(h));
    scheduler.unsubscribe(h);
    scheduler.unsubscribe(h);
    assert!(scheduler.is_closed(h));
    scheduler.advance(5);
    assert_eq!(scheduler.run_tasks(), vec![]);
}

#[test]
fn one_shot_runs_once_after_delay() {
    let mut scheduler = ManualScheduler::new(0);
    let h = scheduler.schedule(Some(3));
    let now = scheduler.schedule(None);
    assert_eq!(scheduler.run_tasks(), vec![Firing { task: now.task, tick: 0 }]);
    scheduler.advance(3);
    assert_eq!(scheduler.run_tasks(), vec![Firing { task: h.task, tick: 0 }]);
    scheduler.advance(3);
    assert_eq!(scheduler.run_tasks(), vec![]);
    assert!(scheduler.is_closed(h));
}

#[test]
fn spawn_handle_aborts_once() {
    let (handle, _registration) = AbortHandle::new_pair();
    let mut h = SpawnHandle::new(handle);
    assert!(!h.is_closed());
    assert!(!h.handle.is_aborted());
    h.unsubscribe();
    assert!(h.is_closed());
    assert!(h.handle.is_aborted());
    h.unsubscribe();
    assert!(h.is_closed());
}
