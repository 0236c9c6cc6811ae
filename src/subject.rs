use vstd::prelude::*;
use crate::hub::{
    Hub, HubView, SlotSubscription, SubjectState, Target, attached, emit, subscribe,
};
use crate::notification::Notification;
use crate::take_until::{Source, TakeUntilOp};

verus! {

/// A handle on a multicast subject of a hub. `SHARED` tells the regime of
/// the hub's owner: one thread, or a lock shared across threads. Copies of
/// a handle reach the same live subject.
#[derive(Clone, Copy, Debug, PartialEq, Eq)]
pub struct Subject<const SHARED: bool> {
    pub id: usize,
}

/// A handle on a subject that keeps the last value it broadcast and hands
/// it to each new subscriber before attaching it.
#[derive(Clone, Copy, Debug, PartialEq, Eq)]
pub struct BehaviorSubject<const SHARED: bool> {
    pub id: usize,
}

pub type _LocalSubject = Subject<false>;

pub type SharedSubject = Subject<true>;

pub type _LocalBehaviorSubject = BehaviorSubject<false>;

pub type SharedBehaviorSubject = BehaviorSubject<true>;

/// The hub after a new open subject with the given cache was added.
pub open spec fn with_subject<T, E>(h: HubView<T, E>, cache: Option<T>) -> HubView<T, E> {
    HubView { subjects: h.subjects.push(SubjectState { terminal: None, cache }), ..h }
}

impl _LocalSubject {
    /// An open subject with no subscribers, owned by one thread.
    pub fn new<T: Copy, E: Copy>(hub: &mut Hub<T, E>) -> (r: Self)
        requires
            old(hub)@.subjects.len() < usize::MAX,
        ensures
            r.id == old(hub)@.subjects.len(),
            final(hub)@ == with_subject(old(hub)@, None),
    {
        Subject { id: hub.add_subject(None) }
    }
}

impl SharedSubject {
    /// An open subject with no subscribers, in a hub shared across threads.
    pub fn new<T: Copy, E: Copy>(hub: &mut Hub<T, E>) -> (r: Self)
        requires
            old(hub)@.subjects.len() < usize::MAX,
        ensures
            r.id == old(hub)@.subjects.len(),
            final(hub)@ == with_subject(old(hub)@, None),
    {
        Subject { id: hub.add_subject(None) }
    }
}

impl _LocalBehaviorSubject {
    /// An open subject that starts out holding `value`, owned by one thread.
    pub fn new<T: Copy, E: Copy>(hub: &mut Hub<T, E>, value: T) -> (r: Self)
        requires
            old(hub)@.subjects.len() < usize::MAX,
        ensures
            r.id == old(hub)@.subjects.len(),
            final(hub)@ == with_subject(old(hub)@, Some(value)),
    {
        BehaviorSubject { id: hub.add_subject(Some(value)) }
    }
}

impl SharedBehaviorSubject {
    /// An open subject that starts out holding `value`, in a hub shared
    /// across threads.
    pub fn new<T: Copy, E: Copy>(hub: &mut Hub<T, E>, value: T) -> (r: Self)
        requires
            old(hub)@.subjects.len() < usize::MAX,
        ensures
            r.id == old(hub)@.subjects.len(),
            final(hub)@ == with_subject(old(hub)@, Some(value)),
    {
        BehaviorSubject { id: hub.add_subject(Some(value)) }
    }
}

impl<const SHARED: bool> BehaviorSubject<SHARED> {
    /// The same live subject seen through the plain subject handle.
    pub fn subject(self) -> (r: Subject<SHARED>)
        ensures
            r.id == self.id,
    {
        Subject { id: self.id }
    }
}

impl<const SHARED: bool> Subject<SHARED> {
    /// Broadcasts `value` to every attached observer, in attachment order.
    pub fn next<T: Copy, E: Copy>(self, hub: &mut Hub<T, E>, value: T)
        ensures
            final(hub)@ == emit(old(hub)@, self.id, Notification::Next(value)),
    {
        hub.emit(self.id, Notification::Next(value));
    }

    /// Broadcasts `err` and closes the subject for good.
    pub fn error<T: Copy, E: Copy>(self, hub: &mut Hub<T, E>, err: E)
        ensures
            final(hub)@ == emit(old(hub)@, self.id, Notification::Error(err)),
    {
        hub.emit(self.id, Notification::Error(err));
    }

    /// Broadcasts completion and closes the subject for good.
    pub fn complete<T: Copy, E: Copy>(self, hub: &mut Hub<T, E>)
        ensures
            final(hub)@ == emit(old(hub)@, self.id, Notification::Complete),
    {
        hub.emit(self.id, Notification::Complete);
    }

    /// Attaches `t`, or hands it the terminal signal if the subject is closed.
    pub fn subscribe<T: Copy, E: Copy>(self, hub: &mut Hub<T, E>, t: Target) -> (sub:
        SlotSubscription)
        requires
            old(hub)@.next_slot < u64::MAX,
        ensures
            sub == (SlotSubscription { subject: self.id, id: old(hub)@.next_slot as u64 }),
            final(hub)@ == subscribe(old(hub)@, self.id, t),
    {
        hub.subscribe(self.id, t)
    }

    /// The number of observers still attached.
    pub fn teardown_size<T: Copy, E: Copy>(self, hub: &Hub<T, E>) -> (r: usize)
        ensures
            r == attached(hub@.slots, self.id),
    {
        hub.teardown_size(self.id)
    }

    /// This subject as the source of a stage that stops when subject
    /// `notifier` first signals.
    pub fn take_until(self, notifier: usize) -> (r: TakeUntilOp)
        ensures
            r == (TakeUntilOp { source: Source::Subject(self.id), notifier }),
    {
        TakeUntilOp { source: Source::Subject(self.id), notifier }
    }
}

} // verus!
