use vstd::prelude::*;
use crate::hub::{
    HubView, Downstream, TakeUntilNotifierObserver, deliver, link_open, lemma_teardown_frame, SlotSubscription, Target, attached, broadcast, emit, other_subject, received,
    subject_open, subscribe, subscription_closed, teardown, unsubscribe, Slot,
};
use crate::notification::Notification;
use crate::scheduler::{RepeatingTask, cancel, task_closed};
use crate::subject::{Subject, with_subject};

verus! {

proof fn lemma_filter_all<A>(s: Seq<A>, p: spec_fn(A) -> bool)
    requires
        forall|i: int| 0 <= i < s.len() ==> p(s[i]),
    ensures
        s.filter(p) == s,
    decreases s.len(),
{
    reveal(Seq::filter);
    if s.len() > 0 {
        lemma_filter_all(s.drop_last(), p);
        assert(s.drop_last().push(s.last()) =~= s);
    }
}

proof fn lemma_filter_keeps<A>(s: Seq<A>, p: spec_fn(A) -> bool, q: spec_fn(A) -> bool)
    requires
        forall|i: int| 0 <= i < s.len() ==> q(s[i]),
    ensures
        forall|i: int| 0 <= i < s.filter(p).len() ==> p(s.filter(p)[i]) && q(s.filter(p)[i]),
{
    assert forall|i: int| 0 <= i < s.filter(p).len() implies p(s.filter(p)[i]) && q(
        s.filter(p)[i],
    ) by {
        s.lemma_filter_pred(p, i);
        assert(s.filter(p).contains(s.filter(p)[i]));
        s.lemma_filter_contains_rev(p, s.filter(p)[i]);
    }
}

proof fn lemma_received_push<T, E>(log: Seq<crate::hub::Delivery<T, E>>, d: crate::hub::Delivery<T, E>, o: usize)
    ensures
        received(log.push(d), o) == if d.observer == o {
            received(log, o).push(d.notification)
        } else {
            received(log, o)
        },
{
    assert(log.push(d).drop_last() =~= log);
}

proof fn lemma_broadcast_keeps_subjects<T, E>(h: HubView<T, E>, s: usize, snap: Seq<Slot>, n: Notification<T, E>)
    ensures
        broadcast(h, s, snap, n).subjects == h.subjects,
    decreases snap.len(),
{
    if snap.len() > 0 {
        lemma_broadcast_keeps_subjects(h, s, snap.drop_last(), n);
        crate::hub::lemma_deliver_frame(broadcast(h, s, snap.drop_last(), n), snap.last().target, n);
    }
}

proof fn lemma_none_attached(slots: Seq<Slot>, s: usize)
    requires
        forall|i: int| 0 <= i < slots.len() ==> slots[i].subject != s,
    ensures
        attached(slots, s) == 0,
    decreases slots.len(),
{
    if slots.len() > 0 {
        lemma_none_attached(slots.drop_last(), s);
    }
}

/// Unsubscribing a second time changes nothing, and the subscription reads
/// as closed from the first time on.
pub proof fn unsubscribe_idempotent<T, E>(h: HubView<T, E>, sub: SlotSubscription)
    ensures
        unsubscribe(unsubscribe(h, sub), sub) == unsubscribe(h, sub),
        subscription_closed(unsubscribe(h, sub), sub),
{
    let once = h.slots.filter(crate::hub::other_id(sub.id));
    lemma_filter_keeps(h.slots, crate::hub::other_id(sub.id), |sl: Slot| true);
    lemma_filter_all(once, crate::hub::other_id(sub.id));
}

/// A subscription made on an open subject reads as open.
pub proof fn fresh_subscription_open<T, E>(h: HubView<T, E>, s: usize, o: usize)
    requires
        subject_open(h, s),
    ensures
        !subscription_closed(
            subscribe(h, s, Target::Observer(o)),
            SlotSubscription { subject: s, id: h.next_slot as u64 },
        ),
{
    let r = subscribe(h, s, Target::Observer(o));
    let k = r.slots.len() - 1;
    assert(r.slots[k].id == h.next_slot as u64);
}

/// Tearing a take-until stage down a second time changes nothing.
pub proof fn teardown_idempotent<T, E>(h: HubView<T, E>, k: usize)
    ensures
        teardown(teardown(h, k), k) == teardown(h, k),
{
    lemma_teardown_frame(h, k);
}

/// Cancelling a scheduled task a second time changes nothing, and the task
/// reads as closed from the first time on.
pub proof fn cancel_idempotent(tasks: Seq<RepeatingTask>, k: usize)
    ensures
        cancel(cancel(tasks, k), k) == cancel(tasks, k),
        task_closed(cancel(tasks, k), k),
{
    assert(cancel(cancel(tasks, k), k) =~= cancel(tasks, k));
}

/// A completion or an error closes an open subject and detaches every one
/// of its observers.
pub proof fn terminal_closes_subject<T, E>(h: HubView<T, E>, s: usize, n: Notification<T, E>)
    requires
        subject_open(h, s),
        n.is_terminal(),
    ensures
        !subject_open(emit(h, s, n), s),
        attached(emit(h, s, n).slots, s) == 0,
{
    let h0 = crate::hub::cache_next(h, s, n);
    lemma_broadcast_keeps_subjects(h0, s, h.slots, n);
    let h1 = broadcast(h0, s, h.slots, n);
    lemma_filter_keeps(h1.slots, other_subject(s), |sl: Slot| true);
    lemma_none_attached(h1.slots.filter(other_subject(s)), s);
}

/// A closed subject ignores further values, attaches no new observer, and
/// hands each new one its terminal signal at once.
pub proof fn closed_subject_replays_terminal<T, E>(h: HubView<T, E>, s: usize, o: usize, v: T)
    requires
        s < h.subjects.len(),
        h.subjects[s as int].terminal is Some,
    ensures
        emit(h, s, Notification::Next(v)) == h,
        subscribe(h, s, Target::Observer(o)).slots == h.slots,
        received(subscribe(h, s, Target::Observer(o)).log, o) == received(h.log, o).push(
            h.subjects[s as int].terminal.unwrap().message(),
        ),
{
    let term = h.subjects[s as int].terminal.unwrap();
    lemma_received_push(
        h.log,
        crate::hub::Delivery { observer: o, notification: term.message() },
        o,
    );
}

/// An observer that subscribes to a value-replaying subject before any value
/// was sent receives the initial value first, and only once.
pub proof fn behavior_replays_initial<T, E>(h: HubView<T, E>, v0: T, o: usize)
    requires
        h.subjects.len() < usize::MAX,
        received(h.log, o).len() == 0,
    ensures
        received(
            subscribe(with_subject(h, Some(v0)), h.subjects.len() as usize, Target::Observer(o)).log,
            o,
        ) == seq![Notification::<T, E>::Next(v0)],
{
    let h1 = with_subject(h, Some(v0));
    lemma_received_push(
        h1.log,
        crate::hub::Delivery { observer: o, notification: Notification::Next(v0) },
        o,
    );
    assert(received(h.log, o).push(Notification::<T, E>::Next(v0)) =~= seq![
        Notification::<T, E>::Next(v0),
    ]);
}

/// A copy of a subject handle reaches the same live subject: subscribing or
/// sending through it does exactly what doing so through the first handle does.
pub proof fn clone_shares_subject<T, E, const SHARED: bool>(
    h: HubView<T, E>,
    s: Subject<SHARED>,
    c: Subject<SHARED>,
    t: Target,
    n: Notification<T, E>,
)
    requires
        c == s,
    ensures
        subscribe(h, c.id, t) == subscribe(h, s.id, t),
        emit(h, c.id, n) == emit(h, s.id, n),
{
}

/// Once a take-until stage is closed, nothing that its source or its
/// notifier sends goes through it any more.
pub proof fn closed_stage_passes_nothing<T, E>(h: HubView<T, E>, k: usize, n: Notification<T, E>)
    requires
        !link_open(h, k),
    ensures
        deliver(h, Target::Source(k), n) == h,
        deliver(h, Target::Notifier(TakeUntilNotifierObserver { subscription: k }), n) == h,
{
}

/// The first value from the notifier of an open take-until stage completes
/// the downstream observer and closes the stage.
pub proof fn notifier_value_completes_downstream<T, E>(h: HubView<T, E>, o: usize, k: usize, x: T)
    requires
        link_open(h, k),
        h.links[k as int].downstream == Downstream::Observer(o),
    ensures
        ({
            let r = deliver(
                h,
                Target::Notifier(TakeUntilNotifierObserver { subscription: k }),
                Notification::Next(x),
            );
            &&& received(r.log, o) == received(h.log, o).push(Notification::Complete)
            &&& !link_open(r, k)
        }),
{
    let h1 = crate::hub::record(h, o, Notification::Complete);
    lemma_teardown_frame(h1, k);
    lemma_received_push(h.log, crate::hub::Delivery { observer: o, notification: Notification::Complete }, o);
}

/// A value from the source of an open take-until stage reaches the
/// downstream observer unchanged, and the stage stays open.
pub proof fn source_value_passes_through<T, E>(h: HubView<T, E>, o: usize, k: usize, x: T)
    requires
        link_open(h, k),
        h.links[k as int].downstream == Downstream::Observer(o),
    ensures
        ({
            let r = deliver(h, Target::Source(k), Notification::Next(x));
            &&& received(r.log, o) == received(h.log, o).push(Notification::Next(x))
            &&& link_open(r, k)
        }),
{
    assert(crate::hub::pass(h, Downstream::Observer(o), Notification::Next(x)) == crate::hub::record(
        h,
        o,
        Notification::Next(x),
    ));
    lemma_received_push(h.log, crate::hub::Delivery { observer: o, notification: Notification::Next(x) }, o);
}

} // verus!
