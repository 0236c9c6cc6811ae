use vstd::prelude::*;
use crate::hub::{
    Downstream, Hub, HubView, Target, TakeUntilLink, TakeUntilNotifierObserver, Upstream,
    link_open, subscribe, teardown,
};

verus! {

/// What a take-until stage reads its values from: a subject, or an inner
/// take-until stage.
#[derive(Debug)]
pub enum Source {
    Subject(usize),
    TakeUntil(Box<TakeUntilOp>),
}

/// A stage that passes on what its source emits until its notifier first
/// signals: a value from the notifier completes the downstream, an error
/// from it is handed downstream; either way the stage's subscriptions go.
#[derive(Debug)]
pub struct TakeUntilOp {
    pub source: Source,
    pub notifier: usize,
}

/// The number of stages in `op`, itself included.
pub open spec fn depth(op: TakeUntilOp) -> nat
    decreases op,
{
    match op.source {
        Source::Subject(_) => 1,
        Source::TakeUntil(inner) => 1 + depth(*inner),
    }
}

/// What subscribing downstream `d` through `op` does: one composite
/// subscription is made; the notifier gets the proxy observer first; then
/// the source is subscribed with this stage as its downstream, unless the
/// notifier has already ended the stage.
pub open spec fn take_until<T, E>(h: HubView<T, E>, op: TakeUntilOp, d: Downstream) -> HubView<T, E>
    decreases op,
{
    let k = h.links.len() as usize;
    let source = match op.source {
        Source::Subject(_) => Upstream::Slot((h.next_slot + 1) as u64),
        Source::TakeUntil(_) => Upstream::Stage((k + 1) as usize),
    };
    let h1 = HubView {
        links: h.links.push(
            TakeUntilLink { closed: false, downstream: d, notifier_slot: h.next_slot as u64, source },
        ),
        ..h
    };
    let h2 = subscribe(h1, op.notifier, Target::Notifier(TakeUntilNotifierObserver { subscription: k }));
    match op.source {
        Source::Subject(s) => subscribe(h2, s, Target::Source(k)),
        Source::TakeUntil(inner) => if link_open(h2, k) {
            take_until(h2, *inner, Downstream::Stage(k))
        } else {
            h2
        },
    }
}

impl TakeUntilOp {
    /// A further stage on top of this one, stopped by subject `notifier`.
    pub fn take_until(self, notifier: usize) -> (r: TakeUntilOp)
        ensures
            r == (TakeUntilOp { source: Source::TakeUntil(Box::new(self)), notifier }),
    {
        TakeUntilOp { source: Source::TakeUntil(Box::new(self)), notifier }
    }

    /// Wires observer `o` through this stage; the result names the stage's
    /// composite subscription.
    pub fn subscribe<T: Copy, E: Copy>(self, hub: &mut Hub<T, E>, o: usize) -> (k: usize)
        requires
            old(hub)@.next_slot + 2 * depth(self) <= u64::MAX,
            old(hub)@.links.len() + depth(self) <= usize::MAX,
        ensures
            k == old(hub)@.links.len(),
            final(hub)@ == take_until(old(hub)@, self, Downstream::Observer(o)),
    {
        self.subscribe_downstream(hub, Downstream::Observer(o))
    }

    /// Wires downstream `d` through this stage.
    pub fn subscribe_downstream<T: Copy, E: Copy>(self, hub: &mut Hub<T, E>, d: Downstream) -> (k:
        usize)
        requires
            old(hub)@.next_slot + 2 * depth(self) <= u64::MAX,
            old(hub)@.links.len() + depth(self) <= usize::MAX,
        ensures
            k == old(hub)@.links.len(),
            final(hub)@ == take_until(old(hub)@, self, d),
        decreases self,
    {
        let k = hub.link_count();
        let ns = hub.next_slot_id();
        let source = match &self.source {
            Source::Subject(_) => Upstream::Slot(ns + 1),
            Source::TakeUntil(_) => Upstream::Stage(k + 1),
        };
        hub.add_link(d, source);
        let ghost h1 = hub@;
        hub.subscribe(self.notifier, Target::Notifier(TakeUntilNotifierObserver { subscription: k }));
        proof {
            crate::hub::lemma_subscribe_frame(h1, self.notifier, Target::Notifier(TakeUntilNotifierObserver { subscription: k }));
        }
        match self.source {
            Source::Subject(s) => {
                hub.subscribe(s, Target::Source(k));
            },
            Source::TakeUntil(inner) => {
                if hub.link_is_open(k) {
                    (*inner).subscribe_downstream(hub, Downstream::Stage(k));
                }
            },
        }
        k
    }
}

impl<T: Copy, E: Copy> Hub<T, E> {
    /// Closes composite subscription `k`, every slot it owns and every
    /// stage inside it.
    pub fn unsubscribe_link(&mut self, k: usize)
        ensures
            final(self)@ == teardown(old(self)@, k),
            k < old(self)@.links.len() ==> !link_open(final(self)@, k),
    {
        proof {
            crate::hub::lemma_teardown_frame(self@, k);
        }
        self.close_link(k);
    }

    /// Whether composite subscription `k` is closed.
    pub fn is_link_closed(&self, k: usize) -> (r: bool)
        requires
            k < self@.links.len(),
        ensures
            r == !link_open(self@, k),
    {
        !self.link_is_open(k)
    }
}

} // verus!
