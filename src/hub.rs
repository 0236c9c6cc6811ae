use vstd::prelude::*;
use crate::notification::{Notification, Terminal};

verus! {

/// Where a take-until stage hands on what passes through it: a recording
/// observer, or the source side of a further stage.
#[derive(Clone, Copy, Debug, PartialEq, Eq)]
pub enum Downstream {
    Observer(usize),
    Stage(usize),
}

/// What a take-until stage is subscribed to on its source side: a slot of a
/// subject, or an inner stage.
#[derive(Clone, Copy, Debug, PartialEq, Eq)]
pub enum Upstream {
    Slot(u64),
    Stage(usize),
}

/// The composite subscription of one take-until stage: it owns the slot on
/// the notifier and the subscription on the source, and closes both at once.
#[derive(Clone, Copy, Debug, PartialEq, Eq)]
pub struct TakeUntilLink {
    pub closed: bool,
    pub downstream: Downstream,
    pub notifier_slot: u64,
    pub source: Upstream,
}

/// The observer that a take-until stage attaches to its notifier: on the
/// first signal it ends the stage's downstream and tears the stage down.
#[derive(Clone, Copy, Debug, PartialEq, Eq)]
pub struct TakeUntilNotifierObserver {
    pub subscription: usize,
}

/// Where a subject slot sends what it receives: a recording observer, the
/// source side of a take-until stage, or the notifier side of one.
#[derive(Clone, Copy, Debug, PartialEq, Eq)]
pub enum Target {
    Observer(usize),
    Source(usize),
    Notifier(TakeUntilNotifierObserver),
}

/// One attached observer of a subject, with the id its subscription holds.
#[derive(Clone, Copy, Debug, PartialEq, Eq)]
pub struct Slot {
    pub subject: usize,
    pub id: u64,
    pub target: Target,
}

/// What a subject keeps besides its slots: the terminal signal once closed,
/// and the last value for a subject that replays one.
#[derive(Clone, Copy, Debug)]
pub struct SubjectState<T, E> {
    pub terminal: Option<Terminal<E>>,
    pub cache: Option<T>,
}

/// One message as an observer received it.
#[derive(Clone, Copy, Debug)]
pub struct Delivery<T, E> {
    pub observer: usize,
    pub notification: Notification<T, E>,
}

/// The handle of one slot: unsubscribing removes that slot alone.
#[derive(Clone, Copy, Debug, PartialEq, Eq)]
pub struct SlotSubscription {
    pub subject: usize,
    pub id: u64,
}

/// The state of a hub as mathematical values.
pub struct HubView<T, E> {
    pub subjects: Seq<SubjectState<T, E>>,
    pub slots: Seq<Slot>,
    pub links: Seq<TakeUntilLink>,
    pub log: Seq<Delivery<T, E>>,
    pub observers: nat,
    pub next_slot: nat,
}

/// The single owner of every subject, slot, take-until stage and observer
/// log of one pipeline. Handles name its parts by index, so clones of a
/// handle reach the same live part.
pub struct Hub<T, E> {
    subjects: Vec<SubjectState<T, E>>,
    slots: Vec<Slot>,
    links: Vec<TakeUntilLink>,
    log: Vec<Delivery<T, E>>,
    observers: usize,
    next_slot: u64,
}

impl<T, E> View for Hub<T, E> {
    type V = HubView<T, E>;

    closed spec fn view(&self) -> HubView<T, E> {
        HubView {
            subjects: self.subjects@,
            slots: self.slots@,
            links: self.links@,
            log: self.log@,
            observers: self.observers as nat,
            next_slot: self.next_slot as nat,
        }
    }
}

pub open spec fn other_id(id: u64) -> spec_fn(Slot) -> bool {
    |sl: Slot| sl.id != id
}

pub open spec fn other_subject(s: usize) -> spec_fn(Slot) -> bool {
    |sl: Slot| sl.subject != s
}

/// What observer `o` has received, in order.
pub open spec fn received<T, E>(log: Seq<Delivery<T, E>>, o: usize) -> Seq<Notification<T, E>>
    decreases log.len(),
{
    if log.len() == 0 {
        Seq::empty()
    } else {
        let r = received(log.drop_last(), o);
        if log.last().observer == o {
            r.push(log.last().notification)
        } else {
            r
        }
    }
}

/// The number of slots attached to subject `s`.
pub open spec fn attached(slots: Seq<Slot>, s: usize) -> nat
    decreases slots.len(),
{
    if slots.len() == 0 {
        0
    } else {
        attached(slots.drop_last(), s) + if slots.last().subject == s {
            1nat
        } else {
            0nat
        }
    }
}

/// Whether some slot holds `id`.
pub open spec fn has_slot(slots: Seq<Slot>, id: u64) -> bool {
    exists|i: int| 0 <= i < slots.len() && slots[i].id == id
}

pub open spec fn record<T, E>(h: HubView<T, E>, o: usize, n: Notification<T, E>) -> HubView<T, E> {
    HubView { log: h.log.push(Delivery { observer: o, notification: n }), ..h }
}

pub open spec fn link_open<T, E>(h: HubView<T, E>, k: usize) -> bool {
    k < h.links.len() && !h.links[k as int].closed
}

/// A stage hands on only to stages made before it, so handing on ends.
pub open spec fn feeds_below(d: Downstream, k: usize) -> bool {
    match d {
        Downstream::Observer(_) => true,
        Downstream::Stage(j) => j < k,
    }
}

pub open spec fn depth_of(d: Downstream) -> nat {
    match d {
        Downstream::Observer(_) => 0,
        Downstream::Stage(j) => j as nat + 1,
    }
}

/// Closes take-until stage `k`, if open: its notifier slot goes, and so does
/// its source subscription, an inner stage being torn down in turn.
pub open spec fn teardown<T, E>(h: HubView<T, E>, k: usize) -> HubView<T, E>
    decreases h.links.len() - k,
{
    if link_open(h, k) {
        let l = h.links[k as int];
        let h1 = HubView {
            links: h.links.update(k as int, TakeUntilLink { closed: true, ..l }),
            slots: h.slots.filter(other_id(l.notifier_slot)),
            ..h
        };
        match l.source {
            Upstream::Slot(id) => HubView { slots: h1.slots.filter(other_id(id)), ..h1 },
            Upstream::Stage(i) => if k < i < h.links.len() {
                teardown(h1, i)
            } else {
                h1
            },
        }
    } else {
        h
    }
}

/// Hands `n` on to `d`. An open stage passes it to its own downstream, and a
/// completion or an error then closes the stage.
pub open spec fn pass<T, E>(h: HubView<T, E>, d: Downstream, n: Notification<T, E>) -> HubView<T, E>
    decreases depth_of(d),
{
    match d {
        Downstream::Observer(o) => record(h, o, n),
        Downstream::Stage(j) => {
            if link_open(h, j) && feeds_below(h.links[j as int].downstream, j) {
                let h1 = pass(h, h.links[j as int].downstream, n);
                if n.is_terminal() {
                    teardown(h1, j)
                } else {
                    h1
                }
            } else {
                h
            }
        },
    }
}

/// Hands `n` to one target.
pub open spec fn deliver<T, E>(h: HubView<T, E>, t: Target, n: Notification<T, E>) -> HubView<T, E> {
    match t {
        Target::Observer(o) => record(h, o, n),
        Target::Source(k) => pass(h, Downstream::Stage(k), n),
        Target::Notifier(p) => {
            let k = p.subscription;
            if link_open(h, k) {
                let d = h.links[k as int].downstream;
                match n {
                    Notification::Next(_) => teardown(pass(h, d, Notification::Complete), k),
                    Notification::Error(e) => teardown(pass(h, d, Notification::Error(e)), k),
                    Notification::Complete => teardown(h, k),
                }
            } else {
                h
            }
        },
    }
}

/// Whether a target still accepts messages.
pub open spec fn target_live<T, E>(h: HubView<T, E>, t: Target) -> bool {
    match t {
        Target::Observer(_) => true,
        Target::Source(k) => link_open(h, k),
        Target::Notifier(p) => link_open(h, p.subscription),
    }
}

/// Hands `n` to every slot of `snap` that belongs to subject `s`, in order.
pub open spec fn broadcast<T, E>(
    h: HubView<T, E>,
    s: usize,
    snap: Seq<Slot>,
    n: Notification<T, E>,
) -> HubView<T, E>
    decreases snap.len(),
{
    if snap.len() == 0 {
        h
    } else {
        let h0 = broadcast(h, s, snap.drop_last(), n);
        if snap.last().subject == s {
            deliver(h0, snap.last().target, n)
        } else {
            h0
        }
    }
}

pub open spec fn subject_open<T, E>(h: HubView<T, E>, s: usize) -> bool {
    s < h.subjects.len() && h.subjects[s as int].terminal is None
}

/// A value-replaying subject remembers each value it broadcasts.
pub open spec fn cache_next<T, E>(h: HubView<T, E>, s: usize, n: Notification<T, E>) -> HubView<T, E> {
    match n {
        Notification::Next(v) => {
            if s < h.subjects.len() && h.subjects[s as int].cache is Some {
                HubView {
                    subjects: h.subjects.update(
                        s as int,
                        SubjectState { cache: Some(v), ..h.subjects[s as int] },
                    ),
                    ..h
                }
            } else {
                h
            }
        },
        _ => h,
    }
}

/// Keeps `term` for subject `s` and detaches all of its slots.
pub open spec fn close_subject<T, E>(h: HubView<T, E>, s: usize, term: Terminal<E>) -> HubView<T, E> {
    HubView {
        subjects: h.subjects.update(s as int, SubjectState { terminal: Some(term), ..h.subjects[s as int] }),
        slots: h.slots.filter(other_subject(s)),
        ..h
    }
}

/// What one message sent into subject `s` does: an open subject hands it to
/// every slot attached when the call began, in attachment order; an error
/// or a completion then closes the subject. A closed subject ignores it.
pub open spec fn emit<T, E>(h: HubView<T, E>, s: usize, n: Notification<T, E>) -> HubView<T, E> {
    if !subject_open(h, s) {
        h
    } else {
        let h1 = broadcast(cache_next(h, s, n), s, h.slots, n);
        match n {
            Notification::Next(_) => h1,
            Notification::Error(e) => close_subject(h1, s, Terminal::Failed(e)),
            Notification::Complete => close_subject(h1, s, Terminal::Completed),
        }
    }
}

/// What attaching target `t` to subject `s` does. A closed subject hands the
/// target its terminal signal and attaches nothing; an open one first hands
/// over its cached value, if it keeps one, and then attaches the target.
pub open spec fn subscribe<T, E>(h: HubView<T, E>, s: usize, t: Target) -> HubView<T, E> {
    let h1 = HubView { next_slot: h.next_slot + 1, ..h };
    if s >= h.subjects.len() {
        h1
    } else {
        match h.subjects[s as int].terminal {
            Some(term) => deliver(h1, t, term.message()),
            None => {
                let h2 = match h.subjects[s as int].cache {
                    Some(v) => deliver(h1, t, Notification::Next(v)),
                    None => h1,
                };
                if target_live(h2, t) {
                    HubView {
                        slots: h2.slots.push(Slot { subject: s, id: h.next_slot as u64, target: t }),
                        ..h2
                    }
                } else {
                    h2
                }
            },
        }
    }
}

/// Detaches the slot of `sub`, if it is still attached.
pub open spec fn unsubscribe<T, E>(h: HubView<T, E>, sub: SlotSubscription) -> HubView<T, E> {
    HubView { slots: h.slots.filter(other_id(sub.id)), ..h }
}

pub open spec fn subscription_closed<T, E>(h: HubView<T, E>, sub: SlotSubscription) -> bool {
    !has_slot(h.slots, sub.id)
}

fn slots_without_id(slots: &Vec<Slot>, id: u64) -> (r: Vec<Slot>)
    ensures
        r@ == slots@.filter(other_id(id)),
{
    let mut r: Vec<Slot> = Vec::new();
    let mut i: usize = 0;
    while i < slots.len()
        invariant
            i <= slots.len(),
            r@ == slots@.take(i as int).filter(other_id(id)),
        decreases slots.len() - i,
    {
        let sl = slots[i];
        proof {
            assert(slots@.take(i + 1).drop_last() =~= slots@.take(i as int));
            reveal(Seq::filter);
        }
        if sl.id != id {
            r.push(sl);
        }
        i += 1;
    }
    proof {
        assert(slots@.take(slots.len() as int) =~= slots@);
    }
    r
}

fn slots_without_subject(slots: &Vec<Slot>, s: usize) -> (r: Vec<Slot>)
    ensures
        r@ == slots@.filter(other_subject(s)),
{
    let mut r: Vec<Slot> = Vec::new();
    let mut i: usize = 0;
    while i < slots.len()
        invariant
            i <= slots.len(),
            r@ == slots@.take(i as int).filter(other_subject(s)),
        decreases slots.len() - i,
    {
        let sl = slots[i];
        proof {
            assert(slots@.take(i + 1).drop_last() =~= slots@.take(i as int));
            reveal(Seq::filter);
        }
        if sl.subject != s {
            r.push(sl);
        }
        i += 1;
    }
    proof {
        assert(slots@.take(slots.len() as int) =~= slots@);
    }
    r
}

fn copy_slots(slots: &Vec<Slot>) -> (r: Vec<Slot>)
    ensures
        r@ == slots@,
{
    let mut r: Vec<Slot> = Vec::new();
    let mut i: usize = 0;
    while i < slots.len()
        invariant
            i <= slots.len(),
            r@ == slots@.take(i as int),
        decreases slots.len() - i,
    {
        r.push(slots[i]);
        proof {
            assert(r@ =~= slots@.take(i + 1));
        }
        i += 1;
    }
    proof {
        assert(slots@.take(slots.len() as int) =~= slots@);
    }
    r
}

/// Tearing a stage down touches only stages and slots: no stage reopens,
/// and stage `k` is closed after.
pub proof fn lemma_teardown_frame<T, E>(h: HubView<T, E>, k: usize)
    ensures
        teardown(h, k).links.len() == h.links.len(),
        teardown(h, k).subjects == h.subjects,
        teardown(h, k).log == h.log,
        teardown(h, k).observers == h.observers,
        teardown(h, k).next_slot == h.next_slot,
        forall|j: int| 0 <= j < h.links.len() ==> #[trigger] teardown(h, k).links[j].downstream
            == h.links[j].downstream,
        forall|j: int|
            0 <= j < h.links.len() && h.links[j].closed ==> #[trigger] teardown(h, k).links[j].closed,
        k < h.links.len() ==> teardown(h, k).links[k as int].closed,
    decreases h.links.len() - k,
{
    if link_open(h, k) {
        let l = h.links[k as int];
        let h1 = HubView {
            links: h.links.update(k as int, TakeUntilLink { closed: true, ..l }),
            slots: h.slots.filter(other_id(l.notifier_slot)),
            ..h
        };
        match l.source {
            Upstream::Slot(id) => {},
            Upstream::Stage(i) => if k < i < h.links.len() {
                lemma_teardown_frame(h1, i);
            },
        }
    }
}

/// Handing a message on leaves the subjects, the observer count and the id
/// counter alone, keeps what each stage hands on to, and reopens no stage.
pub proof fn lemma_pass_frame<T, E>(h: HubView<T, E>, d: Downstream, n: Notification<T, E>)
    ensures
        pass(h, d, n).links.len() == h.links.len(),
        pass(h, d, n).subjects == h.subjects,
        pass(h, d, n).observers == h.observers,
        pass(h, d, n).next_slot == h.next_slot,
        forall|j: int| 0 <= j < h.links.len() ==> #[trigger] pass(h, d, n).links[j].downstream
            == h.links[j].downstream,
        forall|j: int|
            0 <= j < h.links.len() && h.links[j].closed ==> #[trigger] pass(h, d, n).links[j].closed,
    decreases depth_of(d),
{
    match d {
        Downstream::Observer(o) => {},
        Downstream::Stage(j) => {
            if link_open(h, j) && feeds_below(h.links[j as int].downstream, j) {
                lemma_pass_frame(h, h.links[j as int].downstream, n);
                let h1 = pass(h, h.links[j as int].downstream, n);
                lemma_teardown_frame(h1, j);
            }
        },
    }
}

pub proof fn lemma_deliver_frame<T, E>(h: HubView<T, E>, t: Target, n: Notification<T, E>)
    ensures
        deliver(h, t, n).links.len() == h.links.len(),
        deliver(h, t, n).subjects == h.subjects,
        deliver(h, t, n).observers == h.observers,
        deliver(h, t, n).next_slot == h.next_slot,
{
    match t {
        Target::Observer(_) => {},
        Target::Source(k) => lemma_pass_frame(h, Downstream::Stage(k), n),
        Target::Notifier(p) => {
            let k = p.subscription;
            if link_open(h, k) {
                let d = h.links[k as int].downstream;
                lemma_teardown_frame(h, k);
                lemma_pass_frame(h, d, Notification::Complete);
                match n {
                    Notification::Error(e) => {
                        lemma_pass_frame(h, d, Notification::Error(e));
                        lemma_teardown_frame(pass(h, d, Notification::Error(e)), k);
                    },
                    _ => lemma_teardown_frame(pass(h, d, Notification::Complete), k),
                }
            }
        },
    }
}

pub proof fn lemma_subscribe_frame<T, E>(h: HubView<T, E>, s: usize, t: Target)
    ensures
        subscribe(h, s, t).links.len() == h.links.len(),
        subscribe(h, s, t).subjects == h.subjects,
        subscribe(h, s, t).observers == h.observers,
        subscribe(h, s, t).next_slot == h.next_slot + 1,
{
    let h1 = HubView { next_slot: h.next_slot + 1, ..h };
    if s < h.subjects.len() {
        match h.subjects[s as int].terminal {
            Some(term) => lemma_deliver_frame(h1, t, term.message()),
            None => match h.subjects[s as int].cache {
                Some(v) => lemma_deliver_frame(h1, t, Notification::Next(v)),
                None => {},
            },
        }
    }
}

impl<T: Copy, E: Copy> Hub<T, E> {
    /// A hub with no subjects, observers or stages.
    pub fn new() -> (r: Self)
        ensures
            r@.subjects.len() == 0,
            r@.slots.len() == 0,
            r@.links.len() == 0,
            r@.log.len() == 0,
            r@.observers == 0,
            r@.next_slot == 0,
    {
        Hub {
            subjects: Vec::new(),
            slots: Vec::new(),
            links: Vec::new(),
            log: Vec::new(),
            observers: 0,
            next_slot: 0,
        }
    }

    /// Adds an open subject; `cache` is the value it replays, if it keeps one.
    pub fn add_subject(&mut self, cache: Option<T>) -> (s: usize)
        requires
            old(self)@.subjects.len() < usize::MAX,
        ensures
            s == old(self)@.subjects.len(),
            final(self)@ == (HubView {
                subjects: old(self)@.subjects.push(SubjectState { terminal: None, cache }),
                ..old(self)@
            }),
    {
        let s = self.subjects.len();
        self.subjects.push(SubjectState { terminal: None, cache });
        s
    }

    /// Adds an observer that records what it receives.
    pub fn add_observer(&mut self) -> (o: usize)
        requires
            old(self)@.observers < usize::MAX,
        ensures
            o == old(self)@.observers,
            final(self)@ == (HubView { observers: old(self)@.observers + 1, ..old(self)@ }),
    {
        let o = self.observers;
        self.observers = self.observers + 1;
        o
    }

    /// Everything observer `o` has received, in order.
    pub fn received(&self, o: usize) -> (r: Vec<Notification<T, E>>)
        ensures
            r@ == received(self@.log, o),
    {
        let mut r: Vec<Notification<T, E>> = Vec::new();
        let mut i: usize = 0;
        while i < self.log.len()
            invariant
                i <= self.log.len(),
                r@ == received(self.log@.take(i as int), o),
            decreases self.log.len() - i,
        {
            let d = self.log[i];
            proof {
                assert(self.log@.take(i + 1).drop_last() =~= self.log@.take(i as int));
            }
            if d.observer == o {
                r.push(d.notification);
            }
            i += 1;
        }
        proof {
            assert(self.log@.take(self.log.len() as int) =~= self.log@);
        }
        r
    }

    /// The number of slots still attached to subject `s`.
    pub fn teardown_size(&self, s: usize) -> (r: usize)
        ensures
            r == attached(self@.slots, s),
    {
        let mut r: usize = 0;
        let mut i: usize = 0;
        while i < self.slots.len()
            invariant
                i <= self.slots.len(),
                r == attached(self.slots@.take(i as int), s),
                r <= i,
            decreases self.slots.len() - i,
        {
            proof {
                assert(self.slots@.take(i + 1).drop_last() =~= self.slots@.take(i as int));
            }
            if self.slots[i].subject == s {
                r = r + 1;
            }
            i += 1;
        }
        proof {
            assert(self.slots@.take(self.slots.len() as int) =~= self.slots@);
        }
        r
    }

    fn record(&mut self, o: usize, n: Notification<T, E>)
        ensures
            final(self)@ == record(old(self)@, o, n),
    {
        self.log.push(Delivery { observer: o, notification: n });
    }

    /// Adds an open composite subscription whose notifier slot gets the next
    /// id, and whose source is `source`.
    pub(crate) fn add_link(&mut self, downstream: Downstream, source: Upstream) -> (k: usize)
        requires
            old(self)@.links.len() < usize::MAX,
        ensures
            k == old(self)@.links.len(),
            final(self)@ == (HubView {
                links: old(self)@.links.push(
                    TakeUntilLink {
                        closed: false,
                        downstream,
                        notifier_slot: old(self)@.next_slot as u64,
                        source,
                    },
                ),
                ..old(self)@
            }),
    {
        let k = self.links.len();
        self.links.push(
            TakeUntilLink { closed: false, downstream, notifier_slot: self.next_slot, source },
        );
        k
    }

    pub(crate) fn next_slot_id(&self) -> (r: u64)
        ensures
            r == self@.next_slot,
    {
        self.next_slot
    }

    pub(crate) fn link_count(&self) -> (r: usize)
        ensures
            r == self@.links.len(),
    {
        self.links.len()
    }

    pub(crate) fn close_link(&mut self, k: usize)
        ensures
            final(self)@ == teardown(old(self)@, k),
        decreases old(self)@.links.len() - k,
    {
        if k < self.links.len() && !self.links[k].closed {
            let l = self.links[k];
            self.links.set(k, TakeUntilLink { closed: true, ..l });
            self.slots = slots_without_id(&self.slots, l.notifier_slot);
            match l.source {
                Upstream::Slot(id) => {
                    self.slots = slots_without_id(&self.slots, id);
                },
                Upstream::Stage(i) => {
                    if k < i && i < self.links.len() {
                        self.close_link(i);
                    }
                },
            }
        }
    }

    pub(crate) fn link_is_open(&self, k: usize) -> (r: bool)
        ensures
            r == link_open(self@, k),
    {
        k < self.links.len() && !self.links[k].closed
    }

    fn pass(&mut self, d: Downstream, n: Notification<T, E>)
        ensures
            final(self)@ == pass(old(self)@, d, n),
        decreases depth_of(d),
    {
        match d {
            Downstream::Observer(o) => self.record(o, n),
            Downstream::Stage(j) => {
                if self.link_is_open(j) {
                    let next = self.links[j].downstream;
                    let below = match next {
                        Downstream::Observer(_) => true,
                        Downstream::Stage(i) => i < j,
                    };
                    if below {
                        self.pass(next, n);
                        match n {
                            Notification::Next(_) => {},
                            _ => self.close_link(j),
                        }
                    }
                }
            },
        }
    }

    fn deliver(&mut self, t: Target, n: Notification<T, E>)
        ensures
            final(self)@ == deliver(old(self)@, t, n),
    {
        match t {
            Target::Observer(o) => self.record(o, n),
            Target::Source(k) => self.pass(Downstream::Stage(k), n),
            Target::Notifier(p) => {
                let k = p.subscription;
                if self.link_is_open(k) {
                    let d = self.links[k].downstream;
                    match n {
                        Notification::Next(_) => {
                            self.pass(d, Notification::Complete);
                            self.close_link(k);
                        },
                        Notification::Error(e) => {
                            self.pass(d, Notification::Error(e));
                            self.close_link(k);
                        },
                        Notification::Complete => self.close_link(k),
                    }
                }
            },
        }
    }

    fn target_live(&self, t: Target) -> (r: bool)
        ensures
            r == target_live(self@, t),
    {
        match t {
            Target::Observer(_) => true,
            Target::Source(k) => self.link_is_open(k),
            Target::Notifier(p) => self.link_is_open(p.subscription),
        }
    }

    /// Sends `n` into subject `s`.
    pub fn emit(&mut self, s: usize, n: Notification<T, E>)
        ensures
            final(self)@ == emit(old(self)@, s, n),
    {
        if s >= self.subjects.len() || self.subjects[s].terminal.is_some() {
            return;
        }
        let ghost h0 = self@;
        match n {
            Notification::Next(v) => {
                let st = self.subjects[s];
                if st.cache.is_some() {
                    self.subjects.set(s, SubjectState { cache: Some(v), ..st });
                }
            },
            _ => {},
        }
        let ghost h1 = self@;
        let snap = copy_slots(&self.slots);
        let mut i: usize = 0;
        while i < snap.len()
            invariant
                i <= snap.len(),
                snap@ == h0.slots,
                s < h0.subjects.len(),
                self@ == broadcast(h1, s, snap@.take(i as int), n),
                self@.subjects == h1.subjects,
            decreases snap.len() - i,
        {
            let sl = snap[i];
            proof {
                assert(snap@.take(i + 1).drop_last() =~= snap@.take(i as int));
            }
            if sl.subject == s {
                proof {
                    lemma_deliver_frame(self@, sl.target, n);
                }
                self.deliver(sl.target, n);
            }
            i += 1;
        }
        proof {
            assert(snap@.take(snap.len() as int) =~= snap@);
        }
        let term = match n {
            Notification::Next(_) => None,
            Notification::Error(e) => Some(Terminal::Failed(e)),
            Notification::Complete => Some(Terminal::Completed),
        };
        match term {
            Some(term) => {
                let st = self.subjects[s];
                self.subjects.set(s, SubjectState { terminal: Some(term), ..st });
                self.slots = slots_without_subject(&self.slots, s);
            },
            None => {},
        }
    }

    /// Attaches target `t` to subject `s`; the handle names the new slot.
    pub fn subscribe(&mut self, s: usize, t: Target) -> (sub: SlotSubscription)
        requires
            old(self)@.next_slot < u64::MAX,
        ensures
            sub == (SlotSubscription { subject: s, id: old(self)@.next_slot as u64 }),
            final(self)@ == subscribe(old(self)@, s, t),
    {
        let id = self.next_slot;
        self.next_slot = self.next_slot + 1;
        let sub = SlotSubscription { subject: s, id };
        if s >= self.subjects.len() {
            return sub;
        }
        let st = self.subjects[s];
        match st.terminal {
            Some(term) => {
                let msg = match term {
                    Terminal::Completed => Notification::Complete,
                    Terminal::Failed(e) => Notification::Error(e),
                };
                self.deliver(t, msg);
            },
            None => {
                match st.cache {
                    Some(v) => self.deliver(t, Notification::Next(v)),
                    None => {},
                }
                if self.target_live(t) {
                    self.slots.push(Slot { subject: s, id, target: t });
                }
            },
        }
        sub
    }

    /// Detaches the slot of `sub`; other slots stay.
    pub fn unsubscribe(&mut self, sub: SlotSubscription)
        ensures
            final(self)@ == unsubscribe(old(self)@, sub),
            subscription_closed(final(self)@, sub),
    {
        self.slots = slots_without_id(&self.slots, sub.id);
        proof {
            reveal(Seq::filter);
            let f = self.slots@;
            assert forall|i: int| 0 <= i < f.len() implies f[i].id != sub.id by {
                old(self).slots@.lemma_filter_pred(other_id(sub.id), i);
            }
        }
    }

    /// Whether the slot of `sub` is detached.
    pub fn is_closed(&self, sub: SlotSubscription) -> (r: bool)
        ensures
            r == subscription_closed(self@, sub),
    {
        let mut i: usize = 0;
        while i < self.slots.len()
            invariant
                i <= self.slots.len(),
                forall|j: int| 0 <= j < i ==> self.slots@[j].id != sub.id,
            decreases self.slots.len() - i,
        {
            if self.slots[i].id == sub.id {
                return false;
            }
            i += 1;
        }
        true
    }
}

} // verus!
