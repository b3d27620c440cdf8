use vstd::prelude::*;
use crate::events::Event;
use crossbeam_channel::{Receiver, Sender};

verus! {

/// crossbeam_channel's sending half, carried through as an opaque value.
#[verifier::external_type_specification]
#[verifier::external_body]
#[verifier::reject_recursive_types(T)]
pub struct ExSender<T>(Sender<T>);

/// crossbeam_channel's receiving half, carried through as an opaque value.
#[verifier::external_type_specification]
#[verifier::external_body]
#[verifier::reject_recursive_types(T)]
pub struct ExReceiver<T>(Receiver<T>);

/// Relies on crossbeam_channel::unbounded: a fresh channel without a bound,
/// as its sending and receiving halves.
#[verifier::external_body]
pub(crate) fn open_channel() -> (Sender<Event>, Receiver<Event>) {
    crossbeam_channel::unbounded()
}

/// Relies on crossbeam_channel::Sender::send: on an unbounded channel it
/// never blocks, and it fails only when the receiving half is gone. Whether
/// it failed is reported, nothing else is known of it.
#[verifier::external_body]
pub(crate) fn send_event(to: &Sender<Event>, event: Event) -> (delivered: bool) {
    to.send(event).is_ok()
}

/// What a fan-out point has done so far: for each subscriber, in order of
/// registration, the events handed to its channel; and whether a `Quit` has
/// ended the fan-out.
pub struct BusView {
    pub logs: Seq<Seq<Event>>,
    pub stopped: bool,
}

/// A fresh fan-out point.
pub open spec fn bus_init() -> BusView {
    BusView { logs: Seq::empty(), stopped: false }
}

/// A new subscriber starts with nothing handed to it.
pub open spec fn registered(v: BusView) -> BusView {
    BusView { logs: v.logs.push(Seq::empty()), stopped: v.stopped }
}

/// One event fanned out: each current subscriber gets it once, at the end
/// of what it has; `Quit` is forwarded and then ends the fan-out, after
/// which nothing is handed out any more.
pub open spec fn dispatched(v: BusView, e: Event) -> BusView {
    if v.stopped {
        v
    } else {
        BusView {
            logs: Seq::new(v.logs.len(), |i: int| v.logs[i].push(e)),
            stopped: e == Event::Quit,
        }
    }
}

/// Several events fanned out one after another.
pub open spec fn dispatched_all(v: BusView, es: Seq<Event>) -> BusView
    decreases es.len(),
{
    if es.len() == 0 {
        v
    } else {
        dispatched_all(dispatched(v, es[0]), es.drop_first())
    }
}

/// Events with no `Quit` among them leave an open bus open.
pub open spec fn quit_free(es: Seq<Event>) -> bool {
    forall|j: int| 0 <= j < es.len() ==> es[j] != Event::Quit
}

/// No `Quit` before the last event.
pub open spec fn quit_only_last(es: Seq<Event>) -> bool {
    forall|j: int| 0 <= j < es.len() - 1 ==> es[j] != Event::Quit
}

/// Fan-out completeness: on an open bus, a run of events with no `Quit`
/// before its last one reaches every subscriber registered before the run
/// exactly once per event, in the order the events were published; the
/// bus stays open if the run holds no `Quit` at all.
pub proof fn lemma_fan_out_complete(v: BusView, es: Seq<Event>)
    requires
        !v.stopped,
        quit_only_last(es),
    ensures
        dispatched_all(v, es).logs.len() == v.logs.len(),
        forall|i: int| 0 <= i < v.logs.len() ==> dispatched_all(v, es).logs[i] == v.logs[i] + es,
        quit_free(es) ==> !dispatched_all(v, es).stopped,
    decreases es.len(),
{
    if es.len() == 0 {
        assert forall|i: int| 0 <= i < v.logs.len() implies dispatched_all(v, es).logs[i] == v.logs[i]
            + es by {
            assert(v.logs[i] + es =~= v.logs[i]);
        }
    } else {
        let w = dispatched(v, es[0]);
        let tail = es.drop_first();
        if es.len() > 1 {
            assert(!w.stopped);
            assert forall|j: int| 0 <= j < tail.len() - 1 implies tail[j] != Event::Quit by {
                assert(tail[j] == es[j + 1]);
            }
            lemma_fan_out_complete(w, tail);
            assert forall|i: int| 0 <= i < v.logs.len() implies dispatched_all(v, es).logs[i]
                == v.logs[i] + es by {
                assert(w.logs[i] == v.logs[i].push(es[0]));
                assert(v.logs[i].push(es[0]) + tail =~= v.logs[i] + es);
            }
            if quit_free(es) {
                assert forall|j: int| 0 <= j < tail.len() implies tail[j] != Event::Quit by {
                    assert(tail[j] == es[j + 1]);
                }
            }
        } else {
            assert(tail.len() == 0);
            assert(dispatched_all(w, tail) == w);
            assert forall|i: int| 0 <= i < v.logs.len() implies dispatched_all(v, es).logs[i]
                == v.logs[i] + es by {
                assert(v.logs[i].push(es[0]) =~= v.logs[i] + es);
            }
            if quit_free(es) {
                assert(es[0] != Event::Quit);
            }
        }
    }
}

/// Late subscriber isolation: a subscriber registered after some events
/// have been fanned out receives exactly the events published after its
/// registration, and none of the earlier ones.
pub proof fn lemma_late_subscriber(v: BusView, before: Seq<Event>, after: Seq<Event>)
    requires
        !v.stopped,
        quit_free(before),
        quit_only_last(after),
    ensures
        ({
            let w = registered(dispatched_all(v, before));
            &&& w.logs.len() == v.logs.len() + 1
            &&& dispatched_all(w, after).logs[v.logs.len() as int] == after
        }),
{
    lemma_fan_out_complete(v, before);
    let w = registered(dispatched_all(v, before));
    lemma_fan_out_complete(w, after);
    let k = v.logs.len() as int;
    assert(w.logs[k] == Seq::<Event>::empty());
    assert(w.logs[k] + after =~= after);
}

/// Stopped buses hand nothing out.
pub proof fn lemma_stopped_stays(v: BusView, es: Seq<Event>)
    requires
        v.stopped,
    ensures
        dispatched_all(v, es) == v,
    decreases es.len(),
{
    if es.len() > 0 {
        lemma_stopped_stays(v, es.drop_first());
    }
}

/// Quit cascade, on the bus side: `Quit` is forwarded once to every
/// subscriber, ends the fan-out, and nothing published after it is handed
/// to anyone.
pub proof fn lemma_quit_cascade(v: BusView, rest: Seq<Event>)
    requires
        !v.stopped,
    ensures
        ({
            let w = dispatched(v, Event::Quit);
            &&& w.stopped
            &&& w.logs.len() == v.logs.len()
            &&& forall|i: int| 0 <= i < v.logs.len() ==> w.logs[i] == v.logs[i].push(Event::Quit)
            &&& dispatched_all(w, rest) == w
        }),
{
    lemma_stopped_stays(dispatched(v, Event::Quit), rest);
}

/// The subscribers of a bus, and the fan-out of events to them.
pub struct SubscriberRegistry {
    subscribers: Vec<Sender<Event>>,
    delivered: Ghost<Seq<Seq<Event>>>,
    stopped: bool,
}

impl View for SubscriberRegistry {
    type V = BusView;

    closed spec fn view(&self) -> BusView {
        BusView { logs: self.delivered@, stopped: self.stopped }
    }
}

impl SubscriberRegistry {
    pub closed spec fn wf(&self) -> bool {
        self.subscribers@.len() == self.delivered@.len()
    }

    pub fn new() -> (r: SubscriberRegistry)
        ensures
            r.wf(),
            r@ == bus_init(),
    {
        SubscriberRegistry { subscribers: Vec::new(), delivered: Ghost(Seq::empty()), stopped: false }
    }

    /// Number of registered subscribers.
    pub fn len(&self) -> (r: usize)
        requires
            self.wf(),
        ensures
            r == self@.logs.len(),
    {
        self.subscribers.len()
    }

    /// Whether a `Quit` has ended the fan-out.
    pub fn is_stopped(&self) -> (r: bool)
        ensures
            r == self@.stopped,
    {
        self.stopped
    }

    /// Adds a subscriber and hands back the receiving half of its channel.
    pub fn register(&mut self) -> (r: Receiver<Event>)
        requires
            old(self).wf(),
        ensures
            final(self).wf(),
            final(self)@ == registered(old(self)@),
    {
        let (to, from) = open_channel();
        self.subscribers.push(to);
        self.delivered = Ghost(self.delivered@.push(Seq::empty()));
        from
    }

    /// Hands `event` to every subscriber, ignoring subscribers that are gone.
    /// Returns whether the fan-out goes on.
    pub fn dispatch(&mut self, event: Event) -> (running: bool)
        requires
            old(self).wf(),
        ensures
            final(self).wf(),
            final(self)@ == dispatched(old(self)@, event),
            running == !final(self)@.stopped,
    {
        if self.stopped {
            return false;
        }
        let ghost before = self.delivered@;
        let mut i: usize = 0;
        while i < self.subscribers.len()
            invariant
                self.subscribers@.len() == self.delivered@.len(),
                before.len() == self.delivered@.len(),
                i <= self.subscribers@.len(),
                !self.stopped,
                forall|k: int| 0 <= k < i ==> self.delivered@[k] == before[k].push(event),
                forall|k: int| i <= k < before.len() ==> self.delivered@[k] == before[k],
            decreases self.subscribers@.len() - i,
        {
            let _ = send_event(&self.subscribers[i], event);
            self.delivered = Ghost(self.delivered@.update(i as int, self.delivered@[i as int].push(event)));
            i = i + 1;
        }
        self.stopped = event.is_quit();
        assert(self.delivered@ =~= Seq::new(before.len(), |k: int| before[k].push(event)));
        !self.stopped
    }
}

} // verus!
