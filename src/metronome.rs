use vstd::prelude::*;
use crate::bus::{bus_init, dispatched, registered, BusView, SubscriberRegistry};
use crate::events::Event;
use crossbeam_channel::Receiver;

verus! {

/// What a metronome has done: the ticks handed to its subscribers, and
/// whether it still runs.
pub struct MetronomeView {
    pub ticks: BusView,
    pub running: bool,
}

/// A clock that fans a `Tick` out to its own subscribers each period, until
/// its control channel brings `Quit`.
pub struct Metronome {
    subscribers: SubscriberRegistry,
    running: bool,
}

impl View for Metronome {
    type V = MetronomeView;

    closed spec fn view(&self) -> MetronomeView {
        MetronomeView { ticks: self.subscribers@, running: self.running }
    }
}

impl Metronome {
    pub closed spec fn wf(&self) -> bool {
        self.subscribers.wf() && !self.subscribers@.stopped
    }

    pub fn new() -> (r: Metronome)
        ensures
            r.wf(),
            r@ == (MetronomeView { ticks: bus_init(), running: true }),
    {
        Metronome { subscribers: SubscriberRegistry::new(), running: true }
    }

    /// Adds a subscriber to the ticks.
    pub fn new_receive(&mut self) -> (r: Receiver<Event>)
        requires
            old(self).wf(),
        ensures
            final(self).wf(),
            final(self)@ == (MetronomeView {
                ticks: registered(old(self)@.ticks),
                running: old(self)@.running,
            }),
    {
        self.subscribers.register()
    }

    /// One period has passed: every subscriber gets a `Tick` while the
    /// metronome runs.
    pub fn on_tick(&mut self)
        requires
            old(self).wf(),
        ensures
            final(self).wf(),
            final(self)@.running == old(self)@.running,
            old(self)@.running ==> final(self)@.ticks == dispatched(old(self)@.ticks, Event::Tick),
            !old(self)@.running ==> final(self)@.ticks == old(self)@.ticks,
    {
        if self.running {
            let _ = self.subscribers.dispatch(Event::Tick);
        }
    }

    /// An event from the control channel; `Quit` stops the metronome.
    /// Returns whether it still runs.
    pub fn on_control(&mut self, event: Event) -> (running: bool)
        requires
            old(self).wf(),
        ensures
            final(self).wf(),
            final(self)@.ticks == old(self)@.ticks,
            final(self)@.running == (old(self)@.running && event != Event::Quit),
            running == final(self)@.running,
    {
        if event.is_quit() {
            self.running = false;
        }
        self.running
    }
}

} // verus!
