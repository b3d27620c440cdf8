use vstd::prelude::*;
use crate::bus::send_event;
use crate::chord::{chord_fits, chord_of, get};
use crate::events::{Event, NoteMessage};
use crate::scale::Scale;
use crate::scales::AnyScale;
use crossbeam_channel::Sender;
use rand::Rng;

verus! {

/// One scheduled note change.
#[derive(Debug, Clone, Copy, PartialEq, Eq, Structural)]
pub struct PlayerNote {
    pub note: u32,
    pub message: NoteMessage,
}

/// The slot at index `k` of the schedule for `pitches`: every pitch takes
/// four slots, `[On]`, `[]`, `[]`, `[Off]`.
pub open spec fn schedule_slot(pitches: Seq<u32>, k: int) -> Seq<PlayerNote> {
    let p = pitches[k / 4];
    if k % 4 == 0 {
        seq![PlayerNote { note: p, message: NoteMessage::On }]
    } else if k % 4 == 3 {
        seq![PlayerNote { note: p, message: NoteMessage::Off }]
    } else {
        Seq::empty()
    }
}

/// The whole schedule for `pitches`, one slot per clock tick.
pub open spec fn schedule_of(pitches: Seq<u32>) -> Seq<Seq<PlayerNote>> {
    Seq::new((4 * pitches.len()) as nat, |k: int| schedule_slot(pitches, k))
}

/// The playback state: the schedule, the slot that sounds next, and whether
/// playback runs.
pub struct PlayerView {
    pub slots: Seq<Seq<PlayerNote>>,
    pub current: int,
    pub running: bool,
}

/// The cursor after one played slot: one further, back to 0 after the last.
pub open spec fn advanced(v: PlayerView) -> PlayerView {
    PlayerView {
        slots: v.slots,
        current: if v.current + 1 == v.slots.len() { 0 } else { v.current + 1 },
        running: v.running,
    }
}

/// The same state with playback toggled.
pub open spec fn toggled(v: PlayerView) -> PlayerView {
    PlayerView { slots: v.slots, current: v.current, running: !v.running }
}

/// A schedule of slots, with a cursor on the one that sounds next.
pub struct PlayerState {
    current: usize,
    notes: Vec<Vec<PlayerNote>>,
    running: bool,
}

impl View for PlayerState {
    type V = PlayerView;

    closed spec fn view(&self) -> PlayerView {
        PlayerView {
            slots: self.notes@.map_values(|slot: Vec<PlayerNote>| slot@),
            current: self.current as int,
            running: self.running,
        }
    }
}

/// The cursor stands on a slot, or at 0 on an empty schedule.
pub open spec fn player_wf(v: PlayerView) -> bool {
    ||| 0 <= v.current < v.slots.len()
    ||| v.current == 0 && v.slots.len() == 0
}

impl PlayerState {
    /// Builds the schedule for `my_notes`; playback runs from slot 0.
    pub fn new(my_notes: Vec<u32>) -> (r: PlayerState)
        requires
            4 * my_notes@.len() <= usize::MAX,
        ensures
            r@.slots == schedule_of(my_notes@),
            r@.current == 0,
            r@.running,
    {
        let mut notes: Vec<Vec<PlayerNote>> = Vec::new();
        let mut i: usize = 0;
        while i < my_notes.len()
            invariant
                i <= my_notes@.len(),
                4 * my_notes@.len() <= usize::MAX,
                notes@.len() == 4 * i,
                forall|k: int|
                    0 <= k < 4 * i ==> (#[trigger] notes@[k])@ == schedule_slot(my_notes@, k),
            decreases my_notes@.len() - i,
        {
            let note = my_notes[i];
            let ghost before = notes@;
            notes.push(vec![PlayerNote { note, message: NoteMessage::On }]);
            notes.push(Vec::new());
            notes.push(Vec::new());
            notes.push(vec![PlayerNote { note, message: NoteMessage::Off }]);
            proof {
                let b = 4 * i as int;
                assert forall|k: int| 0 <= k < b + 4 implies (#[trigger] notes@[k])@
                    == schedule_slot(my_notes@, k) by {
                    if k < b {
                        assert(notes@[k] == before[k]);
                    } else {
                        vstd::arithmetic::div_mod::lemma_fundamental_div_mod_converse(
                            k,
                            4,
                            i as int,
                            k - b,
                        );
                        if k == b + 0 {
                        } else if k == b + 3 {
                        } else {
                            assert(notes@[k]@ =~= Seq::<PlayerNote>::empty());
                        }
                    }
                }
            }
            i = i + 1;
        }
        let r = PlayerState { current: 0, notes, running: true };
        assert(r@.slots =~= schedule_of(my_notes@));
        r
    }

    /// Hands out the current slot and moves the cursor on, wrapping after
    /// the last slot.
    pub fn next(&mut self) -> (r: Vec<PlayerNote>)
        requires
            player_wf(old(self)@),
            old(self)@.slots.len() > 0,
        ensures
            r@ == old(self)@.slots[old(self)@.current],
            final(self)@ == advanced(old(self)@),
            player_wf(final(self)@),
    {
        let slot = &self.notes[self.current];
        let mut note: Vec<PlayerNote> = Vec::new();
        let mut j: usize = 0;
        while j < slot.len()
            invariant
                j <= slot@.len(),
                note@ == slot@.subrange(0, j as int),
            decreases slot@.len() - j,
        {
            note.push(slot[j]);
            j = j + 1;
            assert(note@ =~= slot@.subrange(0, j as int));
        }
        assert(note@ =~= slot@);
        if self.current == self.notes.len() - 1 {
            self.current = 0;
        } else {
            self.current = self.current + 1;
        }
        note
    }

    pub fn playing(&self) -> (r: bool)
        ensures
            r == self@.running,
    {
        self.running
    }

    pub fn toggle_playing(&mut self)
        ensures
            final(self)@ == toggled(old(self)@),
    {
        self.running = !self.running;
    }
}

/// The state after one event: a tick plays the current slot and moves on
/// while playback runs, `Pause` toggles playback, anything else changes
/// nothing.
pub open spec fn player_step(v: PlayerView, e: Event) -> PlayerView {
    match e {
        Event::Tick => if v.running && v.slots.len() > 0 {
            advanced(v)
        } else {
            v
        },
        Event::Pause => toggled(v),
        _ => v,
    }
}

/// The state after a run of events.
pub open spec fn player_run(v: PlayerView, es: Seq<Event>) -> PlayerView
    decreases es.len(),
{
    if es.len() == 0 {
        v
    } else {
        player_run(player_step(v, es[0]), es.drop_first())
    }
}

/// Pause toggled twice, with any number of ticks between the two toggles,
/// gives back the state from before the first toggle: the ticks do not move
/// the cursor while playback is paused.
pub proof fn lemma_pause_twice(v: PlayerView, ticks: nat)
    requires
        v.running,
    ensures
        player_run(
            v,
            seq![Event::Pause] + Seq::new(ticks, |i: int| Event::Tick) + seq![Event::Pause],
        ) == v,
{
    let es = seq![Event::Pause] + Seq::new(ticks, |i: int| Event::Tick) + seq![Event::Pause];
    let paused = toggled(v);
    assert(es.drop_first() =~= Seq::new(ticks, |i: int| Event::Tick) + seq![Event::Pause]);
    lemma_paused_ticks(paused, ticks);
    assert(player_step(v, es[0]) == paused);
    assert(toggled(paused) == v);
}

/// While paused, ticks leave the state as it is, up to the next `Pause`,
/// which resumes playback.
proof fn lemma_paused_ticks(v: PlayerView, ticks: nat)
    requires
        !v.running,
    ensures
        player_run(v, Seq::new(ticks, |i: int| Event::Tick) + seq![Event::Pause]) == toggled(v),
    decreases ticks,
{
    let es = Seq::new(ticks, |i: int| Event::Tick) + seq![Event::Pause];
    if ticks == 0 {
        assert(es =~= seq![Event::Pause]);
        assert(es.drop_first() =~= Seq::<Event>::empty());
        assert(player_run(toggled(v), es.drop_first()) == toggled(v));
    } else {
        assert(es[0] == Event::Tick);
        assert(es.drop_first() =~= Seq::new((ticks - 1) as nat, |i: int| Event::Tick) + seq![
            Event::Pause,
        ]);
        lemma_paused_ticks(v, (ticks - 1) as nat);
        assert(player_step(v, es[0]) == v);
    }
}

/// The notes one scheduled note stands for: itself, or in chord mode the
/// chord stacked on its pitch, each with the same direction.
pub open spec fn expand_note(scale: AnyScale, chord_mode: bool, n: PlayerNote) -> Seq<PlayerNote> {
    if chord_mode {
        chord_of(scale.root_pitch(), scale.intervals(), n.note as int).map_values(
            |p: int| PlayerNote { note: p as u32, message: n.message },
        )
    } else {
        seq![n]
    }
}

/// The notes a slot stands for, in slot order.
pub open spec fn expand_slot(scale: AnyScale, chord_mode: bool, slot: Seq<PlayerNote>) -> Seq<
    PlayerNote,
>
    decreases slot.len(),
{
    if slot.len() == 0 {
        Seq::empty()
    } else {
        expand_slot(scale, chord_mode, slot.drop_last()) + expand_note(
            scale,
            chord_mode,
            slot.last(),
        )
    }
}

/// Whether every scheduled note can be stacked into a chord.
pub open spec fn slots_fit(scale: AnyScale, slots: Seq<Seq<PlayerNote>>) -> bool {
    forall|k: int, j: int|
        0 <= k < slots.len() && 0 <= j < slots[k].len() ==> chord_fits(
            scale.root_pitch(),
            scale.intervals(),
            slots[k][j].note as int,
        )
}

/// The bus event that plays `n` at `velocity`; the pitch goes out as its
/// low byte.
pub open spec fn note_event(n: PlayerNote, velocity: u8) -> Event {
    Event::Note { message: n.message, note: (n.note % 256) as u8, velocity }
}

/// Velocities the sequencer plays at.
pub open spec fn velocity_ok(velocity: u8) -> bool {
    10 <= velocity < 100
}

/// `e` plays `n` at some allowed velocity.
pub open spec fn plays_note(e: Event, n: PlayerNote) -> bool {
    exists|v: u8| velocity_ok(v) && e == #[trigger] note_event(n, v)
}

/// `events` play `notes` one by one.
pub open spec fn plays(events: Seq<Event>, notes: Seq<PlayerNote>) -> bool {
    &&& events.len() == notes.len()
    &&& forall|j: int| 0 <= j < notes.len() ==> plays_note(#[trigger] events[j], notes[j])
}

/// Relies on rand::Rng::gen_range on the thread's generator: a value in
/// `[low, high)`, which must not be empty.
#[verifier::external_body]
fn random_in(low: u8, high: u8) -> (r: u8)
    requires
        low < high,
    ensures
        low <= r < high,
{
    rand::thread_rng().gen_range(low, high)
}

/// The events that play `notes` at the given velocities.
pub fn note_events(notes: &Vec<PlayerNote>, velocities: &Vec<u8>) -> (r: Vec<Event>)
    requires
        notes@.len() == velocities@.len(),
    ensures
        r@.len() == notes@.len(),
        forall|j: int| 0 <= j < notes@.len() ==> r@[j] == note_event(notes@[j], velocities@[j]),
{
    let mut r: Vec<Event> = Vec::new();
    let mut j: usize = 0;
    while j < notes.len()
        invariant
            notes@.len() == velocities@.len(),
            j <= notes@.len(),
            r@.len() == j,
            forall|k: int| 0 <= k < j ==> r@[k] == note_event(notes@[k], velocities@[k]),
        decreases notes@.len() - j,
    {
        let n = notes[j];
        let pitch = (n.note % 256) as u8;
        r.push(Event::Note { message: n.message, note: pitch, velocity: velocities[j] });
        j = j + 1;
    }
    r
}

/// Expands a slot through the chord engine when chord mode is on.
pub fn expand(scale: &AnyScale, chord_mode: bool, slot: &Vec<PlayerNote>) -> (r: Vec<PlayerNote>)
    requires
        chord_mode ==> forall|j: int|
            0 <= j < slot@.len() ==> chord_fits(
                scale.root_pitch(),
                scale.intervals(),
                slot@[j].note as int,
            ),
        slot@.len() <= 1000,
    ensures
        r@ == expand_slot(*scale, chord_mode, slot@),
{
    let mut r: Vec<PlayerNote> = Vec::new();
    let mut j: usize = 0;
    while j < slot.len()
        invariant
            j <= slot@.len(),
            slot@.len() <= 1000,
            r@.len() <= 3 * j,
            r@ == expand_slot(*scale, chord_mode, slot@.subrange(0, j as int)),
            chord_mode ==> forall|i: int|
                0 <= i < slot@.len() ==> chord_fits(
                    scale.root_pitch(),
                    scale.intervals(),
                    slot@[i].note as int,
                ),
        decreases slot@.len() - j,
    {
        let n = slot[j];
        let ghost prefix = slot@.subrange(0, j as int);
        let ghost next = slot@.subrange(0, j + 1);
        assert(next.drop_last() =~= prefix);
        assert(next.last() == n);
        if chord_mode {
            let pitches = get(scale, n.note);
            let mut k: usize = 0;
            let ghost start = r@;
            while k < 3
                invariant
                    k <= 3,
                    pitches@.len() == 3,
                    r@ == start + expand_note(*scale, chord_mode, n).subrange(0, k as int),
                    chord_mode,
                    forall|i: int|
                        0 <= i < 3 ==> pitches@[i] == chord_of(
                            scale.root_pitch(),
                            scale.intervals(),
                            n.note as int,
                        )[i],
                decreases 3 - k,
            {
                r.push(PlayerNote { note: pitches[k], message: n.message });
                k = k + 1;
                assert(r@ =~= start + expand_note(*scale, chord_mode, n).subrange(0, k as int));
            }
            assert(expand_note(*scale, chord_mode, n).subrange(0, 3) =~= expand_note(
                *scale,
                chord_mode,
                n,
            ));
        } else {
            r.push(n);
            assert(r@ =~= expand_slot(*scale, chord_mode, prefix) + seq![n]);
        }
        j = j + 1;
    }
    assert(slot@.subrange(0, slot@.len() as int) =~= slot@);
    r
}

/// Draws one velocity per note and plays the notes at them.
pub fn play_notes(notes: &Vec<PlayerNote>) -> (r: Vec<Event>)
    ensures
        plays(r@, notes@),
{
    let mut velocities: Vec<u8> = Vec::new();
    let mut j: usize = 0;
    while j < notes.len()
        invariant
            j <= notes@.len(),
            velocities@.len() == j,
            forall|k: int| 0 <= k < j ==> velocity_ok(velocities@[k]),
        decreases notes@.len() - j,
    {
        velocities.push(random_in(10, 100));
        j = j + 1;
    }
    let r = note_events(notes, &velocities);
    assert forall|k: int| 0 <= k < notes@.len() implies plays_note(#[trigger] r@[k], notes@[k]) by {
        assert(velocity_ok(velocities@[k]) && r@[k] == note_event(notes@[k], velocities@[k]));
    }
    r
}

/// The playback state of a sequencer and whether `Quit` has ended it.
pub struct RunState {
    pub player: PlayerView,
    pub finished: bool,
}

/// A sequencer's reaction to one event: once ended it takes nothing more;
/// `Quit` ends it and leaves playback as it was; other events step playback.
pub open spec fn sequencer_step(s: RunState, e: Event) -> RunState {
    if s.finished {
        s
    } else if e == Event::Quit {
        RunState { player: s.player, finished: true }
    } else {
        RunState { player: player_step(s.player, e), finished: false }
    }
}

/// A sequencer's state after a run of events.
pub open spec fn sequencer_run(s: RunState, es: Seq<Event>) -> RunState
    decreases es.len(),
{
    if es.len() == 0 {
        s
    } else {
        sequencer_run(sequencer_step(s, es[0]), es.drop_first())
    }
}

/// Quit cascade, on the sequencer's side: once it has taken `Quit` it has
/// ended, and no later event moves its playback.
pub proof fn lemma_sequencer_quit(s: RunState, rest: Seq<Event>)
    requires
        !s.finished,
    ensures
        sequencer_run(sequencer_step(s, Event::Quit), rest) == (RunState {
            player: s.player,
            finished: true,
        }),
{
    lemma_ended_stays(sequencer_step(s, Event::Quit), rest);
}

/// An ended sequencer stays as it is.
proof fn lemma_ended_stays(s: RunState, es: Seq<Event>)
    requires
        s.finished,
    ensures
        sequencer_run(s, es) == s,
    decreases es.len(),
{
    if es.len() > 0 {
        lemma_ended_stays(s, es.drop_first());
    }
}

/// What a sequencer has done so far: its playback state, whether `Quit`
/// has ended it, and every event it has handed to the bus.
pub struct SequencerView {
    pub player: PlayerView,
    pub finished: bool,
    pub sent: Seq<Event>,
}

/// The sequencer: the schedule, the scale its chords come from, and the
/// bus it plays onto.
pub struct Sequencer {
    state: PlayerState,
    chord_mode: bool,
    scale: AnyScale,
    emitter: Sender<Event>,
    sent: Ghost<Seq<Event>>,
    finished: bool,
}

impl View for Sequencer {
    type V = SequencerView;

    closed spec fn view(&self) -> SequencerView {
        SequencerView { player: self.state@, finished: self.finished, sent: self.sent@ }
    }
}

impl Sequencer {
    pub closed spec fn scale_spec(&self) -> AnyScale {
        self.scale
    }

    pub closed spec fn chord_mode_spec(&self) -> bool {
        self.chord_mode
    }

    pub closed spec fn wf(&self) -> bool {
        &&& player_wf(self.state@)
        &&& forall|k: int| 0 <= k < self.state@.slots.len() ==> self.state@.slots[k].len() <= 1
        &&& self.chord_mode ==> slots_fit(self.scale, self.state@.slots)
    }

    /// A sequencer for `notes`, running from the first slot.
    pub fn new(notes: Vec<u32>, chord_mode: bool, scale: AnyScale, emitter: Sender<Event>) -> (r:
        Sequencer)
        requires
            4 * notes@.len() <= usize::MAX,
            chord_mode ==> forall|i: int|
                0 <= i < notes@.len() ==> chord_fits(
                    scale.root_pitch(),
                    scale.intervals(),
                    notes@[i] as int,
                ),
        ensures
            r.wf(),
            r@.player == (PlayerView { slots: schedule_of(notes@), current: 0, running: true }),
            !r@.finished,
            r@.sent == Seq::<Event>::empty(),
            r.scale_spec() == scale,
            r.chord_mode_spec() == chord_mode,
    {
        let ghost pitches = notes@;
        let state = PlayerState::new(notes);
        proof {
            assert forall|k: int| 0 <= k < state@.slots.len() implies state@.slots[k].len() <= 1 by {
                assert(state@.slots[k] == schedule_slot(pitches, k));
            }
            if chord_mode {
                assert forall|k: int, j: int|
                    0 <= k < state@.slots.len() && 0 <= j < state@.slots[k].len() implies chord_fits(
                    scale.root_pitch(),
                    scale.intervals(),
                    state@.slots[k][j].note as int,
                ) by {
                    assert(state@.slots[k] == schedule_slot(pitches, k));
                    vstd::arithmetic::div_mod::lemma_fundamental_div_mod(k, 4);
                    vstd::arithmetic::div_mod::lemma_mod_bound(k, 4);
                    assert(0 <= k / 4 < pitches.len());
                }
            }
        }
        Sequencer { state, chord_mode, scale, emitter, sent: Ghost(Seq::empty()), finished: false }
    }

    /// Handles one event from the clock or the control channel and returns
    /// whether the sequencer goes on. A tick while playback runs plays the
    /// current slot, expanded into chords in chord mode, at fresh velocities,
    /// and moves the cursor on; `Pause` toggles playback; `Quit` ends the
    /// sequencer without playing anything.
    pub fn handle(&mut self, event: Event) -> (go_on: bool)
        requires
            old(self).wf(),
        ensures
            final(self).wf(),
            final(self).scale_spec() == old(self).scale_spec(),
            final(self).chord_mode_spec() == old(self).chord_mode_spec(),
            (RunState { player: final(self)@.player, finished: final(self)@.finished })
                == sequencer_step(
                RunState { player: old(self)@.player, finished: old(self)@.finished },
                event,
            ),
            old(self)@.finished ==> final(self)@ == old(self)@,
            !old(self)@.finished ==> final(self)@.player == player_step(old(self)@.player, event),
            final(self)@.finished == (old(self)@.finished || event == Event::Quit),
            go_on == !final(self)@.finished,
            ({
                let v = old(self)@.player;
                let played = !old(self)@.finished && event == Event::Tick && v.running
                    && v.slots.len() > 0;
                &&& !played ==> final(self)@.sent == old(self)@.sent
                &&& played ==> {
                    let notes = expand_slot(
                        old(self).scale_spec(),
                        old(self).chord_mode_spec(),
                        v.slots[v.current],
                    );
                    &&& final(self)@.sent.len() == old(self)@.sent.len() + notes.len()
                    &&& final(self)@.sent.subrange(0, old(self)@.sent.len() as int)
                        == old(self)@.sent
                    &&& plays(
                        final(self)@.sent.subrange(
                            old(self)@.sent.len() as int,
                            final(self)@.sent.len() as int,
                        ),
                        notes,
                    )
                }
            }),
    {
        if self.finished {
            return false;
        }
        match event {
            Event::Tick => {
                if self.state.running && self.state.notes.len() > 0 {
                    let ghost v = self.state@;
                    let slot = self.state.next();
                    proof {
                        assert(slot@.len() <= 1);
                        if self.chord_mode {
                            assert forall|j: int| 0 <= j < slot@.len() implies chord_fits(
                                self.scale.root_pitch(),
                                self.scale.intervals(),
                                slot@[j].note as int,
                            ) by {
                                assert(slot@[j] == v.slots[v.current][j]);
                            }
                        }
                    }
                    let notes = expand(&self.scale, self.chord_mode, &slot);
                    let events = play_notes(&notes);
                    let ghost start = self.sent@;
                    let mut i: usize = 0;
                    while i < events.len()
                        invariant
                            i <= events@.len(),
                        decreases events@.len() - i,
                    {
                        let _ = send_event(&self.emitter, events[i]);
                        i = i + 1;
                    }
                    self.sent = Ghost(start + events@);
                    assert(self.sent@.subrange(0, start.len() as int) =~= start);
                    assert(self.sent@.subrange(start.len() as int, self.sent@.len() as int)
                        =~= events@);
                }
                true
            },
            Event::Pause => {
                self.state.toggle_playing();
                true
            },
            Event::Quit => {
                self.finished = true;
                false
            },
            _ => true,
        }
    }
}

} // verus!
