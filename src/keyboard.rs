use vstd::prelude::*;
use crate::app_state::{AppState, PlayMode};
use crate::bus::send_event;
use crate::chord::{chord_fits, chord_of, get, lemma_chord_bounds};
use crate::events::{key_name, Event, Key, NoteMessage};
use crate::note_names::{note_name, note_name_spec};
use crate::scale::{lemma_pitch_bounds, pitch_at, Scale};
use crate::scales::{AnyScale, HarmonicMinor, MelodicMinor, NaturalMinor};
use crossbeam_channel::Sender;

verus! {

/// Velocity of notes played from the keyboard.
pub const KEY_VELOCITY: u8 = 10;

/// The scale position a key plays: the home row from the root, the row
/// above from the fifth degree on; other keys fall back to the root.
pub open spec fn key_degree(k: Key) -> int {
    match k {
        Key::W => 4,
        Key::E => 5,
        Key::R => 6,
        Key::T => 7,
        Key::Y => 8,
        Key::U => 9,
        Key::I => 10,
        Key::O => 11,
        Key::A => 0,
        Key::S => 1,
        Key::D => 2,
        Key::F => 3,
        Key::G => 4,
        Key::H => 5,
        Key::J => 6,
        Key::K => 7,
        Key::L => 8,
        _ => 0,
    }
}

/// Keys that play notes.
pub open spec fn is_note_key(k: Key) -> bool {
    matches!(k, Key::W | Key::E | Key::R | Key::T | Key::Y | Key::U | Key::I | Key::O | Key::A | Key::S | Key::D | Key::F | Key::G | Key::H | Key::J | Key::K | Key::L)
}

/// Roots that leave room for every pitch the keyboard can reach.
pub open spec fn root_fits(root: int) -> bool {
    0 <= root && root + 1000 <= u32::MAX
}

/// The pitch a key plays in `scale`.
pub open spec fn key_pitch(scale: AnyScale, k: Key) -> int {
    pitch_at(scale.root_pitch(), scale.intervals(), key_degree(k))
}

/// The pitches a key plays: its own, or the chord on it in chord mode.
pub open spec fn key_notes(scale: AnyScale, mode: PlayMode, k: Key) -> Seq<int> {
    if mode == PlayMode::Chord {
        chord_of(scale.root_pitch(), scale.intervals(), key_pitch(scale, k))
    } else {
        seq![key_pitch(scale, k)]
    }
}

/// The bus event for one keyboard note; the pitch goes out as its low byte.
pub open spec fn key_event(p: int, message: NoteMessage) -> Event {
    Event::Note { message, note: (p % 256) as u8, velocity: KEY_VELOCITY }
}

/// The events a key sends for `message`.
pub open spec fn key_events(scale: AnyScale, mode: PlayMode, k: Key, message: NoteMessage) -> Seq<
    Event,
> {
    key_notes(scale, mode, k).map_values(|p: int| key_event(p, message))
}

/// The events that silence every key in `keys`, in order.
pub open spec fn release_events(scale: AnyScale, mode: PlayMode, keys: Seq<Key>) -> Seq<Event>
    decreases keys.len(),
{
    if keys.len() == 0 {
        Seq::empty()
    } else {
        release_events(scale, mode, keys.drop_last()) + key_events(
            scale,
            mode,
            keys.last(),
            NoteMessage::Off,
        )
    }
}

/// Every key of the keyboard can be stacked into a chord without leaving
/// `u32` when the root fits.
pub proof fn lemma_key_chord_fits(scale: AnyScale, k: Key)
    requires
        root_fits(scale.root_pitch()),
    ensures
        chord_fits(scale.root_pitch(), scale.intervals(), key_pitch(scale, k)),
        0 <= key_pitch(scale, k) <= u32::MAX,
        forall|j: int|
            0 <= j < 3 ==> 0 <= #[trigger] chord_of(scale.root_pitch(), scale.intervals(), key_pitch(scale, k))[j]
                <= u32::MAX,
{
    let root = scale.root_pitch();
    let offs = scale.intervals();
    scale.lemma_scale_wf();
    lemma_pitch_bounds(root, offs, key_degree(k));
    lemma_chord_bounds(root, offs, key_pitch(scale, k));
}

/// The scale position `key` plays.
pub fn key_index(key: Key) -> (r: i32)
    ensures
        r == key_degree(key),
{
    match key {
        Key::W => 4,
        Key::E => 5,
        Key::R => 6,
        Key::T => 7,
        Key::Y => 8,
        Key::U => 9,
        Key::I => 10,
        Key::O => 11,
        Key::A => 0,
        Key::S => 1,
        Key::D => 2,
        Key::F => 3,
        Key::G => 4,
        Key::H => 5,
        Key::J => 6,
        Key::K => 7,
        Key::L => 8,
        _ => 0,
    }
}

/// Whether `handle_event` can take `e` with the scale rooted at `root`:
/// moving the root down must not pass 0, moving it up must leave room for
/// the keyboard's pitches.
pub open spec fn key_event_ok(root: int, e: Event) -> bool {
    &&& root_fits(root)
    &&& match e {
        Event::KeyDown(Key::Z) => root >= 12,
        Event::KeyDown(Key::X) => root_fits(root + 12),
        Event::KeyDown(Key::C) => root >= 1,
        Event::KeyDown(Key::V) => root_fits(root + 2),
        _ => true,
    }
}

/// The same scale pattern with the root moved to `root`.
pub open spec fn rerooted(a: AnyScale, b: AnyScale, root: int) -> bool {
    &&& b.root_pitch() == root
    &&& b.intervals() == a.intervals()
    &&& b.label_text() == a.label_text()
}

/// Everything but the scale stays; the held keys gain `k`.
pub open spec fn pressed_after(a: &AppState, b: &AppState, k: Key) -> bool {
    &&& b.wf()
    &&& b.pressed().to_set() == a.pressed().to_set().insert(k)
    &&& b.screen_width == a.screen_width
    &&& b.screen_height == a.screen_height
}

/// What a key going down does to the application state and to the bus.
pub open spec fn key_down_post(
    a: &AppState,
    b: &AppState,
    sent_a: Seq<Event>,
    sent_b: Seq<Event>,
    k: Key,
) -> bool {
    let released = sent_a + release_events(a.scale, a.play_mode, a.pressed());
    match k {
        Key::Num1 => sent_b == released && b.scale == AnyScale::Natural(NaturalMinor { root: 60 })
            && b.play_mode == a.play_mode && pressed_after(a, b, k),
        Key::Num2 => sent_b == released && b.scale == AnyScale::Harmonic(HarmonicMinor { root: 60 })
            && b.play_mode == a.play_mode && pressed_after(a, b, k),
        Key::Num3 => sent_b == released && b.scale == AnyScale::Melodic(MelodicMinor { root: 60 })
            && b.play_mode == a.play_mode && pressed_after(a, b, k),
        Key::Z => sent_b == released && rerooted(a.scale, b.scale, a.scale.root_pitch() - 12)
            && b.play_mode == a.play_mode && pressed_after(a, b, k),
        Key::X => sent_b == released && rerooted(a.scale, b.scale, a.scale.root_pitch() + 12)
            && b.play_mode == a.play_mode && pressed_after(a, b, k),
        Key::Space => sent_b == released && b.scale == a.scale && b.play_mode == (
        if a.play_mode == PlayMode::Single {
            PlayMode::Chord
        } else {
            PlayMode::Single
        }) && b.pressed() == a.pressed() && b.screen_width == a.screen_width
            && b.screen_height == a.screen_height,
        Key::C => sent_b == released && rerooted(a.scale, b.scale, a.scale.root_pitch() - 1)
            && b.play_mode == a.play_mode && b.pressed() == a.pressed() && b.screen_width
            == a.screen_width && b.screen_height == a.screen_height,
        Key::V => sent_b == released && rerooted(a.scale, b.scale, a.scale.root_pitch() + 2)
            && b.play_mode == a.play_mode && b.pressed() == a.pressed() && b.screen_width
            == a.screen_width && b.screen_height == a.screen_height,
        _ => {
            &&& is_note_key(k) ==> sent_b == sent_a + key_events(a.scale, a.play_mode, k, NoteMessage::On)
            &&& !is_note_key(k) ==> sent_b == sent_a
            &&& b.scale == a.scale
            &&& b.play_mode == a.play_mode
            &&& pressed_after(a, b, k)
        },
    }
}

/// What a key going up does: note keys stop their notes; every key leaves
/// the held keys.
pub open spec fn key_up_post(
    a: &AppState,
    b: &AppState,
    sent_a: Seq<Event>,
    sent_b: Seq<Event>,
    k: Key,
) -> bool {
    &&& is_note_key(k) ==> sent_b == sent_a + key_events(a.scale, a.play_mode, k, NoteMessage::Off)
    &&& !is_note_key(k) ==> sent_b == sent_a
    &&& b.scale == a.scale
    &&& b.play_mode == a.play_mode
    &&& b.wf()
    &&& b.pressed().to_set() == a.pressed().to_set().remove(k)
    &&& b.screen_width == a.screen_width
    &&& b.screen_height == a.screen_height
}

/// Whether `handle_event` can take `event` in this state.
pub fn key_event_allowed(app_state: &AppState, event: Event) -> (r: bool)
    ensures
        r == key_event_ok(app_state.scale.root_pitch(), event),
{
    let root = app_state.scale.root();
    if root > u32::MAX - 1000 {
        return false;
    }
    match event {
        Event::KeyDown(Key::Z) => root >= 12,
        Event::KeyDown(Key::X) => root <= u32::MAX - 1012,
        Event::KeyDown(Key::C) => root >= 1,
        Event::KeyDown(Key::V) => root <= u32::MAX - 1002,
        _ => true,
    }
}

/// Turns key presses into notes on the bus, in the scale and play mode of
/// the application state.
pub struct KeyboardToMidi {
    emitter: Sender<Event>,
    sent: Ghost<Seq<Event>>,
}

impl KeyboardToMidi {
    /// Every event handed to the bus so far.
    pub closed spec fn sent(&self) -> Seq<Event> {
        self.sent@
    }

    pub fn new(emitter: Sender<Event>) -> (r: KeyboardToMidi)
        ensures
            r.sent() == Seq::<Event>::empty(),
    {
        KeyboardToMidi { emitter, sent: Ghost(Seq::empty()) }
    }

    /// The pitch `key` plays.
    pub fn keycode_to_midi(&self, app_state: &AppState, key: Key) -> (r: u32)
        requires
            root_fits(app_state.scale.root_pitch()),
        ensures
            r == key_pitch(app_state.scale, key),
    {
        let index = key_index(key);
        proof {
            lemma_key_chord_fits(app_state.scale, key);
            app_state.scale.lemma_scale_wf();
        }
        app_state.scale.note(index)
    }

    /// The pitches `key` plays.
    pub fn get_notes(&self, app_state: &AppState, key: Key) -> (r: Vec<u32>)
        requires
            root_fits(app_state.scale.root_pitch()),
        ensures
            r@.len() == key_notes(app_state.scale, app_state.play_mode, key).len(),
            forall|j: int|
                0 <= j < r@.len() ==> r@[j] == key_notes(app_state.scale, app_state.play_mode, key)[j],
    {
        let note = self.keycode_to_midi(app_state, key);
        proof {
            lemma_key_chord_fits(app_state.scale, key);
        }
        if app_state.play_chord() {
            get(&app_state.scale, note)
        } else {
            vec![note]
        }
    }

    /// Sends `message` for every pitch `key` plays.
    fn send_key(&mut self, app_state: &AppState, key: Key, message: NoteMessage)
        requires
            root_fits(app_state.scale.root_pitch()),
        ensures
            final(self).sent() == old(self).sent() + key_events(
                app_state.scale,
                app_state.play_mode,
                key,
                message,
            ),
    {
        let notes = self.get_notes(app_state, key);
        let ghost expected = key_events(app_state.scale, app_state.play_mode, key, message);
        let ghost start = self.sent@;
        let mut i: usize = 0;
        while i < notes.len()
            invariant
                i <= notes@.len(),
                notes@.len() == expected.len(),
                forall|j: int| 0 <= j < notes@.len() ==> expected[j] == key_event(notes@[j] as int, message),
                self.sent@ == start + expected.subrange(0, i as int),
            decreases notes@.len() - i,
        {
            let pitch = (notes[i] % 256) as u8;
            let event = Event::Note { message, note: pitch, velocity: KEY_VELOCITY };
            let _ = send_event(&self.emitter, event);
            self.sent = Ghost(self.sent@.push(event));
            i = i + 1;
            assert(self.sent@ =~= start + expected.subrange(0, i as int));
        }
        assert(expected.subrange(0, expected.len() as int) =~= expected);
    }

    /// The label shown on `key`: the name of the note it plays, or the
    /// key's own name when it plays none on the piano's range.
    pub fn key_to_note(&self, app_state: &AppState, key: Key) -> (r: String)
        requires
            root_fits(app_state.scale.root_pitch()),
        ensures
            ({
                let name = note_name_spec(key_pitch(app_state.scale, key));
                &&& is_note_key(key) && name.is_some() ==> r@ == name.unwrap()
                &&& !(is_note_key(key) && name.is_some()) ==> r@ == key_name(key)
            }),
    {
        let label = key.label();
        match key {
            Key::W | Key::E | Key::R | Key::T | Key::Y | Key::U | Key::I | Key::O | Key::A | Key::S | Key::D | Key::F | Key::G | Key::H | Key::J | Key::K | Key::L => {
                let midi_note = self.keycode_to_midi(app_state, key);
                match note_name(midi_note) {
                    Some(name) => name,
                    None => label,
                }
            },
            _ => label,
        }
    }

    /// Starts the notes of `key`.
    pub fn handle_key_on(&mut self, app_state: &AppState, key: Key)
        requires
            root_fits(app_state.scale.root_pitch()),
        ensures
            final(self).sent() == old(self).sent() + key_events(
                app_state.scale,
                app_state.play_mode,
                key,
                NoteMessage::On,
            ),
    {
        self.send_key(app_state, key, NoteMessage::On);
    }

    /// Stops the notes of `key`.
    pub fn handle_key_off(&mut self, app_state: &AppState, key: Key)
        requires
            root_fits(app_state.scale.root_pitch()),
        ensures
            final(self).sent() == old(self).sent() + key_events(
                app_state.scale,
                app_state.play_mode,
                key,
                NoteMessage::Off,
            ),
    {
        self.send_key(app_state, key, NoteMessage::Off);
    }

    /// Stops the notes of every key held down.
    pub fn reset(&mut self, app_state: &AppState)
        requires
            root_fits(app_state.scale.root_pitch()),
        ensures
            final(self).sent() == old(self).sent() + release_events(
                app_state.scale,
                app_state.play_mode,
                app_state.pressed(),
            ),
    {
        let keys = app_state.pressed_keys();
        let ghost start = self.sent@;
        let mut i: usize = 0;
        while i < keys.len()
            invariant
                i <= keys@.len(),
                keys@ == app_state.pressed(),
                root_fits(app_state.scale.root_pitch()),
                self.sent@ == start + release_events(
                    app_state.scale,
                    app_state.play_mode,
                    keys@.subrange(0, i as int),
                ),
            decreases keys@.len() - i,
        {
            let ghost before = keys@.subrange(0, i as int);
            let ghost after = keys@.subrange(0, i + 1);
            assert(after.drop_last() =~= before);
            self.send_key(app_state, keys[i], NoteMessage::Off);
            i = i + 1;
            assert(self.sent@ =~= start + release_events(
                app_state.scale,
                app_state.play_mode,
                keys@.subrange(0, i as int),
            ));
        }
        assert(keys@.subrange(0, keys@.len() as int) =~= keys@);
    }
    /// Takes one event from the bus: keys change the scale, the root or the
    /// play mode, or play notes; `Quit` ends the keyboard player. Returns
    /// whether it goes on.
    pub fn handle_event(&mut self, app_state: &mut AppState, event: Event) -> (go_on: bool)
        requires
            old(app_state).wf(),
            key_event_ok(old(app_state).scale.root_pitch(), event),
        ensures
            go_on == (event != Event::Quit),
            match event {
                Event::KeyDown(k) => key_down_post(
                    old(app_state),
                    final(app_state),
                    old(self).sent(),
                    final(self).sent(),
                    k,
                ),
                Event::KeyUp(k) => key_up_post(
                    old(app_state),
                    final(app_state),
                    old(self).sent(),
                    final(self).sent(),
                    k,
                ),
                _ => *final(app_state) == *old(app_state) && final(self).sent() == old(self).sent(),
            },
    {
        match event {
            Event::Quit => false,
            Event::KeyDown(key) => {
                match key {
                    Key::Num1 => {
                        self.reset(app_state);
                        app_state.set_scale(AnyScale::Natural(NaturalMinor::new(60)));
                        app_state.press_key(key);
                    },
                    Key::Num2 => {
                        self.reset(app_state);
                        app_state.set_scale(AnyScale::Harmonic(HarmonicMinor::new(60)));
                        app_state.press_key(key);
                    },
                    Key::Num3 => {
                        self.reset(app_state);
                        app_state.set_scale(AnyScale::Melodic(MelodicMinor::new(60)));
                        app_state.press_key(key);
                    },
                    Key::Z => {
                        self.reset(app_state);
                        app_state.scale.decrease_root(12);
                        app_state.press_key(key);
                    },
                    Key::X => {
                        self.reset(app_state);
                        app_state.scale.increase_root(12);
                        app_state.press_key(key);
                    },
                    Key::Space => {
                        self.reset(app_state);
                        app_state.toggle_play_mode();
                    },
                    Key::C => {
                        self.reset(app_state);
                        app_state.scale.decrease_root(1);
                    },
                    Key::V => {
                        self.reset(app_state);
                        app_state.scale.increase_root(2);
                    },
                    Key::W | Key::E | Key::R | Key::T | Key::Y | Key::U | Key::I | Key::O | Key::A | Key::S | Key::D | Key::F | Key::G | Key::H | Key::J | Key::K | Key::L => {
                        self.handle_key_on(app_state, key);
                        app_state.press_key(key);
                    },
                    _ => {
                        app_state.press_key(key);
                    },
                }
                true
            },
            Event::KeyUp(key) => {
                match key {
                    Key::W | Key::E | Key::R | Key::T | Key::Y | Key::U | Key::I | Key::O | Key::A | Key::S | Key::D | Key::F | Key::G | Key::H | Key::J | Key::K | Key::L => {
                        self.handle_key_off(app_state, key);
                        app_state.release_key(key);
                    },
                    _ => {
                        app_state.release_key(key);
                    },
                }
                true
            },
            _ => true,
        }
    }
}

} // verus!
