use midi_seq::app_state::{AppState, PlayMode};
use midi_seq::events::{Event, Key, NoteMessage};
use midi_seq::input_state::InputState;
use midi_seq::keyboard::{key_event_allowed, key_index, KeyboardToMidi};
use midi_seq::note_names::note_name;
use midi_seq::scale::Scale;
use midi_seq::scales::{AnyScale, HarmonicMinor, NaturalMinor};

fn drain(r: &crossbeam_channel::Receiver<Event>) -> Vec<Event> {
    let mut out = Vec::new();
    while let Ok(e) = r.try_recv() {
        out.push(e);
    }
    out
}

fn note(message: NoteMessage, note: u8) -> Event {
    Event::Note { message, note, velocity: 10 }
}

fn setup() -> (AppState, KeyboardToMidi, crossbeam_channel::Receiver<Event>) {
    let (tx, rx) = crossbeam_channel::unbounded();
    let app = AppState::new(AnyScale::Natural(NaturalMinor::new(60)));
    (app, KeyboardToMidi::new(tx), rx)
}

#[test]
fn app_state_defaults_and_mode() {
    let mut app = AppState::new(AnyScale::Natural(NaturalMinor::new(60)));
    assert_eq!(app.screen_width, 800);
    assert_eq!(app.screen_height, 600);
    assert!(!app.play_chord());
    assert_eq!(app.play_mode_label(), "Single Note");
    app.toggle_play_mode();
    assert!(app.play_chord());
    assert_eq!(app.play_mode, PlayMode::Chord);
    assert_eq!(app.play_mode_label(), "Chord");
    app.set_scale(AnyScale::Harmonic(HarmonicMinor::new(48)));
    assert_eq!(app.scale.root(), 48);
}

#[test]
fn pressed_keys_are_a_set() {
    let mut app = AppState::new(AnyScale::Natural(NaturalMinor::new(60)));
    app.press_key(Key::A);
    app.press_key(Key::S);
    app.press_key(Key::A);
    assert_eq!(app.pressed_keys(), vec![Key::A, Key::S]);
    assert!(app.is_pressed(Key::S));
    app.release_key(Key::A);
    assert_eq!(app.pressed_keys(), vec![Key::S]);
    app.release_key(Key::D);
    assert_eq!(app.pressed_keys(), vec![Key::S]);
}

#[test]
fn keys_map_to_scale_degrees() {
    assert_eq!(key_index(Key::A), 0);
    assert_eq!(key_index(Key::L), 8);
    assert_eq!(key_index(Key::W), 4);
    assert_eq!(key_index(Key::O), 11);
    assert_eq!(key_index(Key::Q), 0);
    let (app, kb, _rx) = setup();
    assert_eq!(kb.keycode_to_midi(&app, Key::A), 60);
    assert_eq!(kb.keycode_to_midi(&app, Key::D), 63);
    assert_eq!(kb.keycode_to_midi(&app, Key::L), 74);
    assert_eq!(kb.keycode_to_midi(&app, Key::O), 79);
    assert_eq!(kb.get_notes(&app, Key::A), vec![60]);
}

#[test]
fn key_down_and_up_play_notes() {
    let (mut app, mut kb, rx) = setup();
    assert!(kb.handle_event(&mut app, Event::KeyDown(Key::S)));
    assert_eq!(drain(&rx), vec![note(NoteMessage::On, 62)]);
    assert!(app.is_pressed(Key::S));
    assert!(kb.handle_event(&mut app, Event::KeyUp(Key::S)));
    assert_eq!(drain(&rx), vec![note(NoteMessage::Off, 62)]);
    assert!(!app.is_pressed(Key::S));
}

#[test]
fn space_releases_held_notes_and_switches_to_chords() {
    let (mut app, mut kb, rx) = setup();
    kb.handle_event(&mut app, Event::KeyDown(Key::A));
    drain(&rx);
    assert!(kb.handle_event(&mut app, Event::KeyDown(Key::Space)));
    assert_eq!(drain(&rx), vec![note(NoteMessage::Off, 60)]);
    assert!(app.play_chord());
    kb.handle_event(&mut app, Event::KeyDown(Key::F));
    assert_eq!(
        drain(&rx),
        vec![note(NoteMessage::On, 65), note(NoteMessage::On, 68), note(NoteMessage::On, 72)]
    );
}

#[test]
fn number_keys_choose_scales_and_letters_move_root() {
    let (mut app, mut kb, rx) = setup();
    kb.handle_event(&mut app, Event::KeyDown(Key::Num2));
    assert_eq!(app.scale.label(), "Harmonic Minor");
    assert_eq!(app.scale.root(), 60);
    kb.handle_event(&mut app, Event::KeyDown(Key::Z));
    assert_eq!(app.scale.root(), 48);
    kb.handle_event(&mut app, Event::KeyDown(Key::X));
    kb.handle_event(&mut app, Event::KeyDown(Key::X));
    assert_eq!(app.scale.root(), 72);
    kb.handle_event(&mut app, Event::KeyDown(Key::C));
    assert_eq!(app.scale.root(), 71);
    kb.handle_event(&mut app, Event::KeyDown(Key::V));
    assert_eq!(app.scale.root(), 73);
    kb.handle_event(&mut app, Event::KeyDown(Key::Num3));
    assert_eq!(app.scale.label(), "Melodic Minor");
    kb.handle_event(&mut app, Event::KeyDown(Key::Num1));
    assert_eq!(app.scale.label(), "Natural Minor");
    let sent = drain(&rx);
    assert!(!sent.is_empty());
    assert!(sent.iter().all(|e| matches!(e, Event::Note { message: NoteMessage::Off, .. })));
    assert!(!kb.handle_event(&mut app, Event::Quit));
}

#[test]
fn root_moves_are_checked() {
    let mut app = AppState::new(AnyScale::Natural(NaturalMinor::new(5)));
    assert!(!key_event_allowed(&app, Event::KeyDown(Key::Z)));
    assert!(key_event_allowed(&app, Event::KeyDown(Key::C)));
    assert!(key_event_allowed(&app, Event::KeyDown(Key::X)));
    app.set_scale(AnyScale::Natural(NaturalMinor::new(0)));
    assert!(!key_event_allowed(&app, Event::KeyDown(Key::C)));
    assert!(key_event_allowed(&app, Event::Tick));
}

#[test]
fn key_labels_show_note_names() {
    let (app, kb, _rx) = setup();
    assert_eq!(kb.key_to_note(&app, Key::A), "C");
    assert_eq!(kb.key_to_note(&app, Key::S), "D");
    assert_eq!(kb.key_to_note(&app, Key::D), "D#");
    assert_eq!(kb.key_to_note(&app, Key::Q), "Q");
    assert_eq!(note_name(21), Some("A".to_string()));
    assert_eq!(note_name(107), Some("B".to_string()));
    assert_eq!(note_name(108), None);
    assert_eq!(note_name(20), None);
}

#[test]
fn input_state_modes_and_home_row() {
    let mut s = InputState::new();
    assert!(s.is_play_mode());
    s.edit_mode();
    assert!(!s.is_play_mode());
    s.play_mode();
    assert!(s.is_play_mode());
    assert_eq!(s.transform_key('a'), 0);
    assert_eq!(s.transform_key('g'), 4);
    assert_eq!(s.transform_key(';'), 9);
    assert_eq!(s.transform_key('z'), 0);
}
