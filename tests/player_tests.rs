use midi_seq::events::{Event, NoteMessage};
use midi_seq::player::{note_events, PlayerNote, PlayerState, Sequencer};
use midi_seq::scales::{AnyScale, NaturalMinor};

fn on(p: u32) -> PlayerNote {
    PlayerNote { note: p, message: NoteMessage::On }
}

fn off(p: u32) -> PlayerNote {
    PlayerNote { note: p, message: NoteMessage::Off }
}

fn drain(r: &crossbeam_channel::Receiver<Event>) -> Vec<Event> {
    let mut out = Vec::new();
    while let Ok(e) = r.try_recv() {
        out.push(e);
    }
    out
}

#[test]
fn sequencer_duty_cycle() {
    let mut state = PlayerState::new(vec![60, 64]);
    let expected = vec![
        vec![on(60)],
        vec![],
        vec![],
        vec![off(60)],
        vec![on(64)],
        vec![],
        vec![],
        vec![off(64)],
    ];
    for slot in expected.iter() {
        assert_eq!(&state.next(), slot);
    }
    for slot in expected.iter() {
        assert_eq!(&state.next(), slot);
    }
}

#[test]
fn pause_twice_restores_state() {
    let mut state = PlayerState::new(vec![60, 64]);
    state.next();
    state.next();
    assert!(state.playing());
    state.toggle_playing();
    assert!(!state.playing());
    state.toggle_playing();
    assert!(state.playing());
    assert_eq!(state.next(), vec![]);
    assert_eq!(state.next(), vec![off(60)]);
}

#[test]
fn sequencer_plays_on_ticks_and_pauses() {
    let (tx, rx) = crossbeam_channel::unbounded();
    let scale = AnyScale::Natural(NaturalMinor::new(60));
    let mut seq = Sequencer::new(vec![60, 64], false, scale, tx);
    assert!(seq.handle(Event::Tick));
    let first = drain(&rx);
    assert_eq!(first.len(), 1);
    match first[0] {
        Event::Note { message, note, velocity } => {
            assert_eq!(message, NoteMessage::On);
            assert_eq!(note, 60);
            assert!(10 <= velocity && velocity < 100);
        }
        _ => panic!("expected a note"),
    }
    assert!(seq.handle(Event::Pause));
    assert!(seq.handle(Event::Tick));
    assert!(seq.handle(Event::Tick));
    assert!(drain(&rx).is_empty());
    assert!(seq.handle(Event::Pause));
    assert!(seq.handle(Event::Tick));
    assert!(seq.handle(Event::Tick));
    assert!(drain(&rx).is_empty());
    assert!(seq.handle(Event::Tick));
    let offs = drain(&rx);
    assert_eq!(offs.len(), 1);
    match offs[0] {
        Event::Note { message, note, .. } => {
            assert_eq!(message, NoteMessage::Off);
            assert_eq!(note, 60);
        }
        _ => panic!("expected a note"),
    }
    assert!(!seq.handle(Event::Quit));
    assert!(!seq.handle(Event::Tick));
    assert!(drain(&rx).is_empty());
}

#[test]
fn sequencer_chord_mode_plays_triads() {
    let (tx, rx) = crossbeam_channel::unbounded();
    let scale = AnyScale::Natural(NaturalMinor::new(60));
    let mut seq = Sequencer::new(vec![60], true, scale, tx);
    assert!(seq.handle(Event::Tick));
    let notes: Vec<(NoteMessage, u8)> = drain(&rx)
        .into_iter()
        .map(|e| match e {
            Event::Note { message, note, .. } => (message, note),
            _ => panic!("expected a note"),
        })
        .collect();
    assert_eq!(notes, vec![(NoteMessage::On, 60), (NoteMessage::On, 63), (NoteMessage::On, 67)]);
}

#[test]
fn note_events_use_given_velocities() {
    let events = note_events(&vec![on(60), off(300)], &vec![11, 99]);
    assert_eq!(
        events,
        vec![
            Event::Note { message: NoteMessage::On, note: 60, velocity: 11 },
            Event::Note { message: NoteMessage::Off, note: 44, velocity: 99 },
        ]
    );
}
