use midi_seq::bus::SubscriberRegistry;
use midi_seq::events::{midi_bytes, Event, Key, NoteMessage};
use midi_seq::metronome::Metronome;

fn drain(r: &crossbeam_channel::Receiver<Event>) -> Vec<Event> {
    let mut out = Vec::new();
    while let Ok(e) = r.try_recv() {
        out.push(e);
    }
    out
}

#[test]
fn fan_out_reaches_every_subscriber_in_order() {
    let mut reg = SubscriberRegistry::new();
    let a = reg.register();
    let b = reg.register();
    let c = reg.register();
    assert_eq!(reg.len(), 3);
    assert!(reg.dispatch(Event::KeyDown(Key::A)));
    assert!(reg.dispatch(Event::Tick));
    assert!(reg.dispatch(Event::KeyUp(Key::A)));
    let expected = vec![Event::KeyDown(Key::A), Event::Tick, Event::KeyUp(Key::A)];
    assert_eq!(drain(&a), expected);
    assert_eq!(drain(&b), expected);
    assert_eq!(drain(&c), expected);
}

#[test]
fn fan_out_with_no_subscribers() {
    let mut reg = SubscriberRegistry::new();
    assert_eq!(reg.len(), 0);
    assert!(reg.dispatch(Event::Tick));
    assert!(!reg.dispatch(Event::Quit));
}

#[test]
fn late_subscriber_sees_only_later_events() {
    let mut reg = SubscriberRegistry::new();
    let early = reg.register();
    reg.dispatch(Event::KeyDown(Key::Q));
    let late = reg.register();
    reg.dispatch(Event::KeyDown(Key::W));
    reg.dispatch(Event::Pause);
    assert_eq!(drain(&early), vec![Event::KeyDown(Key::Q), Event::KeyDown(Key::W), Event::Pause]);
    assert_eq!(drain(&late), vec![Event::KeyDown(Key::W), Event::Pause]);
}

#[test]
fn quit_is_forwarded_then_ends_fan_out() {
    let mut reg = SubscriberRegistry::new();
    let a = reg.register();
    let b = reg.register();
    assert!(reg.dispatch(Event::Tick));
    assert!(!reg.dispatch(Event::Quit));
    assert!(reg.is_stopped());
    assert!(!reg.dispatch(Event::Tick));
    assert_eq!(drain(&a), vec![Event::Tick, Event::Quit]);
    assert_eq!(drain(&b), vec![Event::Tick, Event::Quit]);
}

#[test]
fn dead_subscriber_does_not_stop_others() {
    let mut reg = SubscriberRegistry::new();
    let a = reg.register();
    let gone = reg.register();
    let c = reg.register();
    drop(gone);
    assert!(reg.dispatch(Event::Pause));
    assert_eq!(drain(&a), vec![Event::Pause]);
    assert_eq!(drain(&c), vec![Event::Pause]);
}

#[test]
fn metronome_ticks_until_quit() {
    let mut m = Metronome::new();
    let a = m.new_receive();
    let b = m.new_receive();
    m.on_tick();
    m.on_tick();
    assert!(m.on_control(Event::Pause));
    m.on_tick();
    assert!(!m.on_control(Event::Quit));
    m.on_tick();
    assert_eq!(drain(&a), vec![Event::Tick, Event::Tick, Event::Tick]);
    assert_eq!(drain(&b), vec![Event::Tick, Event::Tick, Event::Tick]);
}

#[test]
fn midi_bytes_of_notes() {
    let on = Event::Note { message: NoteMessage::On, note: 60, velocity: 64 };
    let off = Event::Note { message: NoteMessage::Off, note: 61, velocity: 10 };
    assert_eq!(midi_bytes(&on), Some(vec![0x90, 60, 64]));
    assert_eq!(midi_bytes(&off), Some(vec![0x80, 61, 10]));
    assert_eq!(midi_bytes(&Event::Tick), None);
    assert_eq!(NoteMessage::On.status(), 0x90);
    assert_eq!(NoteMessage::Off.status(), 0x80);
}

#[test]
fn key_labels_and_quit() {
    assert_eq!(Key::Space.label(), "Space");
    assert_eq!(Key::Num3.label(), "Num3");
    assert_eq!(Key::Unknown.label(), "Unknown");
    assert!(Event::Quit.is_quit());
    assert!(!Event::Nothing.is_quit());
}
