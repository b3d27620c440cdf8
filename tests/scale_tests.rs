use midi_seq::chord::get;
use midi_seq::scale::Scale;
use midi_seq::scales::{AnyScale, BluesMinor, HarmonicMinor, MelodicMinor, NaturalMinor, PentatonicMinor};

#[test]
fn natural_minor_notes() {
    let s = NaturalMinor::new(60);
    assert_eq!(s.notes(), vec![60, 62, 63, 65, 67, 68, 70]);
    assert_eq!(s.label(), "Natural Minor");
}

#[test]
fn other_scales_notes() {
    assert_eq!(HarmonicMinor::new(60).notes(), vec![60, 62, 63, 65, 67, 68, 71]);
    assert_eq!(MelodicMinor::new(60).notes(), vec![60, 62, 63, 65, 67, 69, 71]);
    assert_eq!(PentatonicMinor::new(60).notes(), vec![60, 63, 65, 67, 70]);
    assert_eq!(BluesMinor::new(60).notes(), vec![60, 63, 65, 68, 70]);
    assert_eq!(HarmonicMinor::new(60).label(), "Harmonic Minor");
    assert_eq!(MelodicMinor::new(60).label(), "Melodic Minor");
    assert_eq!(PentatonicMinor::new(60).label(), "Pentatonic Minor");
    assert_eq!(BluesMinor::new(60).label(), "Blues Minor");
}

#[test]
fn scale_wraparound_natural_minor() {
    let s = NaturalMinor::new(60);
    assert_eq!(s.note(7), s.note(0) + 12);
    assert_eq!(s.note(-1), s.note(6) - 12);
    assert_eq!(s.note(7), 72);
    assert_eq!(s.note(-1), 58);
}

#[test]
fn note_wraps_several_octaves() {
    let s = NaturalMinor::new(60);
    assert_eq!(s.note(0), 60);
    assert_eq!(s.note(3), 65);
    assert_eq!(s.note(16), 60 + 24 + 3);
    assert_eq!(s.note(-7), 48);
    assert_eq!(s.note(-8), 46);
    assert_eq!(s.note(-14), 36);
    let p = PentatonicMinor::new(60);
    assert_eq!(p.note(5), 72);
    assert_eq!(p.note(-1), 58);
    assert_eq!(p.note(-6), 46);
}

#[test]
fn root_moves_are_seen_at_once() {
    let mut s = NaturalMinor::new(60);
    s.increase_root(12);
    assert_eq!(s.note(0), 72);
    assert_eq!(s.notes()[1], 74);
    s.decrease_root(24);
    assert_eq!(s.notes(), vec![48, 50, 51, 53, 55, 56, 58]);
    let mut any = AnyScale::Blues(BluesMinor::new(50));
    any.increase_root(2);
    assert_eq!(any.root(), 52);
    assert_eq!(any.notes(), vec![52, 55, 57, 60, 62]);
    assert_eq!(any.label(), "Blues Minor");
}

#[test]
fn chord_stacking_natural_minor() {
    let s = NaturalMinor::new(60);
    assert_eq!(get(&s, 60), vec![60, 63, 67]);
}

#[test]
fn chord_on_other_degrees() {
    let s = NaturalMinor::new(60);
    assert_eq!(get(&s, 62), vec![62, 65, 68]);
    assert_eq!(get(&s, 70), vec![70, 74, 77]);
    let h = HarmonicMinor::new(60);
    assert_eq!(get(&h, 67), vec![67, 71, 74]);
}

#[test]
fn chord_fallback_for_pitch_outside_scale() {
    let s = NaturalMinor::new(60);
    assert_eq!(get(&s, 61), vec![61, 64, 68]);
    assert_eq!(get(&s, 72), vec![72, 75, 79]);
}
