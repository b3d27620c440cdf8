use vstd::prelude::*;

verus! {

/// The names of the twelve pitch classes, from C.
pub open spec fn pitch_class_names() -> Seq<Seq<char>> {
    seq!["C"@, "C#"@, "D"@, "D#"@, "E"@, "F"@, "F#"@, "G"@, "G#"@, "A"@, "A#"@, "B"@]
}

/// The name of pitch class `c` (0 is C).
pub open spec fn pitch_class_name(c: int) -> Seq<char> {
    pitch_class_names()[c]
}

/// The name of a piano-range pitch (21 to 107), without its octave.
pub open spec fn note_name_spec(p: int) -> Option<Seq<char>> {
    if 21 <= p < 108 {
        Some(pitch_class_name(p % 12))
    } else {
        None
    }
}

fn class_name(c: u32) -> (r: String)
    requires
        c < 12,
    ensures
        r@ == pitch_class_name(c as int),
{
    match c {
        0 => "C".to_owned(),
        1 => "C#".to_owned(),
        2 => "D".to_owned(),
        3 => "D#".to_owned(),
        4 => "E".to_owned(),
        5 => "F".to_owned(),
        6 => "F#".to_owned(),
        7 => "G".to_owned(),
        8 => "G#".to_owned(),
        9 => "A".to_owned(),
        10 => "A#".to_owned(),
        _ => "B".to_owned(),
    }
}

/// The name of `pitch` when it lies on the piano's range.
pub fn note_name(pitch: u32) -> (r: Option<String>)
    ensures
        match (r, note_name_spec(pitch as int)) {
            (Some(s), Some(n)) => s@ == n,
            (None, None) => true,
            _ => false,
        },
{
    if 21 <= pitch && pitch < 108 {
        Some(class_name(pitch % 12))
    } else {
        None
    }
}

} // verus!
