use vstd::prelude::*;

verus! {

/// Whether a note starts or stops sounding.
#[derive(Debug, Clone, Copy, PartialEq, Eq, Structural)]
pub enum NoteMessage {
    On,
    Off,
}

impl NoteMessage {
    /// The MIDI status byte on channel 0.
    pub open spec fn status_spec(self) -> u8 {
        match self {
            NoteMessage::On => 0x90,
            NoteMessage::Off => 0x80,
        }
    }

    pub fn status(&self) -> (r: u8)
        ensures
            r == self.status_spec(),
    {
        match self {
            NoteMessage::On => 0x90,
            NoteMessage::Off => 0x80,
        }
    }
}

/// A key of the computer keyboard, by identity only.
#[derive(Debug, Clone, Copy, PartialEq, Eq, Structural, Hash)]
pub enum Key {
    Space,
    Num0,
    Num1,
    Num2,
    Num3,
    Num4,
    Num5,
    Num6,
    Num7,
    Num8,
    Num9,
    Unknown,
    Q,
    W,
    E,
    R,
    T,
    Y,
    U,
    I,
    O,
    P,
    A,
    S,
    D,
    F,
    G,
    H,
    J,
    K,
    L,
    Z,
    X,
    C,
    V,
    B,
    N,
    M,
}

/// The name a key is shown by.
pub open spec fn key_name(k: Key) -> Seq<char> {
    match k {
        Key::Space => "Space"@,
        Key::Num0 => "Num0"@,
        Key::Num1 => "Num1"@,
        Key::Num2 => "Num2"@,
        Key::Num3 => "Num3"@,
        Key::Num4 => "Num4"@,
        Key::Num5 => "Num5"@,
        Key::Num6 => "Num6"@,
        Key::Num7 => "Num7"@,
        Key::Num8 => "Num8"@,
        Key::Num9 => "Num9"@,
        Key::Unknown => "Unknown"@,
        Key::Q => "Q"@,
        Key::W => "W"@,
        Key::E => "E"@,
        Key::R => "R"@,
        Key::T => "T"@,
        Key::Y => "Y"@,
        Key::U => "U"@,
        Key::I => "I"@,
        Key::O => "O"@,
        Key::P => "P"@,
        Key::A => "A"@,
        Key::S => "S"@,
        Key::D => "D"@,
        Key::F => "F"@,
        Key::G => "G"@,
        Key::H => "H"@,
        Key::J => "J"@,
        Key::K => "K"@,
        Key::L => "L"@,
        Key::Z => "Z"@,
        Key::X => "X"@,
        Key::C => "C"@,
        Key::V => "V"@,
        Key::B => "B"@,
        Key::N => "N"@,
        Key::M => "M"@,
    }
}

impl Key {
    /// The key's name, as text.
    pub fn label(&self) -> (r: String)
        ensures
            r@ == key_name(*self),
    {
        match self {
            Key::Space => "Space".to_owned(),
            Key::Num0 => "Num0".to_owned(),
            Key::Num1 => "Num1".to_owned(),
            Key::Num2 => "Num2".to_owned(),
            Key::Num3 => "Num3".to_owned(),
            Key::Num4 => "Num4".to_owned(),
            Key::Num5 => "Num5".to_owned(),
            Key::Num6 => "Num6".to_owned(),
            Key::Num7 => "Num7".to_owned(),
            Key::Num8 => "Num8".to_owned(),
            Key::Num9 => "Num9".to_owned(),
            Key::Unknown => "Unknown".to_owned(),
            Key::Q => "Q".to_owned(),
            Key::W => "W".to_owned(),
            Key::E => "E".to_owned(),
            Key::R => "R".to_owned(),
            Key::T => "T".to_owned(),
            Key::Y => "Y".to_owned(),
            Key::U => "U".to_owned(),
            Key::I => "I".to_owned(),
            Key::O => "O".to_owned(),
            Key::P => "P".to_owned(),
            Key::A => "A".to_owned(),
            Key::S => "S".to_owned(),
            Key::D => "D".to_owned(),
            Key::F => "F".to_owned(),
            Key::G => "G".to_owned(),
            Key::H => "H".to_owned(),
            Key::J => "J".to_owned(),
            Key::K => "K".to_owned(),
            Key::L => "L".to_owned(),
            Key::Z => "Z".to_owned(),
            Key::X => "X".to_owned(),
            Key::C => "C".to_owned(),
            Key::V => "V".to_owned(),
            Key::B => "B".to_owned(),
            Key::N => "N".to_owned(),
            Key::M => "M".to_owned(),
        }
    }
}

/// A note message with its pitch and velocity.
#[derive(Debug, Clone, Copy, PartialEq, Eq, Structural)]
pub struct Note {
    pub message: NoteMessage,
    pub note: u8,
    pub velocity: u8,
}

/// Everything that travels over an event bus.
#[derive(Debug, Clone, Copy, PartialEq, Eq, Structural)]
pub enum Event {
    Nothing,
    Note { message: NoteMessage, note: u8, velocity: u8 },
    KeyDown(Key),
    KeyUp(Key),
    Tick,
    Pause,
    Quit,
    CursorUp,
    CursorDown,
    CursorLeft,
    CursorRight,
}

impl Event {
    pub fn is_quit(&self) -> (r: bool)
        ensures
            r == (*self == Event::Quit),
    {
        match self {
            Event::Quit => true,
            _ => false,
        }
    }
}

/// The three bytes sent to a MIDI port for an event, if it is a note.
pub open spec fn midi_bytes_spec(e: Event) -> Option<Seq<u8>> {
    match e {
        Event::Note { message, note, velocity } => Some(seq![message.status_spec(), note, velocity]),
        _ => Option::None,
    }
}

/// The MIDI message of a note event; other events have none.
pub fn midi_bytes(event: &Event) -> (r: Option<Vec<u8>>)
    ensures
        match (r, midi_bytes_spec(*event)) {
            (Some(v), Some(b)) => v@ == b,
            (Option::None, Option::None) => true,
            _ => false,
        },
{
    match event {
        Event::Note { message, note, velocity } => {
            let status = message.status();
            Some(vec![status, *note, *velocity])
        },
        _ => Option::None,
    }
}

} // verus!
