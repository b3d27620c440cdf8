pub mod scale;
pub mod scales;
pub mod chord;
pub mod events;
pub mod bus;
pub mod player;
pub mod metronome;
pub mod app_state;
pub mod keyboard;
pub mod note_names;
pub mod input_state;
