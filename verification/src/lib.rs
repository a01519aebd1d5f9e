//! Controller-driven music: note and chord arithmetic, voice allocation and
//! the decisions that turn controller input into notes.

pub mod text;
pub mod chord_engine;
pub mod voice_manager;
pub mod controller;
pub mod intermediate_controller_state;
pub mod dualshock;
pub mod sound_engine;
pub mod display_engine;
pub mod instrument;
