pub mod config;
pub mod actions;
pub mod event_matching;
pub mod expressions;
pub mod focus;
pub mod keyboard_control;
pub mod macros;
pub mod match_checker;
pub mod midi;
pub mod midi_state;
pub mod monitor;
pub mod preconditions;
pub mod state;
pub mod text;
pub mod variables;
pub mod raw_config;
