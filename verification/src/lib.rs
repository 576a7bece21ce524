//! Hikaru: the editing, launching and voice-scheduling logic of a
//! clip-launcher / piano-roll audio workstation, with its contracts.

pub mod audio_event;
pub mod clip_editor;
pub mod dsp_rack;
pub mod dms;
pub mod engine;
pub mod footer;
pub mod matrix;
pub mod midi;
pub mod open_dms;
pub mod piano_roll;
pub mod plugins;
pub mod text;
pub mod transport;
