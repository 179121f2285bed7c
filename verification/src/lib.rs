//! Core of a step-sequencer drum composer: timeline data model and playback
//! state machine, per-buffer audio rendering with sample-accurate step timing,
//! a sample bank of PCM buffers, and the settings and project values around
//! them. Time is held in microseconds, tempo in thousandths of a beat per
//! minute, velocities and volumes in thousandths of full scale, and PCM data
//! as 16-bit integer samples; the hardware stream and the user interface live
//! outside this crate and exchange plain values with it.

pub mod devices;
pub mod engine;
pub mod pattern;
pub mod project;
pub mod samples;
pub mod sequencer;
pub mod settings;
pub mod shortcuts;
pub mod text;
pub mod time_signature;
pub mod timeline;
