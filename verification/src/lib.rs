//! Core pipeline of a hold-to-talk dictation engine.
//!
//! The crate holds the verified logic of the pipeline: fixed-point sample
//! conversion, the energy-based voice-activity detector, the segmenter with
//! its pre-roll ring, the transcription post-filter, the settings record with
//! its shortcut table, and the focus-aware injection planner.  Device capture,
//! resampling, model inference and the OS input calls live outside, around
//! this crate; they hand plain values in and take plain values back.

pub mod injector;
pub mod resample;
pub mod sample;
pub mod segmenter;
pub mod settings;
pub mod shortcuts;
pub mod staging;
pub mod textproc;
pub mod transcript;
pub mod vad;
