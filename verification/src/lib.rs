//! Triggered recording of calls. Two lines are captured, the microphone
//! and the loopback of the speaker; their chunks travel through bounded
//! queues to a mixer, and the mixed stream is encoded while a trigger
//! holds or until a manual recording falls silent.
//!
//! Samples are fixed-point integers throughout (see `sample`), and time
//! is a count of milliseconds that the caller reads from its clock.

pub mod channel_mixer;
pub mod codec;
pub mod config;
pub mod dual_recorder;
pub mod encode_sink;
pub mod encoder;
pub mod frame_queue;
pub mod level_meter;
pub mod mic_detector;
pub mod mp3_encoder;
pub mod process_monitor;
pub mod recorder;
pub mod sample;
pub mod smart_recorder;
pub mod supervisor;
pub mod text;
pub mod trigger_monitor;
