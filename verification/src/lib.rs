//! A bidirectional audio streaming service: PCM audio in, observations out.
//!
//! The modules hold the service's rules as functions and state machines that do no I/O. Whoever
//! runs the service performs what they ask for and tells them what came of it.
pub mod api_types;
pub mod audio;
pub mod audio_laws;
pub mod client;
pub mod context;
pub mod inference;
pub mod inference_laws;
pub mod metrics;
pub mod metrics_laws;
pub mod model;
pub mod operation_laws;
pub mod pcm;
pub mod report;
pub mod segmented;
pub mod segmented_laws;
pub mod session;
pub mod task;
pub mod text;

pub use crate::context::{Config, StreamingContext};
pub use crate::inference::AudioChannel;
pub use crate::model::MODEL_SAMPLE_RATE;
