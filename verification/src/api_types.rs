//! Messages exchanged with a client.
use vstd::prelude::*;

use crate::model::Output;

verus! {

/// Opens a stream, or replaces the one that is open.
#[derive(Debug, PartialEq, Eq)]
pub struct StartMessage {
    /// Trace ID for distributed tracing.
    pub trace_id: Option<String>,
    /// Format information for the audio samples.
    pub format: AudioFormat,
    /// Whether interim results should be provided.
    pub interim_results: bool,
}

impl StartMessage {
    /// The value that this message carries for a key of the tracing context.
    pub fn get(&self, key: &str) -> (r: Option<&str>)
        ensures
            match self.trace_id {
                Some(id) if key@ == "traceparent"@ => r matches Some(v) && v@ == id@,
                _ => r is None,
            },
    {
        if key.to_string() == "traceparent".to_string() {
            match &self.trace_id {
                Some(id) => Some(id.as_str()),
                None => None,
            }
        } else {
            None
        }
    }

    /// The keys of the tracing context that this message may carry.
    pub fn keys(&self) -> (r: Vec<&'static str>)
        ensures
            r@.map_values(|k: &str| k@) == seq!["traceparent"@],
    {
        let keys: Vec<&'static str> = vec!["traceparent"];
        assert(keys@.map_values(|k: &str| k@) =~= seq!["traceparent"@]);
        keys
    }
}

impl Clone for StartMessage {
    fn clone(&self) -> (r: Self)
        ensures
            r == *self,
    {
        let trace_id: Option<String> = match &self.trace_id {
            Some(id) => Some(id.clone()),
            None => None,
        };
        StartMessage { trace_id, format: self.format, interim_results: self.interim_results }
    }
}

/// Describes the PCM samples coming in.
#[derive(Copy, Clone, Debug, PartialEq, Eq, Structural)]
pub struct AudioFormat {
    /// Number of channels in the audio.
    pub channels: usize,
    /// Sample rate of the audio.
    pub sample_rate: usize,
    /// Number of bits per sample.
    pub bit_depth: u16,
    /// Whether audio uses floating point samples.
    pub is_float: bool,
}

/// Ends the stream that is open.
#[derive(Copy, Clone, Debug, PartialEq, Eq, Structural)]
pub struct StopMessage {
    /// Whether the server should close the connection after returning final results.
    pub disconnect: bool,
}

impl Default for StopMessage {
    fn default() -> (r: Self)
        ensures
            r == (StopMessage { disconnect: false }),
    {
        StopMessage { disconnect: false }
    }
}

/// A control message from the client.
#[derive(Debug, PartialEq, Eq)]
pub enum RequestMessage {
    Start(StartMessage),
    Stop(StopMessage),
}

/// The model's output on one segment of audio.
#[derive(Debug, PartialEq, Eq)]
pub struct SegmentOutput<T> {
    /// Start time of the segment.
    pub start_time: T,
    /// End time of the segment.
    pub end_time: T,
    /// Whether no more will be said of this segment; absent where segments are never revised.
    pub is_final: Option<bool>,
    /// The output from the model.
    pub output: Output,
}

/// An observation sent to the client. `T` is the representation of a point in time.
#[derive(Debug, PartialEq, Eq)]
pub enum Event<T> {
    Data(Output),
    Segment(SegmentOutput<T>),
    Error { message: String },
    Active { time: T },
    Inactive { time: T },
}

/// An event together with the audio channel it belongs to.
#[derive(Debug, PartialEq, Eq)]
pub struct ApiResponse<T> {
    pub data: Event<T>,
    pub channel: usize,
}

} // verus!
