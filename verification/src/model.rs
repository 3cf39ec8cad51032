//! The model: a stand-in that counts samples, at a configurable speed and reliability.
use vstd::prelude::*;

verus! {

/// Sample rate, in Hz, of the audio the model takes.
pub const MODEL_SAMPLE_RATE: usize = 16000;

/// A number with two decimals, in hundredths.
#[derive(Debug, Clone, Copy, PartialEq, Eq, Structural)]
pub struct Hundredths(pub u32);

/// The model's hyperparameters. `R` is the representation of a real number.
#[derive(Debug)]
pub struct Model<R> {
    /// Seconds that every inference takes.
    pub delay: R,
    /// Seconds added for each second of audio.
    pub constant_factor: R,
    /// Largest deviation, in seconds, of the time an inference takes.
    pub jitter: R,
    /// Probability that an inference fails.
    pub failure_rate: R,
    /// Probability that an inference that does not fail panics.
    pub panic_rate: R,
}

/// What the model says of a piece of audio.
#[derive(Debug, Clone, Copy, PartialEq, Eq, Structural)]
pub struct Output {
    /// Number of samples the model was given.
    pub count: usize,
}

/// How an inference ended.
#[derive(Debug, PartialEq, Eq)]
pub enum Inference {
    /// It gave an output.
    Done(Output),
    /// It failed, and says why.
    Failed { message: String },
    /// It never came back.
    Panicked,
}

impl Default for Model<Hundredths> {
    fn default() -> (r: Self)
        ensures
            r == (Model {
                delay: Hundredths(50),
                constant_factor: Hundredths(30),
                jitter: Hundredths(20),
                failure_rate: Hundredths(0),
                panic_rate: Hundredths(1),
            }),
    {
        Model {
            delay: Hundredths(50),
            constant_factor: Hundredths(30),
            jitter: Hundredths(20),
            failure_rate: Hundredths(0),
            panic_rate: Hundredths(1),
        }
    }
}

impl<R: Copy> Model<R> {
    /// A model that takes no time and never fails.
    pub fn speedy(zero: R) -> (r: Self)
        ensures
            r == (Model {
                delay: zero,
                constant_factor: zero,
                jitter: zero,
                failure_rate: zero,
                panic_rate: zero,
            }),
    {
        Self::flaky(zero, zero, zero)
    }

    /// A model that takes no time, and fails and panics at the given rates.
    pub fn flaky(zero: R, failure_rate: R, panic_rate: R) -> (r: Self)
        ensures
            r == (Model { delay: zero, constant_factor: zero, jitter: zero, failure_rate, panic_rate }),
    {
        Model { delay: zero, constant_factor: zero, jitter: zero, failure_rate, panic_rate }
    }

    /// Runs the model on `data`. `fails` and `panics` tell on which side of the failure rate and
    /// of the panic rate the two draws of this inference fell.
    pub fn infer<T>(&self, data: &[T], fails: bool, panics: bool) -> (r: Inference)
        ensures
            fails ==> (r matches Inference::Failed { message } && message@
                == "Unexpected inference failure"@),
            !fails && panics ==> r == Inference::Panicked,
            !fails && !panics ==> r == Inference::Done(Output { count: data.len() }),
    {
        if fails {
            Inference::Failed { message: "Unexpected inference failure".to_string() }
        } else if panics {
            Inference::Panicked
        } else {
            Inference::Done(Output { count: data.len() })
        }
    }
}

} // verus!
