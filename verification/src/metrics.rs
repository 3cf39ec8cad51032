//! Which metrics the service reports, and under which names.
use vstd::prelude::*;

use crate::model::Hundredths;

verus! {

/// A part of the service that runs tasks of its own.
#[derive(Copy, Clone, Debug, PartialEq, Eq, Structural)]
pub enum Subsystem {
    AudioDecoding,
    Client,
    Inference,
    Routing,
    Metrics,
}

impl Subsystem {
    /// The name under which metrics of this subsystem go.
    pub open spec fn label(self) -> Seq<char> {
        match self {
            Subsystem::AudioDecoding => "audio_decoding"@,
            Subsystem::Client => "client"@,
            Subsystem::Inference => "inference"@,
            Subsystem::Routing => "api_routing"@,
            Subsystem::Metrics => "metrics"@,
        }
    }

    /// The name under which metrics of this subsystem go.
    pub fn name(&self) -> (r: &'static str)
        ensures
            r@ == self.label(),
    {
        match self {
            Subsystem::AudioDecoding => "audio_decoding",
            Subsystem::Client => "client",
            Subsystem::Inference => "inference",
            Subsystem::Routing => "api_routing",
            Subsystem::Metrics => "metrics",
        }
    }
}

/// A stage of the pipeline whose speed is measured.
#[derive(Copy, Clone, Debug, PartialEq, Eq, Structural)]
pub enum RtfMetric {
    AudioDecoding,
    Vad,
    Model,
}

impl RtfMetric {
    /// The name under which metrics of this stage go.
    pub open spec fn label(self) -> Seq<char> {
        match self {
            RtfMetric::AudioDecoding => "audio_decoding"@,
            RtfMetric::Vad => "vad_processing"@,
            RtfMetric::Model => "model_inference"@,
        }
    }

    /// The name under which metrics of this stage go.
    pub fn name(&self) -> (r: &'static str)
        ensures
            r@ == self.label(),
    {
        match self {
            RtfMetric::AudioDecoding => "audio_decoding",
            RtfMetric::Vad => "vad_processing",
            RtfMetric::Model => "model_inference",
        }
    }

    /// The upper bounds of the buckets for real-time factors.
    pub open spec fn buckets() -> Seq<Hundredths> {
        seq![
            1u32, 5, 10, 20, 30, 40, 50, 75, 100, 110, 120, 130, 140, 150, 175, 200, 400, 600, 800,
            1000, 1500,
        ].map_values(|h: u32| Hundredths(h))
    }

    /// The upper bounds of the buckets for real-time factors.
    pub fn rtf_buckets() -> (r: Vec<Hundredths>)
        ensures
            r@ == Self::buckets(),
    {
        let bounds: Vec<Hundredths> = vec![
            Hundredths(1),
            Hundredths(5),
            Hundredths(10),
            Hundredths(20),
            Hundredths(30),
            Hundredths(40),
            Hundredths(50),
            Hundredths(75),
            Hundredths(100),
            Hundredths(110),
            Hundredths(120),
            Hundredths(130),
            Hundredths(140),
            Hundredths(150),
            Hundredths(175),
            Hundredths(200),
            Hundredths(400),
            Hundredths(600),
            Hundredths(800),
            Hundredths(1000),
            Hundredths(1500),
        ];
        assert(bounds@ =~= Self::buckets());
        bounds
    }

    /// The upper bounds of the buckets for durations, in seconds.
    pub open spec fn duration_bounds() -> Seq<Hundredths> {
        seq![
            25u32, 50, 75, 100, 200, 300, 400, 500, 750, 1000, 1500, 2000, 3000, 6000, 9000, 12000,
            30000,
        ].map_values(|h: u32| Hundredths(h))
    }

    /// The upper bounds of the buckets for durations, in seconds.
    pub fn duration_buckets() -> (r: Vec<Hundredths>)
        ensures
            r@ == Self::duration_bounds(),
    {
        let bounds: Vec<Hundredths> = vec![
            Hundredths(25),
            Hundredths(50),
            Hundredths(75),
            Hundredths(100),
            Hundredths(200),
            Hundredths(300),
            Hundredths(400),
            Hundredths(500),
            Hundredths(750),
            Hundredths(1000),
            Hundredths(1500),
            Hundredths(2000),
            Hundredths(3000),
            Hundredths(6000),
            Hundredths(9000),
            Hundredths(12000),
            Hundredths(30000),
        ];
        assert(bounds@ =~= Self::duration_bounds());
        bounds
    }

    /// The series that one measurement of this stage goes to.
    pub fn series(&self) -> (r: RtfSeries)
        ensures
            r.media_duration.is("media_duration_seconds"@, "pipeline"@, self.label()),
            r.processing_duration.is(
                "processing_duration_seconds"@,
                "pipeline_stage"@,
                self.label(),
            ),
            r.rtf.is("rtf"@, "pipeline"@, self.label()),
    {
        let value: &'static str = self.name();
        RtfSeries {
            media_duration: Series { name: "media_duration_seconds", label: "pipeline", value },
            processing_duration: Series {
                name: "processing_duration_seconds",
                label: "pipeline_stage",
                value,
            },
            rtf: Series { name: "rtf", label: "pipeline", value },
        }
    }
}

/// A series of one metric: those measurements whose label has a certain value.
#[derive(Copy, Clone, Debug)]
pub struct Series {
    pub name: &'static str,
    pub label: &'static str,
    pub value: &'static str,
}

impl Series {
    /// That this is the series of the given name, label and value.
    pub open spec fn is(self, name: Seq<char>, label: Seq<char>, value: Seq<char>) -> bool {
        self.name@ == name && self.label@ == label && self.value@ == value
    }
}

/// Where a measurement of a stage's speed goes.
#[derive(Copy, Clone, Debug)]
pub struct RtfSeries {
    pub media_duration: Series,
    pub processing_duration: Series,
    pub rtf: Series,
}

/// The series that counts panics of a subsystem's tasks.
pub fn get_panic_counter(system: Subsystem) -> (r: Series)
    ensures
        r.is("total_task_panic_count"@, "task"@, system.label()),
{
    task_series("total_task_panic_count", system)
}

/// What a metric measures in.
#[derive(Copy, Clone, Debug, PartialEq, Eq, Structural)]
pub enum Unit {
    Count,
    Seconds,
}

/// What a metric means.
#[derive(Copy, Clone, Debug)]
pub struct Description {
    pub name: &'static str,
    pub unit: Option<Unit>,
    pub text: &'static str,
}

/// The words of a description.
pub struct DescriptionView {
    pub name: Seq<char>,
    pub unit: Option<Unit>,
    pub text: Seq<char>,
}

impl View for Description {
    type V = DescriptionView;

    open spec fn view(&self) -> DescriptionView {
        DescriptionView { name: self.name@, unit: self.unit, text: self.text@ }
    }
}

/// A description of a counter.
pub open spec fn count(name: Seq<char>, text: Seq<char>) -> DescriptionView {
    DescriptionView { name, unit: Some(Unit::Count), text }
}

/// The counters that are kept for the tasks of each subsystem.
pub open spec fn task_descriptions() -> Seq<DescriptionView> {
    seq![
        count(
            "idled_count"@,
            "The total number of times that tasks idled, waiting to be awoken."@,
        ),
        count("total_poll_count"@, "The total number of times tasks were polled."@),
        count(
            "total_fast_poll_count"@,
            "The total number of times that polling tasks completed swiftly."@,
        ),
        count(
            "total_slow_poll_count"@,
            "The total number of times that polling tasks completed slowly."@,
        ),
        count(
            "total_short_delay_count"@,
            "The total count of tasks with short scheduling delays."@,
        ),
        count("total_long_delay_count"@, "The total count of tasks with long scheduling delays."@),
        count("total_task_panic_count"@, "The total count of times the task panicked"@),
    ]
}

/// Describes the counters that are kept for the tasks of each subsystem.
pub fn describe_task_metrics() -> (r: Vec<Description>)
    ensures
        r@.map_values(|d: Description| d@) == task_descriptions(),
{
    let unit: Option<Unit> = Some(Unit::Count);
    let all: Vec<Description> = vec![
        Description {
            name: "idled_count",
            unit,
            text: "The total number of times that tasks idled, waiting to be awoken.",
        },
        Description {
            name: "total_poll_count",
            unit,
            text: "The total number of times tasks were polled.",
        },
        Description {
            name: "total_fast_poll_count",
            unit,
            text: "The total number of times that polling tasks completed swiftly.",
        },
        Description {
            name: "total_slow_poll_count",
            unit,
            text: "The total number of times that polling tasks completed slowly.",
        },
        Description {
            name: "total_short_delay_count",
            unit,
            text: "The total count of tasks with short scheduling delays.",
        },
        Description {
            name: "total_long_delay_count",
            unit,
            text: "The total count of tasks with long scheduling delays.",
        },
        Description {
            name: "total_task_panic_count",
            unit,
            text: "The total count of times the task panicked",
        },
    ];
    assert(all@.map_values(|d: Description| d@) =~= task_descriptions());
    all
}

/// The histograms that are kept for each stage of the pipeline.
pub open spec fn audio_descriptions() -> Seq<DescriptionView> {
    seq![
        DescriptionView {
            name: "media_duration_seconds"@,
            unit: Some(Unit::Seconds),
            text: "Duration of audio."@,
        },
        DescriptionView {
            name: "processing_duration_seconds"@,
            unit: Some(Unit::Seconds),
            text: "Duration of processing time."@,
        },
        DescriptionView {
            name: "rtf"@,
            unit: None,
            text: "Real-Time Factor of the processing"@,
        },
    ]
}

/// Describes the histograms that are kept for each stage of the pipeline.
pub fn describe_audio_metrics() -> (r: Vec<Description>)
    ensures
        r@.map_values(|d: Description| d@) == audio_descriptions(),
{
    let all: Vec<Description> = vec![
        Description {
            name: "media_duration_seconds",
            unit: Some(Unit::Seconds),
            text: "Duration of audio.",
        },
        Description {
            name: "processing_duration_seconds",
            unit: Some(Unit::Seconds),
            text: "Duration of processing time.",
        },
        Description { name: "rtf", unit: None, text: "Real-Time Factor of the processing" },
    ];
    assert(all@.map_values(|d: Description| d@) =~= audio_descriptions());
    all
}

/// One change to a metric.
#[derive(Copy, Clone, Debug, PartialEq, Eq, Structural)]
pub enum Reading {
    /// A counter goes up by this much.
    Increment(u64),
    /// A histogram gets a duration, in nanoseconds.
    Observe(u128),
    /// A gauge is set to a duration, in nanoseconds.
    Level(u128),
    /// A gauge is set to a number.
    Number(u64),
}

/// One change to the metric of this name.
#[derive(Copy, Clone, Debug)]
pub struct Update {
    pub name: &'static str,
    pub reading: Reading,
}

/// What the runtime says of the tasks of a subsystem, over some time. Durations are in
/// nanoseconds.
#[derive(Copy, Clone, Debug, PartialEq, Eq, Structural)]
pub struct TaskMetrics {
    pub instrumented_count: u64,
    pub dropped_count: u64,
    pub first_poll_count: u64,
    pub total_idled_count: u64,
    pub total_poll_count: u64,
    pub total_fast_poll_count: u64,
    pub total_slow_poll_count: u64,
    pub total_short_delay_count: u64,
    pub total_long_delay_count: u64,
    pub total_first_poll_delay: u128,
    pub total_idle_duration: u128,
    pub total_scheduled_duration: u128,
    pub total_poll_duration: u128,
    pub total_fast_poll_duration: u128,
    pub total_slow_poll_duration: u128,
    pub total_short_delay_duration: u128,
    pub total_long_delay_duration: u128,
    pub max_idle_duration: u128,
}

/// The changes that a report on tasks makes.
pub open spec fn task_updates(m: TaskMetrics) -> Seq<(Seq<char>, Reading)> {
    seq![
        ("instrumented_count"@, Reading::Increment(m.instrumented_count)),
        ("dropped_count"@, Reading::Increment(m.dropped_count)),
        ("first_poll_count"@, Reading::Increment(m.first_poll_count)),
        ("idled_count"@, Reading::Increment(m.total_idled_count)),
        ("total_poll_count"@, Reading::Increment(m.total_poll_count)),
        ("total_fast_poll_count"@, Reading::Increment(m.total_fast_poll_count)),
        ("total_slow_poll_count"@, Reading::Increment(m.total_slow_poll_count)),
        ("total_short_delay_count"@, Reading::Increment(m.total_short_delay_count)),
        ("total_long_delay_count"@, Reading::Increment(m.total_long_delay_count)),
        ("total_first_poll_delay"@, Reading::Observe(m.total_first_poll_delay)),
        ("total_idle_duration"@, Reading::Observe(m.total_idle_duration)),
        ("total_scheduled_duration"@, Reading::Observe(m.total_scheduled_duration)),
        ("total_poll_duration"@, Reading::Observe(m.total_poll_duration)),
        ("total_fast_poll_duration"@, Reading::Observe(m.total_fast_poll_duration)),
        ("total_slow_poll_duration"@, Reading::Observe(m.total_slow_poll_duration)),
        ("total_short_delay_duration"@, Reading::Observe(m.total_short_delay_duration)),
        ("total_long_delay_duration"@, Reading::Observe(m.total_long_delay_duration)),
        ("max_idle_duration"@, Reading::Level(m.max_idle_duration)),
    ]
}

/// By how much a total has grown.
pub open spec fn gain(earlier: nat, later: nat) -> nat {
    if earlier <= later {
        (later - earlier) as nat
    } else {
        0
    }
}

/// By how much a count has grown.
fn gain_count(earlier: u64, later: u64) -> (r: u64)
    ensures
        r == gain(earlier as nat, later as nat),
{
    if earlier <= later {
        later - earlier
    } else {
        0
    }
}

/// By how much a duration has grown.
fn gain_time(earlier: u128, later: u128) -> (r: u128)
    ensures
        r == gain(earlier as nat, later as nat),
{
    if earlier <= later {
        later - earlier
    } else {
        0
    }
}

impl TaskMetrics {
    /// What is known before the runtime has said anything.
    pub open spec fn nothing() -> Self {
        TaskMetrics {
            instrumented_count: 0,
            dropped_count: 0,
            first_poll_count: 0,
            total_idled_count: 0,
            total_poll_count: 0,
            total_fast_poll_count: 0,
            total_slow_poll_count: 0,
            total_short_delay_count: 0,
            total_long_delay_count: 0,
            total_first_poll_delay: 0,
            total_idle_duration: 0,
            total_scheduled_duration: 0,
            total_poll_duration: 0,
            total_fast_poll_duration: 0,
            total_slow_poll_duration: 0,
            total_short_delay_duration: 0,
            total_long_delay_duration: 0,
            max_idle_duration: 0,
        }
    }

    /// What is known before the runtime has said anything.
    pub fn none() -> (r: Self)
        ensures
            r == Self::nothing(),
    {
        TaskMetrics {
            instrumented_count: 0,
            dropped_count: 0,
            first_poll_count: 0,
            total_idled_count: 0,
            total_poll_count: 0,
            total_fast_poll_count: 0,
            total_slow_poll_count: 0,
            total_short_delay_count: 0,
            total_long_delay_count: 0,
            total_first_poll_delay: 0,
            total_idle_duration: 0,
            total_scheduled_duration: 0,
            total_poll_duration: 0,
            total_fast_poll_duration: 0,
            total_slow_poll_duration: 0,
            total_short_delay_duration: 0,
            total_long_delay_duration: 0,
            max_idle_duration: 0,
        }
    }

    /// Whether no total of `later` is below the one here.
    pub open spec fn grows_to(self, later: Self) -> bool {
        &&& self.instrumented_count <= later.instrumented_count
        &&& self.dropped_count <= later.dropped_count
        &&& self.first_poll_count <= later.first_poll_count
        &&& self.total_idled_count <= later.total_idled_count
        &&& self.total_poll_count <= later.total_poll_count
        &&& self.total_fast_poll_count <= later.total_fast_poll_count
        &&& self.total_slow_poll_count <= later.total_slow_poll_count
        &&& self.total_short_delay_count <= later.total_short_delay_count
        &&& self.total_long_delay_count <= later.total_long_delay_count
        &&& self.total_first_poll_delay <= later.total_first_poll_delay
        &&& self.total_idle_duration <= later.total_idle_duration
        &&& self.total_scheduled_duration <= later.total_scheduled_duration
        &&& self.total_poll_duration <= later.total_poll_duration
        &&& self.total_fast_poll_duration <= later.total_fast_poll_duration
        &&& self.total_slow_poll_duration <= later.total_slow_poll_duration
        &&& self.total_short_delay_duration <= later.total_short_delay_duration
        &&& self.total_long_delay_duration <= later.total_long_delay_duration
    }

    /// What has been added since an earlier report, where both are totals. The longest time that a
    /// task idled is no total, and stays as it is.
    pub open spec fn gained(self, earlier: Self) -> Self {
        TaskMetrics {
            instrumented_count: gain(earlier.instrumented_count as nat, self.instrumented_count as nat) as u64,
            dropped_count: gain(earlier.dropped_count as nat, self.dropped_count as nat) as u64,
            first_poll_count: gain(earlier.first_poll_count as nat, self.first_poll_count as nat) as u64,
            total_idled_count: gain(earlier.total_idled_count as nat, self.total_idled_count as nat) as u64,
            total_poll_count: gain(earlier.total_poll_count as nat, self.total_poll_count as nat) as u64,
            total_fast_poll_count: gain(earlier.total_fast_poll_count as nat, self.total_fast_poll_count as nat) as u64,
            total_slow_poll_count: gain(earlier.total_slow_poll_count as nat, self.total_slow_poll_count as nat) as u64,
            total_short_delay_count: gain(earlier.total_short_delay_count as nat, self.total_short_delay_count as nat) as u64,
            total_long_delay_count: gain(earlier.total_long_delay_count as nat, self.total_long_delay_count as nat) as u64,
            total_first_poll_delay: gain(earlier.total_first_poll_delay as nat, self.total_first_poll_delay as nat) as u128,
            total_idle_duration: gain(earlier.total_idle_duration as nat, self.total_idle_duration as nat) as u128,
            total_scheduled_duration: gain(earlier.total_scheduled_duration as nat, self.total_scheduled_duration as nat) as u128,
            total_poll_duration: gain(earlier.total_poll_duration as nat, self.total_poll_duration as nat) as u128,
            total_fast_poll_duration: gain(earlier.total_fast_poll_duration as nat, self.total_fast_poll_duration as nat) as u128,
            total_slow_poll_duration: gain(earlier.total_slow_poll_duration as nat, self.total_slow_poll_duration as nat) as u128,
            total_short_delay_duration: gain(earlier.total_short_delay_duration as nat, self.total_short_delay_duration as nat) as u128,
            total_long_delay_duration: gain(earlier.total_long_delay_duration as nat, self.total_long_delay_duration as nat) as u128,
            max_idle_duration: self.max_idle_duration,
        }
    }

    /// What has been added since an earlier report, where both are totals.
    pub fn since(&self, earlier: &TaskMetrics) -> (r: Self)
        ensures
            r == self.gained(*earlier),
    {
        TaskMetrics {
            instrumented_count: gain_count(earlier.instrumented_count, self.instrumented_count),
            dropped_count: gain_count(earlier.dropped_count, self.dropped_count),
            first_poll_count: gain_count(earlier.first_poll_count, self.first_poll_count),
            total_idled_count: gain_count(earlier.total_idled_count, self.total_idled_count),
            total_poll_count: gain_count(earlier.total_poll_count, self.total_poll_count),
            total_fast_poll_count: gain_count(earlier.total_fast_poll_count, self.total_fast_poll_count),
            total_slow_poll_count: gain_count(earlier.total_slow_poll_count, self.total_slow_poll_count),
            total_short_delay_count: gain_count(earlier.total_short_delay_count, self.total_short_delay_count),
            total_long_delay_count: gain_count(earlier.total_long_delay_count, self.total_long_delay_count),
            total_first_poll_delay: gain_time(earlier.total_first_poll_delay, self.total_first_poll_delay),
            total_idle_duration: gain_time(earlier.total_idle_duration, self.total_idle_duration),
            total_scheduled_duration: gain_time(earlier.total_scheduled_duration, self.total_scheduled_duration),
            total_poll_duration: gain_time(earlier.total_poll_duration, self.total_poll_duration),
            total_fast_poll_duration: gain_time(earlier.total_fast_poll_duration, self.total_fast_poll_duration),
            total_slow_poll_duration: gain_time(earlier.total_slow_poll_duration, self.total_slow_poll_duration),
            total_short_delay_duration: gain_time(earlier.total_short_delay_duration, self.total_short_delay_duration),
            total_long_delay_duration: gain_time(earlier.total_long_delay_duration, self.total_long_delay_duration),
            max_idle_duration: self.max_idle_duration,
        }
    }
}

/// One change to a metric: its name, its label, the label's value, and what is done to it.
pub struct Change {
    pub name: Seq<char>,
    pub label: Seq<char>,
    pub value: Seq<char>,
    pub reading: Reading,
}

/// What these readings of these series change.
pub open spec fn changes(readings: Seq<(Series, Reading)>) -> Seq<Change> {
    readings.map_values(
        |r: (Series, Reading)| Change {
            name: r.0.name@,
            label: r.0.label@,
            value: r.0.value@,
            reading: r.1,
        },
    )
}

/// The changes that a report on the tasks of one subsystem makes.
pub open spec fn task_changes(system: Subsystem, m: TaskMetrics) -> Seq<Change> {
    task_updates(m).map_values(
        |u: (Seq<char>, Reading)| Change {
            name: u.0,
            label: "task"@,
            value: system.label(),
            reading: u.1,
        },
    )
}

/// Turns a report on a subsystem's tasks into changes of metrics.
pub fn update_metrics(system: Subsystem, metrics: TaskMetrics) -> (r: Vec<(Series, Reading)>)
    ensures
        changes(r@) == task_changes(system, metrics),
{
    let m: TaskMetrics = metrics;
    let all: Vec<(Series, Reading)> = vec![
        (task_series("instrumented_count", system), Reading::Increment(m.instrumented_count)),
        (task_series("dropped_count", system), Reading::Increment(m.dropped_count)),
        (task_series("first_poll_count", system), Reading::Increment(m.first_poll_count)),
        (task_series("idled_count", system), Reading::Increment(m.total_idled_count)),
        (task_series("total_poll_count", system), Reading::Increment(m.total_poll_count)),
        (task_series("total_fast_poll_count", system), Reading::Increment(m.total_fast_poll_count)),
        (task_series("total_slow_poll_count", system), Reading::Increment(m.total_slow_poll_count)),
        (task_series("total_short_delay_count", system), Reading::Increment(m.total_short_delay_count)),
        (task_series("total_long_delay_count", system), Reading::Increment(m.total_long_delay_count)),
        (task_series("total_first_poll_delay", system), Reading::Observe(m.total_first_poll_delay)),
        (task_series("total_idle_duration", system), Reading::Observe(m.total_idle_duration)),
        (task_series("total_scheduled_duration", system), Reading::Observe(m.total_scheduled_duration)),
        (task_series("total_poll_duration", system), Reading::Observe(m.total_poll_duration)),
        (task_series("total_fast_poll_duration", system), Reading::Observe(m.total_fast_poll_duration)),
        (task_series("total_slow_poll_duration", system), Reading::Observe(m.total_slow_poll_duration)),
        (task_series("total_short_delay_duration", system), Reading::Observe(m.total_short_delay_duration)),
        (task_series("total_long_delay_duration", system), Reading::Observe(m.total_long_delay_duration)),
        (task_series("max_idle_duration", system), Reading::Level(m.max_idle_duration)),
    ];
    assert(changes(all@) =~= task_changes(system, metrics));
    all
}

/// The series of a metric that belongs to a subsystem's tasks.
fn task_series(name: &'static str, system: Subsystem) -> (r: Series)
    ensures
        r.is(name@, "task"@, system.label()),
{
    Series { name, label: "task", value: system.name() }
}

/// What the runtime says of itself since it was last asked. Durations are in nanoseconds.
#[derive(Copy, Clone, Debug)]
pub struct RuntimeMetrics {
    pub workers_count: u64,
    pub live_tasks_count: u64,
    pub global_queue_depth: u64,
    pub max_park_count: u64,
    pub min_park_count: u64,
    pub max_busy_duration: u128,
    pub min_busy_duration: u128,
    pub total_park_count: u64,
    pub total_busy_duration: u128,
    pub elapsed: u128,
}

/// The changes that a report on the runtime makes.
pub open spec fn runtime_updates(m: RuntimeMetrics) -> Seq<(Seq<char>, Reading)> {
    seq![
        ("workers_count"@, Reading::Number(m.workers_count)),
        ("live_tasks_count"@, Reading::Number(m.live_tasks_count)),
        ("global_queue_depth"@, Reading::Number(m.global_queue_depth)),
        ("max_park_count"@, Reading::Number(m.max_park_count)),
        ("min_park_count"@, Reading::Number(m.min_park_count)),
        ("max_busy_duration"@, Reading::Level(m.max_busy_duration)),
        ("min_busy_duration"@, Reading::Level(m.min_busy_duration)),
        ("total_park_count"@, Reading::Increment(m.total_park_count)),
        ("total_busy_duration"@, Reading::Increment(m.total_busy_duration as u64)),
        ("elapsed"@, Reading::Observe(m.elapsed)),
    ]
}

/// Turns a report on the runtime into changes of metrics.
pub fn update_runtime_metrics(metrics: RuntimeMetrics) -> (r: Vec<Update>)
    ensures
        r@.map_values(|u: Update| (u.name@, u.reading)) == runtime_updates(metrics),
{
    let m: RuntimeMetrics = metrics;
    let busy: u64 = #[verifier::truncate] (m.total_busy_duration as u64);
    let all: Vec<Update> = vec![
        Update { name: "workers_count", reading: Reading::Number(m.workers_count) },
        Update { name: "live_tasks_count", reading: Reading::Number(m.live_tasks_count) },
        Update { name: "global_queue_depth", reading: Reading::Number(m.global_queue_depth) },
        Update { name: "max_park_count", reading: Reading::Number(m.max_park_count) },
        Update { name: "min_park_count", reading: Reading::Number(m.min_park_count) },
        Update { name: "max_busy_duration", reading: Reading::Level(m.max_busy_duration) },
        Update { name: "min_busy_duration", reading: Reading::Level(m.min_busy_duration) },
        Update { name: "total_park_count", reading: Reading::Increment(m.total_park_count) },
        Update { name: "total_busy_duration", reading: Reading::Increment(busy) },
        Update { name: "elapsed", reading: Reading::Observe(m.elapsed) },
    ];
    assert(all@.map_values(|u: Update| (u.name@, u.reading)) =~= runtime_updates(metrics));
    all
}

/// One monitor for the tasks of each subsystem, or what each of them says.
#[derive(Debug)]
pub struct StreamingMonitors<M> {
    pub route: M,
    pub client_receiver: M,
    pub audio_decoding: M,
    pub inference: M,
    pub metrics: M,
}

impl<M> StreamingMonitors<M> {
    /// The monitor of a subsystem's tasks.
    pub open spec fn monitor(self, system: Subsystem) -> M {
        match system {
            Subsystem::Routing => self.route,
            Subsystem::AudioDecoding => self.audio_decoding,
            Subsystem::Client => self.client_receiver,
            Subsystem::Inference => self.inference,
            Subsystem::Metrics => self.metrics,
        }
    }

    /// The monitor of a subsystem's tasks.
    pub fn get_monitor(&self, system: Subsystem) -> (r: &M)
        ensures
            *r == self.monitor(system),
            match system {
                Subsystem::Routing => *r == self.route,
                Subsystem::AudioDecoding => *r == self.audio_decoding,
                Subsystem::Client => *r == self.client_receiver,
                Subsystem::Inference => *r == self.inference,
                Subsystem::Metrics => *r == self.metrics,
            },
    {
        match system {
            Subsystem::Routing => &self.route,
            Subsystem::AudioDecoding => &self.audio_decoding,
            Subsystem::Client => &self.client_receiver,
            Subsystem::Inference => &self.inference,
            Subsystem::Metrics => &self.metrics,
        }
    }
}

impl StreamingMonitors<TaskMetrics> {
    /// The reports before any monitor has said anything.
    pub fn none() -> (r: Self)
        ensures
            forall|system: Subsystem| #[trigger] r.monitor(system) == TaskMetrics::nothing(),
    {
        StreamingMonitors {
            route: TaskMetrics::none(),
            client_receiver: TaskMetrics::none(),
            audio_decoding: TaskMetrics::none(),
            inference: TaskMetrics::none(),
            metrics: TaskMetrics::none(),
        }
    }

    /// The changes for one subsystem when, after these totals, `totals` are reported.
    pub open spec fn changes_for(self, totals: Self, system: Subsystem) -> Seq<Change> {
        task_changes(system, totals.monitor(system).gained(self.monitor(system)))
    }

    /// The changes for all subsystems, one after the other.
    pub open spec fn collected(self, totals: Self) -> Seq<Change> {
        self.changes_for(totals, Subsystem::Routing) + self.changes_for(
            totals,
            Subsystem::AudioDecoding,
        ) + self.changes_for(totals, Subsystem::Client) + self.changes_for(
            totals,
            Subsystem::Inference,
        ) + self.changes_for(totals, Subsystem::Metrics)
    }

    /// Takes in what the monitors now say in all, and gives out the changes that bring the
    /// metrics up to date with it.
    pub fn run_collector(&mut self, totals: StreamingMonitors<TaskMetrics>) -> (r: Vec<
        (Series, Reading),
    >)
        ensures
            changes(r@) == old(self).collected(totals),
            *final(self) == totals,
    {
        let mut all: Vec<(Series, Reading)> = update_metrics(
            Subsystem::Routing,
            totals.route.since(&self.route),
        );
        let mut decoding: Vec<(Series, Reading)> = update_metrics(
            Subsystem::AudioDecoding,
            totals.audio_decoding.since(&self.audio_decoding),
        );
        let mut client: Vec<(Series, Reading)> = update_metrics(
            Subsystem::Client,
            totals.client_receiver.since(&self.client_receiver),
        );
        let mut inference: Vec<(Series, Reading)> = update_metrics(
            Subsystem::Inference,
            totals.inference.since(&self.inference),
        );
        let mut metrics: Vec<(Series, Reading)> = update_metrics(
            Subsystem::Metrics,
            totals.metrics.since(&self.metrics),
        );
        let ghost parts = (all@, decoding@, client@, inference@, metrics@);
        all.append(&mut decoding);
        all.append(&mut client);
        all.append(&mut inference);
        all.append(&mut metrics);
        assert(changes(all@) =~= changes(parts.0) + changes(parts.1) + changes(parts.2) + changes(
            parts.3,
        ) + changes(parts.4));
        *self = totals;
        all
    }
}

/// Different subsystems report under different names.
pub proof fn law_subsystem_names_are_distinct(a: Subsystem, b: Subsystem)
    requires
        a != b,
    ensures
        a.label() != b.label(),
{
    reveal_strlit("audio_decoding");
    reveal_strlit("client");
    reveal_strlit("inference");
    reveal_strlit("api_routing");
    reveal_strlit("metrics");
    assert(a.label().len() != b.label().len() || a.label()[0] != b.label()[0]);
}

/// Different stages report under different names.
pub proof fn law_stage_names_are_distinct(a: RtfMetric, b: RtfMetric)
    requires
        a != b,
    ensures
        a.label() != b.label(),
{
    reveal_strlit("audio_decoding");
    reveal_strlit("vad_processing");
    reveal_strlit("model_inference");
    assert(a.label().len() != b.label().len() || a.label()[0] != b.label()[0]);
}

/// The buckets for real-time factors go up, and so do those for durations.
pub proof fn law_buckets_are_sorted(i: int, j: int)
    requires
        0 <= i < j,
    ensures
        j < RtfMetric::buckets().len() ==> RtfMetric::buckets()[i].0 < RtfMetric::buckets()[j].0,
        j < RtfMetric::duration_bounds().len() ==> RtfMetric::duration_bounds()[i].0
            < RtfMetric::duration_bounds()[j].0,
{
}

/// Every counter that is described for tasks is kept up to date: by each report on tasks, or, in
/// the case of the last, by the tasks that panic.
pub proof fn law_described_counters_are_kept(m: TaskMetrics, i: int)
    requires
        0 <= i < task_descriptions().len() - 1,
    ensures
        exists|j: int|
            0 <= j < task_updates(m).len() && (#[trigger] task_updates(m)[j]).0
                == task_descriptions()[i].name && task_updates(m)[j].1 is Increment,
        task_descriptions().last().name == "total_task_panic_count"@,
{
    assert(task_updates(m)[i + 3].0 == task_descriptions()[i].name);
}

/// Every subsystem is reported, once: the changes are made of one stretch for each.
pub proof fn law_every_subsystem_is_reported(
    last: StreamingMonitors<TaskMetrics>,
    totals: StreamingMonitors<TaskMetrics>,
)
    ensures
        last.collected(totals).len() == 5 * 18,
        last.collected(totals).subrange(0, 18) == last.changes_for(totals, Subsystem::Routing),
        last.collected(totals).subrange(18, 36) == last.changes_for(
            totals,
            Subsystem::AudioDecoding,
        ),
        last.collected(totals).subrange(36, 54) == last.changes_for(totals, Subsystem::Client),
        last.collected(totals).subrange(54, 72) == last.changes_for(totals, Subsystem::Inference),
        last.collected(totals).subrange(72, 90) == last.changes_for(totals, Subsystem::Metrics),
{
    let all = last.collected(totals);
    assert(all.subrange(0, 18) =~= last.changes_for(totals, Subsystem::Routing));
    assert(all.subrange(18, 36) =~= last.changes_for(totals, Subsystem::AudioDecoding));
    assert(all.subrange(36, 54) =~= last.changes_for(totals, Subsystem::Client));
    assert(all.subrange(54, 72) =~= last.changes_for(totals, Subsystem::Inference));
    assert(all.subrange(72, 90) =~= last.changes_for(totals, Subsystem::Metrics));
}

/// Collecting again when nothing has happened since leaves every counter as it is.
pub proof fn law_collecting_again_leaves_counters_alone(
    totals: StreamingMonitors<TaskMetrics>,
    i: int,
)
    requires
        0 <= i < totals.collected(totals).len(),
        totals.collected(totals)[i].reading is Increment,
    ensures
        totals.collected(totals)[i].reading == Reading::Increment(0),
{
    let all = totals.collected(totals);
    law_every_subsystem_is_reported(totals, totals);
    let at = i % 18;
    if i < 18 {
        assert(all[i] == all.subrange(0, 18)[at]);
    } else if i < 36 {
        assert(all[i] == all.subrange(18, 36)[at]);
    } else if i < 54 {
        assert(all[i] == all.subrange(36, 54)[at]);
    } else if i < 72 {
        assert(all[i] == all.subrange(54, 72)[at]);
    } else {
        assert(all[i] == all.subrange(72, 90)[at]);
    }
}

/// How far a reading takes a counter up.
pub open spec fn increment(reading: Reading) -> nat {
    match reading {
        Reading::Increment(n) => n as nat,
        _ => 0,
    }
}

/// Whether no total of any subsystem goes down from one report to the next.
pub open spec fn growing(reports: Seq<StreamingMonitors<TaskMetrics>>, system: Subsystem) -> bool {
    forall|k: int|
        #![trigger reports[k]]
        0 < k < reports.len() ==> reports[k - 1].monitor(system).grows_to(
            reports[k].monitor(system),
        )
}

/// Where a subsystem's metric number `j` stands, as far as it is a counter, once these reports
/// have been collected one after the other. `none` are the reports before any.
pub open spec fn counted(
    none: StreamingMonitors<TaskMetrics>,
    reports: Seq<StreamingMonitors<TaskMetrics>>,
    system: Subsystem,
    j: int,
) -> nat
    decreases reports.len(),
{
    if reports.len() == 0 {
        0
    } else {
        let before = reports.drop_last();
        let last = if before.len() == 0 {
            none
        } else {
            before.last()
        };
        counted(none, before, system, j) + increment(
            last.changes_for(reports.last(), system)[j].reading,
        )
    }
}

/// What a counter stands at after the earlier report, and what is added since, come to the total.
#[verifier::spinoff_prover]
proof fn lemma_gain(earlier: TaskMetrics, later: TaskMetrics, j: int)
    requires
        earlier.grows_to(later),
        0 <= j < 18,
    ensures
        increment(task_updates(earlier)[j].1) + increment(task_updates(later.gained(earlier))[j].1)
            == increment(task_updates(later)[j].1),
{
}

/// Every total has grown from nothing, and no counter stands anywhere before that.
#[verifier::spinoff_prover]
proof fn lemma_from_nothing(later: TaskMetrics, j: int)
    requires
        0 <= j < 18,
    ensures
        TaskMetrics::nothing().grows_to(later),
        increment(task_updates(TaskMetrics::nothing())[j].1) == 0,
{
}

/// The last report adds to a counter what its metric gained.
#[verifier::spinoff_prover]
proof fn lemma_counted(
    none: StreamingMonitors<TaskMetrics>,
    reports: Seq<StreamingMonitors<TaskMetrics>>,
    system: Subsystem,
    j: int,
)
    requires
        reports.len() > 0,
        0 <= j < 18,
    ensures
        ({
            let before = reports.drop_last();
            let last = if before.len() == 0 {
                none
            } else {
                before.last()
            };
            let gained = reports.last().monitor(system).gained(last.monitor(system));
            counted(none, reports, system, j) == counted(none, before, system, j) + increment(
                task_updates(gained)[j].1,
            )
        }),
{
}

/// However often the monitors are asked, each counter of a subsystem stands at the total that its
/// monitor reported last.
#[verifier::spinoff_prover]
pub proof fn law_counters_stand_at_the_total(
    none: StreamingMonitors<TaskMetrics>,
    reports: Seq<StreamingMonitors<TaskMetrics>>,
    system: Subsystem,
    j: int,
)
    requires
        none.monitor(system) == TaskMetrics::nothing(),
        reports.len() > 0,
        growing(reports, system),
        0 <= j < 18,
    ensures
        counted(none, reports, system, j) == increment(
            task_updates(reports.last().monitor(system))[j].1,
        ),
    decreases reports.len(),
{
    let before = reports.drop_last();
    let total = reports.last().monitor(system);
    lemma_counted(none, reports, system, j);
    if before.len() == 0 {
        lemma_from_nothing(total, j);
        lemma_gain(none.monitor(system), total, j);
    } else {
        assert(growing(before, system)) by {
            assert forall|k: int|
                #![trigger before[k]]
                0 < k < before.len() implies before[k - 1].monitor(system).grows_to(
                before[k].monitor(system),
            ) by {
                assert(before[k] == reports[k] && before[k - 1] == reports[k - 1]);
            }
        }
        law_counters_stand_at_the_total(none, before, system, j);
        assert(reports[reports.len() - 1] == reports.last());
        assert(reports[reports.len() - 2] == before.last());
        lemma_gain(before.last().monitor(system), total, j);
    }
}

} // verus!
