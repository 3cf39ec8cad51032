//! What the service's metrics promise.
use vstd::prelude::*;

use crate::metrics::{
    audio_descriptions, changes, counted, gain, growing, increment, runtime_updates, task_changes,
    task_descriptions, task_updates, Change, Description, Reading, RtfMetric, RuntimeMetrics, Series,
    StreamingMonitors, Subsystem, TaskMetrics, Unit,
};

verus! {

/// Subsystems and stages go by these names.
pub proof fn law_subsystems_and_stages_are_named()
    ensures
        Subsystem::AudioDecoding.label() == "audio_decoding"@,
        Subsystem::Client.label() == "client"@,
        Subsystem::Inference.label() == "inference"@,
        Subsystem::Routing.label() == "api_routing"@,
        Subsystem::Metrics.label() == "metrics"@,
        RtfMetric::AudioDecoding.label() == "audio_decoding"@,
        RtfMetric::Vad.label() == "vad_processing"@,
        RtfMetric::Model.label() == "model_inference"@,
{
}

/// A series is known by its name, its label and the label's value.
pub proof fn law_series_are_told_apart(
    series: Series,
    name: Seq<char>,
    label: Seq<char>,
    value: Seq<char>,
)
    ensures
        series.is(name, label, value) <==> series.name@ == name && series.label@ == label
            && series.value@ == value,
{
}

/// A report on tasks is passed on number by number, and none is changed: counts add to counters,
/// times spent are observed, and the longest idle time is a level.
#[verifier::spinoff_prover]
pub proof fn law_a_report_on_tasks_is_passed_on(m: TaskMetrics)
    ensures
        task_updates(m).len() == 18,
        task_updates(m)[0] == ("instrumented_count"@, Reading::Increment(m.instrumented_count)),
        task_updates(m)[1] == ("dropped_count"@, Reading::Increment(m.dropped_count)),
        task_updates(m)[2] == ("first_poll_count"@, Reading::Increment(m.first_poll_count)),
        task_updates(m)[3] == ("idled_count"@, Reading::Increment(m.total_idled_count)),
        task_updates(m)[4] == ("total_poll_count"@, Reading::Increment(m.total_poll_count)),
        task_updates(m)[5] == ("total_fast_poll_count"@, Reading::Increment(m.total_fast_poll_count)),
        task_updates(m)[6] == ("total_slow_poll_count"@, Reading::Increment(m.total_slow_poll_count)),
        task_updates(m)[7] == ("total_short_delay_count"@, Reading::Increment(m.total_short_delay_count)),
        task_updates(m)[8] == ("total_long_delay_count"@, Reading::Increment(m.total_long_delay_count)),
        task_updates(m)[9] == ("total_first_poll_delay"@, Reading::Observe(m.total_first_poll_delay)),
        task_updates(m)[10] == ("total_idle_duration"@, Reading::Observe(m.total_idle_duration)),
        task_updates(m)[11] == ("total_scheduled_duration"@, Reading::Observe(m.total_scheduled_duration)),
        task_updates(m)[12] == ("total_poll_duration"@, Reading::Observe(m.total_poll_duration)),
        task_updates(m)[13] == ("total_fast_poll_duration"@, Reading::Observe(m.total_fast_poll_duration)),
        task_updates(m)[14] == ("total_slow_poll_duration"@, Reading::Observe(m.total_slow_poll_duration)),
        task_updates(m)[15] == ("total_short_delay_duration"@, Reading::Observe(m.total_short_delay_duration)),
        task_updates(m)[16] == ("total_long_delay_duration"@, Reading::Observe(m.total_long_delay_duration)),
        task_updates(m)[17] == ("max_idle_duration"@, Reading::Level(m.max_idle_duration)),
{
}

/// A report on the runtime is passed on number by number, and none is changed.
#[verifier::spinoff_prover]
pub proof fn law_a_report_on_the_runtime_is_passed_on(m: RuntimeMetrics)
    ensures
        runtime_updates(m).len() == 10,
        runtime_updates(m)[0] == ("workers_count"@, Reading::Number(m.workers_count)),
        runtime_updates(m)[1] == ("live_tasks_count"@, Reading::Number(m.live_tasks_count)),
        runtime_updates(m)[2] == ("global_queue_depth"@, Reading::Number(m.global_queue_depth)),
        runtime_updates(m)[3] == ("max_park_count"@, Reading::Number(m.max_park_count)),
        runtime_updates(m)[4] == ("min_park_count"@, Reading::Number(m.min_park_count)),
        runtime_updates(m)[5] == ("max_busy_duration"@, Reading::Level(m.max_busy_duration)),
        runtime_updates(m)[6] == ("min_busy_duration"@, Reading::Level(m.min_busy_duration)),
        runtime_updates(m)[7] == ("total_park_count"@, Reading::Increment(m.total_park_count)),
        runtime_updates(m)[8] == ("total_busy_duration"@, Reading::Increment(m.total_busy_duration as u64)),
        runtime_updates(m)[9] == ("elapsed"@, Reading::Observe(m.elapsed)),
{
}

/// What was known before and what has been gained since come to what is known now, for every total.
/// The longest idle time is passed on as it is.
#[verifier::spinoff_prover]
pub proof fn law_gains_make_up_the_difference(earlier: TaskMetrics, later: TaskMetrics)
    ensures
        ({
            let gained = later.gained(earlier);
            &&& earlier.instrumented_count <= later.instrumented_count ==> earlier.instrumented_count + gained.instrumented_count == later.instrumented_count
            &&& earlier.instrumented_count > later.instrumented_count ==> gained.instrumented_count == 0
            &&& earlier.dropped_count <= later.dropped_count ==> earlier.dropped_count + gained.dropped_count == later.dropped_count
            &&& earlier.dropped_count > later.dropped_count ==> gained.dropped_count == 0
            &&& earlier.first_poll_count <= later.first_poll_count ==> earlier.first_poll_count + gained.first_poll_count == later.first_poll_count
            &&& earlier.first_poll_count > later.first_poll_count ==> gained.first_poll_count == 0
            &&& earlier.total_idled_count <= later.total_idled_count ==> earlier.total_idled_count + gained.total_idled_count == later.total_idled_count
            &&& earlier.total_idled_count > later.total_idled_count ==> gained.total_idled_count == 0
            &&& earlier.total_poll_count <= later.total_poll_count ==> earlier.total_poll_count + gained.total_poll_count == later.total_poll_count
            &&& earlier.total_poll_count > later.total_poll_count ==> gained.total_poll_count == 0
            &&& earlier.total_fast_poll_count <= later.total_fast_poll_count ==> earlier.total_fast_poll_count + gained.total_fast_poll_count == later.total_fast_poll_count
            &&& earlier.total_fast_poll_count > later.total_fast_poll_count ==> gained.total_fast_poll_count == 0
            &&& earlier.total_slow_poll_count <= later.total_slow_poll_count ==> earlier.total_slow_poll_count + gained.total_slow_poll_count == later.total_slow_poll_count
            &&& earlier.total_slow_poll_count > later.total_slow_poll_count ==> gained.total_slow_poll_count == 0
            &&& earlier.total_short_delay_count <= later.total_short_delay_count ==> earlier.total_short_delay_count + gained.total_short_delay_count == later.total_short_delay_count
            &&& earlier.total_short_delay_count > later.total_short_delay_count ==> gained.total_short_delay_count == 0
            &&& earlier.total_long_delay_count <= later.total_long_delay_count ==> earlier.total_long_delay_count + gained.total_long_delay_count == later.total_long_delay_count
            &&& earlier.total_long_delay_count > later.total_long_delay_count ==> gained.total_long_delay_count == 0
            &&& earlier.total_first_poll_delay <= later.total_first_poll_delay ==> earlier.total_first_poll_delay + gained.total_first_poll_delay == later.total_first_poll_delay
            &&& earlier.total_first_poll_delay > later.total_first_poll_delay ==> gained.total_first_poll_delay == 0
            &&& earlier.total_idle_duration <= later.total_idle_duration ==> earlier.total_idle_duration + gained.total_idle_duration == later.total_idle_duration
            &&& earlier.total_idle_duration > later.total_idle_duration ==> gained.total_idle_duration == 0
            &&& earlier.total_scheduled_duration <= later.total_scheduled_duration ==> earlier.total_scheduled_duration + gained.total_scheduled_duration == later.total_scheduled_duration
            &&& earlier.total_scheduled_duration > later.total_scheduled_duration ==> gained.total_scheduled_duration == 0
            &&& earlier.total_poll_duration <= later.total_poll_duration ==> earlier.total_poll_duration + gained.total_poll_duration == later.total_poll_duration
            &&& earlier.total_poll_duration > later.total_poll_duration ==> gained.total_poll_duration == 0
            &&& earlier.total_fast_poll_duration <= later.total_fast_poll_duration ==> earlier.total_fast_poll_duration + gained.total_fast_poll_duration == later.total_fast_poll_duration
            &&& earlier.total_fast_poll_duration > later.total_fast_poll_duration ==> gained.total_fast_poll_duration == 0
            &&& earlier.total_slow_poll_duration <= later.total_slow_poll_duration ==> earlier.total_slow_poll_duration + gained.total_slow_poll_duration == later.total_slow_poll_duration
            &&& earlier.total_slow_poll_duration > later.total_slow_poll_duration ==> gained.total_slow_poll_duration == 0
            &&& earlier.total_short_delay_duration <= later.total_short_delay_duration ==> earlier.total_short_delay_duration + gained.total_short_delay_duration == later.total_short_delay_duration
            &&& earlier.total_short_delay_duration > later.total_short_delay_duration ==> gained.total_short_delay_duration == 0
            &&& earlier.total_long_delay_duration <= later.total_long_delay_duration ==> earlier.total_long_delay_duration + gained.total_long_delay_duration == later.total_long_delay_duration
            &&& earlier.total_long_delay_duration > later.total_long_delay_duration ==> gained.total_long_delay_duration == 0
            &&& gained.max_idle_duration == later.max_idle_duration
        }),
{
}

/// Totals grow when none of them goes down, and they all start from zero.
#[verifier::spinoff_prover]
pub proof fn law_totals_start_from_zero(earlier: TaskMetrics, later: TaskMetrics)
    ensures
        earlier.grows_to(later) <==> (earlier.instrumented_count <= later.instrumented_count
            && earlier.dropped_count <= later.dropped_count
            && earlier.first_poll_count <= later.first_poll_count
            && earlier.total_idled_count <= later.total_idled_count
            && earlier.total_poll_count <= later.total_poll_count
            && earlier.total_fast_poll_count <= later.total_fast_poll_count
            && earlier.total_slow_poll_count <= later.total_slow_poll_count
            && earlier.total_short_delay_count <= later.total_short_delay_count
            && earlier.total_long_delay_count <= later.total_long_delay_count
            && earlier.total_first_poll_delay <= later.total_first_poll_delay
            && earlier.total_idle_duration <= later.total_idle_duration
            && earlier.total_scheduled_duration <= later.total_scheduled_duration
            && earlier.total_poll_duration <= later.total_poll_duration
            && earlier.total_fast_poll_duration <= later.total_fast_poll_duration
            && earlier.total_slow_poll_duration <= later.total_slow_poll_duration
            && earlier.total_short_delay_duration <= later.total_short_delay_duration
            && earlier.total_long_delay_duration <= later.total_long_delay_duration),
        TaskMetrics::nothing().instrumented_count == 0,
        TaskMetrics::nothing().dropped_count == 0,
        TaskMetrics::nothing().first_poll_count == 0,
        TaskMetrics::nothing().total_idled_count == 0,
        TaskMetrics::nothing().total_poll_count == 0,
        TaskMetrics::nothing().total_fast_poll_count == 0,
        TaskMetrics::nothing().total_slow_poll_count == 0,
        TaskMetrics::nothing().total_short_delay_count == 0,
        TaskMetrics::nothing().total_long_delay_count == 0,
        TaskMetrics::nothing().total_first_poll_delay == 0,
        TaskMetrics::nothing().total_idle_duration == 0,
        TaskMetrics::nothing().total_scheduled_duration == 0,
        TaskMetrics::nothing().total_poll_duration == 0,
        TaskMetrics::nothing().total_fast_poll_duration == 0,
        TaskMetrics::nothing().total_slow_poll_duration == 0,
        TaskMetrics::nothing().total_short_delay_duration == 0,
        TaskMetrics::nothing().total_long_delay_duration == 0,
        TaskMetrics::nothing().max_idle_duration == 0,
{
}

/// A total grows by the difference, and never by less than nothing.
pub proof fn law_a_gain_is_a_difference(earlier: nat, later: nat)
    ensures
        earlier <= later ==> earlier + gain(earlier, later) == later,
        later <= earlier ==> gain(earlier, later) == 0,
{
}

/// Every change to the metrics of a subsystem's tasks goes under its own name to the series of that
/// subsystem.
pub proof fn law_changes_go_to_their_series(system: Subsystem, m: TaskMetrics, j: int)
    requires
        0 <= j < 18,
    ensures
        task_changes(system, m).len() == 18,
        task_changes(system, m)[j].name == task_updates(m)[j].0,
        task_changes(system, m)[j].label == "task"@,
        task_changes(system, m)[j].value == system.label(),
        task_changes(system, m)[j].reading == task_updates(m)[j].1,
{
}

/// A reading of a series changes that series, and in that way.
pub proof fn law_readings_are_made(readings: Seq<(Series, Reading)>, i: int)
    ensures
        changes(readings).len() == readings.len(),
        0 <= i < readings.len() ==> changes(readings)[i] == (Change {
            name: readings[i].0.name@,
            label: readings[i].0.label@,
            value: readings[i].0.value@,
            reading: readings[i].1,
        }),
{
}

/// Only an increment takes a counter up, and by what it says.
pub proof fn law_increments_count(n: u64, t: u128)
    ensures
        increment(Reading::Increment(n)) == n,
        increment(Reading::Observe(t)) == 0,
        increment(Reading::Level(t)) == 0,
        increment(Reading::Number(n)) == 0,
{
}

/// Every subsystem has a monitor of its own.
pub proof fn law_every_subsystem_has_its_own_monitor<M>(monitors: StreamingMonitors<M>)
    ensures
        monitors.monitor(Subsystem::Routing) == monitors.route,
        monitors.monitor(Subsystem::Client) == monitors.client_receiver,
        monitors.monitor(Subsystem::AudioDecoding) == monitors.audio_decoding,
        monitors.monitor(Subsystem::Inference) == monitors.inference,
        monitors.monitor(Subsystem::Metrics) == monitors.metrics,
{
}

/// What changes for a subsystem is what its monitor says that it had not said before.
pub proof fn law_only_what_is_new_is_passed_on(
    last: StreamingMonitors<TaskMetrics>,
    totals: StreamingMonitors<TaskMetrics>,
    system: Subsystem,
)
    ensures
        last.changes_for(totals, system) == task_changes(
            system,
            totals.monitor(system).gained(last.monitor(system)),
        ),
{
}

/// Counters that stand at the total stand at the total again after any further report: what they
/// stand at moves by exactly what the total moved by.
pub proof fn law_counters_move_with_the_total(
    none: StreamingMonitors<TaskMetrics>,
    reports: Seq<StreamingMonitors<TaskMetrics>>,
    system: Subsystem,
    j: int,
)
    requires
        none.monitor(system) == TaskMetrics::nothing(),
        reports.len() > 1,
        growing(reports, system),
        0 <= j < 18,
    ensures
        counted(none, reports, system, j) + increment(
            task_updates(reports[reports.len() - 2].monitor(system))[j].1,
        ) == counted(none, reports.drop_last(), system, j) + increment(
            task_updates(reports.last().monitor(system))[j].1,
        ),
{
    let before = reports.drop_last();
    assert(growing(before, system)) by {
        assert forall|k: int|
            #![trigger before[k]]
            0 < k < before.len() implies before[k - 1].monitor(system).grows_to(
            before[k].monitor(system),
        ) by {
            assert(before[k] == reports[k] && before[k - 1] == reports[k - 1]);
        }
    }
    crate::metrics::law_counters_stand_at_the_total(none, reports, system, j);
    crate::metrics::law_counters_stand_at_the_total(none, before, system, j);
    assert(before.last() == reports[reports.len() - 2]);
}

/// Metrics are described in these words.
#[verifier::spinoff_prover]
pub proof fn law_metrics_are_described(d: Description)
    ensures
        d@.name == d.name@ && d@.unit == d.unit && d@.text == d.text@,
        task_descriptions().len() == 7,
        task_descriptions()[0].name == "idled_count"@,
        task_descriptions()[0].text == "The total number of times that tasks idled, waiting to be awoken."@,
        task_descriptions()[0].unit == Some(Unit::Count),
        task_descriptions()[1].name == "total_poll_count"@,
        task_descriptions()[1].text == "The total number of times tasks were polled."@,
        task_descriptions()[1].unit == Some(Unit::Count),
        task_descriptions()[2].name == "total_fast_poll_count"@,
        task_descriptions()[2].text == "The total number of times that polling tasks completed swiftly."@,
        task_descriptions()[2].unit == Some(Unit::Count),
        task_descriptions()[3].name == "total_slow_poll_count"@,
        task_descriptions()[3].text == "The total number of times that polling tasks completed slowly."@,
        task_descriptions()[3].unit == Some(Unit::Count),
        task_descriptions()[4].name == "total_short_delay_count"@,
        task_descriptions()[4].text == "The total count of tasks with short scheduling delays."@,
        task_descriptions()[4].unit == Some(Unit::Count),
        task_descriptions()[5].name == "total_long_delay_count"@,
        task_descriptions()[5].text == "The total count of tasks with long scheduling delays."@,
        task_descriptions()[5].unit == Some(Unit::Count),
        task_descriptions()[6].name == "total_task_panic_count"@,
        task_descriptions()[6].text == "The total count of times the task panicked"@,
        task_descriptions()[6].unit == Some(Unit::Count),
        audio_descriptions().len() == 3,
        audio_descriptions()[0].name == "media_duration_seconds"@,
        audio_descriptions()[0].text == "Duration of audio."@,
        audio_descriptions()[0].unit == Some(Unit::Seconds),
        audio_descriptions()[1].name == "processing_duration_seconds"@,
        audio_descriptions()[1].text == "Duration of processing time."@,
        audio_descriptions()[1].unit == Some(Unit::Seconds),
        audio_descriptions()[2].name == "rtf"@,
        audio_descriptions()[2].text == "Real-Time Factor of the processing"@,
        audio_descriptions()[2].unit is None,
{
}

} // verus!
