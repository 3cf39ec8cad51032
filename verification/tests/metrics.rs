use metrics_exporter_prometheus::PrometheusBuilder;
use metrics::{Counter, Key, Label, Level, Metadata, Recorder};
use streamer_template::metrics::{
    describe_audio_metrics, describe_task_metrics, get_panic_counter, update_metrics,
    update_runtime_metrics, Reading, RtfMetric, RuntimeMetrics, StreamingMonitors, Subsystem,
    TaskMetrics, Unit,
};
use streamer_template::model::Hundredths;
use streamer_template::report::{location_label, panic_message, panic_report, thread_label};
use streamer_template::task::join;

fn panic_counter(recorder: &impl Recorder, system: Subsystem) -> Counter {
    let series = get_panic_counter(system);
    let key = Key::from_parts(series.name, vec![Label::new(series.label, series.value)]);
    recorder.register_counter(&key, &Metadata::new("tests", Level::INFO, None))
}

#[test]
fn check_spawn_panic_increments() {
    let recorder = PrometheusBuilder::new().build_recorder();
    let handle = recorder.handle();
    let runtime = tokio::runtime::Builder::new_current_thread().build().unwrap();
    runtime.block_on(async {
        let counter = panic_counter(&recorder, Subsystem::AudioDecoding);
        let joined = join(tokio::task::spawn(async {}).await);
        assert!(joined.result.is_ok());
        counter.increment(joined.panics);
        assert!(handle.render().contains(r#"total_task_panic_count{task="audio_decoding"} 0"#));

        let joined = join(tokio::task::spawn(async { panic!("ohno") }).await);
        assert!(joined.result.is_err());
        counter.increment(joined.panics);
        assert!(handle.render().contains(r#"total_task_panic_count{task="audio_decoding"} 1"#));

        let counter = panic_counter(&recorder, Subsystem::Inference);
        let joined = join(tokio::task::spawn_blocking(|| println!("Hello")).await);
        counter.increment(joined.panics);
        assert!(handle.render().contains(r#"total_task_panic_count{task="inference"} 0"#));

        let joined = join(tokio::task::spawn_blocking(|| panic!("ohno")).await);
        counter.increment(joined.panics);
        assert!(handle.render().contains(r#"total_task_panic_count{task="inference"} 1"#));
    });
}

const SYSTEMS: [(Subsystem, &str); 5] = [
    (Subsystem::AudioDecoding, "audio_decoding"),
    (Subsystem::Client, "client"),
    (Subsystem::Inference, "inference"),
    (Subsystem::Routing, "api_routing"),
    (Subsystem::Metrics, "metrics"),
];

#[test]
fn subsystems_have_names() {
    for (system, name) in SYSTEMS {
        assert_eq!(system.name(), name);
        let series = get_panic_counter(system);
        assert_eq!(series.name, "total_task_panic_count");
        assert_eq!((series.label, series.value), ("task", name));
    }
}

#[test]
fn stages_have_names() {
    assert_eq!(RtfMetric::AudioDecoding.name(), "audio_decoding");
    assert_eq!(RtfMetric::Vad.name(), "vad_processing");
    assert_eq!(RtfMetric::Model.name(), "model_inference");
    let series = RtfMetric::Vad.series();
    assert_eq!(series.media_duration.name, "media_duration_seconds");
    assert_eq!(series.media_duration.label, "pipeline");
    assert_eq!(series.processing_duration.name, "processing_duration_seconds");
    assert_eq!(series.processing_duration.label, "pipeline_stage");
    assert_eq!(series.rtf.name, "rtf");
    assert_eq!(series.rtf.label, "pipeline");
    assert_eq!(series.rtf.value, "vad_processing");
}

#[test]
fn buckets_are_sorted() {
    let buckets: Vec<f64> =
        RtfMetric::rtf_buckets().iter().map(|b: &Hundredths| b.0 as f64 / 100.0).collect();
    assert_eq!(
        buckets,
        vec![
            0.01, 0.05, 0.1, 0.2, 0.3, 0.4, 0.5, 0.75, 1.0, 1.1, 1.2, 1.3, 1.4, 1.5, 1.75, 2.0, 4.0,
            6.0, 8.0, 10.0, 15.0,
        ]
    );
    assert!(buckets.windows(2).all(|w| w[0] < w[1]));
    let durations: Vec<f64> =
        RtfMetric::duration_buckets().iter().map(|b: &Hundredths| b.0 as f64 / 100.0).collect();
    assert_eq!(
        durations,
        vec![
            0.25, 0.5, 0.75, 1.0, 2.0, 3.0, 4.0, 5.0, 7.5, 10.0, 15.0, 20.0, 30.0, 60.0, 90.0,
            120.0, 300.0,
        ]
    );
    assert!(durations.windows(2).all(|w| w[0] < w[1]));
}

fn task_metrics() -> TaskMetrics {
    TaskMetrics {
        instrumented_count: 1,
        dropped_count: 2,
        first_poll_count: 3,
        total_idled_count: 4,
        total_poll_count: 5,
        total_fast_poll_count: 6,
        total_slow_poll_count: 7,
        total_short_delay_count: 8,
        total_long_delay_count: 9,
        total_first_poll_delay: 10,
        total_idle_duration: 11,
        total_scheduled_duration: 12,
        total_poll_duration: 13,
        total_fast_poll_duration: 14,
        total_slow_poll_duration: 15,
        total_short_delay_duration: 16,
        total_long_delay_duration: 17,
        max_idle_duration: 18,
    }
}

#[test]
fn described_counters_are_kept() {
    let updates = update_metrics(Subsystem::Client, task_metrics());
    let described = describe_task_metrics();
    assert_eq!(described.len(), 7);
    for d in &described[..6] {
        assert_eq!(d.unit, Some(Unit::Count));
        assert!(updates
            .iter()
            .any(|u| u.0.name == d.name && matches!(u.1, Reading::Increment(_))));
    }
    assert_eq!(described[6].name, get_panic_counter(Subsystem::Client).name);
    assert_eq!(described[6].text, "The total count of times the task panicked");
}

#[test]
fn task_metrics_are_reported() {
    let updates = update_metrics(Subsystem::Routing, task_metrics());
    assert_eq!(updates.len(), 18);
    for (i, (series, reading)) in updates.iter().enumerate() {
        assert_eq!((series.label, series.value), ("task", "api_routing"));
        let n = i as u64 + 1;
        let expected = match n {
            1..=9 => Reading::Increment(n),
            18 => Reading::Level(n as u128),
            _ => Reading::Observe(n as u128),
        };
        assert_eq!(*reading, expected);
    }
    assert_eq!(updates[3].0.name, "idled_count");
    assert_eq!(updates[17].0.name, "max_idle_duration");
}

#[test]
fn runtime_metrics_are_reported() {
    let updates = update_runtime_metrics(RuntimeMetrics {
        workers_count: 1,
        live_tasks_count: 2,
        global_queue_depth: 3,
        max_park_count: 4,
        min_park_count: 5,
        max_busy_duration: 6,
        min_busy_duration: 7,
        total_park_count: 8,
        total_busy_duration: (1u128 << 64) + 9,
        elapsed: 10,
    });
    let readings: Vec<(&str, Reading)> = updates.iter().map(|u| (u.name, u.reading)).collect();
    assert_eq!(
        readings,
        vec![
            ("workers_count", Reading::Number(1)),
            ("live_tasks_count", Reading::Number(2)),
            ("global_queue_depth", Reading::Number(3)),
            ("max_park_count", Reading::Number(4)),
            ("min_park_count", Reading::Number(5)),
            ("max_busy_duration", Reading::Level(6)),
            ("min_busy_duration", Reading::Level(7)),
            ("total_park_count", Reading::Increment(8)),
            ("total_busy_duration", Reading::Increment(9)),
            ("elapsed", Reading::Observe(10)),
        ]
    );
}

#[test]
fn audio_metrics_are_described() {
    let described = describe_audio_metrics();
    assert_eq!(described.len(), 3);
    assert_eq!(described[0].name, "media_duration_seconds");
    assert_eq!(described[0].unit, Some(Unit::Seconds));
    assert_eq!(described[1].text, "Duration of processing time.");
    assert_eq!(described[2].name, "rtf");
    assert_eq!(described[2].unit, None);
}

#[test]
fn every_subsystem_has_its_monitor() {
    let monitors = StreamingMonitors {
        route: 1,
        client_receiver: 2,
        audio_decoding: 3,
        inference: 4,
        metrics: 5,
    };
    assert_eq!(*monitors.get_monitor(Subsystem::Routing), 1);
    assert_eq!(*monitors.get_monitor(Subsystem::Client), 2);
    assert_eq!(*monitors.get_monitor(Subsystem::AudioDecoding), 3);
    assert_eq!(*monitors.get_monitor(Subsystem::Inference), 4);
    assert_eq!(*monitors.get_monitor(Subsystem::Metrics), 5);
}

#[test]
fn every_subsystem_is_reported_once() {
    let mut reports = StreamingMonitors::<TaskMetrics>::none();
    let mut totals = StreamingMonitors::<TaskMetrics>::none();
    totals.client_receiver = task_metrics();
    let changes = reports.run_collector(totals);
    assert_eq!(changes.len(), 90);
    let systems: Vec<&str> = changes.chunks(18).map(|c| c[0].0.value).collect();
    assert_eq!(systems, vec!["api_routing", "audio_decoding", "client", "inference", "metrics"]);
    for (i, (series, reading)) in changes.iter().enumerate() {
        assert_eq!(series.value, systems[i / 18]);
        if series.value == "client" {
            assert_eq!(*reading, update_metrics(Subsystem::Client, task_metrics())[i % 18].1);
        }
    }
}

#[test]
fn collecting_again_leaves_counters_alone() {
    let mut reports = StreamingMonitors::<TaskMetrics>::none();
    for _ in 0..2 {
        let mut totals = StreamingMonitors::<TaskMetrics>::none();
        totals.inference = task_metrics();
        let again = reports.inference == task_metrics();
        for (_, reading) in reports.run_collector(totals) {
            if let (true, Reading::Increment(n)) = (again, reading) {
                assert_eq!(n, 0);
            }
        }
        assert_eq!(reports.inference, task_metrics());
    }
}

#[test]
fn counters_stand_at_the_total() {
    let mut later = task_metrics();
    later.total_poll_count = 50;
    later.total_poll_duration = 130;
    later.max_idle_duration = 4;
    let gained = later.since(&task_metrics());
    assert_eq!(gained.total_poll_count, 45);
    assert_eq!(gained.total_poll_duration, 117);
    assert_eq!(gained.max_idle_duration, 4);
    assert_eq!(gained.dropped_count, 0);
    assert_eq!(task_metrics().since(&later).total_poll_count, 0);
    assert_eq!(task_metrics().since(&TaskMetrics::none()), task_metrics());

    let monitor = tokio_metrics::TaskMonitor::new();
    let runtime = tokio::runtime::Builder::new_current_thread().build().unwrap();
    let mut reports = StreamingMonitors::<TaskMetrics>::none();
    let mut counted = 0;
    for round in 1..4 {
        runtime.block_on(monitor.instrument(async {}));
        for _ in 0..2 {
            let mut totals = StreamingMonitors::<TaskMetrics>::none();
            totals.route.total_poll_count = monitor.cumulative().total_poll_count;
            for (series, reading) in reports.run_collector(totals) {
                if let ("total_poll_count", "api_routing", Reading::Increment(n)) =
                    (series.name, series.value, reading)
                {
                    counted += n;
                }
            }
            assert_eq!(counted, round);
        }
    }
}

#[test]
fn panics_are_put_into_words() {
    assert_eq!(panic_message(Some("a"), None), "a");
    assert_eq!(panic_message(None, Some("b")), "b");
    assert_eq!(panic_message(None, None), "Box<dyn Any>");
    assert_eq!(thread_label(Some("main")), "main");
    assert_eq!(thread_label(None), "<unnamed>");
    assert_eq!(location_label("src/main.rs", 120, 7), "src/main.rs:120:7");
    assert_eq!(panic_report("ohno", None), "ohno");
    assert_eq!(panic_report("ohno", Some("0: main")), "ohno\n\nStack backtrace:\n0: main");
}
