use estrange::metrics::{
    clamp, duration_buckets, init_metrics, metrics, metrics_mut, word_buckets, EstrangeMetrics,
    MetricsError, MetricsSlot,
};
use prometheus::proto::{MetricFamily, MetricType};

fn family<'a>(families: &'a [MetricFamily], name: &str) -> &'a MetricFamily {
    families.iter().find(|f| f.name() == name).unwrap()
}

fn counter(families: &[MetricFamily], name: &str) -> u64 {
    family(families, name).get_metric()[0].get_counter().value() as u64
}

fn gauge(families: &[MetricFamily], name: &str) -> i64 {
    family(families, name).get_metric()[0].get_gauge().value() as i64
}

fn command_count(families: &[MetricFamily], command: &str) -> u64 {
    families
        .iter()
        .find(|f| f.name() == "estrange_command_usage_total")
        .and_then(|f| {
            f.get_metric().iter().find(|m| m.get_label().iter().any(|l| l.value() == command))
        })
        .map(|m| m.get_counter().value() as u64)
        .unwrap_or(0)
}

fn buckets(families: &[MetricFamily], name: &str) -> Vec<(u64, u64)> {
    family(families, name).get_metric()[0]
        .get_histogram()
        .get_bucket()
        .iter()
        .map(|b| (b.upper_bound() as u64, b.cumulative_count()))
        .collect()
}

fn totals(families: &[MetricFamily], name: &str) -> (u64, u64) {
    let h = family(families, name).get_metric()[0].get_histogram();
    (h.get_sample_count(), h.get_sample_sum() as u64)
}

#[test]
fn fresh_metrics_read_zero_everywhere() {
    let m = EstrangeMetrics::new().unwrap();
    let f = m.export_metrics();
    let names: Vec<&str> = f.iter().map(|x| x.name()).collect();
    assert_eq!(
        names,
        vec![
            "estrange_archive_exports_total",
            "estrange_current_streak_days",
            "estrange_prompts_generated_total",
            "estrange_prompts_manual_total",
            "estrange_response_duration_seconds",
            "estrange_response_words",
            "estrange_responses_abandoned_total",
            "estrange_responses_completed_total",
            "estrange_search_queries_total",
            "estrange_session_duration_seconds",
            "estrange_sessions_completed_total",
            "estrange_total_entries",
        ]
    );
    for name in [
        "estrange_archive_exports_total",
        "estrange_prompts_generated_total",
        "estrange_prompts_manual_total",
        "estrange_responses_abandoned_total",
        "estrange_responses_completed_total",
        "estrange_search_queries_total",
        "estrange_sessions_completed_total",
    ] {
        assert_eq!(counter(&f, name), 0, "{}", name);
        assert_eq!(family(&f, name).get_field_type(), MetricType::COUNTER);
    }
    assert_eq!(gauge(&f, "estrange_current_streak_days"), 0);
    assert_eq!(gauge(&f, "estrange_total_entries"), 0);
    assert_eq!(family(&f, "estrange_total_entries").get_field_type(), MetricType::GAUGE);
    assert_eq!(family(&f, "estrange_response_words").get_field_type(), MetricType::HISTOGRAM);
    assert_eq!(family(&f, "estrange_response_words").help(), "Word count distribution of responses");
    assert_eq!(totals(&f, "estrange_response_words"), (0, 0));
    assert_eq!(
        buckets(&f, "estrange_response_words"),
        vec![(10, 0), (25, 0), (50, 0), (100, 0), (250, 0), (500, 0), (1000, 0)]
    );
    assert_eq!(
        buckets(&f, "estrange_session_duration_seconds"),
        vec![(30, 0), (60, 0), (300, 0), (600, 0), (1200, 0), (1800, 0)]
    );
    assert_eq!(
        buckets(&f, "estrange_response_duration_seconds"),
        vec![(30, 0), (60, 0), (300, 0), (600, 0), (1200, 0), (1800, 0)]
    );
}

#[test]
fn setting_up_twice_gives_two_independent_sets() {
    let mut a = EstrangeMetrics::new().unwrap();
    let b = EstrangeMetrics::new().unwrap();
    a.search_performed();
    assert_eq!(counter(&a.export_metrics(), "estrange_search_queries_total"), 1);
    assert_eq!(counter(&b.export_metrics(), "estrange_search_queries_total"), 0);
}

#[test]
fn the_readout_is_in_order_of_name_with_and_without_commands() {
    let mut m = EstrangeMetrics::new().unwrap();
    let before: Vec<String> = m.export_metrics().iter().map(|f| f.name().to_string()).collect();
    assert_eq!(before.len(), 12);
    assert!(before.windows(2).all(|w| w[0] < w[1]));
    assert!(!before.contains(&"estrange_command_usage_total".to_string()));
    m.command_used("witness");
    let after: Vec<String> = m.export_metrics().iter().map(|f| f.name().to_string()).collect();
    assert_eq!(after.len(), 13);
    assert!(after.windows(2).all(|w| w[0] < w[1]));
    assert_eq!(after[1], "estrange_command_usage_total");
}

#[test]
fn bucket_boundaries_are_fixed() {
    assert_eq!(word_buckets(), vec![10, 25, 50, 100, 250, 500, 1000]);
    assert_eq!(duration_buckets(), vec![30, 60, 300, 600, 1200, 1800]);
}

#[test]
fn clamp_holds_large_values_at_the_limit() {
    assert_eq!(clamp(0), 0);
    assert_eq!(clamp(4_294_967_295), u32::MAX);
    assert_eq!(clamp(4_294_967_296), u32::MAX);
    assert_eq!(clamp(u64::MAX), u32::MAX);
    assert_eq!(clamp(1800), 1800);
}

#[test]
fn counters_count_events() {
    let mut m = EstrangeMetrics::new().unwrap();
    m.prompt_generated(40);
    m.prompt_generated(2);
    m.prompt_manual(7);
    m.response_abandoned();
    m.search_performed();
    m.search_performed();
    m.archive_exported();
    m.update_streak(12);
    m.update_total_entries(-3);
    let f = m.export_metrics();
    assert_eq!(counter(&f, "estrange_prompts_generated_total"), 2);
    assert_eq!(counter(&f, "estrange_prompts_manual_total"), 1);
    assert_eq!(counter(&f, "estrange_responses_abandoned_total"), 1);
    assert_eq!(counter(&f, "estrange_search_queries_total"), 2);
    assert_eq!(counter(&f, "estrange_archive_exports_total"), 1);
    assert_eq!(counter(&f, "estrange_responses_completed_total"), 0);
    assert_eq!(counter(&f, "estrange_sessions_completed_total"), 0);
    assert_eq!(gauge(&f, "estrange_current_streak_days"), 12);
    assert_eq!(gauge(&f, "estrange_total_entries"), -3);
}

#[test]
fn gauges_take_the_last_value() {
    let mut m = EstrangeMetrics::new().unwrap();
    m.update_streak(5);
    m.update_streak(2);
    m.update_total_entries(i64::MAX);
    m.update_total_entries(9);
    let f = m.export_metrics();
    assert_eq!(gauge(&f, "estrange_current_streak_days"), 2);
    assert_eq!(gauge(&f, "estrange_total_entries"), 9);
}

#[test]
fn a_prompt_counts_once_whatever_its_length() {
    let mut m = EstrangeMetrics::new().unwrap();
    m.prompt_generated(0);
    m.prompt_generated(1);
    m.prompt_generated(usize::MAX);
    m.prompt_manual(0);
    m.prompt_manual(500);
    let f = m.export_metrics();
    assert_eq!(counter(&f, "estrange_prompts_generated_total"), 3);
    assert_eq!(counter(&f, "estrange_prompts_manual_total"), 2);
}

#[test]
fn command_count_equals_the_number_of_uses() {
    let mut m = EstrangeMetrics::new().unwrap();
    assert_eq!(command_count(&m.export_metrics(), "x"), 0);
    let mut n: u64 = 0;
    while n < 1000 {
        m.command_used("x");
        n += 1;
        if n % 3 == 0 {
            m.command_used("y");
        }
        if n % 100 == 0 {
            assert_eq!(command_count(&m.export_metrics(), "x"), n);
        }
    }
    let f = m.export_metrics();
    assert_eq!(command_count(&f, "x"), 1000);
    assert_eq!(command_count(&f, "y"), 333);
    assert_eq!(command_count(&f, "z"), 0);
    assert_eq!(command_count(&f, "X"), 0);
}

#[test]
fn command_usage_is_read_out_by_label() {
    let mut m = EstrangeMetrics::new().unwrap();
    m.command_used("retrace");
    m.command_used("receive");
    m.command_used("retrace");
    let f = m.export_metrics();
    let usage = family(&f, "estrange_command_usage_total");
    assert_eq!(usage.help(), "Usage count by command");
    let read: Vec<(String, String, u64)> = usage
        .get_metric()
        .iter()
        .map(|s| {
            let l = &s.get_label()[0];
            (l.name().to_string(), l.value().to_string(), s.get_counter().value() as u64)
        })
        .collect();
    assert_eq!(
        read,
        vec![
            ("command".to_string(), "receive".to_string(), 1),
            ("command".to_string(), "retrace".to_string(), 2),
        ]
    );
}

#[test]
fn a_completed_response_is_observed_in_both_histograms() {
    let mut m = EstrangeMetrics::new().unwrap();
    m.response_completed(10, 45);
    m.response_completed(11, 30);
    m.response_completed(5000, 10_000);
    m.session_completed(1800);
    let f = m.export_metrics();
    assert_eq!(counter(&f, "estrange_responses_completed_total"), 3);
    assert_eq!(counter(&f, "estrange_sessions_completed_total"), 1);
    assert_eq!(totals(&f, "estrange_response_words"), (3, 5021));
    assert_eq!(
        buckets(&f, "estrange_response_words"),
        vec![(10, 1), (25, 2), (50, 2), (100, 2), (250, 2), (500, 2), (1000, 2)]
    );
    assert_eq!(totals(&f, "estrange_response_duration_seconds"), (3, 10_075));
    assert_eq!(
        buckets(&f, "estrange_response_duration_seconds"),
        vec![(30, 1), (60, 2), (300, 2), (600, 2), (1200, 2), (1800, 2)]
    );
    assert_eq!(totals(&f, "estrange_session_duration_seconds"), (1, 1800));
    assert_eq!(
        buckets(&f, "estrange_session_duration_seconds"),
        vec![(30, 0), (60, 0), (300, 0), (600, 0), (1200, 0), (1800, 1)]
    );
}

#[test]
fn observations_beyond_the_limit_are_held_at_it() {
    let mut m = EstrangeMetrics::new().unwrap();
    m.session_completed(u64::MAX);
    m.response_completed(usize::MAX, 4_294_967_296);
    let f = m.export_metrics();
    assert_eq!(totals(&f, "estrange_session_duration_seconds"), (1, 4_294_967_295));
    assert_eq!(totals(&f, "estrange_response_duration_seconds"), (1, 4_294_967_295));
    assert_eq!(totals(&f, "estrange_response_words"), (1, 4_294_967_295));
}

#[test]
fn metrics_are_absent_until_set_up() {
    let mut slot = MetricsSlot::new();
    assert!(metrics(&slot).is_none());
    assert!(metrics_mut(&mut slot).is_none());
}

#[test]
fn metrics_are_set_up_once() {
    let mut slot = MetricsSlot::new();
    assert_eq!(init_metrics(&mut slot), Ok(()));
    metrics_mut(&mut slot).unwrap().command_used("x");
    assert_eq!(init_metrics(&mut slot), Err(MetricsError::AlreadyInitialized));
    assert_eq!(command_count(&metrics(&slot).unwrap().export_metrics(), "x"), 1);
}

#[test]
fn install_fills_an_empty_slot_only() {
    let mut slot = MetricsSlot::new();
    assert_eq!(slot.install(Err(MetricsError::Setup)), Err(MetricsError::Setup));
    assert!(metrics(&slot).is_none());
    assert_eq!(slot.install(EstrangeMetrics::new()), Ok(()));
    metrics_mut(&mut slot).unwrap().search_performed();
    assert_eq!(slot.install(EstrangeMetrics::new()), Err(MetricsError::AlreadyInitialized));
    assert_eq!(slot.install(Err(MetricsError::Setup)), Err(MetricsError::AlreadyInitialized));
    assert_eq!(counter(&metrics(&slot).unwrap().export_metrics(), "estrange_search_queries_total"), 1);
}

#[test]
fn reading_out_leaves_the_metrics_as_they_are() {
    let mut m = EstrangeMetrics::new().unwrap();
    m.search_performed();
    let a = m.export_metrics();
    let b = m.export_metrics();
    assert_eq!(counter(&a, "estrange_search_queries_total"), 1);
    assert_eq!(counter(&b, "estrange_search_queries_total"), 1);
    assert_eq!(a.len(), b.len());
}
