use estrange::metrics::{init_metrics, metrics, MetricsSlot};
use estrange::session::SessionTimer;
use prometheus::proto::MetricFamily;

fn counter(families: &[MetricFamily], name: &str) -> u64 {
    families.iter().find(|f| f.name() == name).unwrap().get_metric()[0].get_counter().value() as u64
}

fn histogram(families: &[MetricFamily], name: &str) -> (u64, u64) {
    let f = families.iter().find(|f| f.name() == name).unwrap();
    let h = f.get_metric()[0].get_histogram();
    (h.get_sample_count(), h.get_sample_sum() as u64)
}

fn ready_slot() -> MetricsSlot {
    let mut slot = MetricsSlot::new();
    init_metrics(&mut slot).unwrap();
    slot
}

#[test]
fn a_new_timer_is_not_finalized() {
    let mut t = SessionTimer::new();
    assert!(!t.finalized());
    t.start_response();
    assert!(!t.finalized());
}

#[test]
fn finish_records_response_and_session() {
    let mut slot = ready_slot();
    let mut t = SessionTimer::new();
    t.start_response();
    t.finish_after("Viridian-grey, the color of...", 42, 100, &mut slot);
    assert!(t.finalized());
    let f = metrics(&slot).unwrap().export_metrics();
    assert_eq!(counter(&f, "estrange_responses_completed_total"), 1);
    assert_eq!(counter(&f, "estrange_sessions_completed_total"), 1);
    assert_eq!(counter(&f, "estrange_responses_abandoned_total"), 0);
    assert_eq!(histogram(&f, "estrange_response_words"), (1, 4));
    assert_eq!(histogram(&f, "estrange_response_duration_seconds"), (1, 42));
    assert_eq!(histogram(&f, "estrange_session_duration_seconds"), (1, 100));
}

#[test]
fn finish_followed_by_scope_exit_counts_once() {
    let mut slot = ready_slot();
    let mut t = SessionTimer::new();
    t.finish_after("some words here", 5, 9, &mut slot);
    t.flush_after(12, &mut slot);
    t.flush_after(15, &mut slot);
    let f = metrics(&slot).unwrap().export_metrics();
    assert_eq!(counter(&f, "estrange_sessions_completed_total"), 1);
    assert_eq!(histogram(&f, "estrange_session_duration_seconds"), (1, 9));
}

#[test]
fn abandon_records_the_session_too() {
    let mut slot = ready_slot();
    let mut t = SessionTimer::new();
    t.abandon_after(33, &mut slot);
    assert!(t.finalized());
    t.flush_after(40, &mut slot);
    let f = metrics(&slot).unwrap().export_metrics();
    assert_eq!(counter(&f, "estrange_responses_abandoned_total"), 1);
    assert_eq!(counter(&f, "estrange_responses_completed_total"), 0);
    assert_eq!(counter(&f, "estrange_sessions_completed_total"), 1);
    assert_eq!(histogram(&f, "estrange_session_duration_seconds"), (1, 33));
}

#[test]
fn scope_exit_alone_records_a_session_that_took_time() {
    let mut slot = ready_slot();
    let mut t = SessionTimer::new();
    t.flush_after(7, &mut slot);
    assert!(t.finalized());
    t.flush_after(8, &mut slot);
    let f = metrics(&slot).unwrap().export_metrics();
    assert_eq!(counter(&f, "estrange_sessions_completed_total"), 1);
    assert_eq!(histogram(&f, "estrange_session_duration_seconds"), (1, 7));
}

#[test]
fn scope_exit_after_no_time_records_nothing() {
    let mut slot = ready_slot();
    let mut t = SessionTimer::new();
    t.flush_after(0, &mut slot);
    assert!(t.finalized());
    let f = metrics(&slot).unwrap().export_metrics();
    assert_eq!(counter(&f, "estrange_sessions_completed_total"), 0);
}

#[test]
fn without_metrics_the_timer_only_finalizes() {
    let mut slot = MetricsSlot::new();
    let mut t = SessionTimer::new();
    t.finish_after("words", 1, 2, &mut slot);
    assert!(t.finalized());
    assert!(metrics(&slot).is_none());
    let mut u = SessionTimer::new();
    u.abandon(&mut slot);
    assert!(u.finalized());
    let mut v = SessionTimer::new();
    v.flush_on_exit(&mut slot);
    assert!(v.finalized());
}

#[test]
fn the_clock_versions_record_once() {
    let mut slot = ready_slot();
    let mut t = SessionTimer::new();
    t.start_response();
    t.finish_with_response("two words", &mut slot);
    t.flush_on_exit(&mut slot);
    let f = metrics(&slot).unwrap().export_metrics();
    assert_eq!(counter(&f, "estrange_responses_completed_total"), 1);
    assert_eq!(counter(&f, "estrange_sessions_completed_total"), 1);
    assert_eq!(histogram(&f, "estrange_response_words"), (1, 2));
    let (count, sum) = histogram(&f, "estrange_session_duration_seconds");
    assert_eq!(count, 1);
    assert!(sum < 5);
}

#[test]
fn a_response_that_never_began_took_no_time() {
    let mut slot = ready_slot();
    let mut t = SessionTimer::new();
    t.finish_with_response("three words here", &mut slot);
    let f = metrics(&slot).unwrap().export_metrics();
    assert_eq!(counter(&f, "estrange_responses_completed_total"), 1);
    assert_eq!(histogram(&f, "estrange_response_words"), (1, 3));
    assert_eq!(histogram(&f, "estrange_response_duration_seconds"), (1, 0));
}
