use ohabench::analysis::{
    analyze_result, get_dominant_error_status, AnalysisResult, BreakReason, StepStatus,
};
use ohabench::config::ThresholdConfig;
use ohabench::decimal::Decimal;
use ohabench::runner::{hung_result, BenchmarkResult};

fn dec(whole: u64, millionths: u64) -> Decimal {
    Decimal { micros: whole * 1_000_000 + millionths }
}

fn healthy(target_rate: u32) -> BenchmarkResult {
    BenchmarkResult {
        target_rate,
        actual_rate: dec(target_rate as u64, 0),
        avg_latency_ms: dec(50, 0),
        p50_latency_ms: dec(40, 0),
        p90_latency_ms: dec(80, 0),
        p99_latency_ms: dec(100, 0),
        max_latency_ms: dec(200, 0),
        total_requests: 1000,
        ..BenchmarkResult::default()
    }
}

fn status_of(r: &BenchmarkResult) -> StepStatus {
    analyze_result(r, &ThresholdConfig::default()).status
}

#[test]
fn hung_outranks_everything() {
    let mut r = healthy(100);
    r.hung = true;
    r.error_rate = dec(100, 0);
    r.error_status_codes = vec![(429, 50)];
    r.p99_latency_ms = dec(9000, 0);
    let a = analyze_result(&r, &ThresholdConfig::default());
    assert_eq!(a, AnalysisResult { status: StepStatus::Hung, break_reason: BreakReason::Hung });
    let a = analyze_result(&hung_result(100), &ThresholdConfig::default());
    assert_eq!(a.status, StepStatus::Hung);
}

#[test]
fn no_latency_with_throughput_is_gone() {
    let mut r = healthy(100);
    r.avg_latency_ms = dec(0, 0);
    r.p99_latency_ms = dec(0, 0);
    r.error_rate = dec(100, 0);
    let a = analyze_result(&r, &ThresholdConfig::default());
    assert_eq!(
        a,
        AnalysisResult { status: StepStatus::Gone, break_reason: BreakReason::NoResponses }
    );
    r.actual_rate = dec(0, 0);
    assert_eq!(status_of(&r), StepStatus::Break);
}

#[test]
fn plurality_of_429_is_rate_limited() {
    let mut r = healthy(100);
    r.error_rate = dec(60, 0);
    r.error_status_codes = vec![(429, 50), (500, 10)];
    let a = analyze_result(&r, &ThresholdConfig::default());
    assert_eq!(a.status, StepStatus::RateLimited);
    assert_eq!(a.break_reason, BreakReason::RateLimited(dec(60, 0)));
    assert_eq!(get_dominant_error_status(&r), Some(429));
}

#[test]
fn plurality_of_403_is_blocked() {
    let mut r = healthy(100);
    r.error_rate = dec(12, 500_000);
    r.error_status_codes = vec![(403, 50), (429, 49)];
    let a = analyze_result(&r, &ThresholdConfig::default());
    assert_eq!(a.status, StepStatus::Blocked);
    assert_eq!(a.break_reason, BreakReason::Blocked(dec(12, 500_000)));
}

#[test]
fn other_errors_are_a_break() {
    let mut r = healthy(100);
    r.error_rate = dec(5, 1);
    r.error_status_codes = vec![(500, 50), (429, 49)];
    let a = analyze_result(&r, &ThresholdConfig::default());
    assert_eq!(a.status, StepStatus::Break);
    assert_eq!(a.break_reason, BreakReason::ErrorRate(dec(5, 1)));
    r.error_status_codes = Vec::new();
    assert_eq!(status_of(&r), StepStatus::Break);
    assert_eq!(get_dominant_error_status(&r), None);
}

#[test]
fn error_rate_at_the_threshold_does_not_break() {
    let mut r = healthy(100);
    r.error_rate = dec(5, 0);
    r.error_status_codes = vec![(429, 5)];
    assert_eq!(status_of(&r), StepStatus::Warning);
}

#[test]
fn slow_p99_is_a_break() {
    let mut r = healthy(100);
    r.p99_latency_ms = dec(3000, 1);
    let a = analyze_result(&r, &ThresholdConfig::default());
    assert_eq!(a.status, StepStatus::Break);
    assert_eq!(a.break_reason, BreakReason::P99Latency(dec(3000, 1)));
    r.p99_latency_ms = dec(3000, 0);
    assert_eq!(status_of(&r), StepStatus::Warning);
}

#[test]
fn throughput_below_seventy_percent_is_a_break() {
    let mut r = healthy(100);
    r.actual_rate = dec(69, 900_000);
    let a = analyze_result(&r, &ThresholdConfig::default());
    assert_eq!(a.status, StepStatus::Break);
    assert_eq!(a.break_reason, BreakReason::ThroughputDegradation(dec(69, 900_000)));
    r.actual_rate = dec(70, 0);
    assert_eq!(status_of(&r), StepStatus::Healthy);
    let mut r = healthy(3);
    r.actual_rate = dec(1, 0);
    let a = analyze_result(&r, &ThresholdConfig::default());
    assert_eq!(a.break_reason, BreakReason::ThroughputDegradation(dec(33, 333_333)));
}

#[test]
fn target_of_zero_never_degrades() {
    let mut r = healthy(0);
    r.actual_rate = dec(0, 0);
    assert_eq!(status_of(&r), StepStatus::Healthy);
}

#[test]
fn approaching_a_threshold_is_a_warning() {
    let mut r = healthy(100);
    r.error_rate = dec(2, 500_001);
    assert_eq!(
        analyze_result(&r, &ThresholdConfig::default()),
        AnalysisResult { status: StepStatus::Warning, break_reason: BreakReason::NoBreak }
    );
    r.error_rate = dec(2, 500_000);
    assert_eq!(status_of(&r), StepStatus::Healthy);
    r.error_rate = dec(0, 0);
    r.p99_latency_ms = dec(2100, 1);
    assert_eq!(status_of(&r), StepStatus::Warning);
    r.p99_latency_ms = dec(2100, 0);
    assert_eq!(
        analyze_result(&r, &ThresholdConfig::default()),
        AnalysisResult { status: StepStatus::Healthy, break_reason: BreakReason::NoBreak }
    );
}

#[test]
fn thresholds_are_taken_from_the_configuration() {
    let mut r = healthy(100);
    r.error_rate = dec(1, 0);
    r.error_status_codes = vec![(503, 10)];
    let strict = ThresholdConfig { max_error_rate: dec(0, 500_000), max_p99_ms: 50 };
    assert_eq!(analyze_result(&r, &strict).status, StepStatus::Break);
    r.error_rate = dec(0, 0);
    assert_eq!(
        analyze_result(&r, &strict).break_reason,
        BreakReason::P99Latency(dec(100, 0))
    );
}

#[test]
fn classifying_twice_gives_the_same() {
    let mut r = healthy(100);
    r.error_rate = dec(60, 0);
    r.error_status_codes = vec![(429, 50), (500, 10)];
    let t = ThresholdConfig::default();
    assert_eq!(analyze_result(&r, &t), analyze_result(&r, &t));
    assert_eq!(analyze_result(&r.clone(), &t), analyze_result(&r, &t));
}

#[test]
fn labels_and_descriptions() {
    assert_eq!(StepStatus::Healthy.label(), "OK");
    assert_eq!(StepStatus::Warning.label(), "WARN");
    assert_eq!(StepStatus::Break.label(), "BREAK");
    assert_eq!(StepStatus::RateLimited.label(), "RATE");
    assert_eq!(StepStatus::Blocked.label(), "BLOCK");
    assert_eq!(StepStatus::Hung.label(), "HANG");
    assert_eq!(StepStatus::Gone.label(), "GONE");
    assert_eq!(
        BreakReason::ErrorRate(dec(10, 0)).describe(),
        "Error rate exceeded threshold (10.0%)"
    );
    assert_eq!(
        BreakReason::RateLimited(dec(60, 250_000)).describe(),
        "Rate limited by server (60.2% errors)"
    );
    assert_eq!(
        BreakReason::Blocked(dec(99, 960_000)).describe(),
        "Blocked by WAF/security (100.0% errors)"
    );
    assert_eq!(
        BreakReason::P99Latency(dec(3500, 400_000)).describe(),
        "p99 latency exceeded threshold (3500ms)"
    );
    assert_eq!(
        BreakReason::ThroughputDegradation(dec(33, 350_000)).describe(),
        "Throughput degradation (33.4% of target)"
    );
    assert_eq!(BreakReason::Hung.describe(), "Server stopped responding");
    assert_eq!(BreakReason::NoResponses.describe(), "No successful responses received");
    assert_eq!(BreakReason::NoBreak.describe(), "");
}
