use ohabench::analysis::StepStatus;
use ohabench::cli::RampingMode;
use ohabench::config::BenchmarkConfig;
use ohabench::controller::{status_stops_run, RunAction, RunError, RunState};
use ohabench::decimal::Decimal;
use ohabench::runner::{BenchmarkResult, StepOutcome};

fn dec(whole: u64) -> Decimal {
    Decimal { micros: whole * 1_000_000 }
}

fn config(start: u32, max: u32, step: u32, cooldown: u32) -> BenchmarkConfig {
    let mut c = BenchmarkConfig::default();
    c.ramping.start_rate = start;
    c.ramping.max_rate = max;
    c.ramping.step = step;
    c.cooldown_seconds = cooldown;
    c
}

fn healthy(target_rate: u32) -> BenchmarkResult {
    BenchmarkResult {
        target_rate,
        actual_rate: dec(target_rate as u64),
        avg_latency_ms: dec(50),
        p99_latency_ms: dec(100),
        total_requests: 1000,
        ..BenchmarkResult::default()
    }
}

fn broken(target_rate: u32) -> BenchmarkResult {
    BenchmarkResult { error_rate: dec(50), ..healthy(target_rate) }
}

fn start(c: &BenchmarkConfig) -> RunState {
    match RunState::start(c) {
        Ok(state) => state,
        Err(_) => panic!("the ramp holds rates"),
    }
}

#[test]
fn ramp_without_rates_is_refused() {
    match RunState::start(&config(200, 100, 50, 0)) {
        Ok(_) => panic!("a run started without rates"),
        Err(e) => assert_eq!(e, RunError::NoRates),
    }
}

#[test]
fn steps_follow_the_rates() {
    let mut state = start(&config(50, 150, 50, 0));
    assert_eq!(state.rates(), &vec![50, 100, 150]);
    for rate in [50u32, 100, 150] {
        assert_eq!(state.next_action(), RunAction::RunStep { rate });
        state = state.record_result(healthy(rate));
    }
    assert_eq!(state.next_action(), RunAction::Finish);
    assert_eq!(state.results().len(), 3);
    assert!(state.analyses().iter().all(|a| a.status == StepStatus::Healthy));
    let summary = state.summary();
    assert_eq!(summary.breaking_point_rate, None);
    assert_eq!(summary.last_stable_rate, Some(150));
    assert_eq!(summary.recommended_rate, Some(120));
    assert_eq!(summary.total_duration_seconds, 90);
    assert_eq!(summary.total_requests, 3000);
}

#[test]
fn a_break_ends_the_run() {
    let mut state = start(&config(50, 150, 50, 0));
    state = state.record_result(healthy(50));
    state = state.record_result(broken(100));
    assert_eq!(state.next_action(), RunAction::Finish);
    assert_eq!(state.analyses()[1].status, StepStatus::Break);
    let summary = state.summary();
    assert_eq!(summary.breaking_point_rate, Some(100));
    assert_eq!(summary.last_stable_rate, Some(50));
    let (results, analyses) = state.into_parts();
    assert_eq!(results.len(), 2);
    assert_eq!(analyses.len(), 2);
}

#[test]
fn cooldown_comes_between_steps_only() {
    let mut state = start(&config(50, 100, 50, 3));
    assert_eq!(state.next_action(), RunAction::RunStep { rate: 50 });
    state = state.record_result(healthy(50));
    assert_eq!(state.next_action(), RunAction::Cooldown { seconds: 3 });
    state = state.cooldown_done();
    assert_eq!(state.next_action(), RunAction::RunStep { rate: 100 });
    state = state.record_result(healthy(100));
    assert_eq!(state.next_action(), RunAction::Finish);
}

#[test]
fn no_cooldown_after_a_break() {
    let mut state = start(&config(50, 150, 50, 3));
    state = state.record_result(broken(50));
    assert_eq!(state.next_action(), RunAction::Finish);
}

#[test]
fn gone_does_not_end_the_run() {
    let mut state = start(&config(50, 150, 50, 0));
    let gone = BenchmarkResult {
        target_rate: 50,
        actual_rate: dec(50),
        ..BenchmarkResult::default()
    };
    state = state.record_result(gone);
    assert_eq!(state.analyses()[0].status, StepStatus::Gone);
    assert_eq!(state.next_action(), RunAction::RunStep { rate: 100 });
    assert_eq!(state.summary().breaking_point_rate, Some(50));
}

#[test]
fn timeout_is_recorded_as_hung() {
    let mut state = start(&config(50, 150, 50, 5));
    state = state.record_outcome(&StepOutcome::TimedOut);
    assert_eq!(state.next_action(), RunAction::Finish);
    let r = &state.results()[0];
    assert!(r.hung);
    assert_eq!(r.target_rate, 50);
    assert_eq!(r.error_rate, dec(100));
    assert_eq!(r.total_requests, 0);
    assert_eq!(state.analyses()[0].status, StepStatus::Hung);
}

#[test]
fn output_of_both_channels_is_read() {
    let mut c = config(10, 20, 10, 0);
    c.ramping.mode = RampingMode::Exponential;
    let mut state = start(&c);
    let outcome = StepOutcome::Completed {
        stdout: "  Average: 12.5 ms\n  Requests/sec: 10.0\n  99.00% in 20.0 ms\n  [200] 9 responses".to_string(),
        stderr: "  [503] 1 responses\n".to_string(),
    };
    state = state.record_outcome(&outcome);
    let r = &state.results()[0];
    assert_eq!(r.target_rate, 10);
    assert_eq!(r.total_requests, 10);
    assert_eq!(r.errors, 1);
    assert_eq!(r.error_rate, dec(10));
    assert_eq!(r.error_status_codes, vec![(503u32, 1u64)]);
    assert_eq!(state.analyses()[0].status, StepStatus::Break);
    assert_eq!(state.next_action(), RunAction::Finish);
}

#[test]
fn failure_to_start_ends_the_run() {
    let mut state = start(&config(50, 150, 50, 0));
    state = state.record_result(healthy(50));
    state = state.record_failure();
    assert_eq!(state.next_action(), RunAction::Finish);
    assert_eq!(state.results().len(), 1);
    assert_eq!(state.summary().last_stable_rate, Some(50));
}

#[test]
fn statuses_that_stop_a_run() {
    assert!(status_stops_run(StepStatus::Break));
    assert!(status_stops_run(StepStatus::RateLimited));
    assert!(status_stops_run(StepStatus::Blocked));
    assert!(status_stops_run(StepStatus::Hung));
    assert!(!status_stops_run(StepStatus::Gone));
    assert!(!status_stops_run(StepStatus::Warning));
    assert!(!status_stops_run(StepStatus::Healthy));
}
