use ohabench::analysis::{
    generate_summary, AnalysisResult, BreakReason, StepStatus,
};
use ohabench::config::ThresholdConfig;
use ohabench::decimal::Decimal;
use ohabench::graph::{
    business_scales, calculate_dau_estimate, calculate_shared_y_ranges, calculate_x_range,
    calculate_y_ranges, format_business_scale_subtitle, format_latency_short, format_rate_short,
    format_short_number, format_termination_status, plotted_steps, shorten_url, visible_points,
};
use ohabench::output::{breaking_point_label, UrlBenchmarkResults};
use ohabench::runner::BenchmarkResult;

fn dec(whole: u64, millionths: u64) -> Decimal {
    Decimal { micros: whole * 1_000_000 + millionths }
}

fn step(target_rate: u32, p99_ms: u64, error_rate: u64) -> BenchmarkResult {
    BenchmarkResult {
        target_rate,
        p99_latency_ms: dec(p99_ms, 0),
        error_rate: dec(error_rate, 0),
        ..BenchmarkResult::default()
    }
}

fn plain(status: StepStatus) -> AnalysisResult {
    AnalysisResult { status, break_reason: BreakReason::NoBreak }
}

fn run_of(steps: Vec<(BenchmarkResult, StepStatus)>) -> UrlBenchmarkResults {
    let results: Vec<BenchmarkResult> = steps.iter().map(|s| s.0.clone()).collect();
    let analyses: Vec<AnalysisResult> = steps.iter().map(|s| plain(s.1)).collect();
    let summary = generate_summary(&results, &analyses, 30);
    UrlBenchmarkResults { url: "https://example.com".to_string(), results, analyses, summary }
}

#[test]
fn short_urls() {
    assert_eq!(shorten_url("https://example.com/"), "example.com");
    assert_eq!(shorten_url("http://example.com/a/b//"), "example.com/a/b");
    assert_eq!(shorten_url("https://https://http://http://x"), "x");
    assert_eq!(shorten_url("http://https://x"), "https://x");
    assert_eq!(shorten_url("example.com"), "example.com");
    assert_eq!(shorten_url(""), "");
    let long = format!("https://{}", "a".repeat(61));
    assert_eq!(shorten_url(&long), format!("{}...", "a".repeat(57)));
    let fits = format!("https://{}/", "a".repeat(60));
    assert_eq!(shorten_url(&fits), "a".repeat(60));
}

#[test]
fn how_a_run_ended() {
    let with = |status, break_reason| vec![plain(StepStatus::Healthy), AnalysisResult { status, break_reason }];
    assert_eq!(format_termination_status(&Vec::new()), None);
    assert_eq!(format_termination_status(&with(StepStatus::Healthy, BreakReason::NoBreak)), None);
    assert_eq!(format_termination_status(&with(StepStatus::Warning, BreakReason::NoBreak)), None);
    assert_eq!(
        format_termination_status(&with(StepStatus::Break, BreakReason::ErrorRate(dec(12, 340_000)))),
        Some("BREAK: Error Rate (12.3%)".to_string())
    );
    assert_eq!(
        format_termination_status(&with(StepStatus::Break, BreakReason::P99Latency(dec(3500, 600_000)))),
        Some("BREAK: P99 Latency (3501ms)".to_string())
    );
    assert_eq!(
        format_termination_status(&with(
            StepStatus::Break,
            BreakReason::ThroughputDegradation(dec(64, 500_000))
        )),
        Some("BREAK: Throughput Degradation (64%)".to_string())
    );
    assert_eq!(
        format_termination_status(&with(StepStatus::Break, BreakReason::NoBreak)),
        Some("BREAK: Threshold Exceeded".to_string())
    );
    assert_eq!(
        format_termination_status(&with(StepStatus::RateLimited, BreakReason::RateLimited(dec(9, 0)))),
        Some("RATE LIMITED".to_string())
    );
    assert_eq!(
        format_termination_status(&with(StepStatus::Blocked, BreakReason::Blocked(dec(9, 0)))),
        Some("BLOCKED".to_string())
    );
    assert_eq!(
        format_termination_status(&with(StepStatus::Hung, BreakReason::Hung)),
        Some("CONNECTION HUNG".to_string())
    );
    assert_eq!(
        format_termination_status(&with(StepStatus::Gone, BreakReason::NoResponses)),
        Some("NO RESPONSE".to_string())
    );
}

#[test]
fn numbers_in_short() {
    assert_eq!(format_short_number(0), "0");
    assert_eq!(format_short_number(999), "999");
    assert_eq!(format_short_number(1000), "1k");
    assert_eq!(format_short_number(250_000), "250k");
    assert_eq!(format_short_number(2500), "2k");
    assert_eq!(format_short_number(3500), "4k");
    assert_eq!(format_short_number(1_000_000), "1.0M");
    assert_eq!(format_short_number(1_250_000), "1.2M");
    assert_eq!(format_short_number(75_000_000), "75.0M");
}

#[test]
fn daily_users() {
    let run = run_of(vec![
        (step(50, 100, 0), StepStatus::Healthy),
        (step(200, 2999, 0), StepStatus::Warning),
        (step(100, 100, 0), StepStatus::Healthy),
        (step(400, 3000, 0), StepStatus::Warning),
        (step(800, 100, 50), StepStatus::Break),
    ]);
    assert_eq!(
        calculate_dau_estimate(&run.results, &run.analyses),
        ("~1.0M - 3.0M DAU".to_string(), true)
    );
    let run = run_of(vec![(step(50, 100, 0), StepStatus::Healthy)]);
    assert_eq!(
        calculate_dau_estimate(&run.results, &run.analyses),
        ("~250k+ DAU".to_string(), false)
    );
    let run = run_of(vec![(step(50, 100, 0), StepStatus::Hung)]);
    assert_eq!(calculate_dau_estimate(&run.results, &run.analyses), ("<5k DAU".to_string(), true));
    assert_eq!(
        calculate_dau_estimate(&Vec::new(), &Vec::new()),
        ("<5k DAU".to_string(), false)
    );
}

#[test]
fn spans_of_the_axes() {
    let runs = vec![
        run_of(vec![(step(0, 1, 1), StepStatus::Healthy), (step(100, 20, 3), StepStatus::Healthy)]),
        run_of(Vec::new()),
        run_of(vec![(step(50, 500, 2), StepStatus::Healthy), (step(75, 7, 9), StepStatus::Break)]),
    ];
    assert_eq!(calculate_x_range(&runs), (50, 100));
    assert_eq!(calculate_x_range(&Vec::new()), (0, 0));
    assert_eq!(calculate_x_range(&vec![run_of(vec![(step(0, 1, 1), StepStatus::Healthy)])]), (0, 0));
    assert_eq!(calculate_y_ranges(&runs[2].results), (dec(9, 0), dec(500, 0)));
    assert_eq!(calculate_y_ranges(&Vec::new()), (dec(0, 0), dec(0, 0)));
    let caps = |max_error_rate: Decimal, max_p99_ms: u32| {
        calculate_shared_y_ranges(&ThresholdConfig { max_error_rate, max_p99_ms })
    };
    assert_eq!(caps(dec(5, 0), 3000), (dec(5, 0), dec(3300, 0)));
    assert_eq!(caps(dec(80, 0), 3500), (dec(50, 0), dec(3500, 0)));
    assert_eq!(caps(dec(50, 0), 9000), (dec(50, 0), dec(4000, 0)));
}

#[test]
fn points_of_a_chart() {
    let terminal = vec![plain(StepStatus::Healthy), plain(StepStatus::Gone)];
    let open = vec![plain(StepStatus::Healthy), plain(StepStatus::Warning)];
    assert_eq!(plotted_steps(2, &terminal), 1);
    assert_eq!(plotted_steps(1, &terminal), 1);
    assert_eq!(plotted_steps(2, &open), 2);
    assert_eq!(plotted_steps(0, &Vec::new()), 0);
    let rates: Vec<Decimal> = [0, 0, 3, 0, 0, 0, 1].iter().map(|r| dec(*r, 0)).collect();
    assert_eq!(visible_points(&rates), vec![false, true, true, true, false, true, true]);
    assert_eq!(visible_points(&Vec::new()), Vec::<bool>::new());
    assert_eq!(visible_points(&vec![dec(0, 0)]), vec![false]);
}

#[test]
fn heading_of_the_breaking_point() {
    let run = run_of(vec![(step(50, 1, 1), StepStatus::RateLimited)]);
    assert_eq!(breaking_point_label(&run.summary), "Rate limited at:");
    let run = run_of(vec![(step(50, 1, 1), StepStatus::Blocked)]);
    assert_eq!(breaking_point_label(&run.summary), "Blocked at:");
    let run = run_of(vec![(step(50, 1, 1), StepStatus::Break)]);
    assert_eq!(breaking_point_label(&run.summary), "Breaking point:");
}

#[test]
fn labels_of_the_axes() {
    assert_eq!(format_latency_short(dec(0, 0)), "0us");
    assert_eq!(format_latency_short(dec(0, 500_000)), "500us");
    assert_eq!(format_latency_short(dec(2, 400_000)), "2ms");
    assert_eq!(format_latency_short(dec(2500, 0)), "2.5s");
    assert_eq!(format_rate_short(dec(7, 0)), "7");
    assert_eq!(format_rate_short(dec(0, 250_000)), "0.2");
    assert_eq!(format_rate_short(dec(99, 500_000)), "99.5");
    assert_eq!(format_rate_short(dec(100, 0)), "100");
    assert_eq!(format_rate_short(dec(999, 400_000)), "999");
    assert_eq!(format_rate_short(dec(1500, 0)), "1.5k");
    assert_eq!(format_rate_short(dec(2000, 0)), "2k");
    assert_eq!(format_rate_short(dec(12_345, 0)), "12.3k");
    assert_eq!(format_rate_short(dec(150_000, 0)), "150k");
}

#[test]
fn classes_of_services() {
    assert_eq!(
        format_business_scale_subtitle(),
        "Classed by Internal 1-5 | Local 5-20 | Regional 20-100 | National 100-1k | Global 1k+"
    );
    let scales = business_scales();
    assert_eq!(scales.len(), 5);
    assert_eq!(scales[0].min_rate, 1);
    assert_eq!(scales[3].max_rate, Some(1000));
    assert_eq!(scales[4].max_rate, None);
    assert_eq!(scales[4].label, "Global");
}
