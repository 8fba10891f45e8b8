use ohabench::analysis::{analyze_result, generate_summary, AnalysisResult};
use ohabench::config::BenchmarkConfig;
use ohabench::decimal::Decimal;
use ohabench::output::{generate_report_text, UrlBenchmarkResults};
use ohabench::runner::BenchmarkResult;

const RULE: &str =
    "═══════════════════════════════════════════════════════════════════════════════";

const HEAD: &str =
    " Target    Actual   Avg Lat      p50      p90      p99      Max  Err Rate  Status";

const DASHES: &str =
    "------- --------- --------- -------- -------- -------- -------- --------- -------";

fn dec(whole: u64, millionths: u64) -> Decimal {
    Decimal { micros: whole * 1_000_000 + millionths }
}

fn run_of(url: &str, results: Vec<BenchmarkResult>, config: &BenchmarkConfig) -> UrlBenchmarkResults {
    let analyses: Vec<AnalysisResult> =
        results.iter().map(|r| analyze_result(r, &config.thresholds)).collect();
    let summary = generate_summary(&results, &analyses, config.ramping.duration_seconds);
    UrlBenchmarkResults { url: url.to_string(), results, analyses, summary }
}

fn fine_step() -> BenchmarkResult {
    BenchmarkResult {
        target_rate: 50,
        actual_rate: dec(49, 900_000),
        avg_latency_ms: dec(12, 300_000),
        p50_latency_ms: dec(10, 0),
        p90_latency_ms: dec(20, 0),
        p99_latency_ms: dec(45, 678_000),
        max_latency_ms: dec(1500, 0),
        total_requests: 1500,
        ..BenchmarkResult::default()
    }
}

fn broken_step() -> BenchmarkResult {
    BenchmarkResult {
        target_rate: 100,
        actual_rate: dec(61, 250_000),
        avg_latency_ms: dec(0, 500_000),
        total_requests: 10_000,
        errors: 1234,
        error_rate: dec(12, 340_000),
        error_status_codes: vec![(500, 1234)],
        ..BenchmarkResult::default()
    }
}

fn legend() -> Vec<&'static str> {
    vec![
        "",
        RULE,
        "LEGEND",
        RULE,
        "Target      - Requested rate in requests/second",
        "Actual      - Achieved throughput (lower than target = saturation)",
        "Avg Lat     - Mean response latency",
        "p50/p90/p99 - Latency percentiles (50% / 90% / 99% of requests faster than this)",
        "Max         - Maximum observed latency",
        "Err Rate    - Non-2xx responses + connection/timeout errors as percentage",
        "",
        "Status Codes:",
        "  OK    = under threshold      WARN  = approaching threshold",
        "  BREAK = server breaking      RATE  = rate limited (429)",
        "  BLOCK = blocked by WAF (403)   HANG  = server hung (timed out)",
        "",
        "Expected Error Rates by Service Type:",
        "  Payment/Checkout:         < 0.1%",
        "  Core App Functionality:   < 0.5%",
        "  APIs:                     < 1%",
        "  Non-critical Features:    < 2%",
        "",
        "Recommended rate is 80% of last stable rate for safety margin.",
        RULE,
    ]
}

fn joined(lines: Vec<&str>) -> String {
    let mut text = String::new();
    for l in lines {
        text.push_str(l);
        text.push('\n');
    }
    text
}

#[test]
fn report_on_one_target() {
    let mut config = BenchmarkConfig::default();
    config.urls = vec!["https://example.com".to_string()];
    let run = run_of("https://example.com", vec![fine_step(), broken_step()], &config);
    let mut lines = vec![
        RULE,
        "ohabench - HTTP Load Testing Report",
        RULE,
        "",
        "Target:       https://example.com",
        "Method:       GET",
        "Mode:         Linear ramping",
        "Range:        50 -> 5000 req/s",
        "Duration:     30s per step",
        "Break when:   Error rate > 5% OR p99 > 3000ms",
        RULE,
        "",
        "",
        HEAD,
        DASHES,
        "     50      49.9      12ms     10ms     20ms     46ms     1.5s     0.00%     OK",
        "    100      61.2     500us        -        -        -        -    12.34%  BREAK",
        "",
        "RESULTS:",
        "  Breaking point:    100 req/s (Error rate exceeded threshold (12.3%))",
        "  HTTP errors:        500 (1,234)",
        "  Last stable rate:   50 req/s",
        "  Recommended rate:   40 req/s (80% of last stable)",
        "  Total requests:     ~11,500",
        "  Total duration:     1m 0s",
    ];
    lines.extend(legend());
    assert_eq!(generate_report_text(&config, &vec![run]), joined(lines));
}

#[test]
fn report_on_two_targets() {
    let mut config = BenchmarkConfig::default();
    config.urls = vec!["http://a".to_string(), "http://b".to_string()];
    config.thresholds.max_error_rate = dec(2, 500_000);
    config.ramping.start_rate = 1;
    let mut limited = broken_step();
    limited.error_status_codes = vec![(429, 1000), (500, 234)];
    let runs = vec![
        run_of("http://a", vec![fine_step()], &config),
        run_of("http://b", vec![limited], &config),
    ];
    let mut lines = vec![
        RULE,
        "ohabench - HTTP Load Testing Report",
        RULE,
        "",
        "Targets:      2 URLs",
        "              1. http://a",
        "              2. http://b",
        "Method:       GET",
        "Mode:         Linear ramping",
        "Range:        1 -> 5000 req/s",
        "Duration:     30s per step",
        "Break when:   Error rate > 2.5% OR p99 > 3000ms",
        RULE,
        "",
        RULE,
        "[1/2] http://a",
        RULE,
        "",
        HEAD,
        DASHES,
        "     50      49.9      12ms     10ms     20ms     46ms     1.5s     0.00%     OK",
        "",
        "RESULTS:",
        "  Breaking point:     Not reached (consider increasing max rate)",
        "  Last stable rate:   50 req/s",
        "  Recommended rate:   40 req/s (80% of last stable)",
        "  Total requests:     ~1,500",
        "  Total duration:     30s",
        "",
        RULE,
        "[2/2] http://b",
        RULE,
        "",
        HEAD,
        DASHES,
        "    100      61.2     500us        -        -        -        -    12.34%   RATE",
        "",
        "RESULTS:",
        "  Rate limited at:   100 req/s (Rate limited by server (12.3% errors))",
        "  HTTP errors:        429 (1,000), 500 (234)",
        "  Total requests:     ~10,000",
        "  Total duration:     30s",
    ];
    lines.extend(legend());
    assert_eq!(generate_report_text(&config, &runs), joined(lines));
}

#[test]
fn report_without_targets() {
    let config = BenchmarkConfig::default();
    let mut lines = vec![
        RULE,
        "ohabench - HTTP Load Testing Report",
        RULE,
        "",
        "Targets:      0 URLs",
        "Method:       GET",
        "Mode:         Linear ramping",
        "Range:        50 -> 5000 req/s",
        "Duration:     30s per step",
        "Break when:   Error rate > 5% OR p99 > 3000ms",
        RULE,
    ];
    lines.extend(legend());
    assert_eq!(generate_report_text(&config, &Vec::new()), joined(lines));
}

#[test]
fn numbers_in_full_and_rounded() {
    assert_eq!(dec(5, 0).plain_chars().iter().collect::<String>(), "5");
    assert_eq!(dec(2, 500_000).plain_chars().iter().collect::<String>(), "2.5");
    assert_eq!(dec(0, 1).plain_chars().iter().collect::<String>(), "0.000001");
    assert_eq!(dec(12, 30_400).plain_chars().iter().collect::<String>(), "12.0304");
    assert_eq!(dec(0, 5_000).two_places_chars().iter().collect::<String>(), "0.00");
    assert_eq!(dec(0, 15_000).two_places_chars().iter().collect::<String>(), "0.02");
    assert_eq!(dec(99, 996_000).two_places_chars().iter().collect::<String>(), "100.00");
    assert_eq!(dec(7, 50_000).one_place_chars().iter().collect::<String>(), "7.0");
    assert_eq!(dec(7, 150_000).one_place_chars().iter().collect::<String>(), "7.2");
    assert_eq!(dec(7, 500_000).whole_chars().iter().collect::<String>(), "8");
    assert_eq!(dec(8, 500_000).whole_chars().iter().collect::<String>(), "8");
}
