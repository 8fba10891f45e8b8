use ohabench::decimal::{parse_decimal, parse_u32, parse_u64, Decimal};
use ohabench::runner::{
    assemble_result, parse_oha_output, parse_time_to_ms, scan_output, ScannedOutput, StatusLine,
    TimeText,
};

fn dec(whole: u64, millionths: u64) -> Decimal {
    Decimal { micros: whole * 1_000_000 + millionths }
}

fn chars(s: &str) -> Vec<char> {
    s.chars().collect()
}

fn time(value: &str, unit: &str) -> Option<TimeText> {
    Some(TimeText { value: chars(value), unit: chars(unit) })
}

fn line(code: &str, count: &str) -> StatusLine {
    StatusLine { code: chars(code), count: chars(count) }
}

fn nothing_found() -> ScannedOutput {
    ScannedOutput {
        success_rate: None,
        average: None,
        slowest: None,
        requests_per_sec: None,
        p50: None,
        p90: None,
        p99: None,
        status_lines: Vec::new(),
        transport_errors: Vec::new(),
        transfer_rate: None,
    }
}

const SAMPLE: &str = "Summary:\n  Success rate: 100.00%\n  Total:        3005.1945 ms\n  Slowest:      776.2771 ms\n  Fastest:      142.7181 ms\n  Average:      239.4548 ms\n  Requests/sec: 9.9827\n  Size/sec:     1.23 KiB  \n\nResponse time distribution:\n  10.00% in 157.9695 ms\n  25.00% in 172.4477 ms\n  50.00% in 196.0308 ms\n  75.00% in 262.3140 ms\n  90.00% in 378.1813 ms\n  95.00% in 466.6556 ms\n  99.00% in 776.2771 ms\n\nStatus code distribution:\n  [200] 28 responses\n\nError distribution:\n  [2] aborted due to deadline\n";

#[test]
fn unit_normalization() {
    assert_eq!(parse_time_to_ms("45", "us"), dec(0, 45_000));
    assert_eq!(parse_time_to_ms("3.2", "s"), dec(3200, 0));
    assert_eq!(parse_time_to_ms("1", "m"), dec(60_000, 0));
    assert_eq!(parse_time_to_ms("120.5", "ms"), dec(120, 500_000));
}

#[test]
fn unknown_unit_and_unreadable_number() {
    assert_eq!(parse_time_to_ms("7.5", "h"), dec(7, 500_000));
    assert_eq!(parse_time_to_ms("abc", "ms"), dec(0, 0));
    assert_eq!(parse_time_to_ms("1.2.3", "s"), dec(0, 0));
}

#[test]
fn long_durations_stop_at_the_largest_number() {
    assert_eq!(parse_time_to_ms("18446744073709", "m"), Decimal { micros: u64::MAX });
    assert_eq!(parse_time_to_ms("99999999999999999999999", "us").micros, u64::MAX / 1000);
}

#[test]
fn decimal_text() {
    assert_eq!(parse_decimal(&chars("92.50")), Some(dec(92, 500_000)));
    assert_eq!(parse_decimal(&chars("5.")), Some(dec(5, 0)));
    assert_eq!(parse_decimal(&chars(".5")), Some(dec(0, 500_000)));
    assert_eq!(parse_decimal(&chars("007")), Some(dec(7, 0)));
    assert_eq!(parse_decimal(&chars("0.0000019")), Some(dec(0, 1)));
    assert_eq!(parse_decimal(&chars("1.234567")), Some(dec(1, 234_567)));
    assert_eq!(parse_decimal(&chars("18446744073709.551615")), Some(Decimal { micros: u64::MAX }));
    assert_eq!(parse_decimal(&chars("18446744073709.551614")), Some(Decimal { micros: u64::MAX - 1 }));
    assert_eq!(parse_decimal(&chars("18446744073710")), Some(Decimal { micros: u64::MAX }));
}

#[test]
fn text_that_is_no_decimal() {
    assert_eq!(parse_decimal(&chars("")), None);
    assert_eq!(parse_decimal(&chars(".")), None);
    assert_eq!(parse_decimal(&chars("1.2.3")), None);
    assert_eq!(parse_decimal(&chars("1..2")), None);
    assert_eq!(parse_decimal(&chars("12a")), None);
    assert_eq!(parse_decimal(&chars("-1")), None);
    assert_eq!(parse_decimal(&chars("\u{663}")), None);
}

#[test]
fn whole_numbers() {
    assert_eq!(parse_u64(&chars("0")), Some(0));
    assert_eq!(parse_u64(&chars("0028")), Some(28));
    assert_eq!(parse_u64(&chars("18446744073709551615")), Some(u64::MAX));
    assert_eq!(parse_u64(&chars("18446744073709551616")), None);
    assert_eq!(parse_u64(&chars("")), None);
    assert_eq!(parse_u64(&chars("12 ")), None);
    assert_eq!(parse_u32(&chars("4294967295")), Some(u32::MAX));
    assert_eq!(parse_u32(&chars("4294967296")), None);
    assert_eq!(parse_u32(&chars("429")), Some(429));
}

#[test]
fn parses_synthetic_output() {
    let text = "Summary:\n  Success rate: 92.50%\n  Average: 120.5 ms\n\nResponse time distribution:\n  50.00% in 80.0ms\n  90.00% in 150.0ms\n  99.00% in 300.0ms\n\nStatus code distribution:\n  [200] 90 responses\n  [500] 10 responses\n";
    let r = parse_oha_output(text, 100, 30);
    assert_eq!(r.error_rate, dec(10, 0));
    assert_eq!(r.avg_latency_ms, dec(120, 500_000));
    assert_eq!(r.p50_latency_ms, dec(80, 0));
    assert_eq!(r.p90_latency_ms, dec(150, 0));
    assert_eq!(r.p99_latency_ms, dec(300, 0));
    assert_eq!(r.error_status_codes, vec![(500u32, 10u64)]);
    assert_eq!(r.total_requests, 100);
    assert_eq!(r.errors, 10);
    assert_eq!(r.target_rate, 100);
    assert!(!r.hung);
}

#[test]
fn parses_sample_output() {
    let r = parse_oha_output(SAMPLE, 10, 3);
    assert_eq!(r.target_rate, 10);
    assert_eq!(r.actual_rate, dec(9, 982_700));
    assert_eq!(r.avg_latency_ms, dec(239, 454_800));
    assert_eq!(r.max_latency_ms, dec(776, 277_100));
    assert_eq!(r.p50_latency_ms, dec(196, 30_800));
    assert_eq!(r.p90_latency_ms, dec(378, 181_300));
    assert_eq!(r.p99_latency_ms, dec(776, 277_100));
    assert_eq!(r.total_requests, 30);
    assert_eq!(r.errors, 2);
    assert_eq!(r.error_rate, dec(6, 666_666));
    assert!(r.error_status_codes.is_empty());
    assert_eq!(r.transfer_rate, "1.23 KiB");
    assert!(!r.hung);
}

#[test]
fn scan_finds_the_pieces() {
    let scan = scan_output(SAMPLE);
    assert_eq!(scan.success_rate, Some(chars("100.00")));
    let average = scan.average.unwrap();
    assert_eq!(average.value, chars("239.4548"));
    assert_eq!(average.unit, chars("ms"));
    assert_eq!(scan.requests_per_sec, Some(chars("9.9827")));
    assert_eq!(scan.status_lines.len(), 1);
    assert_eq!(scan.status_lines[0].code, chars("200"));
    assert_eq!(scan.status_lines[0].count, chars("28"));
    assert_eq!(scan.transport_errors, vec![chars("2")]);
    assert_eq!(scan.transfer_rate, Some(chars("1.23 KiB  ")));
}

#[test]
fn empty_output_gives_an_empty_result() {
    let r = parse_oha_output("", 75, 30);
    assert_eq!(r.target_rate, 75);
    assert_eq!(r.actual_rate, dec(0, 0));
    assert_eq!(r.avg_latency_ms, dec(0, 0));
    assert_eq!(r.p99_latency_ms, dec(0, 0));
    assert_eq!(r.total_requests, 0);
    assert_eq!(r.errors, 0);
    assert_eq!(r.error_rate, dec(0, 0));
    assert_eq!(r.transfer_rate, "");
    assert!(r.error_status_codes.is_empty());
    assert!(!r.hung);
}

#[test]
fn success_rate_is_the_fallback_for_the_error_rate() {
    let r = parse_oha_output("Success rate: 92.50%\n", 10, 30);
    assert_eq!(r.error_rate, dec(7, 500_000));
    let r = parse_oha_output("Success rate: 92.50%\n[200] 40 responses\n", 10, 30);
    assert_eq!(r.error_rate, dec(7, 500_000));
    assert_eq!(r.total_requests, 40);
    let r = parse_oha_output("Success rate: 1.2.3%\n", 10, 30);
    assert_eq!(r.error_rate, dec(0, 0));
    let r = parse_oha_output("Success rate: 250.0%\n", 10, 30);
    assert_eq!(r.error_rate, dec(0, 0));
}

#[test]
fn requests_are_estimated_from_the_rate() {
    let r = parse_oha_output("Requests/sec: 9.9827\n", 10, 30);
    assert_eq!(r.total_requests, 299);
    let r = parse_oha_output("Requests/sec: 10.55\n", 10, 10);
    assert_eq!(r.total_requests, 106);
    let r = parse_oha_output("Requests/sec: 10.54\n", 10, 10);
    assert_eq!(r.total_requests, 105);
    let r = parse_oha_output("Requests/sec: 10.55\n[200] 7 responses\n", 10, 10);
    assert_eq!(r.total_requests, 7);
}

#[test]
fn error_codes_come_by_descending_count_and_first_seen() {
    let text = "  [200] 100 responses\n  [500] 5 responses\n  [404] 5 responses\n  [429] 7 responses\n  [301] 9 responses\n  [199] 1 response\n  [400] 5 responses\n";
    let r = parse_oha_output(text, 10, 30);
    assert_eq!(
        r.error_status_codes,
        vec![(429u32, 7u64), (500, 5), (404, 5), (400, 5), (199, 1)]
    );
    assert_eq!(r.total_requests, 132);
    assert_eq!(r.errors, 23);
}

#[test]
fn unreadable_code_counts_as_code_zero() {
    let r = parse_oha_output("[99999999999] 3 responses\n", 10, 30);
    assert_eq!(r.error_status_codes, vec![(0u32, 3u64)]);
    assert_eq!(r.error_rate, dec(100, 0));
}

#[test]
fn transport_errors_count_as_requests_and_errors() {
    let text = "Status code distribution:\n  [200] 6 responses\n\nError distribution:\n  [3] connection refused\n  [1] timeout\n";
    let r = parse_oha_output(text, 10, 30);
    assert_eq!(r.total_requests, 10);
    assert_eq!(r.errors, 4);
    assert_eq!(r.error_rate, dec(40, 0));
    assert!(r.error_status_codes.is_empty());
}

#[test]
fn assembles_from_scanned_pieces() {
    let mut scan = nothing_found();
    scan.success_rate = Some(chars("92.50"));
    scan.average = time("120.5", "ms");
    scan.slowest = time("1.5", "s");
    scan.p50 = time("80.0", "ms");
    scan.p90 = time("150.0", "ms");
    scan.p99 = time("300.0", "ms");
    scan.requests_per_sec = Some(chars("33.3"));
    scan.status_lines = vec![line("200", "90"), line("500", "10")];
    scan.transfer_rate = Some(chars("  4 MiB\r"));
    let r = assemble_result(&scan, 100, 30);
    assert_eq!(r.error_rate, dec(10, 0));
    assert_eq!(r.avg_latency_ms, dec(120, 500_000));
    assert_eq!(r.max_latency_ms, dec(1500, 0));
    assert_eq!(r.actual_rate, dec(33, 300_000));
    assert_eq!(r.error_status_codes, vec![(500u32, 10u64)]);
    assert_eq!(r.total_requests, 100);
    assert_eq!(r.errors, 10);
    assert_eq!(r.transfer_rate, "4 MiB");
}

#[test]
fn counts_stop_at_the_largest_number() {
    let mut scan = nothing_found();
    scan.status_lines = vec![line("500", "18446744073709551615"), line("200", "5")];
    scan.transport_errors = vec![chars("7")];
    let r = assemble_result(&scan, 100, 30);
    assert_eq!(r.total_requests, u64::MAX);
    assert_eq!(r.errors, u64::MAX);
    assert_eq!(r.error_rate, dec(100, 0));
}
