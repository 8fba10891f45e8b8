//! One step of a run: the load generator's arguments, the bounded wait, and
//! the reading of its text output into a result.

use vstd::prelude::*;
use crate::auth::{auth_header_spec, generate_auth_header};
use crate::capture::{
    all_captures, first_captures, group_text, groups_view, matches_view, regex_all_captures,
    regex_first_captures, take_group,
};
use crate::codes::{is_descending, lemma_sorted_by_count, sort_by_count, sorted_by_count};
use crate::config::BenchmarkConfig;
use crate::decimal::{
    clamp_u64, parse_decimal, parse_decimal_spec, parse_u32, parse_u32_spec, parse_u64,
    parse_u64_spec, Decimal, SCALE,
};
use crate::text::{
    chars_start_with, chars_to_string, decimal_digits, lowercase_chars, lowercased,
    optional_text, push_decimal, push_str, starts_with, str_chars, strings_view, trim_chars,
    trimmed,
};

verus! {

/// Seconds granted beyond the step's duration before the load generator
/// counts as hung.
pub const HANG_TIMEOUT_GRACE_SECONDS: u64 = 30;

/// The outcome of one step. A latency of zero means that none was observed.
#[derive(Debug, Clone)]
pub struct BenchmarkResult {
    pub target_rate: u32,
    pub actual_rate: Decimal,
    pub avg_latency_ms: Decimal,
    pub p50_latency_ms: Decimal,
    pub p90_latency_ms: Decimal,
    pub p99_latency_ms: Decimal,
    pub max_latency_ms: Decimal,
    pub total_requests: u64,
    pub errors: u64,
    /// Percentage of failed requests.
    pub error_rate: Decimal,
    pub transfer_rate: String,
    /// Status codes that count as errors, each with its number of responses,
    /// by descending count.
    pub error_status_codes: Vec<(u32, u64)>,
    /// Whether the load generator failed to exit within the bounded wait.
    pub hung: bool,
}

/// A result with its texts and lists as sequences.
pub struct BenchmarkResultView {
    pub target_rate: u32,
    pub actual_rate: Decimal,
    pub avg_latency_ms: Decimal,
    pub p50_latency_ms: Decimal,
    pub p90_latency_ms: Decimal,
    pub p99_latency_ms: Decimal,
    pub max_latency_ms: Decimal,
    pub total_requests: u64,
    pub errors: u64,
    pub error_rate: Decimal,
    pub transfer_rate: Seq<char>,
    pub error_status_codes: Seq<(u32, u64)>,
    pub hung: bool,
}

impl View for BenchmarkResult {
    type V = BenchmarkResultView;

    open spec fn view(&self) -> BenchmarkResultView {
        BenchmarkResultView {
            target_rate: self.target_rate,
            actual_rate: self.actual_rate,
            avg_latency_ms: self.avg_latency_ms,
            p50_latency_ms: self.p50_latency_ms,
            p90_latency_ms: self.p90_latency_ms,
            p99_latency_ms: self.p99_latency_ms,
            max_latency_ms: self.max_latency_ms,
            total_requests: self.total_requests,
            errors: self.errors,
            error_rate: self.error_rate,
            transfer_rate: self.transfer_rate@,
            error_status_codes: self.error_status_codes@,
            hung: self.hung,
        }
    }
}

/// The result in which nothing was measured.
pub open spec fn empty_result(target_rate: u32) -> BenchmarkResultView {
    BenchmarkResultView {
        target_rate,
        actual_rate: Decimal { micros: 0 },
        avg_latency_ms: Decimal { micros: 0 },
        p50_latency_ms: Decimal { micros: 0 },
        p90_latency_ms: Decimal { micros: 0 },
        p99_latency_ms: Decimal { micros: 0 },
        max_latency_ms: Decimal { micros: 0 },
        total_requests: 0,
        errors: 0,
        error_rate: Decimal { micros: 0 },
        transfer_rate: Seq::empty(),
        error_status_codes: Seq::empty(),
        hung: false,
    }
}

/// The result recorded for a step whose load generator had to be killed:
/// nothing measured, every request counted as failed.
pub open spec fn hung_result_spec(target_rate: u32) -> BenchmarkResultView {
    BenchmarkResultView {
        hung: true,
        error_rate: Decimal { micros: 100_000_000 },
        ..empty_result(target_rate)
    }
}

impl Default for BenchmarkResult {
    fn default() -> (r: Self)
        ensures
            r@ == empty_result(0),
    {
        BenchmarkResult {
            target_rate: 0,
            actual_rate: Decimal { micros: 0 },
            avg_latency_ms: Decimal { micros: 0 },
            p50_latency_ms: Decimal { micros: 0 },
            p90_latency_ms: Decimal { micros: 0 },
            p99_latency_ms: Decimal { micros: 0 },
            max_latency_ms: Decimal { micros: 0 },
            total_requests: 0,
            errors: 0,
            error_rate: Decimal { micros: 0 },
            transfer_rate: String::new(),
            error_status_codes: Vec::new(),
            hung: false,
        }
    }
}

/// The result of a step that hung at `target_rate`.
pub fn hung_result(target_rate: u32) -> (r: BenchmarkResult)
    ensures
        r@ == hung_result_spec(target_rate),
{
    let mut r = BenchmarkResult::default();
    r.target_rate = target_rate;
    r.hung = true;
    r.error_rate = Decimal { micros: 100 * SCALE };
    r
}

/// How long to wait for the load generator of a step of `duration_seconds`.
pub fn hang_timeout_seconds(duration_seconds: u32) -> (r: u64)
    ensures
        r == duration_seconds + HANG_TIMEOUT_GRACE_SECONDS,
{
    duration_seconds as u64 + HANG_TIMEOUT_GRACE_SECONDS
}

/// Finds the percentage of successful requests.
pub const SUCCESS_RATE_PATTERN: &'static str = r"Success rate:\s+([\d.]+)%";

/// Finds the average latency and its unit.
pub const AVERAGE_PATTERN: &'static str = r"Average:\s+([\d.]+)\s*(us|ms|s|m)";

/// Finds the highest latency and its unit.
pub const SLOWEST_PATTERN: &'static str = r"Slowest:\s+([\d.]+)\s*(us|ms|s|m)";

/// Finds the achieved rate.
pub const REQUESTS_PER_SEC_PATTERN: &'static str = r"Requests/sec:\s+([\d.]+)";

/// Finds the latency of the 50th percentile and its unit.
pub const P50_PATTERN: &'static str = r"50\.00%\s+in\s+([\d.]+)\s*(us|ms|s|m)";

/// Finds the latency of the 90th percentile and its unit.
pub const P90_PATTERN: &'static str = r"90\.00%\s+in\s+([\d.]+)\s*(us|ms|s|m)";

/// Finds the latency of the 99th percentile and its unit.
pub const P99_PATTERN: &'static str = r"99\.00%\s+in\s+([\d.]+)\s*(us|ms|s|m)";

/// Finds a status code and its number of responses.
pub const STATUS_PATTERN: &'static str = r"\[(\d+)\]\s+(\d+)\s+responses?";

/// Finds the lines of the error distribution section.
pub const ERROR_SECTION_PATTERN: &'static str = r"Error distribution:\s*\n((?:\s+\[\d+\][^\n]+\n?)+)";

/// Finds a count in the error distribution section.
pub const ERROR_COUNT_PATTERN: &'static str = r"\[(\d+)\]";

/// Finds the transfer rate.
pub const TRANSFER_PATTERN: &'static str = r"Size/sec:\s+(.+)";

/// A duration as the output writes it: a number and a unit.
#[derive(Debug, Clone)]
pub struct TimeText {
    pub value: Vec<char>,
    pub unit: Vec<char>,
}

/// A duration as texts.
pub struct TimeTextView {
    pub value: Seq<char>,
    pub unit: Seq<char>,
}

impl View for TimeText {
    type V = TimeTextView;

    open spec fn view(&self) -> TimeTextView {
        TimeTextView { value: self.value@, unit: self.unit@ }
    }
}

/// One line of the status code section: a code and its number of responses.
#[derive(Debug, Clone)]
pub struct StatusLine {
    pub code: Vec<char>,
    pub count: Vec<char>,
}

/// A status line as texts.
pub struct StatusLineView {
    pub code: Seq<char>,
    pub count: Seq<char>,
}

impl View for StatusLine {
    type V = StatusLineView;

    open spec fn view(&self) -> StatusLineView {
        StatusLineView { code: self.code@, count: self.count@ }
    }
}

/// The pieces of text that the searches found in the output of one step,
/// before any of them is read as a number. A field that the output lacks is
/// absent.
#[derive(Debug, Clone)]
pub struct ScannedOutput {
    pub success_rate: Option<Vec<char>>,
    pub average: Option<TimeText>,
    pub slowest: Option<TimeText>,
    pub requests_per_sec: Option<Vec<char>>,
    pub p50: Option<TimeText>,
    pub p90: Option<TimeText>,
    pub p99: Option<TimeText>,
    pub status_lines: Vec<StatusLine>,
    /// The counts of the error distribution section.
    pub transport_errors: Vec<Vec<char>>,
    pub transfer_rate: Option<Vec<char>>,
}

/// The scanned pieces as texts.
pub struct ScannedOutputView {
    pub success_rate: Option<Seq<char>>,
    pub average: Option<TimeTextView>,
    pub slowest: Option<TimeTextView>,
    pub requests_per_sec: Option<Seq<char>>,
    pub p50: Option<TimeTextView>,
    pub p90: Option<TimeTextView>,
    pub p99: Option<TimeTextView>,
    pub status_lines: Seq<StatusLineView>,
    pub transport_errors: Seq<Seq<char>>,
    pub transfer_rate: Option<Seq<char>>,
}

/// The text of an optional piece.
pub open spec fn text_view(t: Option<Vec<char>>) -> Option<Seq<char>> {
    match t {
        Some(v) => Some(v@),
        None => None,
    }
}

/// The texts of an optional duration.
pub open spec fn time_view(t: Option<TimeText>) -> Option<TimeTextView> {
    match t {
        Some(v) => Some(v@),
        None => None,
    }
}

impl View for ScannedOutput {
    type V = ScannedOutputView;

    open spec fn view(&self) -> ScannedOutputView {
        ScannedOutputView {
            success_rate: text_view(self.success_rate),
            average: time_view(self.average),
            slowest: time_view(self.slowest),
            requests_per_sec: text_view(self.requests_per_sec),
            p50: time_view(self.p50),
            p90: time_view(self.p90),
            p99: time_view(self.p99),
            status_lines: self.status_lines@.map_values(|l: StatusLine| l@),
            transport_errors: self.transport_errors@.map_values(|t: Vec<char>| t@),
            transfer_rate: text_view(self.transfer_rate),
        }
    }
}

/// The first group of a match, where there is a match.
pub open spec fn found_text(m: Option<Seq<Option<Seq<char>>>>) -> Option<Seq<char>> {
    match m {
        Some(groups) => Some(group_text(groups, 1)),
        None => None,
    }
}

/// The first two groups of a match as a number and its unit.
pub open spec fn found_time(m: Option<Seq<Option<Seq<char>>>>) -> Option<TimeTextView> {
    match m {
        Some(groups) => Some(
            TimeTextView { value: group_text(groups, 1), unit: group_text(groups, 2) },
        ),
        None => None,
    }
}

/// The first two groups of each match as a code and a count.
pub open spec fn found_status_lines(matches: Seq<Seq<Option<Seq<char>>>>) -> Seq<StatusLineView> {
    matches.map_values(
        |groups: Seq<Option<Seq<char>>>|
            StatusLineView { code: group_text(groups, 1), count: group_text(groups, 2) },
    )
}

/// The first group of each match.
pub open spec fn found_counts(matches: Seq<Seq<Option<Seq<char>>>>) -> Seq<Seq<char>> {
    matches.map_values(|groups: Seq<Option<Seq<char>>>| group_text(groups, 1))
}

/// What the searches find in `text`. Each field is the outcome of one search
/// over the whole text; the counts of transport errors are searched in the
/// error distribution section only.
pub open spec fn scan_spec(text: Seq<char>) -> ScannedOutputView {
    ScannedOutputView {
        success_rate: found_text(regex_first_captures(SUCCESS_RATE_PATTERN@, text)),
        average: found_time(regex_first_captures(AVERAGE_PATTERN@, text)),
        slowest: found_time(regex_first_captures(SLOWEST_PATTERN@, text)),
        requests_per_sec: found_text(regex_first_captures(REQUESTS_PER_SEC_PATTERN@, text)),
        p50: found_time(regex_first_captures(P50_PATTERN@, text)),
        p90: found_time(regex_first_captures(P90_PATTERN@, text)),
        p99: found_time(regex_first_captures(P99_PATTERN@, text)),
        status_lines: found_status_lines(regex_all_captures(STATUS_PATTERN@, text)),
        transport_errors: match regex_first_captures(ERROR_SECTION_PATTERN@, text) {
            Some(groups) => found_counts(
                regex_all_captures(ERROR_COUNT_PATTERN@, group_text(groups, 1)),
            ),
            None => Seq::empty(),
        },
        transfer_rate: found_text(regex_first_captures(TRANSFER_PATTERN@, text)),
    }
}

fn find_text(pattern: &str, text: &str) -> (r: Option<Vec<char>>)
    ensures
        text_view(r) == found_text(regex_first_captures(pattern@, text@)),
{
    match first_captures(pattern, text) {
        Some(groups) => Some(take_group(&groups, 1)),
        None => None,
    }
}

fn find_time(pattern: &str, text: &str) -> (r: Option<TimeText>)
    ensures
        time_view(r) == found_time(regex_first_captures(pattern@, text@)),
{
    match first_captures(pattern, text) {
        Some(groups) => Some(
            TimeText { value: take_group(&groups, 1), unit: take_group(&groups, 2) },
        ),
        None => None,
    }
}

fn find_status_lines(text: &str) -> (r: Vec<StatusLine>)
    ensures
        r@.map_values(|l: StatusLine| l@) == found_status_lines(
            regex_all_captures(STATUS_PATTERN@, text@),
        ),
{
    let matches = all_captures(STATUS_PATTERN, text);
    let mut lines: Vec<StatusLine> = Vec::new();
    let mut i: usize = 0;
    while i < matches.len()
        invariant
            i <= matches.len(),
            lines.len() == i,
            forall|k: int|
                0 <= k < i ==> (#[trigger] lines@[k])@ == (StatusLineView {
                    code: group_text(groups_view(matches@[k]@), 1),
                    count: group_text(groups_view(matches@[k]@), 2),
                }),
        decreases matches.len() - i,
    {
        let line = StatusLine {
            code: take_group(&matches[i], 1),
            count: take_group(&matches[i], 2),
        };
        lines.push(line);
        i += 1;
    }
    assert(lines@.map_values(|l: StatusLine| l@) =~= found_status_lines(matches_view(matches@)));
    lines
}

fn find_counts(text: &str) -> (r: Vec<Vec<char>>)
    ensures
        r@.map_values(|t: Vec<char>| t@) == found_counts(
            regex_all_captures(ERROR_COUNT_PATTERN@, text@),
        ),
{
    let matches = all_captures(ERROR_COUNT_PATTERN, text);
    let mut counts: Vec<Vec<char>> = Vec::new();
    let mut i: usize = 0;
    while i < matches.len()
        invariant
            i <= matches.len(),
            counts.len() == i,
            forall|k: int|
                0 <= k < i ==> (#[trigger] counts@[k])@ == group_text(
                    groups_view(matches@[k]@),
                    1,
                ),
        decreases matches.len() - i,
    {
        let count = take_group(&matches[i], 1);
        counts.push(count);
        i += 1;
    }
    assert(counts@.map_values(|t: Vec<char>| t@) =~= found_counts(matches_view(matches@)));
    counts
}

/// Searches the output of one step for the fields of a result.
pub fn scan_output(text: &str) -> (r: ScannedOutput)
    ensures
        r@ == scan_spec(text@),
{
    let transport_errors = match first_captures(ERROR_SECTION_PATTERN, text) {
        Some(groups) => {
            let section = chars_to_string(&take_group(&groups, 1));
            find_counts(section.as_str())
        },
        None => Vec::new(),
    };
    let r = ScannedOutput {
        success_rate: find_text(SUCCESS_RATE_PATTERN, text),
        average: find_time(AVERAGE_PATTERN, text),
        slowest: find_time(SLOWEST_PATTERN, text),
        requests_per_sec: find_text(REQUESTS_PER_SEC_PATTERN, text),
        p50: find_time(P50_PATTERN, text),
        p90: find_time(P90_PATTERN, text),
        p99: find_time(P99_PATTERN, text),
        status_lines: find_status_lines(text),
        transport_errors,
        transfer_rate: find_text(TRANSFER_PATTERN, text),
    };
    assert(r@.transport_errors =~= scan_spec(text@).transport_errors);
    r
}

/// The number that `text` writes, or `fallback` where it writes none.
pub open spec fn decimal_or(text: Seq<char>, fallback: Decimal) -> Decimal {
    match parse_decimal_spec(text) {
        Some(d) => d,
        None => fallback,
    }
}

/// A duration in milliseconds: `us` divides by 1000, `s` multiplies by 1000,
/// `m` by 60000; `ms` and any other unit leave the number as it is. A number
/// that cannot be read counts as zero.
pub open spec fn time_to_ms(value: Seq<char>, unit: Seq<char>) -> Decimal {
    let v = decimal_or(value, Decimal { micros: 0 });
    if unit == seq!['u', 's'] {
        Decimal { micros: v.micros / 1000 }
    } else if unit == seq!['s'] {
        Decimal { micros: clamp_u64((v.micros * 1000) as nat) }
    } else if unit == seq!['m'] {
        Decimal { micros: clamp_u64((v.micros * 60_000) as nat) }
    } else {
        v
    }
}

fn scale_up(v: Decimal, factor: u64) -> (r: Decimal)
    requires
        factor <= 60_000,
    ensures
        r.micros == clamp_u64((v.micros * factor) as nat),
{
    assert(v.micros * factor <= 0x1_0000_0000_0000_0000 * 60_000) by (nonlinear_arith)
        requires
            v.micros <= 0x1_0000_0000_0000_0000,
            factor <= 60_000,
    ;
    let wide: u128 = v.micros as u128 * factor as u128;
    if wide > u64::MAX as u128 {
        Decimal { micros: u64::MAX }
    } else {
        Decimal { micros: wide as u64 }
    }
}

/// Converts a duration written as a number and a unit to milliseconds.
pub fn time_chars_to_ms(value: &Vec<char>, unit: &Vec<char>) -> (r: Decimal)
    ensures
        r == time_to_ms(value@, unit@),
{
    let v = match parse_decimal(value) {
        Some(d) => d,
        None => Decimal { micros: 0 },
    };
    if unit.len() == 2 && unit[0] == 'u' && unit[1] == 's' {
        assert(unit@ =~= seq!['u', 's']);
        Decimal { micros: v.micros / 1000 }
    } else if unit.len() == 1 && unit[0] == 's' {
        assert(unit@ =~= seq!['s']);
        scale_up(v, 1000)
    } else if unit.len() == 1 && unit[0] == 'm' {
        assert(unit@ =~= seq!['m']);
        scale_up(v, 60_000)
    } else {
        assert(unit@ != seq!['u', 's']) by {
            if unit@ == seq!['u', 's'] {
                assert(unit@.len() == 2 && unit@[0] == 'u' && unit@[1] == 's');
            }
        }
        assert(unit@ != seq!['s']) by {
            if unit@ == seq!['s'] {
                assert(unit@.len() == 1 && unit@[0] == 's');
            }
        }
        assert(unit@ != seq!['m']) by {
            if unit@ == seq!['m'] {
                assert(unit@.len() == 1 && unit@[0] == 'm');
            }
        }
        v
    }
}

/// Converts a duration written as a number and a unit to milliseconds.
pub fn parse_time_to_ms(value: &str, unit: &str) -> (r: Decimal)
    ensures
        r == time_to_ms(value@, unit@),
{
    time_chars_to_ms(&str_chars(value), &str_chars(unit))
}

/// The error rate that a success percentage leaves: what is missing to 100.
/// A percentage that cannot be read counts as 100; without one the rate is 0.
pub open spec fn provisional_error_rate(success: Option<Seq<char>>) -> Decimal {
    match success {
        Some(text) => {
            let rate = decimal_or(text, Decimal { micros: 100_000_000 });
            if rate.micros >= 100_000_000 {
                Decimal { micros: 0 }
            } else {
                Decimal { micros: (100_000_000 - rate.micros) as u64 }
            }
        },
        None => Decimal { micros: 0 },
    }
}

/// The latency that a scanned duration amounts to; zero without one.
pub open spec fn latency_of(time: Option<TimeTextView>) -> Decimal {
    match time {
        Some(t) => time_to_ms(t.value, t.unit),
        None => Decimal { micros: 0 },
    }
}

/// The rate that a scanned number amounts to; zero without one or where it
/// cannot be read.
pub open spec fn rate_of(text: Option<Seq<char>>) -> Decimal {
    match text {
        Some(t) => decimal_or(t, Decimal { micros: 0 }),
        None => Decimal { micros: 0 },
    }
}

/// The count that `text` writes; 0 where it writes none.
pub open spec fn count_of(text: Seq<char>) -> u64 {
    match parse_u64_spec(text) {
        Some(n) => n,
        None => 0,
    }
}

/// The status code that `text` writes; 0 where it writes none.
pub open spec fn code_of(text: Seq<char>) -> u32 {
    match parse_u32_spec(text) {
        Some(n) => n,
        None => 0,
    }
}

/// Every code outside 200..400 is an error.
pub open spec fn is_error_code(code: u32) -> bool {
    !(200 <= code < 400)
}

/// The responses of all status lines.
pub open spec fn response_total(lines: Seq<StatusLineView>) -> nat
    decreases lines.len(),
{
    if lines.len() == 0 {
        0
    } else {
        response_total(lines.drop_last()) + count_of(lines.last().count) as nat
    }
}

/// The responses of the status lines whose code is an error.
pub open spec fn error_response_total(lines: Seq<StatusLineView>) -> nat
    decreases lines.len(),
{
    if lines.len() == 0 {
        0
    } else if is_error_code(code_of(lines.last().code)) {
        error_response_total(lines.drop_last()) + count_of(lines.last().count) as nat
    } else {
        error_response_total(lines.drop_last())
    }
}

/// The status lines whose code is an error, as pairs of code and count, in
/// the order of the lines.
pub open spec fn error_entries(lines: Seq<StatusLineView>) -> Seq<(u32, u64)>
    decreases lines.len(),
{
    if lines.len() == 0 {
        Seq::empty()
    } else if is_error_code(code_of(lines.last().code)) {
        error_entries(lines.drop_last()).push(
            (code_of(lines.last().code), count_of(lines.last().count)),
        )
    } else {
        error_entries(lines.drop_last())
    }
}

/// The failures of the error distribution section: requests that were
/// attempted and got no status code.
pub open spec fn transport_total(counts: Seq<Seq<char>>) -> nat
    decreases counts.len(),
{
    if counts.len() == 0 {
        0
    } else {
        transport_total(counts.drop_last()) + count_of(counts.last()) as nat
    }
}

/// `errors` as a percentage of `total`, rounded down to the millionth.
pub open spec fn error_rate_of_counts(errors: u64, total: u64) -> Decimal
    recommends
        total > 0,
{
    Decimal { micros: clamp_u64((errors * 100_000_000 / (total as int)) as nat) }
}

/// The requests that `rate` per second makes in `duration_seconds`, rounded
/// to the nearest whole request.
pub open spec fn estimated_requests(rate: Decimal, duration_seconds: u32) -> u64 {
    clamp_u64(((rate.micros * duration_seconds + 500_000) / 1_000_000) as nat)
}

/// The result that the scanned pieces of text amount to.
///
/// Exact counts outrank the success percentage: where requests and errors
/// were both counted, the error rate is their ratio. Where no request was
/// counted but a rate was measured, the requests are estimated from the rate.
pub open spec fn assemble_spec(
    scan: ScannedOutputView,
    target_rate: u32,
    duration_seconds: u32,
) -> BenchmarkResultView {
    let transport = transport_total(scan.transport_errors);
    let total = clamp_u64(response_total(scan.status_lines) + transport);
    let errors = clamp_u64(error_response_total(scan.status_lines) + transport);
    let actual_rate = rate_of(scan.requests_per_sec);
    BenchmarkResultView {
        target_rate,
        actual_rate,
        avg_latency_ms: latency_of(scan.average),
        p50_latency_ms: latency_of(scan.p50),
        p90_latency_ms: latency_of(scan.p90),
        p99_latency_ms: latency_of(scan.p99),
        max_latency_ms: latency_of(scan.slowest),
        total_requests: if total == 0 && actual_rate.micros > 0 {
            estimated_requests(actual_rate, duration_seconds)
        } else {
            total
        },
        errors,
        error_rate: if total > 0 && errors > 0 {
            error_rate_of_counts(errors, total)
        } else {
            provisional_error_rate(scan.success_rate)
        },
        transfer_rate: match scan.transfer_rate {
            Some(t) => trimmed(t),
            None => Seq::empty(),
        },
        error_status_codes: sorted_by_count(error_entries(scan.status_lines)),
        hung: false,
    }
}

/// The error responses are among the responses.
pub proof fn lemma_errors_within_responses(lines: Seq<StatusLineView>)
    ensures
        error_response_total(lines) <= response_total(lines),
    decreases lines.len(),
{
    if lines.len() > 0 {
        lemma_errors_within_responses(lines.drop_last());
    }
}

/// Every recorded error entry carries a code outside 200..400.
pub proof fn lemma_error_entries_are_errors(lines: Seq<StatusLineView>)
    ensures
        forall|i: int|
            0 <= i < error_entries(lines).len() ==> is_error_code(
                #[trigger] error_entries(lines)[i].0,
            ),
    decreases lines.len(),
{
    if lines.len() > 0 {
        let before = error_entries(lines.drop_last());
        lemma_error_entries_are_errors(lines.drop_last());
        assert forall|i: int| 0 <= i < error_entries(lines).len() implies is_error_code(
            #[trigger] error_entries(lines)[i].0,
        ) by {
            if i < before.len() {
                assert(error_entries(lines)[i] == before[i]);
            }
        }
    }
}

/// What holds of every assembled result: it is for the requested rate and
/// not hung; its errors are among its requests; its error rate is at most
/// 100%; its error status codes are error codes, by descending count.
pub proof fn lemma_assembled_result(scan: ScannedOutputView, target_rate: u32, duration_seconds: u32)
    ensures
        assemble_spec(scan, target_rate, duration_seconds).target_rate == target_rate,
        !assemble_spec(scan, target_rate, duration_seconds).hung,
        assemble_spec(scan, target_rate, duration_seconds).errors <= assemble_spec(
            scan,
            target_rate,
            duration_seconds,
        ).total_requests,
        assemble_spec(scan, target_rate, duration_seconds).error_rate.micros <= 100_000_000,
        is_descending(assemble_spec(scan, target_rate, duration_seconds).error_status_codes),
        forall|i: int|
            0 <= i < assemble_spec(scan, target_rate, duration_seconds).error_status_codes.len()
                ==> is_error_code(
                #[trigger] assemble_spec(
                    scan,
                    target_rate,
                    duration_seconds,
                ).error_status_codes[i].0,
            ),
{
    broadcast use vstd::seq_lib::group_to_multiset_ensures;

    let r = assemble_spec(scan, target_rate, duration_seconds);
    let transport = transport_total(scan.transport_errors);
    let total = clamp_u64(response_total(scan.status_lines) + transport);
    let errors = clamp_u64(error_response_total(scan.status_lines) + transport);
    lemma_errors_within_responses(scan.status_lines);
    assert(errors <= total);
    if total > 0 && errors > 0 {
        assert(errors * 100_000_000 / (total as int) <= 100_000_000) by (nonlinear_arith)
            requires
                0 <= errors <= total,
                total > 0,
        ;
    }
    let entries = error_entries(scan.status_lines);
    lemma_sorted_by_count(entries);
    lemma_error_entries_are_errors(scan.status_lines);
    assert forall|i: int| 0 <= i < r.error_status_codes.len() implies is_error_code(
        #[trigger] r.error_status_codes[i].0,
    ) by {
        let e = r.error_status_codes[i];
        assert(r.error_status_codes.contains(e));
        assert(r.error_status_codes.to_multiset().count(e) > 0);
        assert(entries.to_multiset().count(e) > 0);
        assert(entries.contains(e));
        let j = choose|j: int| 0 <= j < entries.len() && entries[j] == e;
        assert(is_error_code(entries[j].0));
    }
}

fn latency_from(time: &Option<TimeText>) -> (r: Decimal)
    ensures
        r == latency_of(time_view(*time)),
{
    match time {
        Some(t) => time_chars_to_ms(&t.value, &t.unit),
        None => Decimal { micros: 0 },
    }
}

fn count_from(text: &Vec<char>) -> (r: u64)
    ensures
        r == count_of(text@),
{
    match parse_u64(text) {
        Some(n) => n,
        None => 0,
    }
}

fn code_from(text: &Vec<char>) -> (r: u32)
    ensures
        r == code_of(text@),
{
    match parse_u32(text) {
        Some(n) => n,
        None => 0,
    }
}

/// Builds the result of a step from the pieces of text found in its output.
pub fn assemble_result(scan: &ScannedOutput, target_rate: u32, duration_seconds: u32) -> (r:
    BenchmarkResult)
    ensures
        r@ == assemble_spec(scan@, target_rate, duration_seconds),
{
    let ghost lines = scan@.status_lines;
    let ghost counts = scan@.transport_errors;
    let mut responses: u64 = 0;
    let mut error_responses: u64 = 0;
    let mut entries: Vec<(u32, u64)> = Vec::new();
    let mut i: usize = 0;
    while i < scan.status_lines.len()
        invariant
            i <= scan.status_lines.len(),
            lines == scan@.status_lines,
            responses == clamp_u64(response_total(lines.subrange(0, i as int))),
            error_responses == clamp_u64(error_response_total(lines.subrange(0, i as int))),
            entries@ == error_entries(lines.subrange(0, i as int)),
        decreases scan.status_lines.len() - i,
    {
        assert(lines.subrange(0, i + 1).drop_last() == lines.subrange(0, i as int));
        assert(lines.subrange(0, i + 1).last() == scan.status_lines@[i as int]@);
        let code = code_from(&scan.status_lines[i].code);
        let count = count_from(&scan.status_lines[i].count);
        responses = responses.saturating_add(count);
        if !(200 <= code && code < 400) {
            error_responses = error_responses.saturating_add(count);
            entries.push((code, count));
        }
        i += 1;
    }
    assert(lines.subrange(0, lines.len() as int) == lines);
    let mut transport: u64 = 0;
    let mut j: usize = 0;
    while j < scan.transport_errors.len()
        invariant
            j <= scan.transport_errors.len(),
            counts == scan@.transport_errors,
            transport == clamp_u64(transport_total(counts.subrange(0, j as int))),
        decreases scan.transport_errors.len() - j,
    {
        assert(counts.subrange(0, j + 1).drop_last() == counts.subrange(0, j as int));
        assert(counts.subrange(0, j + 1).last() == scan.transport_errors@[j as int]@);
        transport = transport.saturating_add(count_from(&scan.transport_errors[j]));
        j += 1;
    }
    assert(counts.subrange(0, counts.len() as int) == counts);
    let total = responses.saturating_add(transport);
    let errors = error_responses.saturating_add(transport);
    let actual_rate = match &scan.requests_per_sec {
        Some(t) => match parse_decimal(t) {
            Some(d) => d,
            None => Decimal { micros: 0 },
        },
        None => Decimal { micros: 0 },
    };
    let error_rate = if total > 0 && errors > 0 {
        let wide: u128 = errors as u128 * 100_000_000 / total as u128;
        if wide > u64::MAX as u128 {
            Decimal { micros: u64::MAX }
        } else {
            Decimal { micros: wide as u64 }
        }
    } else {
        match &scan.success_rate {
            Some(t) => {
                let rate = match parse_decimal(t) {
                    Some(d) => d,
                    None => Decimal { micros: 100 * SCALE },
                };
                if rate.micros >= 100 * SCALE {
                    Decimal { micros: 0 }
                } else {
                    Decimal { micros: 100 * SCALE - rate.micros }
                }
            },
            None => Decimal { micros: 0 },
        }
    };
    let total_requests = if total == 0 && actual_rate.micros > 0 {
        assert(actual_rate.micros * duration_seconds <= 0x1_0000_0000_0000_0000 * 0x1_0000_0000)
            by (nonlinear_arith)
            requires
                actual_rate.micros <= 0x1_0000_0000_0000_0000,
                duration_seconds <= 0x1_0000_0000,
        ;
        let wide: u128 = (actual_rate.micros as u128 * duration_seconds as u128 + 500_000)
            / 1_000_000;
        if wide > u64::MAX as u128 {
            u64::MAX
        } else {
            wide as u64
        }
    } else {
        total
    };
    let transfer_rate = match &scan.transfer_rate {
        Some(t) => chars_to_string(&trim_chars(t)),
        None => String::new(),
    };
    BenchmarkResult {
        target_rate,
        actual_rate,
        avg_latency_ms: latency_from(&scan.average),
        p50_latency_ms: latency_from(&scan.p50),
        p90_latency_ms: latency_from(&scan.p90),
        p99_latency_ms: latency_from(&scan.p99),
        max_latency_ms: latency_from(&scan.slowest),
        total_requests,
        errors,
        error_rate,
        transfer_rate,
        error_status_codes: sort_by_count(&entries),
        hung: false,
    }
}

/// Reads the output of one step into a result. Every field that the output
/// lacks stays at zero.
pub fn parse_oha_output(output: &str, target_rate: u32, duration_seconds: u32) -> (r:
    BenchmarkResult)
    ensures
        r@ == assemble_spec(scan_spec(output@), target_rate, duration_seconds),
{
    let scan = scan_output(output);
    assemble_result(&scan, target_rate, duration_seconds)
}

/// How the wait for the load generator of one step ended.
#[derive(Debug, Clone)]
pub enum StepOutcome {
    /// It exited within the bound; these are its two output channels.
    Completed { stdout: String, stderr: String },
    /// It did not exit within the bound and was killed.
    TimedOut,
}

/// The text that is read after a step: standard output, a line break,
/// standard error.
pub open spec fn combined_output(stdout: Seq<char>, stderr: Seq<char>) -> Seq<char> {
    stdout + seq!['\n'] + stderr
}

/// The result of a step that ended as `outcome`. The output of a step that
/// timed out is not read.
pub open spec fn step_result_spec(
    outcome: StepOutcome,
    target_rate: u32,
    duration_seconds: u32,
) -> BenchmarkResultView {
    match outcome {
        StepOutcome::Completed { stdout, stderr } => assemble_spec(
            scan_spec(combined_output(stdout@, stderr@)),
            target_rate,
            duration_seconds,
        ),
        StepOutcome::TimedOut => hung_result_spec(target_rate),
    }
}

/// Turns the way a step ended into its result.
pub fn step_result(outcome: &StepOutcome, target_rate: u32, duration_seconds: u32) -> (r:
    BenchmarkResult)
    ensures
        r@ == step_result_spec(*outcome, target_rate, duration_seconds),
{
    match outcome {
        StepOutcome::Completed { stdout, stderr } => {
            let mut text = str_chars(stdout.as_str());
            text.push('\n');
            push_str(&mut text, stderr.as_str());
            assert(text@ =~= combined_output(stdout@, stderr@));
            let full_output = chars_to_string(&text);
            parse_oha_output(full_output.as_str(), target_rate, duration_seconds)
        },
        StepOutcome::TimedOut => hung_result(target_rate),
    }
}

/// A header line names the content type where, in lower case, it begins
/// with `content-type:`.
pub open spec fn names_content_type(header: Seq<char>) -> bool {
    starts_with(lowercased(header), "content-type:"@)
}

/// One of the headers names the content type.
pub open spec fn has_content_type(headers: Seq<Seq<char>>) -> bool {
    exists|i: int| 0 <= i < headers.len() && names_content_type(#[trigger] headers[i])
}

/// The arguments that carry the request body: the body, and the content
/// type of JSON unless a header names one.
pub open spec fn body_args(body: Option<String>, content_type_given: bool) -> Seq<Seq<char>> {
    match body {
        Some(b) => if content_type_given {
            seq!["-d"@, b@]
        } else {
            seq!["-d"@, b@, "-H"@, "Content-Type: application/json"@]
        },
        None => Seq::empty(),
    }
}

/// The arguments that carry the authorization header, if there is one.
pub open spec fn auth_args(auth: Option<Seq<char>>) -> Seq<Seq<char>> {
    match auth {
        Some(h) => seq!["-H"@, h],
        None => Seq::empty(),
    }
}

/// Each header behind its own `-H`.
pub open spec fn header_args(headers: Seq<Seq<char>>) -> Seq<Seq<char>>
    decreases headers.len(),
{
    if headers.len() == 0 {
        Seq::empty()
    } else {
        header_args(headers.drop_last()) + seq!["-H"@, headers.last()]
    }
}

/// The arguments that carry the user agent.
pub open spec fn user_agent_args(user_agent: Seq<char>) -> Seq<Seq<char>> {
    seq!["-H"@, "User-Agent: "@ + user_agent]
}

/// The arguments of the load generator for one step at `rate`, given the
/// authorization header and whether a header names the content type.
pub open spec fn oha_args_from_spec(
    config: BenchmarkConfig,
    url: Seq<char>,
    rate: u32,
    auth: Option<Seq<char>>,
    content_type_given: bool,
) -> Seq<Seq<char>> {
    seq![
        "-c"@,
        decimal_digits(config.ramping.connections as nat),
        "-z"@,
        decimal_digits(config.ramping.duration_seconds as nat) + seq!['s'],
        "-q"@,
        decimal_digits(rate as nat),
        "--latency-correction"@,
        "-w"@,
        "--no-tui"@,
        "-m"@,
        config.method.name_spec(),
    ] + body_args(config.body, content_type_given) + user_agent_args(config.user_agent@)
        + auth_args(auth) + header_args(strings_view(config.headers@)) + seq![url]
}

/// The arguments of the load generator for one step at `rate`.
pub open spec fn oha_args_spec(config: BenchmarkConfig, url: Seq<char>, rate: u32) -> Seq<
    Seq<char>,
> {
    oha_args_from_spec(
        config,
        url,
        rate,
        auth_header_spec(config.auth),
        has_content_type(strings_view(config.headers@)),
    )
}

/// The arguments of the load generator for the warmup; none where no warmup
/// is configured.
pub open spec fn warmup_args_from_spec(
    config: BenchmarkConfig,
    url: Seq<char>,
    auth: Option<Seq<char>>,
) -> Option<Seq<Seq<char>>> {
    if config.warmup_seconds == 0 {
        None
    } else {
        Some(
            seq![
                "-c"@,
                decimal_digits(config.ramping.connections as nat),
                "-z"@,
                decimal_digits(config.warmup_seconds as nat) + seq!['s'],
                "-q"@,
                decimal_digits(config.ramping.start_rate as nat),
                "--no-tui"@,
            ] + user_agent_args(config.user_agent@) + auth_args(auth) + seq![url],
        )
    }
}

fn push_arg(out: &mut Vec<String>, arg: String)
    ensures
        strings_view(final(out)@) == strings_view(old(out)@).push(arg@),
{
    out.push(arg);
    assert(strings_view(out@) =~= strings_view(old(out)@).push(arg@));
}

fn push_flag(out: &mut Vec<String>, flag: &str)
    ensures
        strings_view(final(out)@) == strings_view(old(out)@).push(flag@),
{
    push_arg(out, flag.to_owned());
}

fn push_number(out: &mut Vec<String>, n: u32)
    ensures
        strings_view(final(out)@) == strings_view(old(out)@).push(decimal_digits(n as nat)),
{
    let mut text: Vec<char> = Vec::new();
    push_decimal(&mut text, n as u64);
    assert(text@ =~= decimal_digits(n as nat));
    push_arg(out, chars_to_string(&text));
}

fn push_seconds(out: &mut Vec<String>, n: u32)
    ensures
        strings_view(final(out)@) == strings_view(old(out)@).push(
            decimal_digits(n as nat) + seq!['s'],
        ),
{
    let mut text: Vec<char> = Vec::new();
    push_decimal(&mut text, n as u64);
    text.push('s');
    assert(text@ =~= decimal_digits(n as nat) + seq!['s']);
    push_arg(out, chars_to_string(&text));
}

fn push_user_agent(out: &mut Vec<String>, user_agent: &str)
    ensures
        strings_view(final(out)@) == strings_view(old(out)@) + user_agent_args(user_agent@),
{
    push_flag(out, "-H");
    let mut text = str_chars("User-Agent: ");
    push_str(&mut text, user_agent);
    push_arg(out, chars_to_string(&text));
    assert(strings_view(out@) =~= strings_view(old(out)@) + user_agent_args(user_agent@));
}

fn push_auth(out: &mut Vec<String>, auth: &Option<String>)
    ensures
        strings_view(final(out)@) == strings_view(old(out)@) + auth_args(optional_text(*auth)),
{
    match auth {
        Some(h) => {
            push_flag(out, "-H");
            push_arg(out, h.clone());
        },
        None => {},
    }
    assert(strings_view(out@) =~= strings_view(old(out)@) + auth_args(optional_text(*auth)));
}

/// Whether one of the headers names the content type.
pub fn headers_have_content_type(headers: &Vec<String>) -> (r: bool)
    ensures
        r == has_content_type(strings_view(headers@)),
{
    let prefix = str_chars("content-type:");
    let mut i: usize = 0;
    while i < headers.len()
        invariant
            i <= headers.len(),
            prefix@ == "content-type:"@,
            forall|k: int| 0 <= k < i ==> !names_content_type(#[trigger] strings_view(headers@)[k]),
        decreases headers.len() - i,
    {
        let lower = lowercase_chars(&str_chars(headers[i].as_str()));
        assert(strings_view(headers@)[i as int] == headers@[i as int]@);
        if chars_start_with(&lower, &prefix) {
            return true;
        }
        i += 1;
    }
    false
}

/// Composes the arguments of the load generator for one step at `rate`,
/// given the authorization header and whether a header names the content
/// type.
pub fn build_oha_args_from(
    config: &BenchmarkConfig,
    url: &str,
    rate: u32,
    auth: &Option<String>,
    content_type_given: bool,
) -> (r: Vec<String>)
    ensures
        strings_view(r@) == oha_args_from_spec(
            *config,
            url@,
            rate,
            optional_text(*auth),
            content_type_given,
        ),
{
    let mut out: Vec<String> = Vec::new();
    assert(strings_view(out@) =~= Seq::empty());
    push_flag(&mut out, "-c");
    push_number(&mut out, config.ramping.connections);
    push_flag(&mut out, "-z");
    push_seconds(&mut out, config.ramping.duration_seconds);
    push_flag(&mut out, "-q");
    push_number(&mut out, rate);
    push_flag(&mut out, "--latency-correction");
    push_flag(&mut out, "-w");
    push_flag(&mut out, "--no-tui");
    push_flag(&mut out, "-m");
    push_arg(&mut out, config.method.name());
    let ghost head = strings_view(out@);
    assert(head =~= seq![
        "-c"@,
        decimal_digits(config.ramping.connections as nat),
        "-z"@,
        decimal_digits(config.ramping.duration_seconds as nat) + seq!['s'],
        "-q"@,
        decimal_digits(rate as nat),
        "--latency-correction"@,
        "-w"@,
        "--no-tui"@,
        "-m"@,
        config.method.name_spec(),
    ]);
    match &config.body {
        Some(b) => {
            push_flag(&mut out, "-d");
            push_arg(&mut out, b.clone());
            if !content_type_given {
                push_flag(&mut out, "-H");
                push_flag(&mut out, "Content-Type: application/json");
            }
        },
        None => {},
    }
    assert(strings_view(out@) =~= head + body_args(config.body, content_type_given));
    push_user_agent(&mut out, config.user_agent.as_str());
    push_auth(&mut out, auth);
    let ghost before_headers = strings_view(out@);
    let ghost headers = strings_view(config.headers@);
    let mut i: usize = 0;
    while i < config.headers.len()
        invariant
            i <= config.headers.len(),
            headers == strings_view(config.headers@),
            strings_view(out@) == before_headers + header_args(headers.subrange(0, i as int)),
        decreases config.headers.len() - i,
    {
        assert(headers.subrange(0, i + 1).drop_last() == headers.subrange(0, i as int));
        assert(headers.subrange(0, i + 1).last() == config.headers@[i as int]@);
        let ghost so_far = strings_view(out@);
        push_flag(&mut out, "-H");
        push_arg(&mut out, config.headers[i].clone());
        assert(strings_view(out@) =~= so_far + seq!["-H"@, config.headers@[i as int]@]);
        assert(strings_view(out@) =~= before_headers + header_args(headers.subrange(0, i + 1)));
        i += 1;
    }
    assert(headers.subrange(0, headers.len() as int) == headers);
    push_arg(&mut out, url.to_owned());
    assert(strings_view(out@) =~= oha_args_from_spec(
        *config,
        url@,
        rate,
        optional_text(*auth),
        content_type_given,
    ));
    out
}

/// Composes the arguments of the load generator for one step at `rate`.
pub fn build_oha_args(config: &BenchmarkConfig, url: &str, rate: u32) -> (r: Vec<String>)
    ensures
        strings_view(r@) == oha_args_spec(*config, url@, rate),
{
    let auth = generate_auth_header(&config.auth);
    let content_type_given = headers_have_content_type(&config.headers);
    build_oha_args_from(config, url, rate, &auth, content_type_given)
}

/// Composes the arguments of the load generator for the warmup, given the
/// authorization header.
pub fn build_warmup_args_from(config: &BenchmarkConfig, url: &str, auth: &Option<String>) -> (r:
    Option<Vec<String>>)
    ensures
        match r {
            Some(args) => warmup_args_from_spec(*config, url@, optional_text(*auth)) == Some(
                strings_view(args@),
            ),
            None => warmup_args_from_spec(*config, url@, optional_text(*auth)) is None,
        },
{
    if config.warmup_seconds == 0 {
        return None;
    }
    let mut out: Vec<String> = Vec::new();
    assert(strings_view(out@) =~= Seq::empty());
    push_flag(&mut out, "-c");
    push_number(&mut out, config.ramping.connections);
    push_flag(&mut out, "-z");
    push_seconds(&mut out, config.warmup_seconds);
    push_flag(&mut out, "-q");
    push_number(&mut out, config.ramping.start_rate);
    push_flag(&mut out, "--no-tui");
    let ghost head = strings_view(out@);
    assert(head =~= seq![
        "-c"@,
        decimal_digits(config.ramping.connections as nat),
        "-z"@,
        decimal_digits(config.warmup_seconds as nat) + seq!['s'],
        "-q"@,
        decimal_digits(config.ramping.start_rate as nat),
        "--no-tui"@,
    ]);
    push_user_agent(&mut out, config.user_agent.as_str());
    push_auth(&mut out, auth);
    push_arg(&mut out, url.to_owned());
    assert(strings_view(out@) =~= head + user_agent_args(config.user_agent@) + auth_args(
        optional_text(*auth),
    ) + seq![url@]);
    Some(out)
}

/// Composes the arguments of the load generator for the warmup; none where
/// no warmup is configured.
pub fn build_warmup_args(config: &BenchmarkConfig, url: &str) -> (r: Option<Vec<String>>)
    ensures
        match r {
            Some(args) => warmup_args_from_spec(*config, url@, auth_header_spec(config.auth))
                == Some(strings_view(args@)),
            None => warmup_args_from_spec(*config, url@, auth_header_spec(config.auth)) is None,
        },
{
    let auth = generate_auth_header(&config.auth);
    build_warmup_args_from(config, url, &auth)
}

/// What to tell a user whose machine lacks the load generator.
pub open spec fn install_instructions() -> Seq<char> {
    "oha is not installed.\n\noha is a modern HTTP load generator with rate limiting support.\n\nTo install oha:\n\n  # Arch Linux\n  sudo pacman -S oha\n\n  # Using cargo\n  cargo install oha\n\n  # macOS with Homebrew\n  brew install oha\n\nFor more info, see: https://github.com/hatoo/oha"@
}

/// Writes what to tell a user whose machine lacks the load generator.
pub fn get_install_instructions() -> (r: String)
    ensures
        r@ == install_instructions(),
{
    "oha is not installed.\n\noha is a modern HTTP load generator with rate limiting support.\n\nTo install oha:\n\n  # Arch Linux\n  sudo pacman -S oha\n\n  # Using cargo\n  cargo install oha\n\n  # macOS with Homebrew\n  brew install oha\n\nFor more info, see: https://github.com/hatoo/oha".to_owned()
}

} // verus!
