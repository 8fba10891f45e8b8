//! Classification of one step against the thresholds, and the summary of a run.

use vstd::prelude::*;
use crate::codes::{
    code_total, count_in, distinct_codes, lemma_merge_entries, merge_entries, merge_into,
    sort_by_count, sorted_by_count,
};
use crate::config::ThresholdConfig;
use crate::decimal::{clamp_u64, Decimal, SCALE};
use crate::runner::{BenchmarkResult, BenchmarkResultView};
use crate::text::{chars_to_string, push_str, str_chars};

verus! {

/// Health of one step. `Healthy` is a step under every threshold.
#[derive(Debug, Clone, Copy, PartialEq, Eq, Structural)]
pub enum StepStatus {
    Healthy,
    Warning,
    Break,
    RateLimited,
    Blocked,
    Hung,
    Gone,
}

/// Why a step broke. The rates are percentages, the latency is in
/// milliseconds. `NoBreak` is the reason of a step that did not break.
#[derive(Debug, Clone, Copy, PartialEq, Eq, Structural)]
pub enum BreakReason {
    ErrorRate(Decimal),
    RateLimited(Decimal),
    Blocked(Decimal),
    P99Latency(Decimal),
    /// The achieved rate as a percentage of the target.
    ThroughputDegradation(Decimal),
    Hung,
    NoResponses,
    NoBreak,
}

impl StepStatus {
    /// The status as a table shows it.
    pub open spec fn label_spec(self) -> Seq<char> {
        match self {
            StepStatus::Healthy => "OK"@,
            StepStatus::Warning => "WARN"@,
            StepStatus::Break => "BREAK"@,
            StepStatus::RateLimited => "RATE"@,
            StepStatus::Blocked => "BLOCK"@,
            StepStatus::Hung => "HANG"@,
            StepStatus::Gone => "GONE"@,
        }
    }

    /// Writes the status as a table shows it.
    pub fn label(&self) -> (r: String)
        ensures
            r@ == self.label_spec(),
    {
        match self {
            StepStatus::Healthy => "OK".to_owned(),
            StepStatus::Warning => "WARN".to_owned(),
            StepStatus::Break => "BREAK".to_owned(),
            StepStatus::RateLimited => "RATE".to_owned(),
            StepStatus::Blocked => "BLOCK".to_owned(),
            StepStatus::Hung => "HANG".to_owned(),
            StepStatus::Gone => "GONE".to_owned(),
        }
    }
}

impl BreakReason {
    /// The reason in words. Rates are written with one decimal place, the
    /// latency in whole milliseconds.
    pub open spec fn describe_spec(self) -> Seq<char> {
        match self {
            BreakReason::ErrorRate(rate) => "Error rate exceeded threshold ("@
                + rate.one_place_text() + "%)"@,
            BreakReason::RateLimited(rate) => "Rate limited by server ("@ + rate.one_place_text()
                + "% errors)"@,
            BreakReason::Blocked(rate) => "Blocked by WAF/security ("@ + rate.one_place_text()
                + "% errors)"@,
            BreakReason::P99Latency(ms) => "p99 latency exceeded threshold ("@ + ms.whole_text()
                + "ms)"@,
            BreakReason::ThroughputDegradation(pct) => "Throughput degradation ("@
                + pct.one_place_text() + "% of target)"@,
            BreakReason::Hung => "Server stopped responding"@,
            BreakReason::NoResponses => "No successful responses received"@,
            BreakReason::NoBreak => ""@,
        }
    }

    /// Writes the reason in words.
    pub fn describe(&self) -> (r: String)
        ensures
            r@ == self.describe_spec(),
    {
        match self {
            BreakReason::ErrorRate(rate) => {
                let mut out = str_chars("Error rate exceeded threshold (");
                rate.push_one_place(&mut out);
                push_str(&mut out, "%)");
                chars_to_string(&out)
            },
            BreakReason::RateLimited(rate) => {
                let mut out = str_chars("Rate limited by server (");
                rate.push_one_place(&mut out);
                push_str(&mut out, "% errors)");
                chars_to_string(&out)
            },
            BreakReason::Blocked(rate) => {
                let mut out = str_chars("Blocked by WAF/security (");
                rate.push_one_place(&mut out);
                push_str(&mut out, "% errors)");
                chars_to_string(&out)
            },
            BreakReason::P99Latency(ms) => {
                let mut out = str_chars("p99 latency exceeded threshold (");
                ms.push_whole(&mut out);
                push_str(&mut out, "ms)");
                chars_to_string(&out)
            },
            BreakReason::ThroughputDegradation(pct) => {
                let mut out = str_chars("Throughput degradation (");
                pct.push_one_place(&mut out);
                push_str(&mut out, "% of target)");
                chars_to_string(&out)
            },
            BreakReason::Hung => "Server stopped responding".to_owned(),
            BreakReason::NoResponses => "No successful responses received".to_owned(),
            BreakReason::NoBreak => "".to_owned(),
        }
    }
}

/// The classification of one step: its status, and why it broke if it did.
#[derive(Debug, Clone, Copy, PartialEq, Eq, Structural)]
pub struct AnalysisResult {
    pub status: StepStatus,
    pub break_reason: BreakReason,
}

/// The status code with the most error responses: the first of a list kept
/// by descending count.
pub open spec fn dominant_error_status(codes: Seq<(u32, u64)>) -> Option<u32> {
    if codes.len() > 0 {
        Some(codes[0].0)
    } else {
        None
    }
}

/// No latency was observed although requests went out.
pub open spec fn no_responses(r: BenchmarkResultView) -> bool {
    r.p99_latency_ms.micros == 0 && r.avg_latency_ms.micros == 0 && r.actual_rate.micros > 0
}

/// The error rate is above its threshold.
pub open spec fn error_rate_exceeded(r: BenchmarkResultView, t: ThresholdConfig) -> bool {
    r.error_rate.micros > t.max_error_rate.micros
}

/// The p99 latency is above its threshold.
pub open spec fn p99_exceeded(r: BenchmarkResultView, t: ThresholdConfig) -> bool {
    r.p99_latency_ms.micros > t.max_p99_ms * SCALE
}

/// The achieved rate is below 70% of a positive target.
pub open spec fn throughput_degraded(r: BenchmarkResultView) -> bool {
    r.target_rate > 0 && r.actual_rate.micros * 100 < 70 * SCALE * r.target_rate
}

/// The achieved rate as a percentage of the target, rounded down to the
/// millionth.
pub open spec fn throughput_percent(r: BenchmarkResultView) -> Decimal
    recommends
        throughput_degraded(r),
{
    Decimal { micros: (r.actual_rate.micros * 100 / (r.target_rate as int)) as u64 }
}

/// The error rate is above half its threshold, or the latency above 70% of
/// its threshold.
pub open spec fn near_threshold(r: BenchmarkResultView, t: ThresholdConfig) -> bool {
    2 * r.error_rate.micros > t.max_error_rate.micros || 10 * r.p99_latency_ms.micros > 7
        * t.max_p99_ms * SCALE
}

/// The classification of a step: the first rule that applies decides.
pub open spec fn classify(r: BenchmarkResultView, t: ThresholdConfig) -> AnalysisResult {
    if r.hung {
        AnalysisResult { status: StepStatus::Hung, break_reason: BreakReason::Hung }
    } else if no_responses(r) {
        AnalysisResult { status: StepStatus::Gone, break_reason: BreakReason::NoResponses }
    } else if error_rate_exceeded(r, t) {
        if dominant_error_status(r.error_status_codes) == Some(429u32) {
            AnalysisResult {
                status: StepStatus::RateLimited,
                break_reason: BreakReason::RateLimited(r.error_rate),
            }
        } else if dominant_error_status(r.error_status_codes) == Some(403u32) {
            AnalysisResult {
                status: StepStatus::Blocked,
                break_reason: BreakReason::Blocked(r.error_rate),
            }
        } else {
            AnalysisResult {
                status: StepStatus::Break,
                break_reason: BreakReason::ErrorRate(r.error_rate),
            }
        }
    } else if p99_exceeded(r, t) {
        AnalysisResult {
            status: StepStatus::Break,
            break_reason: BreakReason::P99Latency(r.p99_latency_ms),
        }
    } else if throughput_degraded(r) {
        AnalysisResult {
            status: StepStatus::Break,
            break_reason: BreakReason::ThroughputDegradation(throughput_percent(r)),
        }
    } else if near_threshold(r, t) {
        AnalysisResult { status: StepStatus::Warning, break_reason: BreakReason::NoBreak }
    } else {
        AnalysisResult { status: StepStatus::Healthy, break_reason: BreakReason::NoBreak }
    }
}

/// The status code that most error responses carried, if there were any.
pub fn get_dominant_error_status(result: &BenchmarkResult) -> (r: Option<u32>)
    ensures
        r == dominant_error_status(result@.error_status_codes),
{
    if result.error_status_codes.len() > 0 {
        Some(result.error_status_codes[0].0)
    } else {
        None
    }
}

/// Classifies one step against the thresholds.
pub fn analyze_result(result: &BenchmarkResult, thresholds: &ThresholdConfig) -> (r:
    AnalysisResult)
    ensures
        r == classify(result@, *thresholds),
{
    if result.hung {
        return AnalysisResult { status: StepStatus::Hung, break_reason: BreakReason::Hung };
    }
    let p99: u64 = result.p99_latency_ms.micros;
    let error_rate: u64 = result.error_rate.micros;
    let actual: u64 = result.actual_rate.micros;
    if p99 == 0 && result.avg_latency_ms.micros == 0 && actual > 0 {
        return AnalysisResult { status: StepStatus::Gone, break_reason: BreakReason::NoResponses };
    }
    if error_rate > thresholds.max_error_rate.micros {
        let dominant = get_dominant_error_status(result);
        let is_429 = match dominant {
            Some(code) => code == 429,
            None => false,
        };
        let is_403 = match dominant {
            Some(code) => code == 403,
            None => false,
        };
        if is_429 {
            return AnalysisResult {
                status: StepStatus::RateLimited,
                break_reason: BreakReason::RateLimited(result.error_rate),
            };
        }
        if is_403 {
            return AnalysisResult {
                status: StepStatus::Blocked,
                break_reason: BreakReason::Blocked(result.error_rate),
            };
        }
        return AnalysisResult {
            status: StepStatus::Break,
            break_reason: BreakReason::ErrorRate(result.error_rate),
        };
    }
    let p99_limit: u64 = thresholds.max_p99_ms as u64 * SCALE;
    if p99 > p99_limit {
        return AnalysisResult {
            status: StepStatus::Break,
            break_reason: BreakReason::P99Latency(result.p99_latency_ms),
        };
    }
    let target: u64 = result.target_rate as u64;
    let actual_hundredfold: u128 = actual as u128 * 100;
    if target > 0 && actual_hundredfold < (70 * SCALE * target) as u128 {
        let percent: u128 = actual_hundredfold / target as u128;
        assert(percent <= 70 * SCALE) by (nonlinear_arith)
            requires
                percent == actual_hundredfold / target as u128,
                actual_hundredfold < 70 * SCALE * target,
                target > 0,
        ;
        return AnalysisResult {
            status: StepStatus::Break,
            break_reason: BreakReason::ThroughputDegradation(Decimal { micros: percent as u64 }),
        };
    }
    let error_warning = 2 * error_rate as u128 > thresholds.max_error_rate.micros as u128;
    let latency_warning = 10 * p99 as u128 > (7 * p99_limit) as u128;
    if error_warning || latency_warning {
        return AnalysisResult { status: StepStatus::Warning, break_reason: BreakReason::NoBreak };
    }
    AnalysisResult { status: StepStatus::Healthy, break_reason: BreakReason::NoBreak }
}

/// A step whose load generator hung is classified as hung, whatever else was
/// measured and whatever the thresholds.
pub proof fn lemma_hung_is_always_hung(r: BenchmarkResultView, t: ThresholdConfig)
    requires
        r.hung,
    ensures
        classify(r, t) == (AnalysisResult {
            status: StepStatus::Hung,
            break_reason: BreakReason::Hung,
        }),
{
}

/// Where the error rate is over its threshold, the status code with the most
/// error responses decides between rate limiting, blocking and a plain break,
/// however many other codes follow it.
pub proof fn lemma_dominant_code_decides(r: BenchmarkResultView, t: ThresholdConfig)
    requires
        !r.hung,
        !no_responses(r),
        error_rate_exceeded(r, t),
        r.error_status_codes.len() > 0,
    ensures
        r.error_status_codes[0].0 == 429 ==> classify(r, t).status == StepStatus::RateLimited,
        r.error_status_codes[0].0 == 403 ==> classify(r, t).status == StepStatus::Blocked,
        r.error_status_codes[0].0 != 429 && r.error_status_codes[0].0 != 403 ==> classify(
            r,
            t,
        ).status == StepStatus::Break,
{
}

/// Classification depends on nothing but the result and the thresholds: two
/// results that hold the same values are classified alike.
pub proof fn lemma_classification_is_repeatable(
    first: BenchmarkResult,
    second: BenchmarkResult,
    t: ThresholdConfig,
)
    requires
        first@ == second@,
    ensures
        classify(first@, t) == classify(second@, t),
{
}

/// What a whole run came to.
#[derive(Debug, Clone)]
pub struct BenchmarkSummary {
    /// The target rate of the first step that ended the search.
    pub breaking_point_rate: Option<u32>,
    pub break_reason: BreakReason,
    pub last_stable_rate: Option<u32>,
    /// Four fifths of the last stable rate.
    pub recommended_rate: Option<u32>,
    pub total_requests: u64,
    /// Steps times the duration of a step; cooldown and warmup do not count.
    pub total_duration_seconds: u64,
    pub was_rate_limited: bool,
    pub was_blocked: bool,
    /// The error status codes of every step, merged by code, by descending
    /// count.
    pub aggregated_error_codes: Vec<(u32, u64)>,
}

/// A summary with its list as a sequence.
pub struct BenchmarkSummaryView {
    pub breaking_point_rate: Option<u32>,
    pub break_reason: BreakReason,
    pub last_stable_rate: Option<u32>,
    pub recommended_rate: Option<u32>,
    pub total_requests: u64,
    pub total_duration_seconds: u64,
    pub was_rate_limited: bool,
    pub was_blocked: bool,
    pub aggregated_error_codes: Seq<(u32, u64)>,
}

impl View for BenchmarkSummary {
    type V = BenchmarkSummaryView;

    open spec fn view(&self) -> BenchmarkSummaryView {
        BenchmarkSummaryView {
            breaking_point_rate: self.breaking_point_rate,
            break_reason: self.break_reason,
            last_stable_rate: self.last_stable_rate,
            recommended_rate: self.recommended_rate,
            total_requests: self.total_requests,
            total_duration_seconds: self.total_duration_seconds,
            was_rate_limited: self.was_rate_limited,
            was_blocked: self.was_blocked,
            aggregated_error_codes: self.aggregated_error_codes@,
        }
    }
}

/// The statuses that mark the breaking point of a run.
pub open spec fn is_terminal(status: StepStatus) -> bool {
    status == StepStatus::Break || status == StepStatus::RateLimited || status
        == StepStatus::Blocked || status == StepStatus::Hung || status == StepStatus::Gone
}

/// Whether a status marks the breaking point of a run.
pub fn status_is_terminal(status: StepStatus) -> (r: bool)
    ensures
        r == is_terminal(status),
{
    match status {
        StepStatus::Break | StepStatus::RateLimited | StepStatus::Blocked | StepStatus::Hung
        | StepStatus::Gone => true,
        StepStatus::Healthy | StepStatus::Warning => false,
    }
}

/// The place of the first terminal classification; the length of the
/// sequence where there is none.
pub open spec fn first_terminal(analyses: Seq<AnalysisResult>) -> int
    decreases analyses.len(),
{
    if analyses.len() == 0 || is_terminal(analyses[0].status) {
        0
    } else {
        1 + first_terminal(analyses.drop_first())
    }
}

/// A place is the first terminal one where it is terminal, or the end, and
/// no place before it is.
pub proof fn lemma_first_terminal(analyses: Seq<AnalysisResult>, at: int)
    requires
        0 <= at <= analyses.len(),
        forall|i: int| 0 <= i < at ==> !is_terminal(analyses[i].status),
        at < analyses.len() ==> is_terminal(analyses[at].status),
    ensures
        first_terminal(analyses) == at,
    decreases at,
{
    if at > 0 {
        lemma_first_terminal(analyses.drop_first(), at - 1);
    }
}

/// The views of a sequence of results.
pub open spec fn result_views(results: Seq<BenchmarkResult>) -> Seq<BenchmarkResultView> {
    results.map_values(|r: BenchmarkResult| r@)
}

/// The requests of all steps together.
pub open spec fn sum_requests(results: Seq<BenchmarkResultView>) -> nat
    decreases results.len(),
{
    if results.len() == 0 {
        0
    } else {
        sum_requests(results.drop_last()) + results.last().total_requests as nat
    }
}

/// The error status codes of all steps, merged by code in the order they
/// were first seen.
pub open spec fn merged_error_codes(results: Seq<BenchmarkResultView>) -> Seq<(u32, u64)>
    decreases results.len(),
{
    if results.len() == 0 {
        Seq::empty()
    } else {
        merge_entries(merged_error_codes(results.drop_last()), results.last().error_status_codes)
    }
}

/// The rate up to which the target held: the rate of the step before the
/// breaking point, or of the last step where the run did not break. Whether
/// the steps before were healthy or gave a warning makes no difference: the
/// step just before the breaking point counts either way.
pub open spec fn last_stable(results: Seq<BenchmarkResultView>, breaking_point: int) -> Option<
    u32,
> {
    if breaking_point < results.len() {
        if breaking_point > 0 {
            Some(results[breaking_point - 1].target_rate)
        } else {
            None
        }
    } else if results.len() > 0 {
        Some(results.last().target_rate)
    } else {
        None
    }
}

/// Four fifths of a rate, rounded down.
pub open spec fn recommended(rate: Option<u32>) -> Option<u32> {
    match rate {
        Some(r) => Some((r * 4 / 5) as u32),
        None => None,
    }
}

/// The summary of a run whose steps gave `results` and were classified as
/// `analyses`, in step order.
pub open spec fn summarize(
    results: Seq<BenchmarkResultView>,
    analyses: Seq<AnalysisResult>,
    duration_per_step: u32,
) -> BenchmarkSummaryView
    recommends
        analyses.len() <= results.len(),
{
    let at = first_terminal(analyses);
    let broke = at < analyses.len();
    BenchmarkSummaryView {
        breaking_point_rate: if broke {
            Some(results[at].target_rate)
        } else {
            None
        },
        break_reason: if broke {
            analyses[at].break_reason
        } else {
            BreakReason::NoBreak
        },
        last_stable_rate: last_stable(results, if broke { at } else { results.len() as int }),
        recommended_rate: recommended(
            last_stable(results, if broke { at } else { results.len() as int }),
        ),
        total_requests: clamp_u64(sum_requests(results)),
        total_duration_seconds: clamp_u64((results.len() * duration_per_step) as nat),
        was_rate_limited: broke && analyses[at].status == StepStatus::RateLimited,
        was_blocked: broke && analyses[at].status == StepStatus::Blocked,
        aggregated_error_codes: sorted_by_count(merged_error_codes(results)),
    }
}

/// Summarises a run from the results of its steps and their classifications.
pub fn generate_summary(
    results: &Vec<BenchmarkResult>,
    analyses: &Vec<AnalysisResult>,
    duration_per_step: u32,
) -> (summary: BenchmarkSummary)
    requires
        analyses.len() <= results.len(),
    ensures
        summary@ == summarize(result_views(results@), analyses@, duration_per_step),
{
    let ghost views = result_views(results@);
    let mut at: usize = 0;
    while at < analyses.len() && !status_is_terminal(analyses[at].status)
        invariant
            at <= analyses.len(),
            forall|i: int| 0 <= i < at ==> !is_terminal(analyses@[i].status),
        decreases analyses.len() - at,
    {
        at += 1;
    }
    proof {
        lemma_first_terminal(analyses@, at as int);
    }
    let broke = at < analyses.len();
    let mut breaking_point_rate: Option<u32> = None;
    let mut break_reason = BreakReason::NoBreak;
    let mut last_stable_rate: Option<u32> = None;
    let mut was_rate_limited = false;
    let mut was_blocked = false;
    if broke {
        breaking_point_rate = Some(results[at].target_rate);
        break_reason = analyses[at].break_reason;
        was_rate_limited = analyses[at].status == StepStatus::RateLimited;
        was_blocked = analyses[at].status == StepStatus::Blocked;
        if at > 0 {
            last_stable_rate = Some(results[at - 1].target_rate);
        }
    } else if results.len() > 0 {
        last_stable_rate = Some(results[results.len() - 1].target_rate);
    }
    let recommended_rate = match last_stable_rate {
        Some(r) => Some((r as u64 * 4 / 5) as u32),
        None => None,
    };
    let mut total_requests: u64 = 0;
    let mut merged: Vec<(u32, u64)> = Vec::new();
    let mut i: usize = 0;
    while i < results.len()
        invariant
            i <= results.len(),
            views == result_views(results@),
            total_requests == clamp_u64(sum_requests(views.subrange(0, i as int))),
            merged@ == merged_error_codes(views.subrange(0, i as int)),
        decreases results.len() - i,
    {
        assert(views.subrange(0, i + 1).drop_last() == views.subrange(0, i as int));
        assert(views.subrange(0, i + 1).last() == results@[i as int]@);
        total_requests = total_requests.saturating_add(results[i].total_requests);
        merge_into(&mut merged, &results[i].error_status_codes);
        i += 1;
    }
    assert(views.subrange(0, results.len() as int) == views);
    let steps: u128 = results.len() as u128;
    assert(steps * duration_per_step <= 0x1_0000_0000_0000_0000 * 0x1_0000_0000) by (nonlinear_arith)
        requires
            steps <= 0x1_0000_0000_0000_0000,
            duration_per_step <= 0x1_0000_0000,
    ;
    let wide: u128 = steps * duration_per_step as u128;
    let total_duration_seconds: u64 = if wide > u64::MAX as u128 {
        u64::MAX
    } else {
        wide as u64
    };
    let aggregated_error_codes = sort_by_count(&merged);
    BenchmarkSummary {
        breaking_point_rate,
        break_reason,
        last_stable_rate,
        recommended_rate,
        total_requests,
        total_duration_seconds,
        was_rate_limited,
        was_blocked,
        aggregated_error_codes,
    }
}

/// The error responses that all steps together saw with the status `code`.
pub open spec fn steps_code_total(results: Seq<BenchmarkResultView>, code: u32) -> nat
    decreases results.len(),
{
    if results.len() == 0 {
        0
    } else {
        steps_code_total(results.drop_last(), code) + code_total(
            results.last().error_status_codes,
            code,
        )
    }
}

/// The merged error codes of a run name no code twice, and hold for every
/// code the error responses that all steps together saw with it, cut off at
/// `u64::MAX`.
pub proof fn lemma_merged_error_codes(results: Seq<BenchmarkResultView>)
    ensures
        distinct_codes(merged_error_codes(results)),
        forall|code: u32|
            #[trigger] count_in(merged_error_codes(results), code) == clamp_u64(
                steps_code_total(results, code),
            ),
    decreases results.len(),
{
    if results.len() == 0 {
        assert forall|code: u32| #[trigger]
            count_in(merged_error_codes(results), code) == clamp_u64(
                steps_code_total(results, code),
            ) by {}
    } else {
        lemma_merged_error_codes(results.drop_last());
        lemma_merge_entries(
            merged_error_codes(results.drop_last()),
            results.last().error_status_codes,
        );
    }
}

/// The breaking point of a run is its first terminal step: no step before
/// it is terminal, and the rate before it is the last stable one. A run
/// without a terminal step has no breaking point, and its last rate is the
/// last stable one.
pub proof fn lemma_breaking_point(
    results: Seq<BenchmarkResultView>,
    analyses: Seq<AnalysisResult>,
    duration_per_step: u32,
)
    requires
        analyses.len() == results.len(),
    ensures
        0 <= first_terminal(analyses) <= analyses.len(),
        forall|i: int| 0 <= i < first_terminal(analyses) ==> !is_terminal(analyses[i].status),
        first_terminal(analyses) < analyses.len() ==> {
            let at = first_terminal(analyses);
            let summary = summarize(results, analyses, duration_per_step);
            &&& is_terminal(analyses[at].status)
            &&& summary.breaking_point_rate == Some(results[at].target_rate)
            &&& summary.break_reason == analyses[at].break_reason
            &&& at > 0 ==> summary.last_stable_rate == Some(results[at - 1].target_rate)
            &&& at == 0 ==> summary.last_stable_rate is None
        },
        first_terminal(analyses) == analyses.len() ==> {
            let summary = summarize(results, analyses, duration_per_step);
            &&& summary.breaking_point_rate is None
            &&& summary.break_reason == BreakReason::NoBreak
            &&& results.len() > 0 ==> summary.last_stable_rate == Some(results.last().target_rate)
            &&& results.len() == 0 ==> summary.last_stable_rate is None
        },
    decreases analyses.len(),
{
    if analyses.len() > 0 && !is_terminal(analyses[0].status) {
        let rest = analyses.drop_first();
        lemma_breaking_point(results.drop_first(), rest, duration_per_step);
        assert forall|i: int| 0 <= i < first_terminal(analyses) implies !is_terminal(
            analyses[i].status,
        ) by {
            if i > 0 {
                assert(analyses[i] == rest[i - 1]);
            }
        }
        if first_terminal(analyses) < analyses.len() {
            assert(analyses[first_terminal(analyses)] == rest[first_terminal(rest)]);
        }
    }
}

} // verus!
