//! What a chart of a run shows, before anything is drawn: the wording of its
//! labels, the span of its axes, and the points that make it up.

use vstd::prelude::*;
use crate::analysis::{
    is_terminal, result_views, status_is_terminal, AnalysisResult, BreakReason, StepStatus,
};
use crate::config::ThresholdConfig;
use crate::decimal::{
    push_tenths, round_half_even, rounded_ratio, tenths_text, Decimal, SCALE,
};
use crate::output::{latency_short_chars, latency_short_text, UrlBenchmarkResults};
use crate::runner::{BenchmarkResult, BenchmarkResultView};
use crate::text::{
    chars_to_string, decimal_digits, length_without_trailing, optional_text, push_chars,
    push_decimal, push_str, skip_leading, slice_chars, str_chars, without_leading,
    without_trailing,
};

verus! {

/// The p99 latency, in milliseconds, up to which a service counts as usable.
pub const P99_MAX_ACCEPTABLE_MS: u64 = 3000;

/// Daily active users that one request per second stands for, at the least.
pub const DAU_PER_RPS_LOW: u64 = 5_000;

/// Daily active users that one request per second stands for, at the most.
pub const DAU_PER_RPS_HIGH: u64 = 15_000;

/// A URL as a chart names it: without protocol and trailing slashes, and
/// cut to 57 characters and an ellipsis where it has more than 60.
pub open spec fn short_url(url: Seq<char>) -> Seq<char> {
    let bare = without_trailing(
        without_leading(without_leading(url, "https://"@), "http://"@),
        '/',
    );
    if bare.len() > 60 {
        bare.subrange(0, 57) + "..."@
    } else {
        bare
    }
}

/// Shortens a URL for display.
pub fn shorten_url(url: &str) -> (r: String)
    ensures
        r@ == short_url(url@),
{
    let v = str_chars(url);
    assert(v@.skip(0) =~= v@);
    let after_https = skip_leading(&v, &str_chars("https://"), 0);
    let after_http = skip_leading(&v, &str_chars("http://"), after_https);
    let rest = slice_chars(&v, after_http, v.len());
    assert(rest@ =~= v@.skip(after_http as int));
    let end = length_without_trailing(&rest, '/');
    let mut out: Vec<char>;
    if end > 60 {
        out = slice_chars(&rest, 0, 57);
        push_str(&mut out, "...");
        assert(without_trailing(rest@, '/').subrange(0, 57) =~= rest@.subrange(0, 57));
    } else {
        out = slice_chars(&rest, 0, end);
    }
    chars_to_string(&out)
}

/// Why a run broke, as the title of a chart says it.
pub open spec fn break_cause_text(reason: BreakReason) -> Seq<char> {
    match reason {
        BreakReason::ErrorRate(rate) => "Error Rate ("@ + rate.one_place_text() + "%)"@,
        BreakReason::P99Latency(ms) => "P99 Latency ("@ + ms.whole_text() + "ms)"@,
        BreakReason::ThroughputDegradation(pct) => "Throughput Degradation ("@
            + pct.whole_text() + "%)"@,
        BreakReason::Hung => "Server Hung"@,
        BreakReason::NoResponses => "No Responses"@,
        _ => "Threshold Exceeded"@,
    }
}

/// How a run ended, where it ended early.
pub open spec fn termination_text(last: AnalysisResult) -> Option<Seq<char>> {
    match last.status {
        StepStatus::Break => Some("BREAK: "@ + break_cause_text(last.break_reason)),
        StepStatus::RateLimited => Some("RATE LIMITED"@),
        StepStatus::Blocked => Some("BLOCKED"@),
        StepStatus::Hung => Some("CONNECTION HUNG"@),
        StepStatus::Gone => Some("NO RESPONSE"@),
        StepStatus::Healthy | StepStatus::Warning => None,
    }
}

/// How a run ended, going by its last step; nothing for a run without steps.
pub open spec fn termination_status(analyses: Seq<AnalysisResult>) -> Option<Seq<char>> {
    if analyses.len() == 0 {
        None
    } else {
        termination_text(analyses.last())
    }
}

/// Words how a run ended, going by its last step; nothing where it ran to
/// its end.
pub fn format_termination_status(analyses: &Vec<AnalysisResult>) -> (r: Option<String>)
    ensures
        optional_text(r) == termination_status(analyses@),
{
    if analyses.len() == 0 {
        return None;
    }
    let last = analyses[analyses.len() - 1];
    match last.status {
        StepStatus::Break => {
            let mut out = str_chars("BREAK: ");
            match last.break_reason {
                BreakReason::ErrorRate(rate) => {
                    push_str(&mut out, "Error Rate (");
                    rate.push_one_place(&mut out);
                    push_str(&mut out, "%)");
                },
                BreakReason::P99Latency(ms) => {
                    push_str(&mut out, "P99 Latency (");
                    ms.push_whole(&mut out);
                    push_str(&mut out, "ms)");
                },
                BreakReason::ThroughputDegradation(pct) => {
                    push_str(&mut out, "Throughput Degradation (");
                    pct.push_whole(&mut out);
                    push_str(&mut out, "%)");
                },
                BreakReason::Hung => {
                    push_str(&mut out, "Server Hung");
                },
                BreakReason::NoResponses => {
                    push_str(&mut out, "No Responses");
                },
                _ => {
                    push_str(&mut out, "Threshold Exceeded");
                },
            }
            assert(out@ =~= "BREAK: "@ + break_cause_text(last.break_reason));
            Some(chars_to_string(&out))
        },
        StepStatus::RateLimited => Some("RATE LIMITED".to_owned()),
        StepStatus::Blocked => Some("BLOCKED".to_owned()),
        StepStatus::Hung => Some("CONNECTION HUNG".to_owned()),
        StepStatus::Gone => Some("NO RESPONSE".to_owned()),
        StepStatus::Healthy | StepStatus::Warning => None,
    }
}

/// A number in short: millions with one decimal place, thousands in whole.
pub open spec fn short_number_text(n: nat) -> Seq<char> {
    if n >= 1_000_000 {
        tenths_text(round_half_even(n, 100_000)) + "M"@
    } else if n >= 1_000 {
        decimal_digits(round_half_even(n, 1_000)) + "k"@
    } else {
        decimal_digits(n)
    }
}

fn push_short_number(out: &mut Vec<char>, n: u64)
    ensures
        final(out)@ == old(out)@ + short_number_text(n as nat),
{
    if n >= 1_000_000 {
        push_tenths(out, rounded_ratio(n, 100_000));
        push_str(out, "M");
    } else if n >= 1_000 {
        push_decimal(out, rounded_ratio(n, 1_000));
        push_str(out, "k");
    } else {
        push_decimal(out, n);
    }
    assert(out@ =~= old(out)@ + short_number_text(n as nat));
}

/// Writes a number in short.
pub fn format_short_number(n: u64) -> (r: String)
    ensures
        r@ == short_number_text(n as nat),
{
    let mut out: Vec<char> = Vec::new();
    push_short_number(&mut out, n);
    assert(out@ =~= short_number_text(n as nat));
    chars_to_string(&out)
}

/// A step counts for the estimate where it did not end the search and its
/// p99 latency stayed under the acceptable bound.
pub open spec fn qualifies(result: BenchmarkResultView, analysis: AnalysisResult) -> bool {
    (analysis.status == StepStatus::Healthy || analysis.status == StepStatus::Warning)
        && result.p99_latency_ms.micros < P99_MAX_ACCEPTABLE_MS * SCALE
}

/// The highest target rate among the first `n` steps that qualify.
pub open spec fn max_qualifying_rate(
    results: Seq<BenchmarkResultView>,
    analyses: Seq<AnalysisResult>,
    n: nat,
) -> Option<u32>
    decreases n,
{
    if n == 0 {
        None
    } else {
        let before = max_qualifying_rate(results, analyses, (n - 1) as nat);
        if qualifies(results[n - 1], analyses[n - 1]) {
            match before {
                Some(m) => if m >= results[n - 1].target_rate {
                    Some(m)
                } else {
                    Some(results[n - 1].target_rate)
                },
                None => Some(results[n - 1].target_rate),
            }
        } else {
            before
        }
    }
}

/// The highest qualifying rate is the rate of a qualifying step and no
/// qualifying step has a higher one; there is none exactly where no step
/// qualifies.
pub proof fn lemma_max_qualifying_rate(
    results: Seq<BenchmarkResultView>,
    analyses: Seq<AnalysisResult>,
    n: nat,
)
    requires
        n <= results.len(),
        n <= analyses.len(),
    ensures
        match max_qualifying_rate(results, analyses, n) {
            Some(m) => {
                &&& exists|i: int|
                    0 <= i < n && qualifies(results[i], analyses[i]) && results[i].target_rate
                        == m
                &&& forall|i: int|
                    0 <= i < n && qualifies(results[i], analyses[i]) ==> results[i].target_rate
                        <= m
            },
            None => forall|i: int| 0 <= i < n ==> !qualifies(results[i], analyses[i]),
        },
    decreases n,
{
    if n > 0 {
        lemma_max_qualifying_rate(results, analyses, (n - 1) as nat);
        let before = max_qualifying_rate(results, analyses, (n - 1) as nat);
        if qualifies(results[n - 1], analyses[n - 1]) {
            let rate = results[n - 1].target_rate;
            match before {
                Some(m) => {
                    if m >= rate {
                        let i = choose|i: int|
                            0 <= i < n - 1 && qualifies(results[i], analyses[i])
                                && results[i].target_rate == m;
                        assert(0 <= i < n && qualifies(results[i], analyses[i])
                            && results[i].target_rate == m);
                    } else {
                        assert(0 <= n - 1 < n && qualifies(results[n - 1], analyses[n - 1])
                            && results[n - 1].target_rate == rate);
                    }
                },
                None => {
                    assert(0 <= n - 1 < n && qualifies(results[n - 1], analyses[n - 1])
                        && results[n - 1].target_rate == rate);
                },
            }
        } else {
            match before {
                Some(m) => {
                    let i = choose|i: int|
                        0 <= i < n - 1 && qualifies(results[i], analyses[i])
                            && results[i].target_rate == m;
                    assert(0 <= i < n && qualifies(results[i], analyses[i])
                        && results[i].target_rate == m);
                },
                None => {},
            }
        }
    }
}

/// The number of steps that have both a result and a classification.
pub open spec fn paired_steps(results: Seq<BenchmarkResultView>, analyses: Seq<AnalysisResult>) -> nat {
    if results.len() <= analyses.len() {
        results.len()
    } else {
        analyses.len()
    }
}

/// Whether the last step ended the search.
pub open spec fn ended_early(analyses: Seq<AnalysisResult>) -> bool {
    analyses.len() > 0 && analyses.last().status != StepStatus::Healthy
        && analyses.last().status != StepStatus::Warning
}

/// The daily active users that a rate can serve, in words: a span where the
/// run ended early, a lower bound where it ran to its end, and less than the
/// least where no step qualified.
pub open spec fn dau_estimate_text(rate: Option<u32>, did_break: bool) -> Seq<char> {
    match rate {
        Some(r) => if did_break {
            "~"@ + short_number_text((r * DAU_PER_RPS_LOW) as nat) + " - "@ + short_number_text(
                (r * DAU_PER_RPS_HIGH) as nat,
            ) + " DAU"@
        } else {
            "~"@ + short_number_text((r * DAU_PER_RPS_LOW) as nat) + "+ DAU"@
        },
        None => "<5k DAU"@,
    }
}

/// Estimates the daily active users that the target can serve, and tells
/// whether the run ended early.
pub fn calculate_dau_estimate(results: &Vec<BenchmarkResult>, analyses: &Vec<AnalysisResult>) -> (r:
    (String, bool))
    ensures
        r.1 == ended_early(analyses@),
        r.0@ == dau_estimate_text(
            max_qualifying_rate(
                result_views(results@),
                analyses@,
                paired_steps(result_views(results@), analyses@),
            ),
            ended_early(analyses@),
        ),
{
    let did_break = analyses.len() > 0 && match analyses[analyses.len() - 1].status {
        StepStatus::Healthy | StepStatus::Warning => false,
        _ => true,
    };
    let n = if results.len() <= analyses.len() {
        results.len()
    } else {
        analyses.len()
    };
    let mut best: Option<u32> = None;
    let mut i: usize = 0;
    while i < n
        invariant
            i <= n,
            n <= results.len(),
            n <= analyses.len(),
            best == max_qualifying_rate(result_views(results@), analyses@, i as nat),
        decreases n - i,
    {
        assert(result_views(results@)[i as int] == results@[i as int]@);
        let status = analyses[i].status;
        let fine = match status {
            StepStatus::Healthy | StepStatus::Warning => true,
            _ => false,
        };
        if fine && results[i].p99_latency_ms.micros < P99_MAX_ACCEPTABLE_MS * SCALE {
            let rate = results[i].target_rate;
            best = match best {
                Some(m) => if m >= rate {
                    Some(m)
                } else {
                    Some(rate)
                },
                None => Some(rate),
            };
        }
        i += 1;
    }
    let mut out: Vec<char> = Vec::new();
    match best {
        Some(rate) => {
            push_str(&mut out, "~");
            push_short_number(&mut out, rate as u64 * DAU_PER_RPS_LOW);
            if did_break {
                push_str(&mut out, " - ");
                push_short_number(&mut out, rate as u64 * DAU_PER_RPS_HIGH);
                push_str(&mut out, " DAU");
            } else {
                push_str(&mut out, "+ DAU");
            }
        },
        None => {
            push_str(&mut out, "<5k DAU");
        },
    }
    assert(out@ =~= dau_estimate_text(best, did_break));
    (chars_to_string(&out), did_break)
}

/// The number of steps that a chart plots: the last one is left out where
/// it ended the search and is not the only one.
pub open spec fn plotted_steps_spec(steps: nat, analyses: Seq<AnalysisResult>) -> nat {
    if analyses.len() > 0 && is_terminal(analyses.last().status) && steps > 1 {
        (steps - 1) as nat
    } else {
        steps
    }
}

/// Counts the steps that a chart plots.
pub fn plotted_steps(steps: usize, analyses: &Vec<AnalysisResult>) -> (r: usize)
    ensures
        r == plotted_steps_spec(steps as nat, analyses@),
{
    if analyses.len() > 0 && status_is_terminal(analyses[analyses.len() - 1].status) && steps > 1 {
        steps - 1
    } else {
        steps
    }
}

/// A point of the error line shows where its error rate is above zero or
/// that of a neighbour is.
pub open spec fn point_is_visible(rates: Seq<Decimal>, i: int) -> bool {
    rates[i].micros > 0 || (i > 0 && rates[i - 1].micros > 0) || (i + 1 < rates.len() && rates[i
        + 1].micros > 0)
}

/// Tells for each point of the error line whether it shows.
pub fn visible_points(rates: &Vec<Decimal>) -> (r: Vec<bool>)
    ensures
        r@.len() == rates@.len(),
        forall|i: int| 0 <= i < rates@.len() ==> r@[i] == point_is_visible(rates@, i),
{
    let mut out: Vec<bool> = Vec::new();
    let mut i: usize = 0;
    while i < rates.len()
        invariant
            i <= rates.len(),
            out.len() == i,
            forall|k: int| 0 <= k < i ==> out@[k] == point_is_visible(rates@, k),
        decreases rates.len() - i,
    {
        let shows = rates[i].micros > 0 || (i > 0 && rates[i - 1].micros > 0) || (i + 1
            < rates.len() && rates[i + 1].micros > 0);
        out.push(shows);
        i += 1;
    }
    out
}

/// The spans of the two vertical axes, each from zero: the error rate up to
/// its threshold but no further than 50%, the p99 latency up to its
/// threshold but no further than 4000 ms and no less than a tenth above the
/// acceptable bound.
pub open spec fn shared_y_caps(thresholds: ThresholdConfig) -> (Decimal, Decimal) {
    (
        if thresholds.max_error_rate.micros < 50 * SCALE {
            thresholds.max_error_rate
        } else {
            Decimal { micros: 50_000_000 }
        },
        if thresholds.max_p99_ms < 3300 {
            Decimal { micros: 3_300_000_000 }
        } else if thresholds.max_p99_ms < 4000 {
            Decimal { micros: (thresholds.max_p99_ms * SCALE) as u64 }
        } else {
            Decimal { micros: 4_000_000_000 }
        },
    )
}

/// Calculates the upper ends of the two vertical axes of a chart.
pub fn calculate_shared_y_ranges(thresholds: &ThresholdConfig) -> (r: (Decimal, Decimal))
    ensures
        r == shared_y_caps(*thresholds),
{
    let error_cap = if thresholds.max_error_rate.micros < 50 * SCALE {
        thresholds.max_error_rate
    } else {
        Decimal { micros: 50 * SCALE }
    };
    let p99_cap = if thresholds.max_p99_ms < 3300 {
        Decimal { micros: 3300 * SCALE }
    } else if thresholds.max_p99_ms < 4000 {
        Decimal { micros: thresholds.max_p99_ms as u64 * SCALE }
    } else {
        Decimal { micros: 4000 * SCALE }
    };
    (error_cap, p99_cap)
}

/// The highest error rate and the highest p99 latency among the first `n`
/// results; zero where there are none.
pub open spec fn highest_values(results: Seq<BenchmarkResultView>, n: nat) -> (Decimal, Decimal)
    decreases n,
{
    if n == 0 {
        (Decimal { micros: 0 }, Decimal { micros: 0 })
    } else {
        let before = highest_values(results, (n - 1) as nat);
        (
            if results[n - 1].error_rate.micros > before.0.micros {
                results[n - 1].error_rate
            } else {
                before.0
            },
            if results[n - 1].p99_latency_ms.micros > before.1.micros {
                results[n - 1].p99_latency_ms
            } else {
                before.1
            },
        )
    }
}

/// Finds the highest error rate and the highest p99 latency of a run.
pub fn calculate_y_ranges(results: &Vec<BenchmarkResult>) -> (r: (Decimal, Decimal))
    ensures
        r == highest_values(result_views(results@), results@.len()),
{
    let mut max_error_rate = Decimal { micros: 0 };
    let mut max_p99 = Decimal { micros: 0 };
    let mut i: usize = 0;
    while i < results.len()
        invariant
            i <= results.len(),
            (max_error_rate, max_p99) == highest_values(result_views(results@), i as nat),
        decreases results.len() - i,
    {
        assert(result_views(results@)[i as int] == results@[i as int]@);
        if results[i].error_rate.micros > max_error_rate.micros {
            max_error_rate = results[i].error_rate;
        }
        if results[i].p99_latency_ms.micros > max_p99.micros {
            max_p99 = results[i].p99_latency_ms;
        }
        i += 1;
    }
    (max_error_rate, max_p99)
}

/// The lowest rate above zero and the highest rate among the first `n`
/// rates; zero for each where no rate is above zero.
pub open spec fn rate_span(rates: Seq<u32>, n: nat) -> (u32, u32)
    decreases n,
{
    if n == 0 {
        (0, 0)
    } else {
        let before = rate_span(rates, (n - 1) as nat);
        let rate = rates[n - 1];
        if rate == 0 {
            before
        } else {
            (
                if before.0 == 0 || rate < before.0 {
                    rate
                } else {
                    before.0
                },
                if rate > before.1 {
                    rate
                } else {
                    before.1
                },
            )
        }
    }
}

/// The target rates of the steps of all runs, run after run.
pub open spec fn all_target_rates(runs: Seq<UrlBenchmarkResults>) -> Seq<u32>
    decreases runs.len(),
{
    if runs.len() == 0 {
        Seq::empty()
    } else {
        all_target_rates(runs.drop_last()) + runs.last().results@.map_values(
            |r: BenchmarkResult| r.target_rate,
        )
    }
}

/// Finds the lowest and the highest target rate above zero over all runs.
pub fn calculate_x_range(runs: &Vec<UrlBenchmarkResults>) -> (r: (u32, u32))
    ensures
        r == rate_span(all_target_rates(runs@), all_target_rates(runs@).len()),
{
    let mut rates: Vec<u32> = Vec::new();
    let mut k: usize = 0;
    assert(runs@.subrange(0, 0) =~= Seq::empty());
    while k < runs.len()
        invariant
            k <= runs.len(),
            rates@ == all_target_rates(runs@.subrange(0, k as int)),
        decreases runs.len() - k,
    {
        assert(runs@.subrange(0, k + 1).drop_last() == runs@.subrange(0, k as int));
        assert(runs@.subrange(0, k + 1).last() == runs@[k as int]);
        let ghost before = rates@;
        let results = &runs[k].results;
        let mut j: usize = 0;
        while j < results.len()
            invariant
                j <= results.len(),
                rates@ == before + results@.map_values(
                    |r: BenchmarkResult| r.target_rate,
                ).subrange(0, j as int),
            decreases results.len() - j,
        {
            rates.push(results[j].target_rate);
            j += 1;
        }
        assert(results@.map_values(|r: BenchmarkResult| r.target_rate).subrange(
            0,
            results.len() as int,
        ) =~= results@.map_values(|r: BenchmarkResult| r.target_rate));
        k += 1;
    }
    assert(runs@.subrange(0, runs.len() as int) == runs@);
    let mut lowest: u32 = 0;
    let mut highest: u32 = 0;
    let mut i: usize = 0;
    while i < rates.len()
        invariant
            i <= rates.len(),
            (lowest, highest) == rate_span(rates@, i as nat),
        decreases rates.len() - i,
    {
        let rate = rates[i];
        if rate > 0 {
            if lowest == 0 || rate < lowest {
                lowest = rate;
            }
            if rate > highest {
                highest = rate;
            }
        }
        i += 1;
    }
    (lowest, highest)
}

/// Writes a latency given in milliseconds for the label of an axis.
pub fn format_latency_short(ms: Decimal) -> (r: String)
    ensures
        r@ == latency_short_text(ms),
{
    chars_to_string(&latency_short_chars(ms))
}

/// A number of tenths without a decimal place that is zero.
pub open spec fn trimmed_tenths_text(tenths: nat) -> Seq<char> {
    if tenths % 10 == 0 {
        decimal_digits(tenths / 10)
    } else {
        tenths_text(tenths)
    }
}

/// A rate in short: thousands with a `k`, whole from a hundred on, and with
/// one decimal place, where it is not zero, below.
pub open spec fn rate_short_text(rate: Decimal) -> Seq<char> {
    if rate.micros >= 100_000_000_000 {
        decimal_digits(round_half_even(rate.micros as nat, 1_000_000_000)) + "k"@
    } else if rate.micros >= 1_000_000_000 {
        trimmed_tenths_text(round_half_even(rate.micros as nat, 100_000_000)) + "k"@
    } else if rate.micros >= 100_000_000 {
        decimal_digits(round_half_even(rate.micros as nat, 1_000_000))
    } else {
        trimmed_tenths_text(round_half_even(rate.micros as nat, 100_000))
    }
}

fn push_trimmed_tenths(out: &mut Vec<char>, tenths: u64)
    ensures
        final(out)@ == old(out)@ + trimmed_tenths_text(tenths as nat),
{
    if tenths % 10 == 0 {
        push_decimal(out, tenths / 10);
    } else {
        push_tenths(out, tenths);
    }
}

fn push_rate_short(out: &mut Vec<char>, rate: Decimal)
    ensures
        final(out)@ == old(out)@ + rate_short_text(rate),
{
    if rate.micros >= 100_000_000_000 {
        push_decimal(out, rounded_ratio(rate.micros, 1_000_000_000));
        push_str(out, "k");
    } else if rate.micros >= 1_000_000_000 {
        push_trimmed_tenths(out, rounded_ratio(rate.micros, 100_000_000));
        push_str(out, "k");
    } else if rate.micros >= 100_000_000 {
        push_decimal(out, rounded_ratio(rate.micros, 1_000_000));
    } else {
        push_trimmed_tenths(out, rounded_ratio(rate.micros, 100_000));
    }
    assert(out@ =~= old(out)@ + rate_short_text(rate));
}

/// Writes a rate in short.
pub fn format_rate_short(rate: Decimal) -> (r: String)
    ensures
        r@ == rate_short_text(rate),
{
    let mut out: Vec<char> = Vec::new();
    push_rate_short(&mut out, rate);
    assert(out@ =~= rate_short_text(rate));
    chars_to_string(&out)
}

/// A class of services by the rate they see: from `min_rate` requests per
/// second up to `max_rate`, or without an upper end.
#[derive(Debug, Clone, Copy)]
pub struct BusinessScale {
    pub min_rate: u32,
    pub max_rate: Option<u32>,
    pub label: &'static str,
}

/// The classes of services as triples of lower end, upper end and name.
pub open spec fn scale_list() -> Seq<(u32, Option<u32>, Seq<char>)> {
    seq![
        (1u32, Some(5u32), "Internal"@),
        (5u32, Some(20u32), "Local"@),
        (20u32, Some(100u32), "Regional"@),
        (100u32, Some(1000u32), "National"@),
        (1000u32, None, "Global"@),
    ]
}

/// The classes of services, from the smallest to the largest.
pub fn business_scales() -> (r: Vec<BusinessScale>)
    ensures
        r@.len() == scale_list().len(),
        forall|i: int|
            0 <= i < r@.len() ==> (#[trigger] r@[i].min_rate, r@[i].max_rate, r@[i].label@)
                == scale_list()[i],
{
    vec![
        BusinessScale { min_rate: 1, max_rate: Some(5), label: "Internal" },
        BusinessScale { min_rate: 5, max_rate: Some(20), label: "Local" },
        BusinessScale { min_rate: 20, max_rate: Some(100), label: "Regional" },
        BusinessScale { min_rate: 100, max_rate: Some(1000), label: "National" },
        BusinessScale { min_rate: 1000, max_rate: None, label: "Global" },
    ]
}

/// A whole number of requests per second.
pub open spec fn whole_rate(rate: u32) -> Decimal {
    Decimal { micros: (rate * SCALE) as u64 }
}

/// One class in words: its name and its span.
pub open spec fn scale_text(scale: (u32, Option<u32>, Seq<char>)) -> Seq<char> {
    scale.2 + " "@ + rate_short_text(whole_rate(scale.0)) + (match scale.1 {
        Some(max) => "-"@ + rate_short_text(whole_rate(max)),
        None => "+"@,
    })
}

/// The first `n` classes in words, with a bar between them.
pub open spec fn scales_text(scales: Seq<(u32, Option<u32>, Seq<char>)>, n: nat) -> Seq<char>
    decreases n,
{
    if n == 0 {
        Seq::empty()
    } else if n == 1 {
        scale_text(scales[0])
    } else {
        scales_text(scales, (n - 1) as nat) + " | "@ + scale_text(scales[n - 1])
    }
}

/// The line under the title of a chart that names the classes of services.
pub open spec fn business_scale_subtitle() -> Seq<char> {
    "Classed by "@ + scales_text(scale_list(), scale_list().len())
}

/// Writes the line that names the classes of services.
pub fn format_business_scale_subtitle() -> (r: String)
    ensures
        r@ == business_scale_subtitle(),
{
    let scales = business_scales();
    let mut out = str_chars("Classed by ");
    let ghost start = out@;
    let mut i: usize = 0;
    assert(out@ =~= start + scales_text(scale_list(), 0));
    while i < scales.len()
        invariant
            i <= scales.len(),
            scales@.len() == scale_list().len(),
            forall|k: int|
                0 <= k < scales@.len() ==> (
                    #[trigger] scales@[k].min_rate,
                    scales@[k].max_rate,
                    scales@[k].label@,
                ) == scale_list()[k],
            out@ == start + scales_text(scale_list(), i as nat),
        decreases scales.len() - i,
    {
        let scale = scales[i];
        assert((scales@[i as int].min_rate, scales@[i as int].max_rate, scales@[i as int].label@)
            == scale_list()[i as int]);
        let ghost before = out@;
        if i > 0 {
            push_str(&mut out, " | ");
        }
        let mut part: Vec<char> = Vec::new();
        push_str(&mut part, scale.label);
        push_str(&mut part, " ");
        push_rate_short(&mut part, Decimal { micros: scale.min_rate as u64 * SCALE });
        match scale.max_rate {
            Some(max) => {
                push_str(&mut part, "-");
                push_rate_short(&mut part, Decimal { micros: max as u64 * SCALE });
            },
            None => {
                push_str(&mut part, "+");
            },
        }
        assert(part@ =~= scale_text(scale_list()[i as int]));
        push_chars(&mut out, &part);
        assert(out@ =~= start + scales_text(scale_list(), (i + 1) as nat));
        i += 1;
    }
    chars_to_string(&out)
}

} // verus!
