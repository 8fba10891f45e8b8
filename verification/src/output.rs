//! The wording of numbers, durations and latencies in tables and reports.

use vstd::prelude::*;
use crate::analysis::{result_views, AnalysisResult, BenchmarkSummary, BenchmarkSummaryView};
use crate::config::BenchmarkConfig;
use crate::decimal::{push_tenths, round_half_even, rounded_ratio, tenths_text, Decimal};
use crate::runner::{BenchmarkResult, BenchmarkResultView};
use crate::text::{
    chars_to_string, decimal_digits, digit_char, pad_left, pad_right, push_chars, push_decimal,
    push_padded_left, push_padded_right, push_str, str_chars, strings_view,
};

verus! {

/// Everything that the run against one URL gave.
pub struct UrlBenchmarkResults {
    pub url: String,
    pub results: Vec<BenchmarkResult>,
    pub analyses: Vec<AnalysisResult>,
    pub summary: BenchmarkSummary,
}

/// A number below 1000 in exactly three digits.
pub open spec fn three_digits(n: nat) -> Seq<char>
    recommends
        n < 1000,
{
    seq![digit_char(n / 100), digit_char(n / 10 % 10), digit_char(n % 10)]
}

/// `n` in base ten with a comma before every group of three digits.
pub open spec fn grouped_digits(n: nat) -> Seq<char>
    decreases n,
{
    if n < 1000 {
        decimal_digits(n)
    } else {
        grouped_digits(n / 1000) + seq![','] + three_digits(n % 1000)
    }
}

fn push_grouped(out: &mut Vec<char>, n: u64)
    ensures
        final(out)@ == old(out)@ + grouped_digits(n as nat),
    decreases n,
{
    if n < 1000 {
        push_decimal(out, n);
    } else {
        push_grouped(out, n / 1000);
        let rest: u64 = n % 1000;
        out.push(',');
        out.push((48u8 + (rest / 100) as u8) as char);
        out.push((48u8 + (rest / 10 % 10) as u8) as char);
        out.push((48u8 + (rest % 10) as u8) as char);
        assert(out@ =~= old(out)@ + grouped_digits(n as nat));
    }
}

/// Writes a number with commas between its groups of three digits.
pub fn format_number(n: u64) -> (r: String)
    ensures
        r@ == grouped_digits(n as nat),
{
    let mut out: Vec<char> = Vec::new();
    push_grouped(&mut out, n);
    assert(out@ =~= grouped_digits(n as nat));
    chars_to_string(&out)
}

/// A duration in its two largest units: seconds below a minute, minutes and
/// seconds below an hour, hours and minutes from there on.
pub open spec fn duration_text(seconds: nat) -> Seq<char> {
    if seconds < 60 {
        decimal_digits(seconds) + "s"@
    } else if seconds < 3600 {
        decimal_digits(seconds / 60) + "m "@ + decimal_digits(seconds % 60) + "s"@
    } else {
        decimal_digits(seconds / 3600) + "h "@ + decimal_digits(seconds % 3600 / 60) + "m"@
    }
}

fn push_duration(out: &mut Vec<char>, seconds: u64)
    ensures
        final(out)@ == old(out)@ + duration_text(seconds as nat),
{
    if seconds < 60 {
        push_decimal(out, seconds);
        push_str(out, "s");
    } else if seconds < 3600 {
        push_decimal(out, seconds / 60);
        push_str(out, "m ");
        push_decimal(out, seconds % 60);
        push_str(out, "s");
    } else {
        push_decimal(out, seconds / 3600);
        push_str(out, "h ");
        push_decimal(out, seconds % 3600 / 60);
        push_str(out, "m");
    }
    assert(out@ =~= old(out)@ + duration_text(seconds as nat));
}

/// Writes a duration given in seconds.
pub fn format_duration(seconds: u64) -> (r: String)
    ensures
        r@ == duration_text(seconds as nat),
{
    let mut out: Vec<char> = Vec::new();
    push_duration(&mut out, seconds);
    assert(out@ =~= duration_text(seconds as nat));
    chars_to_string(&out)
}

/// A latency in the unit that suits its size: whole microseconds below a
/// millisecond, whole milliseconds below a second, seconds with one decimal
/// place from there on.
pub open spec fn latency_short_text(ms: Decimal) -> Seq<char> {
    if ms.micros < 1_000_000 {
        decimal_digits(round_half_even(ms.micros as nat, 1000)) + "us"@
    } else if ms.micros < 1_000_000_000 {
        decimal_digits(round_half_even(ms.micros as nat, 1_000_000)) + "ms"@
    } else {
        tenths_text(round_half_even(ms.micros as nat, 100_000_000)) + "s"@
    }
}

/// A latency as a table shows it: a dash where none was observed, else in
/// the unit that suits its size.
pub open spec fn latency_text(ms: Decimal) -> Seq<char> {
    if ms.micros == 0 {
        "-"@
    } else {
        latency_short_text(ms)
    }
}

/// A latency given in milliseconds in the unit that suits its size, in
/// characters.
pub fn latency_short_chars(ms: Decimal) -> (r: Vec<char>)
    ensures
        r@ == latency_short_text(ms),
{
    let mut out: Vec<char> = Vec::new();
    if ms.micros < 1_000_000 {
        push_decimal(&mut out, rounded_ratio(ms.micros, 1000));
        push_str(&mut out, "us");
    } else if ms.micros < 1_000_000_000 {
        push_decimal(&mut out, rounded_ratio(ms.micros, 1_000_000));
        push_str(&mut out, "ms");
    } else {
        push_tenths(&mut out, rounded_ratio(ms.micros, 100_000_000));
        push_str(&mut out, "s");
    }
    assert(out@ =~= latency_short_text(ms));
    out
}

/// A latency given in milliseconds as a table shows it, in characters.
pub fn latency_chars(ms: Decimal) -> (r: Vec<char>)
    ensures
        r@ == latency_text(ms),
{
    if ms.micros == 0 {
        str_chars("-")
    } else {
        latency_short_chars(ms)
    }
}

/// Writes a latency given in milliseconds.
pub fn format_latency(ms: Decimal) -> (r: String)
    ensures
        r@ == latency_text(ms),
{
    chars_to_string(&latency_chars(ms))
}

/// Writes a number with one decimal place.
pub fn format_one_place(value: Decimal) -> (r: String)
    ensures
        r@ == value.one_place_text(),
{
    chars_to_string(&value.one_place_chars())
}

/// Writes a number with two decimal places.
pub fn format_two_places(value: Decimal) -> (r: String)
    ensures
        r@ == value.two_places_text(),
{
    chars_to_string(&value.two_places_chars())
}

/// Writes a number in full.
pub fn format_plain(value: Decimal) -> (r: String)
    ensures
        r@ == value.plain_text(),
{
    chars_to_string(&value.plain_chars())
}

/// The heading under which a report shows the breaking point.
pub open spec fn breaking_point_label_spec(summary: BenchmarkSummaryView) -> Seq<char> {
    if summary.was_rate_limited {
        "Rate limited at:"@
    } else if summary.was_blocked {
        "Blocked at:"@
    } else {
        "Breaking point:"@
    }
}

/// Picks the heading under which a report shows the breaking point.
pub fn breaking_point_label(summary: &BenchmarkSummary) -> (r: String)
    ensures
        r@ == breaking_point_label_spec(summary@),
{
    if summary.was_rate_limited {
        "Rate limited at:".to_owned()
    } else if summary.was_blocked {
        "Blocked at:".to_owned()
    } else {
        "Breaking point:".to_owned()
    }
}

/// One status code with its count: `code (count)`.
pub open spec fn error_code_text(entry: (u32, u64)) -> Seq<char> {
    decimal_digits(entry.0 as nat) + " ("@ + grouped_digits(entry.1 as nat) + ")"@
}

/// The status codes of a histogram, separated by commas.
pub open spec fn error_codes_text(codes: Seq<(u32, u64)>) -> Seq<char>
    decreases codes.len(),
{
    if codes.len() == 0 {
        Seq::empty()
    } else if codes.len() == 1 {
        error_code_text(codes[0])
    } else {
        error_codes_text(codes.drop_last()) + ", "@ + error_code_text(codes.last())
    }
}

fn error_codes_chars(codes: &Vec<(u32, u64)>) -> (r: Vec<char>)
    ensures
        r@ == error_codes_text(codes@),
{
    let mut out: Vec<char> = Vec::new();
    let mut i: usize = 0;
    while i < codes.len()
        invariant
            i <= codes.len(),
            out@ == error_codes_text(codes@.subrange(0, i as int)),
        decreases codes.len() - i,
    {
        assert(codes@.subrange(0, i + 1).drop_last() == codes@.subrange(0, i as int));
        assert(codes@.subrange(0, i + 1).last() == codes@[i as int]);
        assert(codes@.subrange(0, i + 1)[0] == codes@[0]);
        let ghost before = out@;
        if i > 0 {
            push_str(&mut out, ", ");
        }
        push_decimal(&mut out, codes[i].0 as u64);
        push_str(&mut out, " (");
        push_grouped(&mut out, codes[i].1);
        push_str(&mut out, ")");
        assert(out@ =~= (if i > 0 {
            before + ", "@
        } else {
            before
        }) + error_code_text(codes@[i as int]));
        i += 1;
    }
    assert(codes@.subrange(0, codes.len() as int) == codes@);
    out
}

/// Writes the status codes of a histogram with their counts.
pub fn format_error_codes(codes: &Vec<(u32, u64)>) -> (r: String)
    ensures
        r@ == error_codes_text(codes@),
{
    chars_to_string(&error_codes_chars(codes))
}

/// The rule that sets the parts of a report apart.
pub const SEPARATOR: &'static str = "═══════════════════════════════════════════════════════════════════════════════";

/// The headings of the table of steps.
pub const TABLE_HEADINGS: &'static str = " Target    Actual   Avg Lat      p50      p90      p99      Max  Err Rate  Status";

/// The rule under the headings of the table of steps.
pub const TABLE_RULE: &'static str = "------- --------- --------- -------- -------- -------- -------- --------- -------";

/// What the columns and the statuses of a report mean.
pub const LEGEND: &'static str = "Target      - Requested rate in requests/second\nActual      - Achieved throughput (lower than target = saturation)\nAvg Lat     - Mean response latency\np50/p90/p99 - Latency percentiles (50% / 90% / 99% of requests faster than this)\nMax         - Maximum observed latency\nErr Rate    - Non-2xx responses + connection/timeout errors as percentage\n\nStatus Codes:\n  OK    = under threshold      WARN  = approaching threshold\n  BREAK = server breaking      RATE  = rate limited (429)\n  BLOCK = blocked by WAF (403)   HANG  = server hung (timed out)\n\nExpected Error Rates by Service Type:\n  Payment/Checkout:         < 0.1%\n  Core App Functionality:   < 0.5%\n  APIs:                     < 1%\n  Non-critical Features:    < 2%\n\nRecommended rate is 80% of last stable rate for safety margin.";

/// `text` as a line of its own.
pub open spec fn line(text: Seq<char>) -> Seq<char> {
    text + seq!['\n']
}

/// The first `n` targets, numbered, a line each.
pub open spec fn target_lines(urls: Seq<Seq<char>>, n: nat) -> Seq<char>
    decreases n,
{
    if n == 0 {
        Seq::empty()
    } else {
        target_lines(urls, (n - 1) as nat) + line(
            "              "@ + decimal_digits(n) + ". "@ + urls[n - 1],
        )
    }
}

/// The targets of a run: the one target, or their number and a list.
pub open spec fn targets_text(urls: Seq<Seq<char>>) -> Seq<char> {
    if urls.len() == 1 {
        line("Target:       "@ + urls[0])
    } else {
        line("Targets:      "@ + decimal_digits(urls.len()) + " URLs"@) + target_lines(
            urls,
            urls.len(),
        )
    }
}

/// The title of a report.
pub open spec fn report_title() -> Seq<char> {
    line(SEPARATOR@) + line("ohabench - HTTP Load Testing Report"@) + line(SEPARATOR@) + line(
        Seq::empty(),
    )
}

/// The settings of a run, a line each.
pub open spec fn settings_lines(config: BenchmarkConfig) -> Seq<char> {
    line("Method:       "@ + config.method.name_spec()) + line(
        "Mode:         "@ + config.ramping.mode.name_spec() + " ramping"@,
    ) + line(
        "Range:        "@ + decimal_digits(config.ramping.start_rate as nat) + " -> "@
            + decimal_digits(config.ramping.max_rate as nat) + " req/s"@,
    ) + line(
        "Duration:     "@ + decimal_digits(config.ramping.duration_seconds as nat)
            + "s per step"@,
    ) + line(
        "Break when:   Error rate > "@ + config.thresholds.max_error_rate.plain_text()
            + "% OR p99 > "@ + decimal_digits(config.thresholds.max_p99_ms as nat) + "ms"@,
    )
}

/// The head of a report: its title and the configuration of the run.
pub open spec fn report_head(config: BenchmarkConfig) -> Seq<char> {
    report_title() + targets_text(strings_view(config.urls@)) + settings_lines(config) + line(
        SEPARATOR@,
    )
}

/// The latencies of a step, each in its column.
pub open spec fn latency_cells(r: BenchmarkResultView) -> Seq<char> {
    pad_left(latency_text(r.avg_latency_ms), 9) + seq![' '] + pad_left(
        latency_text(r.p50_latency_ms),
        8,
    ) + seq![' '] + pad_left(latency_text(r.p90_latency_ms), 8) + seq![' '] + pad_left(
        latency_text(r.p99_latency_ms),
        8,
    ) + seq![' '] + pad_left(latency_text(r.max_latency_ms), 8)
}

/// The line of the table for one step.
pub open spec fn result_row(r: BenchmarkResultView, a: AnalysisResult) -> Seq<char> {
    line(
        pad_left(decimal_digits(r.target_rate as nat), 7) + " "@ + pad_left(
            r.actual_rate.one_place_text(),
            9,
        ) + " "@ + latency_cells(r) + " "@ + pad_left(r.error_rate.two_places_text(), 8) + "% "@
            + pad_left(a.status.label_spec(), 6),
    )
}

/// The lines of the table for the first `n` steps.
pub open spec fn result_rows(
    results: Seq<BenchmarkResultView>,
    analyses: Seq<AnalysisResult>,
    n: nat,
) -> Seq<char>
    decreases n,
{
    if n == 0 {
        Seq::empty()
    } else {
        result_rows(results, analyses, (n - 1) as nat) + result_row(
            results[n - 1],
            analyses[n - 1],
        )
    }
}

/// The line that tells where the run broke.
pub open spec fn breaking_point_line(summary: BenchmarkSummaryView) -> Seq<char> {
    match summary.breaking_point_rate {
        Some(rate) => line(
            "  "@ + pad_right(breaking_point_label_spec(summary), 18) + " "@ + decimal_digits(
                rate as nat,
            ) + " req/s ("@ + summary.break_reason.describe_spec() + ")"@,
        ),
        None => line("  Breaking point:     Not reached (consider increasing max rate)"@),
    }
}

/// The line that lists the error status codes; none where there are none.
pub open spec fn error_codes_line(summary: BenchmarkSummaryView) -> Seq<char> {
    if summary.aggregated_error_codes.len() > 0 {
        line("  HTTP errors:        "@ + error_codes_text(summary.aggregated_error_codes))
    } else {
        Seq::empty()
    }
}

/// The lines that tell the rates a run came to; none for a rate that is not
/// known.
pub open spec fn rate_lines(summary: BenchmarkSummaryView) -> Seq<char> {
    (match summary.last_stable_rate {
        Some(rate) => line("  Last stable rate:   "@ + decimal_digits(rate as nat) + " req/s"@),
        None => Seq::empty(),
    }) + (match summary.recommended_rate {
        Some(rate) => line(
            "  Recommended rate:   "@ + decimal_digits(rate as nat)
                + " req/s (80% of last stable)"@,
        ),
        None => Seq::empty(),
    })
}

/// The lines that tell the totals of a run.
pub open spec fn total_lines(summary: BenchmarkSummaryView) -> Seq<char> {
    line("  Total requests:     ~"@ + grouped_digits(summary.total_requests as nat)) + line(
        "  Total duration:     "@ + duration_text(summary.total_duration_seconds as nat),
    )
}

/// The summary of a run as the report writes it.
pub open spec fn summary_lines(summary: BenchmarkSummaryView) -> Seq<char> {
    breaking_point_line(summary) + error_codes_line(summary) + rate_lines(summary) + total_lines(
        summary,
    )
}

/// The heading of the part on one target, where there are several.
pub open spec fn url_heading(index: nat, total: nat, url: Seq<char>) -> Seq<char> {
    if total > 1 {
        line(SEPARATOR@) + line(
            "["@ + decimal_digits(index + 1) + "/"@ + decimal_digits(total) + "] "@ + url,
        ) + line(SEPARATOR@)
    } else {
        Seq::empty()
    }
}

/// The number of steps of a run that have a result and a classification.
pub open spec fn paired(run: UrlBenchmarkResults) -> nat {
    if run.results@.len() <= run.analyses@.len() {
        run.results@.len()
    } else {
        run.analyses@.len()
    }
}

/// What stands above the table of a target.
pub open spec fn table_head(index: nat, total: nat, url: Seq<char>) -> Seq<char> {
    line(Seq::empty()) + url_heading(index, total, url) + line(Seq::empty()) + line(
        TABLE_HEADINGS@,
    ) + line(TABLE_RULE@)
}

/// The part of a report on one target: its table and its summary.
pub open spec fn url_section(index: nat, total: nat, run: UrlBenchmarkResults) -> Seq<char> {
    table_head(index, total, run.url@) + result_rows(
        result_views(run.results@),
        run.analyses@,
        paired(run),
    ) + line(Seq::empty()) + line("RESULTS:"@) + summary_lines(run.summary@)
}

/// The parts of a report on the first `n` targets.
pub open spec fn url_sections(runs: Seq<UrlBenchmarkResults>, n: nat) -> Seq<char>
    decreases n,
{
    if n == 0 {
        Seq::empty()
    } else {
        url_sections(runs, (n - 1) as nat) + url_section((n - 1) as nat, runs.len(), runs[n - 1])
    }
}

/// The end of a report: the legend between two rules.
pub open spec fn report_foot() -> Seq<char> {
    line(Seq::empty()) + line(SEPARATOR@) + line("LEGEND"@) + line(SEPARATOR@) + line(LEGEND@)
        + line(SEPARATOR@)
}

/// A whole report: the configuration, a part for each target, the legend.
pub open spec fn report_text(config: BenchmarkConfig, runs: Seq<UrlBenchmarkResults>) -> Seq<
    char,
> {
    report_head(config) + url_sections(runs, runs.len()) + report_foot()
}

fn push_line(out: &mut Vec<char>, text: &str)
    ensures
        final(out)@ == old(out)@ + line(text@),
{
    push_str(out, text);
    out.push('\n');
    assert(out@ =~= old(out)@ + line(text@));
}

fn push_line_chars(out: &mut Vec<char>, text: &Vec<char>)
    ensures
        final(out)@ == old(out)@ + line(text@),
{
    push_chars(out, text);
    out.push('\n');
    assert(out@ =~= old(out)@ + line(text@));
}

fn push_empty_line(out: &mut Vec<char>)
    ensures
        final(out)@ == old(out)@ + line(Seq::empty()),
{
    out.push('\n');
    assert(out@ =~= old(out)@ + line(Seq::empty()));
}

fn push_targets(out: &mut Vec<char>, urls: &Vec<String>)
    ensures
        final(out)@ == old(out)@ + targets_text(strings_view(urls@)),
{
    let ghost views = strings_view(urls@);
    let mut text: Vec<char> = Vec::new();
    if urls.len() == 1 {
        push_str(&mut text, "Target:       ");
        push_str(&mut text, urls[0].as_str());
        assert(text@ =~= "Target:       "@ + views[0]);
        push_line_chars(out, &text);
        return;
    }
    push_str(&mut text, "Targets:      ");
    push_decimal(&mut text, urls.len() as u64);
    push_str(&mut text, " URLs");
    assert(text@ =~= "Targets:      "@ + decimal_digits(views.len()) + " URLs"@);
    push_line_chars(out, &text);
    let ghost start = out@;
    let mut i: usize = 0;
    assert(out@ =~= start + target_lines(views, 0));
    while i < urls.len()
        invariant
            i <= urls.len(),
            views == strings_view(urls@),
            out@ == start + target_lines(views, i as nat),
        decreases urls.len() - i,
    {
        let mut entry: Vec<char> = Vec::new();
        push_str(&mut entry, "              ");
        push_decimal(&mut entry, i as u64 + 1);
        push_str(&mut entry, ". ");
        push_str(&mut entry, urls[i].as_str());
        assert(entry@ =~= "              "@ + decimal_digits((i + 1) as nat) + ". "@
            + views[i as int]);
        push_line_chars(out, &entry);
        assert(out@ =~= start + target_lines(views, (i + 1) as nat));
        i += 1;
    }
    assert(out@ =~= old(out)@ + targets_text(views));
}

fn push_settings(out: &mut Vec<char>, config: &BenchmarkConfig)
    ensures
        final(out)@ == old(out)@ + settings_lines(*config),
{
    let mut text: Vec<char> = Vec::new();
    push_str(&mut text, "Method:       ");
    push_str(&mut text, config.method.name().as_str());
    assert(text@ =~= "Method:       "@ + config.method.name_spec());
    push_line_chars(out, &text);
    let mut text: Vec<char> = Vec::new();
    push_str(&mut text, "Mode:         ");
    push_str(&mut text, config.ramping.mode.name().as_str());
    push_str(&mut text, " ramping");
    assert(text@ =~= "Mode:         "@ + config.ramping.mode.name_spec() + " ramping"@);
    push_line_chars(out, &text);
    let mut text: Vec<char> = Vec::new();
    push_str(&mut text, "Range:        ");
    push_decimal(&mut text, config.ramping.start_rate as u64);
    push_str(&mut text, " -> ");
    push_decimal(&mut text, config.ramping.max_rate as u64);
    push_str(&mut text, " req/s");
    assert(text@ =~= "Range:        "@ + decimal_digits(config.ramping.start_rate as nat)
        + " -> "@ + decimal_digits(config.ramping.max_rate as nat) + " req/s"@);
    push_line_chars(out, &text);
    let mut text: Vec<char> = Vec::new();
    push_str(&mut text, "Duration:     ");
    push_decimal(&mut text, config.ramping.duration_seconds as u64);
    push_str(&mut text, "s per step");
    assert(text@ =~= "Duration:     "@ + decimal_digits(config.ramping.duration_seconds as nat)
        + "s per step"@);
    push_line_chars(out, &text);
    let mut text: Vec<char> = Vec::new();
    push_str(&mut text, "Break when:   Error rate > ");
    push_chars(&mut text, &config.thresholds.max_error_rate.plain_chars());
    push_str(&mut text, "% OR p99 > ");
    push_decimal(&mut text, config.thresholds.max_p99_ms as u64);
    push_str(&mut text, "ms");
    assert(text@ =~= "Break when:   Error rate > "@
        + config.thresholds.max_error_rate.plain_text() + "% OR p99 > "@ + decimal_digits(
        config.thresholds.max_p99_ms as nat,
    ) + "ms"@);
    push_line_chars(out, &text);
    assert(out@ =~= old(out)@ + settings_lines(*config));
}

fn push_report_head(out: &mut Vec<char>, config: &BenchmarkConfig)
    ensures
        final(out)@ == old(out)@ + report_head(*config),
{
    push_line(out, SEPARATOR);
    push_line(out, "ohabench - HTTP Load Testing Report");
    push_line(out, SEPARATOR);
    push_empty_line(out);
    assert(out@ =~= old(out)@ + report_title());
    push_targets(out, &config.urls);
    push_settings(out, config);
    push_line(out, SEPARATOR);
    assert(out@ =~= old(out)@ + report_head(*config));
}

fn push_latency_cells(out: &mut Vec<char>, result: &BenchmarkResult)
    ensures
        final(out)@ == old(out)@ + latency_cells(result@),
{
    push_padded_left(out, &latency_chars(result.avg_latency_ms), 9);
    out.push(' ');
    push_padded_left(out, &latency_chars(result.p50_latency_ms), 8);
    out.push(' ');
    push_padded_left(out, &latency_chars(result.p90_latency_ms), 8);
    out.push(' ');
    push_padded_left(out, &latency_chars(result.p99_latency_ms), 8);
    out.push(' ');
    push_padded_left(out, &latency_chars(result.max_latency_ms), 8);
    assert(out@ =~= old(out)@ + latency_cells(result@));
}

fn push_result_row(out: &mut Vec<char>, result: &BenchmarkResult, analysis: &AnalysisResult)
    ensures
        final(out)@ == old(out)@ + result_row(result@, *analysis),
{
    let mut text: Vec<char> = Vec::new();
    let mut rate: Vec<char> = Vec::new();
    push_decimal(&mut rate, result.target_rate as u64);
    assert(rate@ =~= decimal_digits(result.target_rate as nat));
    push_padded_left(&mut text, &rate, 7);
    push_str(&mut text, " ");
    push_padded_left(&mut text, &result.actual_rate.one_place_chars(), 9);
    push_str(&mut text, " ");
    push_latency_cells(&mut text, result);
    push_str(&mut text, " ");
    push_padded_left(&mut text, &result.error_rate.two_places_chars(), 8);
    push_str(&mut text, "% ");
    push_padded_left(&mut text, &str_chars(analysis.status.label().as_str()), 6);
    assert(text@ =~= pad_left(decimal_digits(result.target_rate as nat), 7) + " "@ + pad_left(
        result@.actual_rate.one_place_text(),
        9,
    ) + " "@ + latency_cells(result@) + " "@ + pad_left(result@.error_rate.two_places_text(), 8)
        + "% "@ + pad_left(analysis.status.label_spec(), 6));
    push_line_chars(out, &text);
}

fn push_breaking_point(out: &mut Vec<char>, summary: &BenchmarkSummary)
    ensures
        final(out)@ == old(out)@ + breaking_point_line(summary@),
{
    match summary.breaking_point_rate {
        Some(rate) => {
            let mut text: Vec<char> = Vec::new();
            push_str(&mut text, "  ");
            push_padded_right(&mut text, &str_chars(breaking_point_label(summary).as_str()), 18);
            push_str(&mut text, " ");
            push_decimal(&mut text, rate as u64);
            push_str(&mut text, " req/s (");
            push_str(&mut text, summary.break_reason.describe().as_str());
            push_str(&mut text, ")");
            assert(text@ =~= "  "@ + pad_right(breaking_point_label_spec(summary@), 18) + " "@
                + decimal_digits(rate as nat) + " req/s ("@
                + summary.break_reason.describe_spec() + ")"@);
            push_line_chars(out, &text);
        },
        None => {
            push_line(out, "  Breaking point:     Not reached (consider increasing max rate)");
        },
    }
}

fn push_error_codes_line(out: &mut Vec<char>, summary: &BenchmarkSummary)
    ensures
        final(out)@ == old(out)@ + error_codes_line(summary@),
{
    if summary.aggregated_error_codes.len() > 0 {
        let mut text: Vec<char> = Vec::new();
        push_str(&mut text, "  HTTP errors:        ");
        push_chars(&mut text, &error_codes_chars(&summary.aggregated_error_codes));
        assert(text@ =~= "  HTTP errors:        "@ + error_codes_text(
            summary@.aggregated_error_codes,
        ));
        push_line_chars(out, &text);
    } else {
        assert(out@ =~= old(out)@ + error_codes_line(summary@));
    }
}

fn push_rate_lines(out: &mut Vec<char>, summary: &BenchmarkSummary)
    ensures
        final(out)@ == old(out)@ + rate_lines(summary@),
{
    match summary.last_stable_rate {
        Some(rate) => {
            let mut text: Vec<char> = Vec::new();
            push_str(&mut text, "  Last stable rate:   ");
            push_decimal(&mut text, rate as u64);
            push_str(&mut text, " req/s");
            assert(text@ =~= "  Last stable rate:   "@ + decimal_digits(rate as nat) + " req/s"@);
            push_line_chars(out, &text);
        },
        None => {},
    }
    match summary.recommended_rate {
        Some(rate) => {
            let mut text: Vec<char> = Vec::new();
            push_str(&mut text, "  Recommended rate:   ");
            push_decimal(&mut text, rate as u64);
            push_str(&mut text, " req/s (80% of last stable)");
            assert(text@ =~= "  Recommended rate:   "@ + decimal_digits(rate as nat)
                + " req/s (80% of last stable)"@);
            push_line_chars(out, &text);
        },
        None => {},
    }
    assert(out@ =~= old(out)@ + rate_lines(summary@));
}

fn push_total_lines(out: &mut Vec<char>, summary: &BenchmarkSummary)
    ensures
        final(out)@ == old(out)@ + total_lines(summary@),
{
    let mut text: Vec<char> = Vec::new();
    push_str(&mut text, "  Total requests:     ~");
    push_grouped(&mut text, summary.total_requests);
    assert(text@ =~= "  Total requests:     ~"@ + grouped_digits(summary.total_requests as nat));
    push_line_chars(out, &text);
    let mut text: Vec<char> = Vec::new();
    push_str(&mut text, "  Total duration:     ");
    push_duration(&mut text, summary.total_duration_seconds);
    assert(text@ =~= "  Total duration:     "@ + duration_text(
        summary.total_duration_seconds as nat,
    ));
    push_line_chars(out, &text);
    assert(out@ =~= old(out)@ + total_lines(summary@));
}

fn push_summary(out: &mut Vec<char>, summary: &BenchmarkSummary)
    ensures
        final(out)@ == old(out)@ + summary_lines(summary@),
{
    push_breaking_point(out, summary);
    push_error_codes_line(out, summary);
    push_rate_lines(out, summary);
    push_total_lines(out, summary);
    assert(out@ =~= old(out)@ + summary_lines(summary@));
}

fn push_table_head(out: &mut Vec<char>, index: usize, total: usize, url: &str)
    requires
        index < total,
    ensures
        final(out)@ == old(out)@ + table_head(index as nat, total as nat, url@),
{
    push_empty_line(out);
    let ghost a = out@;
    if total > 1 {
        push_line(out, SEPARATOR);
        let mut text: Vec<char> = Vec::new();
        push_str(&mut text, "[");
        push_decimal(&mut text, index as u64 + 1);
        push_str(&mut text, "/");
        push_decimal(&mut text, total as u64);
        push_str(&mut text, "] ");
        push_str(&mut text, url);
        assert(text@ =~= "["@ + decimal_digits((index + 1) as nat) + "/"@ + decimal_digits(
            total as nat,
        ) + "] "@ + url@);
        push_line_chars(out, &text);
        push_line(out, SEPARATOR);
    }
    assert(out@ =~= a + url_heading(index as nat, total as nat, url@));
    push_empty_line(out);
    push_line(out, TABLE_HEADINGS);
    push_line(out, TABLE_RULE);
    assert(out@ =~= old(out)@ + table_head(index as nat, total as nat, url@));
}

fn push_url_section(out: &mut Vec<char>, index: usize, total: usize, run: &UrlBenchmarkResults)
    requires
        index < total,
    ensures
        final(out)@ == old(out)@ + url_section(index as nat, total as nat, *run),
{
    push_table_head(out, index, total, run.url.as_str());
    let ghost a = out@;
    let n = if run.results.len() <= run.analyses.len() {
        run.results.len()
    } else {
        run.analyses.len()
    };
    let ghost views = result_views(run.results@);
    let mut i: usize = 0;
    assert(out@ =~= a + result_rows(views, run.analyses@, 0));
    while i < n
        invariant
            i <= n,
            n <= run.results.len(),
            n <= run.analyses.len(),
            views == result_views(run.results@),
            out@ == a + result_rows(views, run.analyses@, i as nat),
        decreases n - i,
    {
        assert(views[i as int] == run.results@[i as int]@);
        push_result_row(out, &run.results[i], &run.analyses[i]);
        assert(out@ =~= a + result_rows(views, run.analyses@, (i + 1) as nat));
        i += 1;
    }
    push_empty_line(out);
    push_line(out, "RESULTS:");
    push_summary(out, &run.summary);
    assert(out@ =~= old(out)@ + url_section(index as nat, total as nat, *run));
}

/// Writes the full report on a run as plain text.
pub fn generate_report_text(config: &BenchmarkConfig, url_results: &Vec<UrlBenchmarkResults>) -> (r:
    String)
    ensures
        r@ == report_text(*config, url_results@),
{
    let mut out: Vec<char> = Vec::new();
    push_report_head(&mut out, config);
    let ghost head = out@;
    assert(head =~= report_head(*config));
    let mut i: usize = 0;
    assert(out@ =~= head + url_sections(url_results@, 0));
    while i < url_results.len()
        invariant
            i <= url_results.len(),
            out@ == head + url_sections(url_results@, i as nat),
        decreases url_results.len() - i,
    {
        push_url_section(&mut out, i, url_results.len(), &url_results[i]);
        assert(out@ =~= head + url_sections(url_results@, (i + 1) as nat));
        i += 1;
    }
    let ghost body = out@;
    push_empty_line(&mut out);
    push_line(&mut out, SEPARATOR);
    push_line(&mut out, "LEGEND");
    push_line(&mut out, SEPARATOR);
    push_line(&mut out, LEGEND);
    push_line(&mut out, SEPARATOR);
    assert(out@ =~= body + report_foot());
    chars_to_string(&out)
}

} // verus!
