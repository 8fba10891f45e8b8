//! Configuration of a run, and the sequence of rates it steps through.

use vstd::prelude::*;
use crate::cli::{AuthType, HttpMethod, RampingMode};
use crate::decimal::Decimal;
use crate::text::{
    chars_to_string, decimal_digits, list_contains, optional_text, push_decimal, push_str,
    str_chars, strings_to_chars, strings_view, texts_view,
};

verus! {

/// Complete configuration of a run.
#[derive(Debug, Clone)]
pub struct BenchmarkConfig {
    pub urls: Vec<String>,
    pub method: HttpMethod,
    pub body: Option<String>,
    pub user_agent: String,
    pub auth: AuthConfig,
    pub headers: Vec<String>,
    pub ramping: RampingConfig,
    pub thresholds: ThresholdConfig,
    pub warmup_seconds: u32,
    pub cooldown_seconds: u32,
    pub report_dir: Option<String>,
    pub report_name: Option<String>,
}

/// How requests are authenticated, and with which credentials.
#[derive(Debug, Clone)]
pub struct AuthConfig {
    pub auth_type: AuthType,
    pub username: Option<String>,
    pub password: Option<String>,
    pub token: Option<String>,
    pub custom_header: Option<String>,
}

/// The ramp of a run: from which rate to which, in which steps, and how long
/// and with how many connections each step runs.
#[derive(Debug, Clone, Copy, PartialEq, Eq, Structural)]
pub struct RampingConfig {
    pub mode: RampingMode,
    pub start_rate: u32,
    pub max_rate: u32,
    pub step: u32,
    pub duration_seconds: u32,
    pub threads: u32,
    pub connections: u32,
}

/// The limits beyond which a step counts as broken: an error rate in percent
/// and a 99th-percentile latency in milliseconds.
#[derive(Debug, Clone, Copy, PartialEq, Eq, Structural)]
pub struct ThresholdConfig {
    pub max_error_rate: Decimal,
    pub max_p99_ms: u32,
}

impl Default for ThresholdConfig {
    fn default() -> (r: Self)
        ensures
            r == (ThresholdConfig { max_error_rate: Decimal { micros: 5_000_000 }, max_p99_ms: 3000 }),
    {
        ThresholdConfig { max_error_rate: Decimal { micros: 5_000_000 }, max_p99_ms: 3000 }
    }
}

impl Default for RampingConfig {
    fn default() -> (r: Self)
        ensures
            r == (RampingConfig {
                mode: RampingMode::Linear,
                start_rate: 50,
                max_rate: 5000,
                step: 50,
                duration_seconds: 30,
                threads: 4,
                connections: 100,
            }),
    {
        RampingConfig {
            mode: RampingMode::Linear,
            start_rate: 50,
            max_rate: 5000,
            step: 50,
            duration_seconds: 30,
            threads: 4,
            connections: 100,
        }
    }
}

impl Default for AuthConfig {
    fn default() -> (r: Self)
        ensures
            r.auth_type == AuthType::NoAuth,
            r.username is None,
            r.password is None,
            r.token is None,
            r.custom_header is None,
    {
        AuthConfig {
            auth_type: AuthType::NoAuth,
            username: None,
            password: None,
            token: None,
            custom_header: None,
        }
    }
}

impl Default for BenchmarkConfig {
    fn default() -> (r: Self)
        ensures
            r.urls@.len() == 0,
            r.method == HttpMethod::Get,
            r.body is None,
            r.user_agent@ == "ohabench/0.1.0"@,
            r.auth.auth_type == AuthType::NoAuth,
            r.auth.username is None,
            r.auth.password is None,
            r.auth.token is None,
            r.auth.custom_header is None,
            r.headers@.len() == 0,
            r.ramping == (RampingConfig {
                mode: RampingMode::Linear,
                start_rate: 50,
                max_rate: 5000,
                step: 50,
                duration_seconds: 30,
                threads: 4,
                connections: 100,
            }),
            r.thresholds == (ThresholdConfig {
                max_error_rate: Decimal { micros: 5_000_000 },
                max_p99_ms: 3000,
            }),
            r.warmup_seconds == 0,
            r.cooldown_seconds == 0,
            r.report_dir is None,
            r.report_name is None,
    {
        BenchmarkConfig {
            urls: Vec::new(),
            method: HttpMethod::Get,
            body: None,
            user_agent: "ohabench/0.1.0".to_owned(),
            auth: AuthConfig::default(),
            headers: Vec::new(),
            ramping: RampingConfig::default(),
            thresholds: ThresholdConfig::default(),
            warmup_seconds: 0,
            cooldown_seconds: 0,
            report_dir: None,
            report_name: None,
        }
    }
}

/// Two to the power of `n`.
pub open spec fn pow2(n: nat) -> nat
    decreases n,
{
    if n == 0 {
        1
    } else {
        2 * pow2((n - 1) as nat)
    }
}

/// How many rates an additive ramp holds: none where it starts above the
/// maximum, one where the step is zero.
pub open spec fn linear_len(start: nat, max: nat, step: nat) -> nat {
    if start > max {
        0
    } else if step == 0 {
        1
    } else {
        ((max - start) / (step as int) + 1) as nat
    }
}

/// How many rates a doubling ramp holds from `current` on. A ramp that starts
/// at zero cannot grow and holds that one rate.
pub open spec fn doubling_len(current: nat, max: nat) -> nat
    decreases (if current > max { 0 } else { max + 1 - current }),
{
    if current > max {
        0
    } else if current == 0 {
        1
    } else {
        1 + doubling_len(2 * current, max)
    }
}

impl RampingConfig {
    /// The rates of the run, in the order they are tried.
    pub open spec fn rate_sequence(self) -> Seq<u32> {
        match self.mode {
            RampingMode::Linear => Seq::new(
                linear_len(self.start_rate as nat, self.max_rate as nat, self.step as nat),
                |i: int| (self.start_rate + i * self.step) as u32,
            ),
            RampingMode::Exponential => Seq::new(
                doubling_len(self.start_rate as nat, self.max_rate as nat),
                |i: int| (self.start_rate * pow2(i as nat)) as u32,
            ),
        }
    }

    /// Generates the sequence of rates to test.
    pub fn generate_rates(&self) -> (rates: Vec<u32>)
        ensures
            rates@ == self.rate_sequence(),
    {
        let mut rates: Vec<u32> = Vec::new();
        let start = self.start_rate;
        let max = self.max_rate;
        let step = self.step;
        if start > max {
            assert(rates@ =~= self.rate_sequence());
            return rates;
        }
        let mut current = start;
        match self.mode {
            RampingMode::Linear => {
                assert(rates.len() * step == 0) by (nonlinear_arith)
                    requires
                        rates.len() == 0,
                ;
                loop
                    invariant_except_break
                        start <= current <= max,
                        step == 0 ==> rates.len() == 0,
                        current == start + rates.len() * step,
                        rates@ == Seq::new(rates.len() as nat, |i: int| (start + i * step) as u32),
                    ensures
                        rates.len() == linear_len(start as nat, max as nat, step as nat),
                        rates@ == Seq::new(rates.len() as nat, |i: int| (start + i * step) as u32),
                    decreases max - current,
                {
                    let ghost n = rates.len() as int;
                    let ghost before = rates@;
                    rates.push(current);
                    assert(rates@ =~= Seq::new((n + 1) as nat, |i: int| (start + i * step) as u32));
                    if step == 0 {
                        break ;
                    }
                    if max - current < step {
                        assert((max - start) / (step as int) == n) by (nonlinear_arith)
                            requires
                                step > 0,
                                n >= 0,
                                start + n * step <= max,
                                max - (start + n * step) < step,
                        ;
                        break ;
                    }
                    assert((n + 1) * step == n * step + step) by (nonlinear_arith);
                    current = current + step;
                }
            },
            RampingMode::Exponential => {
                assert(start * pow2(0) == start) by (nonlinear_arith)
                    requires
                        pow2(0) == 1,
                ;
                loop
                    invariant_except_break
                        current <= max,
                        current == start * pow2(rates.len() as nat),
                        doubling_len(start as nat, max as nat) == rates.len() + doubling_len(
                            current as nat,
                            max as nat,
                        ),
                        rates@ == Seq::new(
                            rates.len() as nat,
                            |i: int| (start * pow2(i as nat)) as u32,
                        ),
                    ensures
                        rates.len() == doubling_len(start as nat, max as nat),
                        rates@ == Seq::new(
                            rates.len() as nat,
                            |i: int| (start * pow2(i as nat)) as u32,
                        ),
                    decreases max - current,
                {
                    let ghost n = rates.len() as nat;
                    rates.push(current);
                    assert(rates@ =~= Seq::new(
                        (n + 1) as nat,
                        |i: int| (start * pow2(i as nat)) as u32,
                    ));
                    if current == 0 {
                        break ;
                    }
                    if current > max / 2 {
                        assert(doubling_len(2 * current as nat, max as nat) == 0);
                        break ;
                    }
                    assert(start * pow2(n + 1) == 2 * (start * pow2(n))) by (nonlinear_arith)
                        requires
                            pow2(n + 1) == 2 * pow2(n),
                    ;
                    current = current * 2;
                }
            },
        }
        rates
    }
}

/// Every rate of a doubling ramp that starts at `current` is at most `max`.
pub proof fn lemma_doubling_bound(current: nat, max: nat, i: nat)
    requires
        i < doubling_len(current, max),
    ensures
        current * pow2(i) <= max,
    decreases i,
{
    if i == 0 {
        assert(current * 1 == current);
    } else {
        lemma_doubling_bound(2 * current, max, (i - 1) as nat);
        assert(current * pow2(i) == (2 * current) * pow2((i - 1) as nat)) by (nonlinear_arith)
            requires
                pow2(i) == 2 * pow2((i - 1) as nat),
        ;
    }
}

/// The sequence of rates is empty exactly where the start rate lies above
/// the maximum.
pub proof fn lemma_rates_empty_iff(config: RampingConfig)
    ensures
        config.rate_sequence().len() == 0 <==> config.start_rate > config.max_rate,
        config.rate_sequence().len() > 0 ==> config.rate_sequence()[0] == config.start_rate,
{
    assert(config.start_rate * pow2(0) == config.start_rate) by (nonlinear_arith)
        requires
            pow2(0) == 1,
    ;
    assert(0 * config.step == 0);
}

/// An additive ramp with a positive step that starts at or below the maximum
/// holds `(max - start) / step + 1` rates, begins with the start rate, grows
/// strictly, and never exceeds the maximum.
pub proof fn lemma_linear_ramp(config: RampingConfig)
    requires
        config.mode == RampingMode::Linear,
        config.step > 0,
        config.start_rate <= config.max_rate,
    ensures
        config.rate_sequence().len() == (config.max_rate - config.start_rate) / (
        config.step as int) + 1,
        config.rate_sequence()[0] == config.start_rate,
        forall|i: int, j: int|
            0 <= i < j < config.rate_sequence().len() ==> config.rate_sequence()[i]
                < config.rate_sequence()[j],
        forall|i: int|
            0 <= i < config.rate_sequence().len() ==> config.rate_sequence()[i]
                <= config.max_rate,
{
    let r = config.rate_sequence();
    let start = config.start_rate as int;
    let max = config.max_rate as int;
    let step = config.step as int;
    assert(0 * step == 0);
    assert forall|i: int| 0 <= i < r.len() implies 0 <= #[trigger] (i * step) <= max - start by {
        assert(0 <= i * step <= max - start) by (nonlinear_arith)
            requires
                0 <= i <= (max - start) / step,
                step > 0,
                max - start >= 0,
        ;
    }
    assert forall|i: int, j: int| 0 <= i < j < r.len() implies r[i] < r[j] by {
        assert(i * step < j * step) by (nonlinear_arith)
            requires
                0 <= i < j,
                step > 0,
        ;
        assert(0 <= i * step <= max - start);
        assert(0 <= j * step <= max - start);
    }
    assert forall|i: int| 0 <= i < r.len() implies r[i] <= config.max_rate by {
        assert(0 <= i * step <= max - start);
    }
}

/// In a doubling ramp each rate after the first is twice the one before it,
/// and no rate exceeds the maximum. A ramp that starts at zero holds that
/// single rate.
pub proof fn lemma_doubling_ramp(config: RampingConfig)
    requires
        config.mode == RampingMode::Exponential,
    ensures
        forall|i: int|
            1 <= i < config.rate_sequence().len() ==> #[trigger] config.rate_sequence()[i] == 2
                * config.rate_sequence()[i - 1],
        forall|i: int|
            0 <= i < config.rate_sequence().len() ==> config.rate_sequence()[i]
                <= config.max_rate,
        config.start_rate == 0 ==> config.rate_sequence() == seq![0u32],
{
    let r = config.rate_sequence();
    let start = config.start_rate as nat;
    let max = config.max_rate as nat;
    assert forall|i: int| 0 <= i < r.len() implies r[i] <= config.max_rate by {
        lemma_doubling_bound(start, max, i as nat);
    }
    assert forall|i: int| 1 <= i < r.len() implies #[trigger] r[i] == 2 * r[i - 1] by {
        lemma_doubling_bound(start, max, i as nat);
        lemma_doubling_bound(start, max, (i - 1) as nat);
        assert(start * pow2(i as nat) == 2 * (start * pow2((i - 1) as nat))) by (nonlinear_arith)
            requires
                pow2(i as nat) == 2 * pow2((i - 1) as nat),
        ;
    }
    if config.start_rate == 0 {
        assert(0 * pow2(0) == 0);
        assert(r =~= seq![0u32]);
    }
}

/// The names of the report and of its graph at an attempt: the plain names
/// at the first, the names with the number of the attempt from the second on.
pub open spec fn report_names(name: Seq<char>, attempt: nat) -> (Seq<char>, Seq<char>) {
    if attempt <= 1 {
        (name + ".txt"@, name + "_graph.png"@)
    } else {
        (
            name + "."@ + decimal_digits(attempt) + ".txt"@,
            name + "."@ + decimal_digits(attempt) + "_graph.png"@,
        )
    }
}

/// Neither name is taken.
pub open spec fn names_are_free(names: (Seq<char>, Seq<char>), existing: Seq<Seq<char>>) -> bool {
    !existing.contains(names.0) && !existing.contains(names.1)
}

/// The first attempt from `from` on whose names are free. The search gives
/// up at the attempt 10000, which is taken unseen.
pub open spec fn first_free_attempt(name: Seq<char>, existing: Seq<Seq<char>>, from: nat) -> nat
    decreases 10000 - from,
{
    if from >= 10000 || names_are_free(report_names(name, from), existing) {
        from
    } else {
        first_free_attempt(name, existing, from + 1)
    }
}

fn report_names_at(name: &str, attempt: u32) -> (r: (Vec<char>, Vec<char>))
    ensures
        (r.0@, r.1@) == report_names(name@, attempt as nat),
{
    let mut txt = str_chars(name);
    let mut png = str_chars(name);
    if attempt > 1 {
        push_str(&mut txt, ".");
        push_decimal(&mut txt, attempt as u64);
        push_str(&mut png, ".");
        push_decimal(&mut png, attempt as u64);
    }
    push_str(&mut txt, ".txt");
    push_str(&mut png, "_graph.png");
    (txt, png)
}

/// Finds names for a report and its graph that no file of the report
/// directory has yet. `existing` holds the names of the files in that
/// directory; the names that come back are relative to it.
pub fn get_unique_report_paths(name: &str, existing: &Vec<String>) -> (r: (String, String))
    ensures
        (r.0@, r.1@) == report_names(
            name@,
            first_free_attempt(name@, strings_view(existing@), 1),
        ),
{
    let taken = strings_to_chars(existing);
    let mut attempt: u32 = 1;
    loop
        invariant
            1 <= attempt <= 10000,
            strings_view(existing@) == texts_view(taken@),
            first_free_attempt(name@, strings_view(existing@), 1) == first_free_attempt(
                name@,
                strings_view(existing@),
                attempt as nat,
            ),
        decreases 10000 - attempt,
    {
        let names = report_names_at(name, attempt);
        if attempt >= 10000 || (!list_contains(&taken, &names.0) && !list_contains(
            &taken,
            &names.1,
        )) {
            return (chars_to_string(&names.0), chars_to_string(&names.1));
        }
        attempt += 1;
    }
}

/// A directory and whether it exists.
#[derive(Debug, Clone)]
pub struct Place {
    pub path: String,
    pub exists: bool,
}

/// The directories that may hold downloads, as the machine names them: the
/// home directory and the `Downloads` directory in it, the directory that
/// the desktop names for downloads, the same for a user profile, and the
/// directory the program runs in. A directory that the machine does not name
/// is absent.
#[derive(Debug, Clone)]
pub struct DownloadPlaces {
    pub home: Option<String>,
    pub desktop_downloads: Option<Place>,
    pub home_downloads: Option<Place>,
    pub user_profile: Option<String>,
    pub profile_downloads: Option<Place>,
    pub current: String,
}

/// The path of a place that exists.
pub open spec fn existing_path(place: Option<Place>) -> Option<Seq<char>> {
    match place {
        Some(p) => if p.exists {
            Some(p.path@)
        } else {
            None
        },
        None => None,
    }
}

/// The directory that reports go to by default. Under a home directory it
/// is the directory that the desktop names for downloads, else `Downloads`,
/// each if it exists, else the home directory itself; the same under a user
/// profile, which has no desktop; and the current directory without either.
pub open spec fn downloads_dir(places: DownloadPlaces) -> Seq<char> {
    match places.home {
        Some(home) => match existing_path(places.desktop_downloads) {
            Some(path) => path,
            None => match existing_path(places.home_downloads) {
                Some(path) => path,
                None => home@,
            },
        },
        None => match places.user_profile {
            Some(profile) => match existing_path(places.profile_downloads) {
                Some(path) => path,
                None => profile@,
            },
            None => places.current@,
        },
    }
}

fn path_if_exists(place: &Option<Place>) -> (r: Option<String>)
    ensures
        optional_text(r) == existing_path(*place),
{
    match place {
        Some(p) => if p.exists {
            Some(p.path.clone())
        } else {
            None
        },
        None => None,
    }
}

/// Chooses the directory that reports go to by default.
pub fn choose_downloads_dir(places: &DownloadPlaces) -> (r: String)
    ensures
        r@ == downloads_dir(*places),
{
    match &places.home {
        Some(home) => match path_if_exists(&places.desktop_downloads) {
            Some(path) => path,
            None => match path_if_exists(&places.home_downloads) {
                Some(path) => path,
                None => home.clone(),
            },
        },
        None => match &places.user_profile {
            Some(profile) => match path_if_exists(&places.profile_downloads) {
                Some(path) => path,
                None => profile.clone(),
            },
            None => places.current.clone(),
        },
    }
}

} // verus!
