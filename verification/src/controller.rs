//! The course of a run: which step comes next, when to pause, and when the
//! search is over.
//!
//! The driver asks for the next action, performs it, and reports back what
//! happened. All decisions are taken here.

use vstd::prelude::*;
use crate::analysis::{
    analyze_result, classify, first_terminal, generate_summary, is_terminal,
    lemma_breaking_point, result_views, summarize, AnalysisResult, BenchmarkSummary, StepStatus,
};
use crate::config::{BenchmarkConfig, ThresholdConfig};
use crate::runner::{
    step_result, step_result_spec, BenchmarkResult, BenchmarkResultView, StepOutcome,
};

verus! {

/// What the driver has to do next.
#[derive(Debug, Clone, Copy, PartialEq, Eq, Structural)]
pub enum RunAction {
    /// Run the load generator at this rate, then report how it ended.
    RunStep { rate: u32 },
    /// Wait this many seconds, then report that the wait is over.
    Cooldown { seconds: u32 },
    /// The run is over.
    Finish,
}

/// Why a run cannot start.
#[derive(Debug, Clone, Copy, PartialEq, Eq, Structural)]
pub enum RunError {
    /// The configured ramp holds no rate.
    NoRates,
}

/// The statuses after which no further step is run.
pub open spec fn stops_run(status: StepStatus) -> bool {
    status == StepStatus::Break || status == StepStatus::RateLimited || status
        == StepStatus::Blocked || status == StepStatus::Hung
}

/// Whether no further step is run after a step of this status.
pub fn status_stops_run(status: StepStatus) -> (r: bool)
    ensures
        r == stops_run(status),
{
    match status {
        StepStatus::Break | StepStatus::RateLimited | StepStatus::Blocked | StepStatus::Hung => true,
        StepStatus::Healthy | StepStatus::Warning | StepStatus::Gone => false,
    }
}

/// A run in progress: the rates to try, and the results and classifications
/// of the steps done so far.
pub struct RunState {
    rates: Vec<u32>,
    thresholds: ThresholdConfig,
    duration_seconds: u32,
    cooldown_seconds: u32,
    results: Vec<BenchmarkResult>,
    analyses: Vec<AnalysisResult>,
    stopped: bool,
    cooling: bool,
}

impl RunState {
    /// The rates of the run, in the order they are tried.
    pub closed spec fn rates_view(self) -> Seq<u32> {
        self.rates@
    }

    /// The thresholds that the steps are classified against.
    pub closed spec fn thresholds_view(self) -> ThresholdConfig {
        self.thresholds
    }

    /// The seconds that a step lasts.
    pub closed spec fn duration_view(self) -> u32 {
        self.duration_seconds
    }

    /// The seconds of pause between two steps.
    pub closed spec fn cooldown_view(self) -> u32 {
        self.cooldown_seconds
    }

    /// The results of the steps done so far.
    pub closed spec fn results_view(self) -> Seq<BenchmarkResultView> {
        result_views(self.results@)
    }

    /// The classifications of the steps done so far.
    pub closed spec fn analyses_view(self) -> Seq<AnalysisResult> {
        self.analyses@
    }

    /// No further step will be run.
    pub closed spec fn is_stopped(self) -> bool {
        self.stopped
    }

    /// A pause is due before the next step.
    pub closed spec fn is_cooling(self) -> bool {
        self.cooling
    }

    /// What holds of every run in progress: each step has its result, for
    /// the rate of that step, and the classification of that result; only
    /// the last step may carry a status that stops the run, and then the run
    /// is stopped; a pause is due only between two steps.
    pub open spec fn well_formed(self) -> bool {
        &&& self.rates_view().len() > 0
        &&& self.analyses_view().len() == self.results_view().len()
        &&& self.results_view().len() <= self.rates_view().len()
        &&& forall|i: int|
            0 <= i < self.results_view().len() ==> #[trigger] self.analyses_view()[i] == classify(
                self.results_view()[i],
                self.thresholds_view(),
            )
        &&& forall|i: int|
            0 <= i < self.results_view().len() ==> (#[trigger] self.results_view()[i]).target_rate
                == self.rates_view()[i]
        &&& forall|i: int|
            0 <= i < self.analyses_view().len() - 1 ==> !stops_run(
                #[trigger] self.analyses_view()[i].status,
            )
        &&& self.analyses_view().len() > 0 && stops_run(self.analyses_view().last().status)
            ==> self.is_stopped()
        &&& self.is_cooling() ==> !self.is_stopped() && self.cooldown_view() > 0 && 0
            < self.results_view().len() < self.rates_view().len()
    }

    #[verifier::type_invariant]
    closed spec fn holds(self) -> bool {
        self.well_formed()
    }

    /// The action that the state asks for.
    pub open spec fn next_action_spec(self) -> RunAction {
        if self.is_stopped() || self.results_view().len() >= self.rates_view().len() {
            RunAction::Finish
        } else if self.is_cooling() {
            RunAction::Cooldown { seconds: self.cooldown_view() }
        } else {
            RunAction::RunStep { rate: self.rates_view()[self.results_view().len() as int] }
        }
    }

    /// Begins a run over the rates of `config`. A ramp without rates is refused.
    pub fn start(config: &BenchmarkConfig) -> (r: Result<RunState, RunError>)
        ensures
            match r {
                Ok(state) => {
                    &&& state.well_formed()
                    &&& state.rates_view() == config.ramping.rate_sequence()
                    &&& state.thresholds_view() == config.thresholds
                    &&& state.duration_view() == config.ramping.duration_seconds
                    &&& state.cooldown_view() == config.cooldown_seconds
                    &&& state.results_view().len() == 0
                    &&& state.analyses_view().len() == 0
                    &&& !state.is_stopped()
                    &&& !state.is_cooling()
                },
                Err(e) => e == RunError::NoRates && config.ramping.rate_sequence().len() == 0,
            },
    {
        let rates = config.ramping.generate_rates();
        if rates.len() == 0 {
            return Err(RunError::NoRates);
        }
        Ok(
            RunState {
                rates,
                thresholds: config.thresholds,
                duration_seconds: config.ramping.duration_seconds,
                cooldown_seconds: config.cooldown_seconds,
                results: Vec::new(),
                analyses: Vec::new(),
                stopped: false,
                cooling: false,
            },
        )
    }

    /// Tells the driver what to do next.
    pub fn next_action(&self) -> (r: RunAction)
        ensures
            r == self.next_action_spec(),
            self.well_formed(),
    {
        proof {
            use_type_invariant(self);
        }
        if self.stopped || self.results.len() >= self.rates.len() {
            RunAction::Finish
        } else if self.cooling {
            RunAction::Cooldown { seconds: self.cooldown_seconds }
        } else {
            RunAction::RunStep { rate: self.rates[self.results.len()] }
        }
    }

    /// Takes in the result of the step that was asked for, classifies it, and
    /// decides whether the run goes on. The result has to be one for the rate
    /// that was asked for.
    pub fn record_result(self, result: BenchmarkResult) -> (next: RunState)
        requires
            self.next_action_spec() == (RunAction::RunStep { rate: result.target_rate }),
        ensures
            next.well_formed(),
            next.rates_view() == self.rates_view(),
            next.thresholds_view() == self.thresholds_view(),
            next.duration_view() == self.duration_view(),
            next.cooldown_view() == self.cooldown_view(),
            next.results_view() == self.results_view().push(result@),
            next.analyses_view() == self.analyses_view().push(
                classify(result@, self.thresholds_view()),
            ),
            next.is_stopped() == stops_run(classify(result@, self.thresholds_view()).status),
            next.is_cooling() == (!next.is_stopped() && self.cooldown_view() > 0
                && next.results_view().len() < self.rates_view().len()),
    {
        proof {
            use_type_invariant(&self);
        }
        let ghost before = self;
        let RunState {
            rates,
            thresholds,
            duration_seconds,
            cooldown_seconds,
            mut results,
            mut analyses,
            stopped,
            cooling,
        } = self;
        let analysis = analyze_result(&result, &thresholds);
        let stops = status_stops_run(analysis.status);
        results.push(result);
        analyses.push(analysis);
        let cools = !stops && cooldown_seconds > 0 && results.len() < rates.len();
        assert(result_views(results@) =~= before.results_view().push(result@));
        let next = RunState {
            rates,
            thresholds,
            duration_seconds,
            cooldown_seconds,
            results,
            analyses,
            stopped: stops,
            cooling: cools,
        };
        next
    }

    /// Takes in the way the step that was asked for ended.
    pub fn record_outcome(self, outcome: &StepOutcome) -> (next: RunState)
        requires
            self.next_action_spec() is RunStep,
        ensures
            next.well_formed(),
            next.rates_view() == self.rates_view(),
            next.thresholds_view() == self.thresholds_view(),
            next.duration_view() == self.duration_view(),
            next.cooldown_view() == self.cooldown_view(),
            next.results_view() == self.results_view().push(self.outcome_result(*outcome)),
            next.analyses_view() == self.analyses_view().push(
                classify(self.outcome_result(*outcome), self.thresholds_view()),
            ),
            next.is_stopped() == stops_run(
                classify(self.outcome_result(*outcome), self.thresholds_view()).status,
            ),
            next.is_cooling() == (!next.is_stopped() && self.cooldown_view() > 0
                && next.results_view().len() < self.rates_view().len()),
    {
        proof {
            use_type_invariant(&self);
        }
        let rate = self.rates[self.results.len()];
        let result = step_result(outcome, rate, self.duration_seconds);
        self.record_result(result)
    }

    /// The result that `outcome` gives for the step that the state asks for.
    pub open spec fn outcome_result(self, outcome: StepOutcome) -> BenchmarkResultView
        recommends
            self.next_action_spec() is RunStep,
    {
        step_result_spec(
            outcome,
            self.rates_view()[self.results_view().len() as int],
            self.duration_view(),
        )
    }

    /// Takes in that the load generator could not be started: the run ends
    /// with the steps done so far.
    pub fn record_failure(self) -> (next: RunState)
        ensures
            next.well_formed(),
            next.rates_view() == self.rates_view(),
            next.thresholds_view() == self.thresholds_view(),
            next.duration_view() == self.duration_view(),
            next.cooldown_view() == self.cooldown_view(),
            next.results_view() == self.results_view(),
            next.analyses_view() == self.analyses_view(),
            next.is_stopped(),
            !next.is_cooling(),
    {
        proof {
            use_type_invariant(&self);
        }
        let RunState {
            rates,
            thresholds,
            duration_seconds,
            cooldown_seconds,
            results,
            analyses,
            stopped,
            cooling,
        } = self;
        RunState {
            rates,
            thresholds,
            duration_seconds,
            cooldown_seconds,
            results,
            analyses,
            stopped: true,
            cooling: false,
        }
    }

    /// Takes in that the pause between two steps is over.
    pub fn cooldown_done(self) -> (next: RunState)
        ensures
            next.well_formed(),
            next.rates_view() == self.rates_view(),
            next.thresholds_view() == self.thresholds_view(),
            next.duration_view() == self.duration_view(),
            next.cooldown_view() == self.cooldown_view(),
            next.results_view() == self.results_view(),
            next.analyses_view() == self.analyses_view(),
            next.is_stopped() == self.is_stopped(),
            !next.is_cooling(),
    {
        proof {
            use_type_invariant(&self);
        }
        let RunState {
            rates,
            thresholds,
            duration_seconds,
            cooldown_seconds,
            results,
            analyses,
            stopped,
            cooling,
        } = self;
        RunState {
            rates,
            thresholds,
            duration_seconds,
            cooldown_seconds,
            results,
            analyses,
            stopped,
            cooling: false,
        }
    }

    /// The summary of the steps done so far.
    pub fn summary(&self) -> (r: BenchmarkSummary)
        ensures
            r@ == summarize(self.results_view(), self.analyses_view(), self.duration_view()),
    {
        proof {
            use_type_invariant(self);
        }
        generate_summary(&self.results, &self.analyses, self.duration_seconds)
    }

    /// The rates of the run.
    pub fn rates(&self) -> (r: &Vec<u32>)
        ensures
            r@ == self.rates_view(),
    {
        &self.rates
    }

    /// The results of the steps done so far.
    pub fn results(&self) -> (r: &Vec<BenchmarkResult>)
        ensures
            result_views(r@) == self.results_view(),
    {
        &self.results
    }

    /// The classifications of the steps done so far.
    pub fn analyses(&self) -> (r: &Vec<AnalysisResult>)
        ensures
            r@ == self.analyses_view(),
    {
        &self.analyses
    }

    /// Ends the run and hands out the results and classifications of its steps.
    pub fn into_parts(self) -> (r: (Vec<BenchmarkResult>, Vec<AnalysisResult>))
        ensures
            result_views(r.0@) == self.results_view(),
            r.1@ == self.analyses_view(),
    {
        let RunState {
            rates,
            thresholds,
            duration_seconds,
            cooldown_seconds,
            results,
            analyses,
            stopped,
            cooling,
        } = self;
        (results, analyses)
    }
}

/// The breaking point that the summary of a run reports is the rate of the
/// first step with a terminal status, and one of the rates of the ramp; a
/// run without such a step reports none.
pub proof fn lemma_breaking_point_is_a_tried_rate(state: RunState)
    requires
        state.well_formed(),
    ensures
        match summarize(
            state.results_view(),
            state.analyses_view(),
            state.duration_view(),
        ).breaking_point_rate {
            Some(rate) => {
                let at = first_terminal(state.analyses_view());
                &&& 0 <= at < state.results_view().len()
                &&& rate == state.rates_view()[at]
                &&& is_terminal(state.analyses_view()[at].status)
                &&& forall|i: int| 0 <= i < at ==> !is_terminal(state.analyses_view()[i].status)
            },
            None => forall|i: int|
                0 <= i < state.analyses_view().len() ==> !is_terminal(
                    state.analyses_view()[i].status,
                ),
        },
{
    lemma_breaking_point(state.results_view(), state.analyses_view(), state.duration_view());
    let at = first_terminal(state.analyses_view());
    if at < state.analyses_view().len() {
        assert(state.results_view()[at].target_rate == state.rates_view()[at]);
    }
}

} // verus!
