//! The order of a benchmarking run, as a state machine. The caller does
//! the outside work that each action names (writing the run configuration,
//! checking out, patching, building and running) and hands back what came
//! of it; the driver decides what is next, collects the metrics and ends
//! with the report or with the first failure.

use vstd::prelude::*;
use crate::config::{ci_config_of, ci_config_text, Config};
use crate::extract::{get_fps, metric_of_groups, regex_first_groups, FPS_PATTERN};
use crate::metric::{ExtractError, Metric};
use crate::report::{build_outcome, covered, print_results, table_of, ReportError};
use crate::results::Results;
use crate::table::rendered;
use crate::text::views;

verus! {

/// Why a run ended without a report.
#[derive(Clone, Copy, Debug, PartialEq, Eq, Structural)]
pub enum RunError {
    /// No revision or no benchmark is configured.
    Configuration,
    /// The run configuration could not be written.
    Setup,
    /// The revision could not be checked out.
    Checkout { commit: usize },
    /// The patches did not apply at the revision.
    Patch { commit: usize },
    /// The benchmark did not build or run at the revision.
    Run { bench: usize, commit: usize },
    /// The benchmark's log gave no metric.
    Extract { bench: usize, commit: usize, error: ExtractError },
    /// The table could not be built.
    Report(ReportError),
}

/// What the driver waits for.
#[derive(Clone, Copy, Debug, PartialEq, Eq, Structural)]
pub enum Phase {
    /// The run configuration is being written.
    Setup,
    /// Revision `commit` is being checked out.
    CheckingOut,
    /// The patches are being applied at revision `commit`.
    Patching,
    /// Benchmark `bench` is running at revision `commit`.
    Running,
    /// The run has ended.
    Over,
}

/// What the caller is to do next.
#[derive(Debug, PartialEq, Eq)]
pub enum Action {
    /// Write this text as the run configuration.
    WriteConfig(String),
    /// Restore the working tree and check out this revision.
    Checkout(usize),
    /// Apply the patches to the tree of this revision.
    ApplyPatches(usize),
    /// Build and run this benchmark at this revision.
    Run { bench: usize, commit: usize },
    /// Print these lines: the run is complete.
    Report(Vec<String>),
    /// Give up with this error.
    Abort(RunError),
    /// Nothing: the run had ended before.
    Nothing,
}

/// What came of the last action.
#[derive(Debug, PartialEq, Eq)]
pub enum Event {
    /// It succeeded.
    Done,
    /// It failed.
    Failed,
    /// The benchmark ran and wrote this text to its error stream.
    Output(String),
}

/// The state of a run: what it waits for, at which revision and benchmark,
/// and the metrics it has so far.
pub struct Driver {
    pub phase: Phase,
    pub commit: usize,
    pub bench: usize,
    pub results: Results,
}

/// The pair (`bench`, `commit`) comes before the place (`at_bench`,
/// `at_commit`) in the order of a run: revisions in turn, and at each the
/// benchmarks in turn.
pub open spec fn measured_before(
    config: Config,
    bench: usize,
    commit: usize,
    at_bench: usize,
    at_commit: usize,
) -> bool {
    bench < config.benches@.len() && (commit < at_commit || (commit == at_commit && bench
        < at_bench))
}

/// The run ended with this error and kept its metrics.
pub open spec fn aborted(before: Driver, after: Driver, action: Action, error: RunError) -> bool {
    after.phase == Phase::Over && after.results@ == before.results@ && action == Action::Abort(
        error,
    )
}

/// The run moved on to this phase and place with these metrics.
pub open spec fn moved(
    after: Driver,
    phase: Phase,
    bench: int,
    commit: int,
    metrics: Map<(usize, usize), Metric>,
) -> bool {
    after.phase == phase && after.bench == bench && after.commit == commit && after.results@
        == metrics
}

/// What the end of a run gives: the report of the table, or the error of
/// the first pair without a metric.
pub open spec fn reported(config: Config, after: Driver, action: Action) -> bool {
    after.phase == Phase::Over && match action {
        Action::Report(lines) => covered(config, after.results@) && views(lines@) == rendered(
            table_of(config, after.results@),
        ),
        Action::Abort(RunError::Report(error)) => build_outcome(
            config,
            after.results@,
            Err(error),
        ),
        _ => false,
    }
}

/// What follows a benchmark's log: its metric is stored under the pair
/// that ran, and the next benchmark runs, or the next revision is checked
/// out, or after the last pair the report is made. A log without a metric
/// ends the run.
pub open spec fn after_output(
    before: Driver,
    after: Driver,
    config: Config,
    log: Seq<char>,
    action: Action,
) -> bool {
    match metric_of_groups(regex_first_groups(FPS_PATTERN@, log)) {
        Err(error) => aborted(
            before,
            after,
            action,
            RunError::Extract { bench: before.bench, commit: before.commit, error },
        ),
        Ok(metric) => {
            let metrics = before.results@.insert((before.bench, before.commit), metric);
            if before.bench + 1 < config.benches@.len() {
                moved(after, Phase::Running, before.bench + 1, before.commit as int, metrics)
                    && action == (Action::Run {
                    bench: (before.bench + 1) as usize,
                    commit: before.commit,
                })
            } else if before.commit + 1 < config.commits@.len() {
                moved(after, Phase::CheckingOut, 0, before.commit + 1, metrics) && action
                    == Action::Checkout((before.commit + 1) as usize)
            } else {
                after.results@ == metrics && reported(config, after, action)
            }
        },
    }
}

/// One step of a run: the state and action that follow a state and an
/// event. Each outside step that succeeds leads to the next; any other
/// event ends the run with the error of the step that was waited for.
pub open spec fn step_outcome(
    before: Driver,
    after: Driver,
    config: Config,
    event: Event,
    action: Action,
) -> bool {
    match before.phase {
        Phase::Setup => match event {
            Event::Done => moved(after, Phase::CheckingOut, 0, 0, before.results@) && action
                == Action::Checkout(0),
            _ => aborted(before, after, action, RunError::Setup),
        },
        Phase::CheckingOut => match event {
            Event::Done => moved(
                after,
                Phase::Patching,
                before.bench as int,
                before.commit as int,
                before.results@,
            ) && action == Action::ApplyPatches(before.commit),
            _ => aborted(before, after, action, RunError::Checkout { commit: before.commit }),
        },
        Phase::Patching => match event {
            Event::Done => moved(after, Phase::Running, 0, before.commit as int, before.results@)
                && action == (Action::Run { bench: 0, commit: before.commit }),
            _ => aborted(before, after, action, RunError::Patch { commit: before.commit }),
        },
        Phase::Running => match event {
            Event::Output(log) => after_output(before, after, config, log@, action),
            _ => aborted(
                before,
                after,
                action,
                RunError::Run { bench: before.bench, commit: before.commit },
            ),
        },
        Phase::Over => after.phase == Phase::Over && after.results@ == before.results@ && action
            == Action::Nothing,
    }
}

impl Driver {
    /// The state is one that a run over `config` reaches: the place lies
    /// within the configuration, and the store holds exactly the pairs that
    /// come before it.
    pub open spec fn wf(&self, config: Config) -> bool {
        match self.phase {
            Phase::Over => true,
            Phase::Running => {
                &&& self.commit < config.commits@.len()
                &&& self.bench < config.benches@.len()
                &&& self.holds_up_to(config)
            },
            Phase::Setup => {
                &&& 0 < config.commits@.len()
                &&& 0 < config.benches@.len()
                &&& self.commit == 0
                &&& self.bench == 0
                &&& self.holds_up_to(config)
            },
            _ => {
                &&& self.commit < config.commits@.len()
                &&& 0 < config.benches@.len()
                &&& self.bench == 0
                &&& self.holds_up_to(config)
            },
        }
    }

    /// The store holds a metric for a pair if and only if the pair comes
    /// before the driver's place.
    pub open spec fn holds_up_to(&self, config: Config) -> bool {
        forall|bench: usize, commit: usize| #[trigger]
            self.results@.contains_key((bench, commit)) <==> measured_before(
                config,
                bench,
                commit,
                self.bench,
                self.commit,
            )
    }

    /// Begins a run. With a revision and a benchmark configured, the first
    /// action is to write the run configuration for the frame budget; else
    /// the run is over at once.
    pub fn start(config: &Config) -> (out: (Driver, Action))
        ensures
            out.0.wf(*config),
            out.0.results@ == Map::<(usize, usize), Metric>::empty(),
            out.0.bench == 0 && out.0.commit == 0,
            config.benches@.len() == 0 || config.commits@.len() == 0 ==> out.0.phase == Phase::Over
                && out.1 == Action::Abort(RunError::Configuration),
            config.benches@.len() > 0 && config.commits@.len() > 0 ==> out.0.phase == Phase::Setup
                && (out.1 matches Action::WriteConfig(text) && text@ == ci_config_of(config.frames)),
    {
        let results = Results::new();
        if config.benches.len() == 0 || config.commits.len() == 0 {
            (
                Driver { phase: Phase::Over, commit: 0, bench: 0, results },
                Action::Abort(RunError::Configuration),
            )
        } else {
            (
                Driver { phase: Phase::Setup, commit: 0, bench: 0, results },
                Action::WriteConfig(ci_config_text(config.frames)),
            )
        }
    }

    fn abort(&mut self, error: RunError) -> (action: Action)
        ensures
            aborted(*old(self), *final(self), action, error),
    {
        self.phase = Phase::Over;
        Action::Abort(error)
    }

    /// Takes what came of the last action and says what to do next. A run
    /// that began with `start` and is stepped with the same configuration
    /// never ends for want of a metric: after the last pair it reports.
    pub fn step(&mut self, config: &Config, event: Event) -> (action: Action)
        ensures
            step_outcome(*old(self), *final(self), *config, event, action),
            old(self).wf(*config) ==> final(self).wf(*config),
            old(self).wf(*config) ==> !(action matches Action::Abort(RunError::Report(_))),
    {
        match self.phase {
            Phase::Setup => match event {
                Event::Done => {
                    self.phase = Phase::CheckingOut;
                    self.commit = 0;
                    self.bench = 0;
                    Action::Checkout(0)
                },
                _ => self.abort(RunError::Setup),
            },
            Phase::CheckingOut => match event {
                Event::Done => {
                    self.phase = Phase::Patching;
                    Action::ApplyPatches(self.commit)
                },
                _ => self.abort(RunError::Checkout { commit: self.commit }),
            },
            Phase::Patching => match event {
                Event::Done => {
                    self.phase = Phase::Running;
                    self.bench = 0;
                    Action::Run { bench: 0, commit: self.commit }
                },
                _ => self.abort(RunError::Patch { commit: self.commit }),
            },
            Phase::Running => match event {
                Event::Output(log) => self.take_output(config, log.as_str()),
                _ => self.abort(RunError::Run { bench: self.bench, commit: self.commit }),
            },
            Phase::Over => Action::Nothing,
        }
    }

    fn take_output(&mut self, config: &Config, log: &str) -> (action: Action)
        requires
            old(self).phase == Phase::Running,
        ensures
            after_output(*old(self), *final(self), *config, log@, action),
            old(self).wf(*config) ==> final(self).wf(*config),
            old(self).wf(*config) ==> !(action matches Action::Abort(RunError::Report(_))),
    {
        let benches = config.benches.len();
        let commits = config.commits.len();
        match get_fps(log) {
            Err(error) => self.abort(
                RunError::Extract { bench: self.bench, commit: self.commit, error },
            ),
            Ok(metric) => {
                self.results.insert(self.bench, self.commit, metric);
                if self.bench < benches && self.bench + 1 < benches {
                    self.bench = self.bench + 1;
                    Action::Run { bench: self.bench, commit: self.commit }
                } else if self.commit < commits && self.commit + 1 < commits {
                    self.commit = self.commit + 1;
                    self.bench = 0;
                    self.phase = Phase::CheckingOut;
                    Action::Checkout(self.commit)
                } else {
                    self.phase = Phase::Over;
                    proof {
                        if old(self).wf(*config) {
                            assert(covered(*config, self.results@));
                        }
                    }
                    match print_results(&self.results, config) {
                        Ok(lines) => Action::Report(lines),
                        Err(error) => Action::Abort(RunError::Report(error)),
                    }
                }
            },
        }
    }
}

} // verus!
