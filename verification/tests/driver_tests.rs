use bevy_benchy::config::{Bench, Commit, Config};
use bevy_benchy::driver::{Action, Driver, Event, Phase, RunError};
use bevy_benchy::metric::{ExtractError, Metric};
use bevy_benchy::report::{ReportError, LINK_TEXT};
use bevy_benchy::results::Results;

fn setup(commits: &[(&str, &str)], benches: &[(&str, &str)]) -> Config {
    Config {
        commits: commits
            .iter()
            .map(|(id, label)| Commit { commit: id.to_string(), label: Some(label.to_string()) })
            .collect(),
        benches: benches
            .iter()
            .map(|(example, label)| Bench {
                example: example.to_string(),
                example_args: vec![],
                label: Some(label.to_string()),
            })
            .collect(),
        frames: 500,
    }
}

fn log(fps: &str) -> Event {
    Event::Output(format!("INFO fps avg 1.0\nINFO fps   : 3.5 (avg {})\n", fps))
}

#[test]
fn a_run_goes_through_revisions_and_benchmarks_in_order() {
    let config = setup(&[("abc123", "old"), ("def456", "new")], &[("a", "A"), ("b", "B")]);
    let (mut driver, first) = Driver::start(&config);
    assert_eq!(first, Action::WriteConfig("(events: [(500, AppExit)])".to_string()));
    assert_eq!(driver.step(&config, Event::Done), Action::Checkout(0));
    assert_eq!(driver.step(&config, Event::Done), Action::ApplyPatches(0));
    assert_eq!(driver.step(&config, Event::Done), Action::Run { bench: 0, commit: 0 });
    assert_eq!(driver.step(&config, log("100.0")), Action::Run { bench: 1, commit: 0 });
    assert_eq!(driver.step(&config, log("50.0")), Action::Checkout(1));
    assert_eq!(driver.phase, Phase::CheckingOut);
    assert_eq!(driver.step(&config, Event::Done), Action::ApplyPatches(1));
    assert_eq!(driver.step(&config, Event::Done), Action::Run { bench: 0, commit: 1 });
    assert_eq!(driver.step(&config, log("110.0")), Action::Run { bench: 1, commit: 1 });
    assert_eq!(driver.results.get(0, 1), Some(Metric { hundredths: 11000 }));
    assert_eq!(driver.results.get(1, 1), None);
    let last = driver.step(&config, log("49.75"));
    assert_eq!(
        last,
        Action::Report(vec![
            format!("|{}|A|B|", LINK_TEXT),
            "|-|-|-|".to_string(),
            "|old|100.00|50.00|".to_string(),
            "|new|110.00 🟩 +10.0%|49.75 ⬜ -0.5%|".to_string(),
        ])
    );
    assert_eq!(driver.phase, Phase::Over);
    assert_eq!(driver.step(&config, Event::Done), Action::Nothing);
}

#[test]
fn a_run_needs_a_revision_and_a_benchmark() {
    let no_benches = setup(&[("abc123", "old")], &[]);
    let (driver, action) = Driver::start(&no_benches);
    assert_eq!(action, Action::Abort(RunError::Configuration));
    assert_eq!(driver.phase, Phase::Over);
    let no_commits = setup(&[], &[("a", "A")]);
    assert_eq!(Driver::start(&no_commits).1, Action::Abort(RunError::Configuration));
}

#[test]
fn the_first_failure_ends_the_run() {
    let config = setup(&[("abc123", "old"), ("def456", "new")], &[("a", "A")]);

    let (mut driver, _) = Driver::start(&config);
    assert_eq!(driver.step(&config, Event::Failed), Action::Abort(RunError::Setup));
    assert_eq!(driver.step(&config, Event::Done), Action::Nothing);

    let (mut driver, _) = Driver::start(&config);
    driver.step(&config, Event::Done);
    assert_eq!(
        driver.step(&config, Event::Failed),
        Action::Abort(RunError::Checkout { commit: 0 })
    );

    let (mut driver, _) = Driver::start(&config);
    driver.step(&config, Event::Done);
    driver.step(&config, Event::Done);
    assert_eq!(driver.step(&config, Event::Failed), Action::Abort(RunError::Patch { commit: 0 }));

    let (mut driver, _) = Driver::start(&config);
    driver.step(&config, Event::Done);
    driver.step(&config, Event::Done);
    driver.step(&config, Event::Done);
    assert_eq!(
        driver.step(&config, Event::Failed),
        Action::Abort(RunError::Run { bench: 0, commit: 0 })
    );
    assert_eq!(driver.phase, Phase::Over);
}

#[test]
fn a_log_without_a_metric_ends_the_run() {
    let config = setup(&[("abc123", "old")], &[("a", "A")]);
    let (mut driver, _) = Driver::start(&config);
    driver.step(&config, Event::Done);
    driver.step(&config, Event::Done);
    driver.step(&config, Event::Done);
    assert_eq!(
        driver.step(&config, Event::Output("no metrics here".to_string())),
        Action::Abort(RunError::Extract {
            bench: 0,
            commit: 0,
            error: ExtractError::NoMetricFound
        })
    );

    let (mut driver, _) = Driver::start(&config);
    driver.step(&config, Event::Done);
    driver.step(&config, Event::Done);
    driver.step(&config, Event::Done);
    assert_eq!(
        driver.step(&config, Event::Output("fps avg 1.2.3".to_string())),
        Action::Abort(RunError::Extract {
            bench: 0,
            commit: 0,
            error: ExtractError::MalformedMetric
        })
    );
    assert_eq!(driver.results.get(0, 0), None);
}

#[test]
fn a_state_that_skipped_a_pair_cannot_report() {
    let config = setup(&[("abc123", "old"), ("def456", "new")], &[("a", "A")]);
    let mut driver =
        Driver { phase: Phase::Running, commit: 1, bench: 0, results: Results::new() };
    assert_eq!(
        driver.step(&config, log("60.0")),
        Action::Abort(RunError::Report(ReportError::ResultMissing { bench: 0, commit: 0 }))
    );
    assert_eq!(driver.results.get(0, 1), Some(Metric { hundredths: 6000 }));
}

#[test]
fn an_event_of_the_wrong_sort_counts_as_a_failure() {
    let config = setup(&[("abc123", "old")], &[("a", "A")]);
    let (mut driver, _) = Driver::start(&config);
    assert_eq!(driver.step(&config, log("60.0")), Action::Abort(RunError::Setup));

    let (mut driver, _) = Driver::start(&config);
    driver.step(&config, Event::Done);
    driver.step(&config, Event::Done);
    driver.step(&config, Event::Done);
    assert_eq!(
        driver.step(&config, Event::Done),
        Action::Abort(RunError::Run { bench: 0, commit: 0 })
    );
}
