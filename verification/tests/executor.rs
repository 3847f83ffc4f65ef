use hyperlane_cli::{
    Package, PublishResult, PublishRun, all_succeeded, backoff_seconds, count_failures,
};

fn package(name: &str) -> Package {
    Package {
        name: name.to_string(),
        version: "1.0.0".to_string(),
        path: name.to_string(),
        local_dependencies: Vec::new(),
    }
}

/// Drives a run with the outcomes that `publish` gives for each attempt,
/// and hands back the results, the delays and the number of attempts.
fn drive(
    packages: Vec<Package>,
    max_retries: u32,
    mut publish: impl FnMut(&str, u32) -> Result<(), String>,
) -> (Vec<PublishResult>, Vec<u64>, usize) {
    let mut run = PublishRun::new(packages, max_retries);
    let mut delays = Vec::new();
    let mut attempts = 0;
    while !run.finished() {
        let name = run.current().unwrap().name.clone();
        let outcome = publish(&name, run.attempt());
        attempts += 1;
        let (next, wait) = run.record(outcome);
        run = next;
        if let Some(delay) = wait {
            delays.push(delay);
        }
    }
    (run.into_results(), delays, attempts)
}

#[test]
fn success_at_once_counts_no_retry() {
    let (results, delays, attempts) = drive(vec![package("a")], 3, |_, _| Ok(()));
    assert_eq!(results.len(), 1);
    assert_eq!(results[0].package_name, "a");
    assert!(results[0].success);
    assert_eq!(results[0].error, None);
    assert_eq!(results[0].retries, 0);
    assert!(delays.is_empty());
    assert_eq!(attempts, 1);
}

#[test]
fn two_failures_then_success_counts_two_retries() {
    let (results, delays, attempts) = drive(vec![package("a")], 2, |_, attempt| {
        if attempt < 2 {
            Err(format!("failure {attempt}"))
        } else {
            Ok(())
        }
    });
    assert_eq!(results.len(), 1);
    assert!(results[0].success);
    assert_eq!(results[0].retries, 2);
    assert_eq!(results[0].error, None);
    assert_eq!(delays, vec![2, 4]);
    assert_eq!(attempts, 3);
}

#[test]
fn failure_throughout_is_recorded_and_the_run_goes_on() {
    let (results, _, attempts) = drive(vec![package("bad"), package("good")], 1, |name, attempt| {
        if name == "bad" {
            Err(format!("diagnostic {attempt}"))
        } else {
            Ok(())
        }
    });
    assert_eq!(results.len(), 2);
    assert!(!results[0].success);
    assert_eq!(results[0].retries, 1);
    assert_eq!(results[0].error, Some("diagnostic 1".to_string()));
    assert_eq!(results[1].package_name, "good");
    assert!(results[1].success);
    assert_eq!(results[1].retries, 0);
    assert_eq!(attempts, 3);
    assert!(!all_succeeded(&results));
}

#[test]
fn always_failing_is_retried_as_often_as_allowed() {
    for max_retries in [0u32, 1, 3, 5] {
        let (results, delays, attempts) =
            drive(vec![package("a")], max_retries, |_, _| Err("no".to_string()));
        assert_eq!(attempts as u32, max_retries + 1);
        assert_eq!(delays.len() as u32, max_retries);
        assert_eq!(results[0].retries, max_retries);
        assert!(!results[0].success);
        assert_eq!(results[0].error, Some("no".to_string()));
    }
}

#[test]
fn delays_double() {
    let (_, delays, _) = drive(vec![package("a")], 5, |_, _| Err("no".to_string()));
    assert_eq!(delays, vec![2, 4, 8, 16, 32]);
    for pair in delays.windows(2) {
        assert!(pair[0] < pair[1]);
        assert_eq!(pair[1], 2 * pair[0]);
    }
}

#[test]
fn backoff_is_a_power_of_two() {
    assert_eq!(backoff_seconds(0), 1);
    assert_eq!(backoff_seconds(1), 2);
    assert_eq!(backoff_seconds(3), 8);
    assert_eq!(backoff_seconds(10), 1024);
    assert_eq!(backoff_seconds(63), 1u64 << 63);
}

#[test]
fn backoff_stops_at_the_largest_delay() {
    assert_eq!(backoff_seconds(64), u64::MAX);
    assert_eq!(backoff_seconds(65), u64::MAX);
    assert_eq!(backoff_seconds(u32::MAX), u64::MAX);
}

#[test]
fn delays_start_again_for_the_next_package() {
    let (_, delays, _) = drive(vec![package("a"), package("b")], 2, |_, _| Err("no".to_string()));
    assert_eq!(delays, vec![2, 4, 2, 4]);
}

#[test]
fn results_stand_in_package_order() {
    let names = ["first", "second", "third", "fourth", "fifth"];
    let packages: Vec<Package> = names.iter().map(|n| package(n)).collect();
    let (results, _, _) = drive(packages, 1, |name, attempt| match name {
        "second" => Err("always".to_string()),
        "fourth" if attempt == 0 => Err("once".to_string()),
        _ => Ok(()),
    });
    let got: Vec<&str> = results.iter().map(|r| r.package_name.as_str()).collect();
    assert_eq!(got, names);
    let successes: Vec<bool> = results.iter().map(|r| r.success).collect();
    assert_eq!(successes, vec![true, false, true, true, true]);
    assert_eq!(results[3].retries, 1);
}

#[test]
fn run_without_packages_is_finished() {
    let run = PublishRun::new(Vec::new(), 3);
    assert!(run.finished());
    assert!(run.current().is_none());
    let (run, wait) = run.record(Err("late".to_string()));
    assert_eq!(wait, None);
    assert!(run.results().is_empty());
    assert!(all_succeeded(&run.into_results()));
}

#[test]
fn finished_run_takes_no_more_outcomes() {
    let run = PublishRun::new(vec![package("a")], 0);
    let (run, _) = run.record(Ok(()));
    assert!(run.finished());
    let (run, wait) = run.record(Err("late".to_string()));
    assert_eq!(wait, None);
    assert_eq!(run.results().len(), 1);
    assert!(run.results()[0].success);
}

#[test]
fn all_succeeded_needs_every_success() {
    let (results, _, _) = drive(vec![package("a"), package("b")], 0, |_, _| Ok(()));
    assert!(all_succeeded(&results));
}

#[test]
fn failures_are_counted() {
    let (results, _, _) = drive(
        vec![package("a"), package("b"), package("c")],
        0,
        |name, _| if name == "b" { Ok(()) } else { Err("no".to_string()) },
    );
    assert_eq!(count_failures(&results), 2);
    assert_eq!(count_failures(&Vec::new()), 0);
}
