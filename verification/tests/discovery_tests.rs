use vswhere::discovery::{
    run_with_results, AttemptResult, Candidate, Discovery, DiscoveryOutcome, ToolOutput,
};
use vswhere::discovery::{discovery_plan, split_search_list};
use vswhere::Error;

fn strings(items: &[&str]) -> Vec<String> {
    items.iter().map(|s| String::from(*s)).collect()
}

fn output(exit_code: i32, stdout: &[u8]) -> ToolOutput {
    ToolOutput { exit_code, stdout: stdout.to_vec(), stderr: Vec::new() }
}

#[test]
fn plan_with_override_has_single_candidate() {
    let plan = discovery_plan(Some(String::from("D:\\vswhere.exe")), &strings(&["ignored"]));
    assert_eq!(plan.len(), 1);
    assert!(matches!(&plan[0], Candidate::AtPath(p) if p == "D:\\vswhere.exe"));
}

#[test]
fn plan_probes_each_search_dir_then_installer_folder() {
    let plan = discovery_plan(None, &strings(&["C:\\bin", "C:\\tools"]));
    assert_eq!(plan.len(), 3);
    assert!(matches!(&plan[0], Candidate::AtPath(p) if p == "C:\\bin\\vswhere.exe"));
    assert!(matches!(&plan[1], Candidate::AtPath(p) if p == "C:\\tools\\vswhere.exe"));
    assert!(matches!(&plan[2], Candidate::InstallerFolder));
}

#[test]
fn split_search_list_keeps_order_and_empty_entries() {
    let dirs = split_search_list("C:\\a;C:\\b;;C:\\c");
    assert_eq!(dirs, strings(&["C:\\a", "C:\\b", "", "C:\\c"]));
    assert_eq!(split_search_list(""), strings(&[""]));
}

#[test]
fn stops_at_first_success_without_trying_later_candidates() {
    let plan = discovery_plan(None, &strings(&["C:\\first", "C:\\second"]));
    let machine = Discovery::new(plan);
    assert!(matches!(machine.current(), Candidate::AtPath(p) if p == "C:\\first\\vswhere.exe"));

    // First strategy: nothing there; the machine moves to the second.
    let machine = match machine.report(AttemptResult::NotFound) {
        DiscoveryOutcome::Continue(d) => d,
        DiscoveryOutcome::Finished(r) => panic!("finished too early: {:?}", r),
    };
    assert!(matches!(machine.current(), Candidate::AtPath(p) if p == "C:\\second\\vswhere.exe"));

    // Second strategy succeeds; the third candidate is never requested.
    match machine.report(AttemptResult::Ran(output(0, b"[]"))) {
        DiscoveryOutcome::Finished(Ok(out)) => {
            assert_eq!(out.exit_code, 0);
            assert_eq!(out.stdout, b"[]".to_vec());
        }
        other => panic!("expected the second attempt's output: {:?}", other),
    }
}

#[test]
fn hard_failure_stops_discovery_immediately() {
    let plan = discovery_plan(None, &strings(&["C:\\first", "C:\\second"]));
    let machine = Discovery::new(plan);
    match machine.report(AttemptResult::Failed(Error::SpawnFailed)) {
        DiscoveryOutcome::Finished(Err(Error::SpawnFailed)) => {}
        other => panic!("expected the spawn failure to surface: {:?}", other),
    }
}

#[test]
fn exhausted_plan_aggregates_to_not_found() {
    let plan = discovery_plan(None, &strings(&["C:\\only"]));
    let machine = Discovery::new(plan);
    let machine = match machine.report(AttemptResult::NotFound) {
        DiscoveryOutcome::Continue(d) => d,
        DiscoveryOutcome::Finished(r) => panic!("finished too early: {:?}", r),
    };
    assert!(matches!(machine.current(), Candidate::InstallerFolder));
    match machine.report(AttemptResult::NotFound) {
        DiscoveryOutcome::Finished(Err(Error::NotFound)) => {}
        other => panic!("expected NotFound after exhaustion: {:?}", other),
    }
}

#[test]
fn replay_returns_first_decisive_result() {
    let plan = discovery_plan(None, &strings(&["C:\\a", "C:\\b"]));
    let results = vec![
        AttemptResult::NotFound,
        AttemptResult::Ran(output(0, b"[]")),
        AttemptResult::Ran(output(3, b"later, never reached")),
    ];
    match run_with_results(plan, results) {
        Ok(out) => assert_eq!(out.exit_code, 0),
        Err(e) => panic!("expected the second attempt's output: {:?}", e),
    }
}

#[test]
fn replay_of_all_absent_attempts_is_not_found() {
    let plan = discovery_plan(None, &strings(&["C:\\a"]));
    let results = vec![AttemptResult::NotFound, AttemptResult::NotFound];
    assert!(matches!(run_with_results(plan, results), Err(Error::NotFound)));
}
