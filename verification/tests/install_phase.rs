use create_v1_app::install::{aggregate_outcomes, classify_install, InstallOutcome};

fn outcome(ws: &str, success: bool) -> InstallOutcome {
    InstallOutcome {
        workspace_path: ws.to_string(),
        success,
        detail: String::new(),
    }
}

#[test]
fn success_needs_exit_and_artifact() {
    let ok = classify_install("w", true, "", "", true);
    assert!(ok.success);
    assert_eq!(ok.detail, "Installed w");

    let no_artifact = classify_install("w", true, "", "", false);
    assert!(!no_artifact.success);
    assert_eq!(no_artifact.detail, "node_modules not created in w");

    let bad_exit = classify_install("w", false, "out", "err", true);
    assert!(!bad_exit.success);
    assert_eq!(
        bad_exit.detail,
        "Installation failed in w:\nStdout: out\nStderr: err"
    );
}

#[test]
fn one_failure_fails_the_aggregate_without_touching_siblings() {
    // three workspaces; the middle one exits cleanly but leaves no
    // dependency directory behind
    let a = classify_install("a", true, "", "", true);
    let b = classify_install("b", true, "", "", false);
    let c = classify_install("c", true, "", "", true);
    assert!(a.success);
    assert!(!b.success);
    assert!(c.success);

    let err = aggregate_outcomes(vec![a, b, c]).unwrap_err();
    assert_eq!(err.failures.len(), 1);
    assert_eq!(err.failures[0].workspace_path, "b");
    assert_eq!(err.failures[0].detail, "node_modules not created in b");
}

#[test]
fn all_success_aggregates_to_ok() {
    let r = aggregate_outcomes(vec![outcome("a", true), outcome("b", true)]);
    assert!(r.is_ok());
    assert!(aggregate_outcomes(Vec::new()).is_ok());
}

#[test]
fn every_failure_is_reported_in_order() {
    let r = aggregate_outcomes(vec![
        outcome("a", false),
        outcome("b", true),
        outcome("c", false),
    ]);
    let err = r.unwrap_err();
    assert_eq!(err.failures.len(), 2);
    assert_eq!(err.failures[0].workspace_path, "a");
    assert_eq!(err.failures[1].workspace_path, "c");
}
