//! The concurrent install phase's decision logic: classifying the outcome
//! of one workspace's dependency install, and aggregating the outcomes of
//! all workspaces into a single result that reports every failure. Running
//! the external install command, and doing so concurrently, is the
//! caller's: every job's raw outcome is handed back here, so a failing job
//! can neither suppress nor alter a sibling's outcome.

use vstd::prelude::*;

use crate::text::concat_str;

verus! {

/// One workspace's install job: where to run, and which package manager's
/// install command to run.
pub struct InstallJob {
    /// Working directory of the install command.
    pub workspace_path: String,
    /// Name of the package manager executable to invoke.
    pub package_manager: String,
}

/// The outcome of one workspace's install job.
pub struct InstallOutcome {
    /// Working directory the job ran in.
    pub workspace_path: String,
    /// Whether the install succeeded: the command exited successfully and
    /// the expected dependency directory exists.
    pub success: bool,
    /// A diagnostic: the captured output on failure, or a confirmation.
    pub detail: String,
}

/// The aggregate result of the install phase when at least one job failed:
/// every failing outcome, in job order.
pub struct AggregateInstallError {
    /// The failed outcomes, each with its diagnostic.
    pub failures: Vec<InstallOutcome>,
}

/// The diagnostic an install job reports: the captured output when the
/// command failed, a note when the dependency directory is missing, and a
/// confirmation otherwise.
pub open spec fn install_detail(
    ws: Seq<char>,
    exit_success: bool,
    stdout: Seq<char>,
    stderr: Seq<char>,
    artifact_exists: bool,
) -> Seq<char> {
    if !exit_success {
        "Installation failed in "@ + ws + ":\nStdout: "@ + stdout + "\nStderr: "@ + stderr
    } else if !artifact_exists {
        "node_modules not created in "@ + ws
    } else {
        "Installed "@ + ws
    }
}

/// Classifies the raw result of one install job: a success is a successful
/// exit together with a populated dependency directory; anything else is a
/// failure carrying the captured diagnostic.
pub fn classify_install(
    workspace_path: &str,
    exit_success: bool,
    stdout: &str,
    stderr: &str,
    artifact_exists: bool,
) -> (o: InstallOutcome)
    ensures
        o.workspace_path@ == workspace_path@,
        o.success == (exit_success && artifact_exists),
        o.detail@ == install_detail(workspace_path@, exit_success, stdout@, stderr@, artifact_exists),
{
    if !exit_success {
        let mut d = concat_str("Installation failed in ", workspace_path);
        d = concat_str(d.as_str(), ":\nStdout: ");
        d = concat_str(d.as_str(), stdout);
        d = concat_str(d.as_str(), "\nStderr: ");
        d = concat_str(d.as_str(), stderr);
        InstallOutcome { workspace_path: workspace_path.to_owned(), success: false, detail: d }
    } else if !artifact_exists {
        let d = concat_str("node_modules not created in ", workspace_path);
        InstallOutcome { workspace_path: workspace_path.to_owned(), success: false, detail: d }
    } else {
        let d = concat_str("Installed ", workspace_path);
        InstallOutcome { workspace_path: workspace_path.to_owned(), success: true, detail: d }
    }
}

/// The failed outcomes among `s`, in order.
pub open spec fn failed_outcomes(s: Seq<InstallOutcome>) -> Seq<InstallOutcome>
    decreases s.len(),
{
    if s.len() == 0 {
        Seq::empty()
    } else {
        let rest = failed_outcomes(s.drop_first());
        if !s.first().success {
            seq![s.first()] + rest
        } else {
            rest
        }
    }
}

/// Aggregates the outcomes of every install job: the phase fails exactly
/// when some job failed, and the error then lists precisely the failed
/// outcomes, in job order — a failure neither stops nor hides a sibling.
pub fn aggregate_outcomes(outcomes: Vec<InstallOutcome>) -> (r: Result<(), AggregateInstallError>)
    ensures
        r is Ok <==> failed_outcomes(outcomes@).len() == 0,
        r is Ok <==> (forall|i: int| 0 <= i < outcomes@.len() ==> outcomes@[i].success),
        r matches Err(e) ==> e.failures@ == failed_outcomes(outcomes@),
{
    let ghost all = outcomes@;
    let n = outcomes.len();
    let mut outcomes = outcomes;
    let mut failures: Vec<InstallOutcome> = Vec::new();
    let mut i: usize = 0;
    while i < n
        invariant
            n == all.len(),
            i <= n,
            outcomes@ == all.subrange(i as int, n as int),
            failed_outcomes(all) == failures@ + failed_outcomes(all.subrange(i as int, n as int)),
        decreases n - i,
    {
        let ghost tail = all.subrange(i as int, n as int);
        let o = outcomes.remove(0);
        proof {
            assert(tail.first() == all[i as int]);
            assert(tail.drop_first() =~= all.subrange(i + 1 as int, n as int));
            assert(tail.remove(0) =~= tail.drop_first());
        }
        if !o.success {
            failures.push(o);
            proof {
                assert(failed_outcomes(tail) == seq![tail.first()] + failed_outcomes(
                    tail.drop_first(),
                ));
                assert(failures@ =~= (failures@.drop_last() + seq![tail.first()]));
                assert(failures@.drop_last() + seq![tail.first()] + failed_outcomes(
                    tail.drop_first(),
                ) =~= failures@ + failed_outcomes(tail.drop_first()));
            }
        }
        i += 1;
    }
    proof {
        assert(all.subrange(n as int, n as int) =~= Seq::<InstallOutcome>::empty());
        assert(failed_outcomes(all) =~= failures@);
        lemma_failed_outcomes_empty(all);
    }
    if failures.len() == 0 {
        Ok(())
    } else {
        Err(AggregateInstallError { failures })
    }
}

/// No outcome failed exactly when every outcome succeeded.
pub proof fn lemma_failed_outcomes_empty(s: Seq<InstallOutcome>)
    ensures
        failed_outcomes(s).len() == 0 <==> (forall|i: int| 0 <= i < s.len() ==> s[i].success),
    decreases s.len(),
{
    if s.len() > 0 {
        lemma_failed_outcomes_empty(s.drop_first());
        assert forall|i: int| 0 <= i < s.len() && failed_outcomes(s).len() == 0 implies s[i].success by {
            if i > 0 {
                assert(s.drop_first()[i - 1] == s[i]);
            }
        }
        if (forall|i: int| 0 <= i < s.len() ==> s[i].success) {
            assert forall|i: int| 0 <= i < s.drop_first().len() implies s.drop_first()[i].success by {
                assert(s.drop_first()[i] == s[i + 1]);
            }
        }
    }
}

/// Every failed outcome appears in the failure report: a failing job's
/// diagnostic is never suppressed by its siblings.
pub proof fn lemma_failed_outcome_reported(s: Seq<InstallOutcome>, i: int)
    requires
        0 <= i < s.len(),
        !s[i].success,
    ensures
        failed_outcomes(s).contains(s[i]),
    decreases s.len(),
{
    if i == 0 {
        assert(failed_outcomes(s)[0] == s[0]);
    } else {
        lemma_failed_outcome_reported(s.drop_first(), i - 1);
        assert(s.drop_first()[i - 1] == s[i]);
        let rest = failed_outcomes(s.drop_first());
        let j = choose|j: int| 0 <= j < rest.len() && rest[j] == s[i];
        if !s.first().success {
            assert(failed_outcomes(s)[j + 1] == s[i]);
        }
    }
}

} // verus!
