//! The deterministic merge gate: a pure function over a provenance-carrying
//! report. An agent's claim of success is never an input here; only HOW the
//! result was produced is.

use vstd::prelude::*;
use crate::events::TestOrigin;

verus! {

#[derive(Debug, PartialEq, Eq)]
pub struct TestReport {
    pub passed: bool,
    pub origin: TestOrigin,
    pub summary: String,
}

impl Clone for TestReport {
    fn clone(&self) -> (r: Self)
        ensures
            r == *self,
    {
        TestReport { passed: self.passed, origin: self.origin, summary: self.summary.clone() }
    }
}

#[derive(Debug, Clone, Copy, PartialEq, Eq, Structural)]
pub struct MergePolicy {
    pub require_real_cargo_test: bool,
}

impl Default for MergePolicy {
    /// Real `cargo test` provenance is required unless a caller opts out.
    fn default() -> (p: Self)
        ensures
            p.require_real_cargo_test,
    {
        MergePolicy { require_real_cargo_test: true }
    }
}

#[derive(Debug, Clone, PartialEq, Eq)]
pub enum MergeDecision {
    Open { origin: TestOrigin },
    Gated { reason: String },
}

/// Whether a report may open the merge gate under a policy.
pub open spec fn gate_opens(report: TestReport, policy: MergePolicy) -> bool {
    report.passed && (report.origin == TestOrigin::RealCargoTest || !policy.require_real_cargo_test)
}

/// Why a report that cannot open the merge gate is gated.
pub open spec fn gate_reason(report: TestReport) -> Seq<char> {
    if report.passed {
        "tests reported pass, but this was not a real cargo test run"@
    } else {
        "tests failed: "@ + report.summary@
    }
}

/// The decision for a report under a policy, stated over the report alone.
pub open spec fn gate_decision_ok(d: MergeDecision, report: TestReport, policy: MergePolicy) -> bool {
    if gate_opens(report, policy) {
        d == MergeDecision::Open { origin: report.origin }
    } else {
        d matches MergeDecision::Gated { reason } && reason@ == gate_reason(report)
    }
}

/// Open exactly on a passing report whose provenance the policy accepts;
/// otherwise gated, with the reason the report's summary or provenance gives.
pub fn evaluate_merge_gate(report: &TestReport, policy: MergePolicy) -> (d: MergeDecision)
    ensures
        gate_decision_ok(d, *report, policy),
{
    match (report.passed, report.origin, policy.require_real_cargo_test) {
        (true, TestOrigin::RealCargoTest, _) => MergeDecision::Open { origin: report.origin },
        (true, TestOrigin::Simulated, false) => MergeDecision::Open { origin: report.origin },
        (true, TestOrigin::Simulated, true) => MergeDecision::Gated {
            reason: String::from_str("tests reported pass, but this was not a real cargo test run"),
        },
        (false, _, _) => {
            let mut reason = String::from_str("tests failed: ");
            reason.append(report.summary.as_str());
            MergeDecision::Gated { reason }
        },
    }
}

/// Law: under the default policy only a passing real `cargo test` run opens
/// the merge gate; a simulated pass or any failure never does.
pub proof fn lemma_default_policy_requires_real_run(report: TestReport, policy: MergePolicy)
    requires
        policy.require_real_cargo_test,
    ensures
        gate_opens(report, policy) <==> (report.passed && report.origin == TestOrigin::RealCargoTest),
{
}

/// Law: a passing real `cargo test` run opens the merge gate whatever the
/// policy; a simulated pass opens it exactly when the policy allows
/// simulated runs.
pub proof fn lemma_real_pass_always_opens(report: TestReport, policy: MergePolicy)
    ensures
        report.passed && report.origin == TestOrigin::RealCargoTest ==> gate_opens(report, policy),
        report.passed && report.origin == TestOrigin::Simulated ==> (gate_opens(report, policy) <==> !policy.require_real_cargo_test),
{
}

/// Law: a gated failing report carries its test summary as the end of the
/// reason; a gated pass names the missing provenance.
pub proof fn lemma_gate_reasons(report: TestReport)
    ensures
        !report.passed ==> gate_reason(report) == "tests failed: "@ + report.summary@,
        report.passed ==> gate_reason(report) == "tests reported pass, but this was not a real cargo test run"@,
{
}

/// Law: a failing report never opens the merge gate, whatever the policy.
pub proof fn lemma_failure_never_opens(report: TestReport, policy: MergePolicy)
    requires
        !report.passed,
    ensures
        !gate_opens(report, policy),
{
}

} // verus!
