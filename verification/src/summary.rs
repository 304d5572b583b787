//! The report of a run: a few lines for each target, the totals, and the
//! verdict.

use crate::target::{TargetModel, VerificationTarget};
use crate::text::{decimal, decimal_string};
use vstd::prelude::*;
use vstd::string::StringExecFns;

verus! {

/// The models of the targets `v`, in order.
pub open spec fn models(v: Seq<VerificationTarget>) -> Seq<TargetModel> {
    v.map_values(|t: VerificationTarget| t@)
}

/// A span of `ms` milliseconds in whole minutes, seconds and milliseconds.
pub open spec fn elapsed_text(ms: nat) -> Seq<char> {
    decimal(ms / 1000 / 60) + " min "@ + decimal((ms / 1000) % 60) + " s "@ + decimal(ms % 1000)
        + " ms"@
}

/// Writes a span of `ms_in` milliseconds as minutes, seconds and
/// milliseconds; nothing is rounded.
pub fn ms_to_min_s_ms(ms_in: u128) -> (r: String)
    ensures
        r@ == elapsed_text(ms_in as nat),
{
    let ms = ms_in % 1000;
    let s = (ms_in / 1000) % 60;
    let min = ms_in / 1000 / 60;
    let mut r = decimal_string(min);
    r.append(" min ");
    r.append(decimal_string(s).as_str());
    r.append(" s ");
    r.append(decimal_string(ms).as_str());
    r.append(" ms");
    assert(r@ =~= elapsed_text(ms_in as nat));
    r
}

/// What `{:?}` writes for the path `p`.
pub uninterp spec fn path_debug(p: Seq<char>) -> Seq<char>;

/// Calls std's `Debug` formatting of `Path` on the path `p`. The contract
/// gives that text a name and claims nothing of what it holds.
#[verifier::external_body]
pub(crate) fn quoted_path(p: &str) -> (r: String)
    ensures
        r@ == path_debug(p@),
{
    format!("{:?}", std::path::Path::new(p))
}

/// How many of the targets passed.
pub open spec fn count_passed(ts: Seq<TargetModel>) -> nat
    decreases ts.len(),
{
    if ts.len() == 0 {
        0
    } else {
        count_passed(ts.drop_last()) + if ts.last().passed {
            1nat
        } else {
            0nat
        }
    }
}

/// The errors of all targets together.
pub open spec fn total_errors(ts: Seq<TargetModel>) -> nat
    decreases ts.len(),
{
    if ts.len() == 0 {
        0
    } else {
        total_errors(ts.drop_last()) + ts.last().number_of_errors
    }
}

/// The warnings of all targets together.
pub open spec fn total_warnings(ts: Seq<TargetModel>) -> nat
    decreases ts.len(),
{
    if ts.len() == 0 {
        0
    } else {
        total_warnings(ts.drop_last()) + ts.last().number_of_warnings
    }
}

/// Whether the run as a whole succeeded: every target passed.
pub open spec fn run_succeeded(ts: Seq<TargetModel>) -> bool {
    forall|i: int| 0 <= i < ts.len() ==> (#[trigger] ts[i]).passed
}

/// The totals of a run.
#[derive(Clone, Copy, Debug, PartialEq, Eq, Structural)]
pub struct RunTotals {
    /// The number of targets.
    pub targets: usize,
    /// How many of them passed.
    pub passed: usize,
    /// How many of them failed.
    pub failed: usize,
    /// The errors of all targets together.
    pub errors: u128,
    /// The warnings of all targets together.
    pub warnings: u128,
}

/// What [`RunTotals`] hold, as mathematical values.
pub struct TotalsModel {
    pub targets: nat,
    pub passed: nat,
    pub failed: nat,
    pub errors: nat,
    pub warnings: nat,
}

impl View for RunTotals {
    type V = TotalsModel;

    open spec fn view(&self) -> TotalsModel {
        TotalsModel {
            targets: self.targets as nat,
            passed: self.passed as nat,
            failed: self.failed as nat,
            errors: self.errors as nat,
            warnings: self.warnings as nat,
        }
    }
}

/// The totals that belong to the targets `ts`.
pub open spec fn totals_of(ts: Seq<TargetModel>) -> TotalsModel {
    TotalsModel {
        targets: ts.len(),
        passed: count_passed(ts),
        failed: (ts.len() - count_passed(ts)) as nat,
        errors: total_errors(ts),
        warnings: total_warnings(ts),
    }
}

pub proof fn lemma_totals_bounded(ts: Seq<TargetModel>)
    requires
        forall|i: int|
            0 <= i < ts.len() ==> (#[trigger] ts[i]).number_of_errors <= usize::MAX
                && ts[i].number_of_warnings <= usize::MAX,
    ensures
        count_passed(ts) <= ts.len(),
        total_errors(ts) <= ts.len() * usize::MAX,
        total_warnings(ts) <= ts.len() * usize::MAX,
    decreases ts.len(),
{
    if ts.len() > 0 {
        let front = ts.drop_last();
        lemma_totals_bounded(front);
        assert(ts.last() == ts[ts.len() - 1]);
        assert(front.len() * usize::MAX + usize::MAX == ts.len() * usize::MAX) by (nonlinear_arith)
            requires
                front.len() + 1 == ts.len(),
        ;
    }
}

/// Adds up what the targets came to.
pub fn totals(targets: &Vec<VerificationTarget>) -> (r: RunTotals)
    ensures
        r@ == totals_of(models(targets@)),
        r.passed + r.failed == r.targets,
{
    let n = targets.len();
    let mut passed: usize = 0;
    let mut errors: u128 = 0;
    let mut warnings: u128 = 0;
    let mut i: usize = 0;
    let ghost all = models(targets@);
    assert(all.take(0) =~= Seq::<TargetModel>::empty());
    while i < n
        invariant
            i <= n,
            n == targets.len(),
            all == models(targets@),
            passed == count_passed(all.take(i as int)),
            errors == total_errors(all.take(i as int)),
            warnings == total_warnings(all.take(i as int)),
        decreases n - i,
    {
        proof {
            let next = all.take(i + 1);
            assert(next.drop_last() =~= all.take(i as int));
            assert(next.last() == targets@[i as int]@);
            lemma_totals_bounded(next);
            assert(next.len() * usize::MAX <= usize::MAX * usize::MAX) by (nonlinear_arith)
                requires
                    next.len() <= usize::MAX,
            ;
            assert(usize::MAX * usize::MAX <= u128::MAX) by (nonlinear_arith)
                requires
                    usize::MAX <= 0xffff_ffff_ffff_ffff,
            ;
        }
        if targets[i].passed {
            passed += 1;
        }
        errors += targets[i].number_of_errors as u128;
        warnings += targets[i].number_of_warnings as u128;
        i += 1;
    }
    proof {
        assert(all.take(n as int) =~= all);
        lemma_totals_bounded(all);
    }
    RunTotals { targets: n, passed, failed: n - passed, errors, warnings }
}

/// Tells whether every target passed.
pub fn all_passed(targets: &Vec<VerificationTarget>) -> (r: bool)
    ensures
        r == run_succeeded(models(targets@)),
{
    let mut i: usize = 0;
    while i < targets.len()
        invariant
            i <= targets.len(),
            forall|k: int| 0 <= k < i ==> (#[trigger] models(targets@)[k]).passed,
        decreases targets.len() - i,
    {
        if !targets[i].passed {
            assert(!models(targets@)[i as int].passed);
            return false;
        }
        i += 1;
    }
    true
}

/// A run fails exactly when one of its targets did not pass.
pub proof fn lemma_run_fails_with_a_target(ts: Seq<TargetModel>)
    ensures
        !run_succeeded(ts) <==> exists|i: int| 0 <= i < ts.len() && !(#[trigger] ts[i]).passed,
{
}

/// The verdict of a run goes by which targets passed and by nothing else:
/// errors and warnings, however many, do not change it.
pub proof fn lemma_verdict_ignores_counts(a: Seq<TargetModel>, b: Seq<TargetModel>)
    requires
        a.len() == b.len(),
        forall|i: int| 0 <= i < a.len() ==> (#[trigger] a[i]).passed == b[i].passed,
    ensures
        run_succeeded(a) == run_succeeded(b),
{
    if run_succeeded(a) {
        assert forall|i: int| 0 <= i < b.len() implies (#[trigger] b[i]).passed by {
            assert(a[i].passed);
        }
    }
    if run_succeeded(b) {
        assert forall|i: int| 0 <= i < a.len() implies (#[trigger] a[i]).passed by {
            assert(b[i].passed);
        }
    }
}

/// The line that names a target after `label`.
pub open spec fn target_line(label: Seq<char>, t: TargetModel) -> Seq<char> {
    label + ": core: "@ + t.core_name + ", target: "@ + t.target_name + "\n"@
}

/// The line that gives a count for a target after `label`.
pub open spec fn counted_line(label: Seq<char>, count: nat, t: TargetModel) -> Seq<char> {
    label + " ("@ + decimal(count) + "): core: "@ + t.core_name + ", target: "@ + t.target_name
        + "\n"@
}

/// The line that points to the output file, given as it is to be shown.
pub open spec fn pointer_line(shown_file: Seq<char>) -> Seq<char> {
    "For more details check file: "@ + shown_file + "\n"@
}

/// What the report says of one target: whether it passed; its errors and its
/// warnings, where it has any; where to look, if it failed or has warnings;
/// and an empty line.
pub open spec fn target_summary_text(t: TargetModel, shown_file: Seq<char>) -> Seq<char> {
    target_line(
        if t.passed {
            "PASSED"@
        } else {
            "FAILED"@
        },
        t,
    ) + (if t.number_of_errors > 0 {
        counted_line("ERRORS"@, t.number_of_errors, t)
    } else {
        Seq::empty()
    }) + (if t.number_of_warnings > 0 {
        counted_line("WARNINGS"@, t.number_of_warnings, t)
    } else {
        Seq::empty()
    }) + (if !t.passed || t.number_of_warnings > 0 {
        pointer_line(shown_file)
    } else {
        Seq::empty()
    }) + "\n"@
}

/// Appends to `out` the line that names `target` after `label`.
fn append_target_line(out: &mut String, label: &str, target: &VerificationTarget)
    ensures
        final(out)@ == old(out)@ + target_line(label@, target@),
{
    let ghost before = out@;
    out.append(label);
    out.append(": core: ");
    out.append(target.core_name.as_str());
    out.append(", target: ");
    out.append(target.target_name.as_str());
    out.append("\n");
    assert(out@ =~= before + target_line(label@, target@));
}

/// Appends to `out` the line that gives `count` for `target` after `label`.
fn append_counted_line(out: &mut String, label: &str, count: usize, target: &VerificationTarget)
    ensures
        final(out)@ == old(out)@ + counted_line(label@, count as nat, target@),
{
    let ghost before = out@;
    out.append(label);
    out.append(" (");
    out.append(decimal_string(count as u128).as_str());
    out.append("): core: ");
    out.append(target.core_name.as_str());
    out.append(", target: ");
    out.append(target.target_name.as_str());
    out.append("\n");
    assert(out@ =~= before + counted_line(label@, count as nat, target@));
}

/// Writes what the report says of `target`, with `shown_file` for its output
/// file.
pub fn target_summary_with(target: &VerificationTarget, shown_file: &str) -> (r: String)
    ensures
        r@ == target_summary_text(target@, shown_file@),
{
    let mut r = String::new();
    if target.passed {
        append_target_line(&mut r, "PASSED", target);
    } else {
        append_target_line(&mut r, "FAILED", target);
    }
    if target.number_of_errors > 0 {
        append_counted_line(&mut r, "ERRORS", target.number_of_errors, target);
    }
    if target.number_of_warnings > 0 {
        append_counted_line(&mut r, "WARNINGS", target.number_of_warnings, target);
    }
    if !target.passed || target.number_of_warnings > 0 {
        let ghost before = r@;
        r.append("For more details check file: ");
        r.append(shown_file);
        r.append("\n");
        assert(r@ =~= before + pointer_line(shown_file@));
    }
    r.append("\n");
    assert(r@ =~= target_summary_text(target@, shown_file@));
    r
}

/// Writes what the report says of `target`; its output file is shown as
/// `{:?}` shows a path.
pub fn target_summary(target: &VerificationTarget) -> (r: String)
    ensures
        r@ == target_summary_text(target@, path_debug(target@.output_file)),
{
    let shown = quoted_path(target.output_file.as_str());
    target_summary_with(target, shown.as_str())
}

/// What the report says of the targets `ts`, one after the other.
pub open spec fn targets_summary_text(ts: Seq<TargetModel>) -> Seq<char>
    decreases ts.len(),
{
    if ts.len() == 0 {
        Seq::empty()
    } else {
        targets_summary_text(ts.drop_last()) + target_summary_text(
            ts.last(),
            path_debug(ts.last().output_file),
        )
    }
}

/// The block that closes the report. The two shares are taken as they are to
/// be shown, without the percent sign.
pub open spec fn summary_block_text(
    totals: TotalsModel,
    elapsed_ms: nat,
    passed_share: Seq<char>,
    failed_share: Seq<char>,
) -> Seq<char> {
    "VERIFICATION SUMMARY:\n  Total verification time: "@ + elapsed_text(elapsed_ms)
        + "\n  TARGETS:  "@ + decimal(totals.targets) + "\n  PASSED:   "@ + decimal(
        totals.passed,
    ) + " ("@ + passed_share + "%)\n  FAILED:   "@ + decimal(totals.failed) + " ("@
        + failed_share + "%)\n  ERRORS:   "@ + decimal(totals.errors) + "\n  WARNINGS: "@
        + decimal(totals.warnings) + "\n"@
}

/// Writes the block that closes the report.
pub fn summary_block(
    totals: &RunTotals,
    elapsed_ms: u128,
    passed_share: &str,
    failed_share: &str,
) -> (r: String)
    ensures
        r@ == summary_block_text(totals@, elapsed_ms as nat, passed_share@, failed_share@),
{
    let mut r = String::from_str("VERIFICATION SUMMARY:\n  Total verification time: ");
    r.append(ms_to_min_s_ms(elapsed_ms).as_str());
    r.append("\n  TARGETS:  ");
    r.append(decimal_string(totals.targets as u128).as_str());
    r.append("\n  PASSED:   ");
    r.append(decimal_string(totals.passed as u128).as_str());
    r.append(" (");
    r.append(passed_share);
    r.append("%)\n  FAILED:   ");
    r.append(decimal_string(totals.failed as u128).as_str());
    r.append(" (");
    r.append(failed_share);
    r.append("%)\n  ERRORS:   ");
    r.append(decimal_string(totals.errors).as_str());
    r.append("\n  WARNINGS: ");
    r.append(decimal_string(totals.warnings).as_str());
    r.append("\n");
    assert(r@ =~= summary_block_text(totals@, elapsed_ms as nat, passed_share@, failed_share@));
    r
}

/// What a finished run is summed up to.
pub struct Summary {
    /// The report: what it says of each target, then the closing block.
    pub text: String,
    /// The totals that the closing block shows.
    pub totals: RunTotals,
    /// Whether the run as a whole succeeded.
    pub succeeded: bool,
}

/// Sums up a finished run. The time that the run took and the two shares of
/// the closing block are given by the caller.
pub fn summarize(
    targets: &Vec<VerificationTarget>,
    elapsed_ms: u128,
    passed_share: &str,
    failed_share: &str,
) -> (r: Summary)
    ensures
        r.totals@ == totals_of(models(targets@)),
        r.succeeded == run_succeeded(models(targets@)),
        r.text@ == targets_summary_text(models(targets@)) + summary_block_text(
            totals_of(models(targets@)),
            elapsed_ms as nat,
            passed_share@,
            failed_share@,
        ),
{
    let mut text = String::new();
    let mut i: usize = 0;
    let ghost all = models(targets@);
    assert(all.take(0) =~= Seq::<TargetModel>::empty());
    while i < targets.len()
        invariant
            i <= targets.len(),
            all == models(targets@),
            text@ == targets_summary_text(all.take(i as int)),
        decreases targets.len() - i,
    {
        proof {
            let next = all.take(i + 1);
            assert(next.drop_last() =~= all.take(i as int));
            assert(next.last() == targets@[i as int]@);
        }
        text.append(target_summary(&targets[i]).as_str());
        i += 1;
    }
    assert(all.take(targets.len() as int) =~= all);
    let sums = totals(targets);
    text.append(summary_block(&sums, elapsed_ms, passed_share, failed_share).as_str());
    Summary { text, totals: sums, succeeded: all_passed(targets) }
}

} // verus!
