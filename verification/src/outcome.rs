//! What a run came to: whether it passed, how often its output speaks of
//! errors and of warnings, and the file that keeps its output.

use crate::target::{TargetModel, VerificationTarget};
use crate::text::{count_occurrences, occurrences};
use vstd::prelude::*;
use vstd::string::StringExecFns;
use vstd::string::StringSliceAdditionalSpecFns;
use vstd::utf8::{decode_utf8, valid_utf8};

verus! {

/// The result of one run.
#[derive(Clone, Copy, Debug, PartialEq, Eq, Structural)]
pub struct Outcome {
    /// Whether the run ended with success.
    pub passed: bool,
    /// How often the output speaks of an error.
    pub errors: usize,
    /// How often the output speaks of a warning.
    pub warnings: usize,
}

/// What `str::to_lowercase` makes of the text `s`.
pub uninterp spec fn lowercase_of(s: Seq<char>) -> Seq<char>;

/// Calls `str::to_lowercase`. The contract gives the lowercase text a name
/// and claims nothing of what it holds.
#[verifier::external_body]
fn lowercase(s: &str) -> (r: String)
    ensures
        r@ == lowercase_of(s@),
{
    s.to_lowercase()
}

/// Calls `std::str::from_utf8`. The contract says that the bytes are taken as
/// text exactly where they are well-formed UTF-8, and that the text is then
/// what they encode.
#[verifier::external_body]
fn as_utf8(bytes: &[u8]) -> (r: Option<&str>)
    ensures
        r is Some <==> valid_utf8(bytes@),
        r matches Some(s) ==> s@ == decode_utf8(bytes@),
{
    std::str::from_utf8(bytes).ok()
}

/// What an [`Outcome`] holds, as mathematical values.
pub struct OutcomeModel {
    pub passed: bool,
    pub errors: nat,
    pub warnings: nat,
}

impl View for Outcome {
    type V = OutcomeModel;

    open spec fn view(&self) -> OutcomeModel {
        OutcomeModel {
            passed: self.passed,
            errors: self.errors as nat,
            warnings: self.warnings as nat,
        }
    }
}

/// What a classification holds, as mathematical values.
pub open spec fn classified(r: Option<Outcome>) -> Option<OutcomeModel> {
    match r {
        Some(outcome) => Some(outcome@),
        None => None,
    }
}

/// What a run comes to that ended with `success` and whose output, in
/// lowercase, is `lowered`: the occurrences of `error` and of `warn` are
/// counted.
pub open spec fn reading(success: bool, lowered: Seq<char>) -> OutcomeModel {
    OutcomeModel {
        passed: success,
        errors: occurrences(lowered, "error"@),
        warnings: occurrences(lowered, "warn"@),
    }
}

/// What a run comes to that ended with `success` and wrote `stdout`: nothing
/// where the output is no text, and otherwise the reading of the output in
/// lowercase.
pub open spec fn classification(success: bool, stdout: Seq<u8>) -> Option<OutcomeModel> {
    if valid_utf8(stdout) {
        Some(reading(success, lowercase_of(decode_utf8(stdout))))
    } else {
        None
    }
}

/// Upper and lower case make no difference to what is counted: two outputs
/// that are the same text in lowercase come to the same.
pub proof fn lemma_case_makes_no_difference(success: bool, a: Seq<u8>, b: Seq<u8>)
    requires
        valid_utf8(a),
        valid_utf8(b),
        lowercase_of(decode_utf8(a)) == lowercase_of(decode_utf8(b)),
    ensures
        classification(success, a) == classification(success, b),
{
}

/// Reads the result of a run off its exit and its output in lowercase.
pub fn read_diagnostics(success: bool, lowered: &str) -> (r: Outcome)
    ensures
        r@ == reading(success, lowered@),
{
    Outcome {
        passed: success,
        errors: count_occurrences(lowered, "error"),
        warnings: count_occurrences(lowered, "warn"),
    }
}

/// Classifies a run by its exit and by what it wrote to standard output.
/// Output that is no text cannot be classified.
pub fn classify(success: bool, stdout: &[u8]) -> (r: Option<Outcome>)
    ensures
        classified(r) == classification(success, stdout@),
{
    match as_utf8(stdout) {
        Some(text) => {
            let lowered = lowercase(text);
            Some(read_diagnostics(success, lowered.as_str()))
        },
        None => None,
    }
}

/// The target `t` with the result `outcome` of its run.
pub open spec fn recorded(t: TargetModel, outcome: OutcomeModel) -> TargetModel {
    TargetModel {
        passed: outcome.passed,
        number_of_errors: outcome.errors,
        number_of_warnings: outcome.warnings,
        ..t
    }
}

/// The line that announces the run of `t`, without its line end.
pub open spec fn announcement_text(t: TargetModel) -> Seq<char> {
    "Verifying core: "@ + t.core_name + ", target: "@ + t.target_name
}

/// What the file holds that keeps the output of a run: standard error under
/// its banner, then standard output under its own.
pub open spec fn report_bytes(stderr: Seq<u8>, stdout: Seq<u8>) -> Seq<u8> {
    "***** STDERR *****\n\n".spec_bytes() + stderr + "\n***** STDOUT *****\n\n".spec_bytes()
        + stdout
}

/// Appends `bytes` to `out`.
fn append_bytes(out: &mut Vec<u8>, bytes: &[u8])
    ensures
        final(out)@ == old(out)@ + bytes@,
{
    let mut i: usize = 0;
    let ghost before = out@;
    assert(bytes@.take(0) =~= Seq::<u8>::empty());
    assert(out@ =~= before + bytes@.take(0));
    while i < bytes.len()
        invariant
            i <= bytes.len(),
            out@ == before + bytes@.take(i as int),
        decreases bytes.len() - i,
    {
        out.push(bytes[i]);
        assert(out@ =~= before + bytes@.take(i + 1));
        i += 1;
    }
    assert(bytes@.take(bytes.len() as int) =~= bytes@);
}

/// Builds what the file holds that keeps the output of a run.
pub fn report_contents(stderr: &[u8], stdout: &[u8]) -> (r: Vec<u8>)
    ensures
        r@ == report_bytes(stderr@, stdout@),
{
    let mut r: Vec<u8> = Vec::new();
    append_bytes(&mut r, "***** STDERR *****\n\n".as_bytes());
    append_bytes(&mut r, stderr);
    append_bytes(&mut r, "\n***** STDOUT *****\n\n".as_bytes());
    append_bytes(&mut r, stdout);
    assert(r@ =~= report_bytes(stderr@, stdout@));
    r
}

impl VerificationTarget {
    /// The line that announces the run of the target, without its line end.
    pub fn announcement(&self) -> (r: String)
        ensures
            r@ == announcement_text(self@),
    {
        let mut r = String::from_str("Verifying core: ");
        r.append(self.core_name.as_str());
        r.append(", target: ");
        r.append(self.target_name.as_str());
        assert(r@ =~= announcement_text(self@));
        r
    }

    /// Takes down the result of the target's run.
    pub fn record(&mut self, outcome: Outcome)
        ensures
            final(self)@ == recorded(old(self)@, outcome@),
    {
        self.passed = outcome.passed;
        self.number_of_errors = outcome.errors;
        self.number_of_warnings = outcome.warnings;
    }
}

} // verus!
