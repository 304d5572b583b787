//! What the command line gives: the checks on its values and the limits of
//! what a run supports.

use crate::summary::{path_debug, quoted_path};
use crate::text::is_digit;
use vstd::prelude::*;
use vstd::string::StringExecFns;

verus! {

/// The number that the decimal digits `digits` write.
pub open spec fn numeral_value(digits: Seq<char>) -> nat
    decreases digits.len(),
{
    if digits.len() == 0 {
        0
    } else {
        (numeral_value(digits.drop_last()) * 10 + (digits.last() as u32 - '0' as u32)) as nat
    }
}

/// `s` without the plus sign that may stand in front of it.
pub open spec fn unsigned_part(s: Seq<char>) -> Seq<char> {
    if s.len() > 0 && s[0] == '+' {
        s.drop_first()
    } else {
        s
    }
}

/// Whether `s` writes a number of 32 bits: decimal digits, at least one,
/// with nothing around them but for a plus sign in front, and a value within
/// range.
pub open spec fn writes_u32(s: Seq<char>) -> bool {
    let digits = unsigned_part(s);
    &&& digits.len() > 0
    &&& forall|i: int| 0 <= i < digits.len() ==> is_digit(#[trigger] digits[i])
    &&& numeral_value(digits) <= u32::MAX
}

/// What `Display` writes for the error that `str::parse::<u32>` reports on
/// the text `s`.
pub uninterp spec fn parse_failure_text(s: Seq<char>) -> Seq<char>;

/// Calls `str::parse::<u32>` and, on its error, the error's `Display`. The
/// contract says what std documents of the parser: the text is taken where
/// it is an optional plus sign and then decimal digits only, at least one,
/// whose value fits; the number is then that value. The error's words get a
/// name that goes by the text.
#[verifier::external_body]
fn parse_u32(val: &str) -> (r: Result<u32, String>)
    ensures
        r is Ok <==> writes_u32(val@),
        r matches Ok(n) ==> n == numeral_value(unsigned_part(val@)),
        r matches Err(words) ==> words@ == parse_failure_text(val@),
{
    match val.parse::<u32>() {
        Ok(n) => Ok(n),
        Err(error) => Err(error.to_string()),
    }
}

/// Checks that `val` writes a number of processes; where it does not, the
/// parser's words say why.
pub fn numprocesses_validator(val: String) -> (r: Result<(), String>)
    ensures
        r is Ok <==> writes_u32(val@),
        r matches Err(words) ==> words@ == parse_failure_text(val@),
{
    match parse_u32(val.as_str()) {
        Ok(_) => Ok(()),
        Err(words) => Err(words),
    }
}

/// What is said of a work path that does not exist; `shown` is the path as
/// it is to be shown.
pub open spec fn missing_workpath_text(shown: Seq<char>) -> Seq<char> {
    shown + " workpath does not exist."@
}

/// Says that the work path `workpath` does not exist.
pub fn missing_workpath(workpath: &str) -> (r: String)
    ensures
        r@ == missing_workpath_text(path_debug(workpath@)),
{
    let mut r = quoted_path(workpath);
    r.append(" workpath does not exist.");
    r
}

/// What a run does not support, if anything is asked of it that it does not:
/// packing the output directory, and more than one process at a time.
pub open spec fn unsupported_text(compress: bool, numprocesses: u32) -> Option<Seq<char>> {
    if compress {
        Some("Compression of the output directory is not yet supported."@)
    } else if numprocesses > 1 {
        Some("Parallel verification is not yet supported."@)
    } else {
        None
    }
}

/// Tells what a run does not support of what the command line asks for.
pub fn unsupported(compress: bool, numprocesses: u32) -> (r: Option<&'static str>)
    ensures
        match r {
            Some(words) => unsupported_text(compress, numprocesses) == Some(words@),
            None => unsupported_text(compress, numprocesses) is None,
        },
{
    if compress {
        Some("Compression of the output directory is not yet supported.")
    } else if numprocesses > 1 {
        Some("Parallel verification is not yet supported.")
    } else {
        None
    }
}

} // verus!
