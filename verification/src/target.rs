//! A verification target: one testbench of one unit, the command line that
//! runs it, and what its run came to.

use crate::paths::{is_absolute, join_path, joined, lemma_join_tells_the_name};
use crate::text::{chars_of, ends_with, same_text, starts_with};
use vstd::prelude::*;
use vstd::string::StrSliceExecFns;
use vstd::string::StringExecFns;

verus! {

/// One testbench of one unit.
#[derive(Debug)]
pub struct VerificationTarget {
    /// The manifest that declares the target.
    pub core_file: String,
    /// The name of the unit, as the manifest gives it.
    pub core_name: String,
    /// The name of the target inside the unit.
    pub target_name: String,
    /// The backend that the manifest asks for; empty where it names none.
    pub eda_tool: String,
    /// Where the captured output of the run is written.
    pub output_file: String,
    /// The program that runs the target.
    pub command: String,
    /// The arguments handed to the program.
    pub command_arguments: Vec<String>,
    /// Whether the run ended with success.
    pub passed: bool,
    /// How often the output speaks of an error.
    pub number_of_errors: usize,
    /// How often the output speaks of a warning.
    pub number_of_warnings: usize,
}

/// What a [`VerificationTarget`] holds, as mathematical values.
pub struct TargetModel {
    pub core_file: Seq<char>,
    pub core_name: Seq<char>,
    pub target_name: Seq<char>,
    pub eda_tool: Seq<char>,
    pub output_file: Seq<char>,
    pub command: Seq<char>,
    pub command_arguments: Seq<Seq<char>>,
    pub passed: bool,
    pub number_of_errors: nat,
    pub number_of_warnings: nat,
}

/// The characters of each text of `v`.
pub open spec fn texts(v: Seq<String>) -> Seq<Seq<char>> {
    v.map_values(|s: String| s@)
}

impl View for VerificationTarget {
    type V = TargetModel;

    open spec fn view(&self) -> TargetModel {
        TargetModel {
            core_file: self.core_file@,
            core_name: self.core_name@,
            target_name: self.target_name@,
            eda_tool: self.eda_tool@,
            output_file: self.output_file@,
            command: self.command@,
            command_arguments: texts(self.command_arguments@),
            passed: self.passed,
            number_of_errors: self.number_of_errors as nat,
            number_of_warnings: self.number_of_warnings as nat,
        }
    }
}

/// The arguments that every run begins with.
pub open spec fn base_arguments() -> Seq<Seq<char>> {
    seq!["--cores-root"@, "."@, "run"@, "--target"@]
}

/// The name of the backend that analyses VHDL.
pub open spec fn vhdl_backend() -> Seq<char> {
    "ghdl"@
}

/// The arguments that a backend adds to the command line.
pub open spec fn tool_arguments(tool: Seq<char>) -> Seq<Seq<char>> {
    if tool == vhdl_backend() {
        seq!["--analyze_options"@, "\\-P/usr/local/lib/ghdl/vendors -frelaxed-rules"@]
    } else {
        Seq::empty()
    }
}

/// A target as it stands before anything is known of it.
pub open spec fn blank_target() -> TargetModel {
    TargetModel {
        core_file: Seq::empty(),
        core_name: Seq::empty(),
        target_name: Seq::empty(),
        eda_tool: Seq::empty(),
        output_file: Seq::empty(),
        command: "fusesoc"@,
        command_arguments: base_arguments(),
        passed: false,
        number_of_errors: 0,
        number_of_warnings: 0,
    }
}

/// A target as a manifest declares it.
pub open spec fn declared_target(
    core_file: Seq<char>,
    core_name: Seq<char>,
    target_name: Seq<char>,
    eda_tool: Seq<char>,
) -> TargetModel {
    TargetModel { core_file, core_name, target_name, eda_tool, ..blank_target() }
}

/// Whether a target of this name is a testbench: the name begins with `tb_`
/// or ends with `_tb`.
pub open spec fn testbench_name(name: Seq<char>) -> bool {
    seq!['t', 'b', '_'].is_prefix_of(name) || seq!['_', 't', 'b'].is_suffix_of(name)
}

/// `s` without the colons in front of it.
pub open spec fn trim_colons(s: Seq<char>) -> Seq<char>
    decreases s.len(),
{
    if s.len() > 0 && s[0] == ':' {
        trim_colons(s.drop_first())
    } else {
        s
    }
}

/// `s` with a hyphen in place of each colon.
pub open spec fn hyphenate(s: Seq<char>) -> Seq<char> {
    Seq::new(
        s.len(),
        |i: int|
            if s[i] == ':' {
                '-'
            } else {
                s[i]
            },
    )
}

/// The unit's name in the form that a file name can hold.
pub open spec fn sanitized(core_name: Seq<char>) -> Seq<char> {
    hyphenate(trim_colons(core_name))
}

/// The name of the file that takes the output of a target's run.
pub open spec fn file_name(core_name: Seq<char>, target_name: Seq<char>) -> Seq<char> {
    sanitized(core_name) + seq!['_'] + target_name
}

/// The target `t` made ready to run, its output to go below `outpath`: the
/// backend's arguments are added, then the target's and the unit's names.
pub open spec fn prepared(t: TargetModel, outpath: Seq<char>) -> TargetModel {
    TargetModel {
        output_file: joined(outpath, file_name(t.core_name, t.target_name)),
        command_arguments: t.command_arguments + tool_arguments(t.eda_tool) + seq![
            t.target_name,
            t.core_name,
        ],
        ..t
    }
}

/// Whether a target of this name is a testbench.
pub fn is_testbench_name(name: &str) -> (r: bool)
    ensures
        r == testbench_name(name@),
{
    proof {
        reveal_strlit("tb_");
        reveal_strlit("_tb");
        assert("tb_"@ =~= seq!['t', 'b', '_']);
        assert("_tb"@ =~= seq!['_', 't', 'b']);
    }
    starts_with(name, "tb_") || ends_with(name, "_tb")
}

/// How many colons stand in front of `s`.
pub open spec fn leading_colons(s: Seq<char>) -> nat {
    (s.len() - trim_colons(s).len()) as nat
}

pub proof fn lemma_trim_colons(s: Seq<char>)
    ensures
        trim_colons(s).len() <= s.len(),
        trim_colons(s) == s.skip(leading_colons(s) as int),
        forall|i: int| 0 <= i < leading_colons(s) ==> s[i] == ':',
        trim_colons(s).len() > 0 ==> trim_colons(s)[0] != ':',
    decreases s.len(),
{
    if s.len() > 0 && s[0] == ':' {
        let rest = s.drop_first();
        lemma_trim_colons(rest);
        let k = leading_colons(rest);
        assert(rest.skip(k as int) =~= s.skip(k as int + 1));
        assert forall|i: int| 0 <= i < leading_colons(s) implies s[i] == ':' by {
            if i > 0 {
                assert(s[i] == rest[i - 1]);
            }
        }
    } else {
        assert(s.skip(0) =~= s);
    }
}

/// Builds the name of the file that takes the output of a target's run.
pub fn output_file_name(core_name: &str, target_name: &str) -> (r: String)
    ensures
        r@ == file_name(core_name@, target_name@),
{
    let chars = chars_of(core_name);
    let n = chars.len();
    let mut first: usize = 0;
    assert(chars@.skip(0) =~= chars@);
    while first < n && chars[first] == ':'
        invariant
            first <= n,
            n == chars.len(),
            trim_colons(chars@) == trim_colons(chars@.skip(first as int)),
        decreases n - first,
    {
        assert(chars@.skip(first as int).drop_first() =~= chars@.skip(first + 1));
        first += 1;
    }
    let ghost body = chars@.skip(first as int);
    assert(trim_colons(chars@) == body);
    let mut r = String::new();
    let mut start: usize = first;
    let mut at: usize = first;
    while at < n
        invariant
            first <= start <= at <= n,
            n == chars.len(),
            chars@ == core_name@,
            r@ == hyphenate(chars@.subrange(first as int, start as int)),
            forall|k: int| start <= k < at ==> chars@[k] != ':',
        decreases n - at,
    {
        if chars[at] == ':' {
            proof {
                reveal_strlit("-");
            }
            r.append(core_name.substring_char(start, at));
            r.append("-");
            assert(r@ =~= hyphenate(chars@.subrange(first as int, at + 1)));
            start = at + 1;
        }
        at += 1;
    }
    r.append(core_name.substring_char(start, n));
    assert(r@ =~= hyphenate(body));
    proof {
        reveal_strlit("_");
    }
    r.append("_");
    r.append(target_name);
    assert(r@ =~= file_name(core_name@, target_name@));
    r
}

/// Copies the texts `v`.
pub fn copy_texts(v: &Vec<String>) -> (r: Vec<String>)
    ensures
        texts(r@) == texts(v@),
{
    let mut r: Vec<String> = Vec::new();
    let mut i: usize = 0;
    while i < v.len()
        invariant
            i <= v.len(),
            r@.len() == i,
            texts(r@) == texts(v@.take(i as int)),
        decreases v.len() - i,
    {
        let ghost copied = texts(r@);
        r.push(v[i].clone());
        assert(texts(r@) =~= texts(v@.take(i + 1))) by {
            assert forall|j: int| 0 <= j < i implies texts(r@)[j] == texts(v@.take(i + 1))[j] by {
                assert(texts(r@)[j] == copied[j]);
                assert(copied[j] == v@.take(i as int)[j]@);
            }
        }
        i += 1;
    }
    assert(v@.take(i as int) =~= v@);
    r
}

impl Default for VerificationTarget {
    /// A target before anything is known of it: the command and the arguments
    /// that every run begins with, and no result.
    fn default() -> (r: VerificationTarget)
        ensures
            r@ == blank_target(),
    {
        let mut arguments: Vec<String> = Vec::new();
        arguments.push(String::from_str("--cores-root"));
        arguments.push(String::from_str("."));
        arguments.push(String::from_str("run"));
        arguments.push(String::from_str("--target"));
        assert(texts(arguments@) =~= base_arguments());
        VerificationTarget {
            core_file: String::new(),
            core_name: String::new(),
            target_name: String::new(),
            eda_tool: String::new(),
            output_file: String::new(),
            command: String::from_str("fusesoc"),
            command_arguments: arguments,
            passed: false,
            number_of_errors: 0,
            number_of_warnings: 0,
        }
    }
}

impl VerificationTarget {
    /// The target `target_name` of the unit `core_name`, which `core_file`
    /// declares with the backend `eda_tool`.
    pub fn declared(core_file: &str, core_name: &str, target_name: &str, eda_tool: &str) -> (r:
        VerificationTarget)
        ensures
            r@ == declared_target(core_file@, core_name@, target_name@, eda_tool@),
    {
        let blank = VerificationTarget::default();
        VerificationTarget {
            core_file: String::from_str(core_file),
            core_name: String::from_str(core_name),
            target_name: String::from_str(target_name),
            eda_tool: String::from_str(eda_tool),
            output_file: blank.output_file,
            command: blank.command,
            command_arguments: blank.command_arguments,
            passed: blank.passed,
            number_of_errors: blank.number_of_errors,
            number_of_warnings: blank.number_of_warnings,
        }
    }

    /// A second target that holds what this one holds.
    pub fn duplicate(&self) -> (r: VerificationTarget)
        ensures
            r@ == self@,
    {
        VerificationTarget {
            core_file: self.core_file.clone(),
            core_name: self.core_name.clone(),
            target_name: self.target_name.clone(),
            eda_tool: self.eda_tool.clone(),
            output_file: self.output_file.clone(),
            command: self.command.clone(),
            command_arguments: copy_texts(&self.command_arguments),
            passed: self.passed,
            number_of_errors: self.number_of_errors,
            number_of_warnings: self.number_of_warnings,
        }
    }

    /// Makes the target ready to run: names its output file below `outpath`
    /// and completes the arguments, the backend's own first, then the
    /// target's and the unit's names.
    pub fn prepare_for_verification(&mut self, outpath: &str)
        ensures
            final(self)@ == prepared(old(self)@, outpath@),
    {
        let name = output_file_name(self.core_name.as_str(), self.target_name.as_str());
        self.output_file = join_path(outpath, name.as_str());
        let ghost before = texts(self.command_arguments@);
        if same_text(self.eda_tool.as_str(), "ghdl") {
            self.command_arguments.push(String::from_str("--analyze_options"));
            self.command_arguments.push(
                String::from_str("\\-P/usr/local/lib/ghdl/vendors -frelaxed-rules"),
            );
        }
        assert(texts(self.command_arguments@) =~= before + tool_arguments(self.eda_tool@));
        self.command_arguments.push(self.target_name.clone());
        self.command_arguments.push(self.core_name.clone());
        assert(texts(self.command_arguments@) =~= before + tool_arguments(self.eda_tool@) + seq![
            self.target_name@,
            self.core_name@,
        ]);
    }
}

/// The names of the target and of its unit are the last two arguments of a
/// prepared target, in this order, whatever the backend adds.
pub proof fn lemma_identifiers_come_last(t: TargetModel, outpath: Seq<char>)
    ensures
        ({
            let arguments = prepared(t, outpath).command_arguments;
            &&& arguments.len() >= 2
            &&& arguments[arguments.len() - 2] == t.target_name
            &&& arguments[arguments.len() - 1] == t.core_name
        }),
{
}

/// The VHDL backend adds exactly two arguments, which stand between those
/// that were there and the two names; any other backend, and none, adds
/// nothing.
pub proof fn lemma_backend_arguments(t: TargetModel, outpath: Seq<char>)
    ensures
        ({
            let before = t.command_arguments;
            let after = prepared(t, outpath).command_arguments;
            let names = seq![t.target_name, t.core_name];
            let n = before.len() as int;
            if t.eda_tool == vhdl_backend() {
                &&& after.len() == n + 4
                &&& after.subrange(0, n) == before
                &&& after.subrange(n, n + 2) == tool_arguments(vhdl_backend())
                &&& after.subrange(n + 2, n + 4) == names
            } else {
                &&& after.len() == before.len() + 2
                &&& after == before + names
            }
        }),
{
    let before = t.command_arguments;
    let after = prepared(t, outpath).command_arguments;
    let names = seq![t.target_name, t.core_name];
    let n = before.len() as int;
    if t.eda_tool == vhdl_backend() {
        assert(after.subrange(0, n) =~= before);
        assert(after.subrange(n, n + 2) =~= tool_arguments(vhdl_backend()));
        assert(after.subrange(n + 2, n + 4) =~= names);
    } else {
        assert(after =~= before + names);
    }
}

/// Two targets of one unit never share an output file.
pub proof fn lemma_file_names_within_unit(
    core_name: Seq<char>,
    target_a: Seq<char>,
    target_b: Seq<char>,
)
    requires
        file_name(core_name, target_a) == file_name(core_name, target_b),
    ensures
        target_a == target_b,
{
    let front = sanitized(core_name) + seq!['_'];
    assert(target_a =~= (front + target_a).skip(front.len() as int));
    assert(target_b =~= (front + target_b).skip(front.len() as int));
}

/// Whether `s` holds no `c`.
pub open spec fn lacks(s: Seq<char>, c: char) -> bool {
    forall|i: int| 0 <= i < s.len() ==> s[i] != c
}

/// Where the names of two units hold no underscore, a file name that two
/// targets share tells that their names are the same and that the names of
/// their units are the same in the form that a file name can hold.
pub proof fn lemma_file_name_splits(
    core_a: Seq<char>,
    target_a: Seq<char>,
    core_b: Seq<char>,
    target_b: Seq<char>,
)
    requires
        lacks(core_a, '_'),
        lacks(core_b, '_'),
        file_name(core_a, target_a) == file_name(core_b, target_b),
    ensures
        sanitized(core_a) == sanitized(core_b),
        target_a == target_b,
{
    lemma_trim_colons(core_a);
    lemma_trim_colons(core_b);
    let a = sanitized(core_a);
    let b = sanitized(core_b);
    let name_a = file_name(core_a, target_a);
    let name_b = file_name(core_b, target_b);
    assert forall|i: int| 0 <= i < a.len() implies a[i] != '_' by {
        assert(trim_colons(core_a)[i] == core_a[i + leading_colons(core_a)]);
    }
    assert forall|i: int| 0 <= i < b.len() implies b[i] != '_' by {
        assert(trim_colons(core_b)[i] == core_b[i + leading_colons(core_b)]);
    }
    if a.len() < b.len() {
        assert(name_a[a.len() as int] == '_');
        assert(name_b[a.len() as int] == b[a.len() as int]);
    }
    if b.len() < a.len() {
        assert(name_b[b.len() as int] == '_');
        assert(name_a[b.len() as int] == a[b.len() as int]);
    }
    assert(a =~= name_a.take(a.len() as int));
    assert(b =~= name_b.take(b.len() as int));
    assert(target_a =~= name_a.skip(a.len() as int + 1));
    assert(target_b =~= name_b.skip(b.len() as int + 1));
}

/// Where the names of two units hold no hyphen and begin with the same
/// number of colons, the form that a file name can hold tells the names
/// apart.
pub proof fn lemma_sanitized_tells_the_unit(core_a: Seq<char>, core_b: Seq<char>)
    requires
        lacks(core_a, '-'),
        lacks(core_b, '-'),
        leading_colons(core_a) == leading_colons(core_b),
        sanitized(core_a) == sanitized(core_b),
    ensures
        core_a == core_b,
{
    lemma_trim_colons(core_a);
    lemma_trim_colons(core_b);
    let k = leading_colons(core_a) as int;
    assert(sanitized(core_a).len() == trim_colons(core_a).len());
    assert(sanitized(core_b).len() == trim_colons(core_b).len());
    assert(core_a.len() == core_b.len());
    assert forall|i: int| 0 <= i < core_a.len() implies core_a[i] == core_b[i] by {
        if i >= k {
            assert(trim_colons(core_a)[i - k] == core_a[i]);
            assert(trim_colons(core_b)[i - k] == core_b[i]);
            assert(sanitized(core_a)[i - k] == sanitized(core_b)[i - k]);
            assert(sanitized(core_a)[i - k] == if core_a[i] == ':' {
                '-'
            } else {
                core_a[i]
            });
            assert(sanitized(core_b)[i - k] == if core_b[i] == ':' {
                '-'
            } else {
                core_b[i]
            });
            assert(core_a[i] != '-' && core_b[i] != '-');
        } else {
            assert(core_a[i] == ':');
            assert(core_b[i] == ':');
        }
    }
    assert(core_a =~= core_b);
}

/// Among units whose names hold neither a hyphen nor an underscore and begin
/// with the same number of colons, no two targets share an output file: the
/// file name tells both the unit and the target.
pub proof fn lemma_file_names_distinct(
    core_a: Seq<char>,
    target_a: Seq<char>,
    core_b: Seq<char>,
    target_b: Seq<char>,
)
    requires
        lacks(core_a, '-') && lacks(core_a, '_'),
        lacks(core_b, '-') && lacks(core_b, '_'),
        leading_colons(core_a) == leading_colons(core_b),
        file_name(core_a, target_a) == file_name(core_b, target_b),
    ensures
        core_a == core_b,
        target_a == target_b,
{
    lemma_file_name_splits(core_a, target_a, core_b, target_b);
    lemma_sanitized_tells_the_unit(core_a, core_b);
}

/// Among such units, two targets that are made ready for one output
/// directory do not share an output file if the file names of both begin at
/// the root or of neither.
pub proof fn lemma_output_files_distinct(a: TargetModel, b: TargetModel, outpath: Seq<char>)
    requires
        lacks(a.core_name, '-') && lacks(a.core_name, '_'),
        lacks(b.core_name, '-') && lacks(b.core_name, '_'),
        leading_colons(a.core_name) == leading_colons(b.core_name),
        is_absolute(file_name(a.core_name, a.target_name)) == is_absolute(
            file_name(b.core_name, b.target_name),
        ),
        prepared(a, outpath).output_file == prepared(b, outpath).output_file,
    ensures
        a.core_name == b.core_name,
        a.target_name == b.target_name,
{
    lemma_join_tells_the_name(
        outpath,
        file_name(a.core_name, a.target_name),
        file_name(b.core_name, b.target_name),
    );
    lemma_file_names_distinct(a.core_name, a.target_name, b.core_name, b.target_name);
}

} // verus!
