//! Manifests: the document that a manifest holds, and the testbench targets
//! that it declares.

use crate::summary::{models, path_debug, quoted_path};
use crate::target::{declared_target, is_testbench_name, testbench_name, TargetModel, VerificationTarget};
use crate::text::same_text;
use vstd::prelude::*;
use vstd::string::StringExecFns;

verus! {

/// A document as a tree of keyed and listed values.
#[derive(Debug)]
pub enum Node {
    /// No value.
    Null,
    /// A truth value.
    Bool(bool),
    /// A number, as it is written.
    Number(String),
    /// A text.
    Text(String),
    /// Values in a row.
    Sequence(Vec<Node>),
    /// Keys with their values, in the order of the document.
    Mapping(Vec<(Node, Node)>),
}

/// The value of the first of `entries` whose key is the text `key`.
pub open spec fn first_with_key(entries: Seq<(Node, Node)>, key: Seq<char>) -> Option<Node>
    decreases entries.len(),
{
    if entries.len() == 0 {
        None
    } else if entries[0].0.text() == Some(key) {
        Some(entries[0].1)
    } else {
        first_with_key(entries.drop_first(), key)
    }
}

impl Node {
    /// The characters of a text; `None` for any other value.
    pub open spec fn text(self) -> Option<Seq<char>> {
        match self {
            Node::Text(s) => Some(s@),
            _ => None,
        }
    }

    /// The entries of a mapping; none for any other value.
    pub open spec fn entries(self) -> Seq<(Node, Node)> {
        match self {
            Node::Mapping(m) => m@,
            _ => Seq::empty(),
        }
    }

    /// What a mapping holds under the text `key`; `None` where it holds
    /// nothing there, or where the value is no mapping.
    pub open spec fn lookup(self, key: Seq<char>) -> Option<Node> {
        first_with_key(self.entries(), key)
    }

    /// Looks up what a mapping holds under the text `key`.
    pub fn get(&self, key: &str) -> (r: Option<&Node>)
        ensures
            match r {
                Some(found) => self.lookup(key@) == Some(*found),
                None => self.lookup(key@) is None,
            },
    {
        match self {
            Node::Mapping(m) => {
                let mut i: usize = 0;
                assert(m@.skip(0) =~= m@);
                while i < m.len()
                    invariant
                        i <= m.len(),
                        self.entries() == m@,
                        first_with_key(m@, key@) == first_with_key(m@.skip(i as int), key@),
                    decreases m.len() - i,
                {
                    let entry = &m[i];
                    assert(m@.skip(i as int)[0] == *entry);
                    if let Node::Text(name) = &entry.0 {
                        if same_text(name.as_str(), key) {
                            assert(entry.0.text() == Some(key@));
                            return Some(&entry.1);
                        }
                    }
                    assert(m@.skip(i as int).drop_first() =~= m@.skip(i + 1));
                    i += 1;
                }
                None
            },
            _ => None,
        }
    }

    /// The text that the value is, if it is one.
    pub fn as_text(&self) -> (r: Option<&str>)
        ensures
            match r {
                Some(s) => self.text() == Some(s@),
                None => self.text() is None,
            },
    {
        match self {
            Node::Text(s) => Some(s.as_str()),
            _ => None,
        }
    }
}

/// Why a manifest yields no targets.
#[derive(Clone, Copy, Debug, PartialEq, Eq, Structural)]
pub enum Fault {
    /// The manifest is no well-formed document.
    Syntax,
    /// The document has no `name`.
    MissingName,
    /// The document's `name` is no text.
    NameNotText,
}

/// A manifest that could not be used.
#[derive(Debug)]
pub enum ManifestError {
    /// The manifest is no well-formed document; the parser's words.
    Syntax(String),
    /// The document has no `name`.
    MissingName,
    /// The document's `name` is no text.
    NameNotText,
}

/// What a [`ManifestError`] holds, as mathematical values.
#[verifier::ext_equal]
pub enum ManifestErrorModel {
    Syntax(Seq<char>),
    MissingName,
    NameNotText,
}

impl View for ManifestError {
    type V = ManifestErrorModel;

    open spec fn view(&self) -> ManifestErrorModel {
        match self {
            ManifestError::Syntax(words) => ManifestErrorModel::Syntax(words@),
            ManifestError::MissingName => ManifestErrorModel::MissingName,
            ManifestError::NameNotText => ManifestErrorModel::NameNotText,
        }
    }
}

/// The error in words: the parser's own words where it was the parser that
/// refused the manifest; `shown_file` is the manifest's path as it is to be
/// shown.
pub open spec fn manifest_error_text(error: ManifestErrorModel, shown_file: Seq<char>) -> Seq<
    char,
> {
    match error {
        ManifestErrorModel::Syntax(words) => words,
        ManifestErrorModel::MissingName => "core name is missing, file: "@ + shown_file,
        ManifestErrorModel::NameNotText => "core name must be string, file: "@ + shown_file,
    }
}

impl ManifestError {
    /// The kind of the error.
    pub open spec fn fault(self) -> Fault {
        match self {
            ManifestError::Syntax(_) => Fault::Syntax,
            ManifestError::MissingName => Fault::MissingName,
            ManifestError::NameNotText => Fault::NameNotText,
        }
    }

    /// The kind of the error.
    pub fn kind(&self) -> (r: Fault)
        ensures
            r == self.fault(),
    {
        match self {
            ManifestError::Syntax(_) => Fault::Syntax,
            ManifestError::MissingName => Fault::MissingName,
            ManifestError::NameNotText => Fault::NameNotText,
        }
    }

    /// The error in words, for the manifest at `file`: the parser's own
    /// words where it was the parser that refused the manifest.
    pub fn message(&self, file: &str) -> (r: String)
        ensures
            r@ == manifest_error_text(self@, path_debug(file@)),
    {
        match self {
            ManifestError::Syntax(words) => words.clone(),
            ManifestError::MissingName => {
                let mut r = String::from_str("core name is missing, file: ");
                r.append(quoted_path(file).as_str());
                r
            },
            ManifestError::NameNotText => {
                let mut r = String::from_str("core name must be string, file: ");
                r.append(quoted_path(file).as_str());
                r
            },
        }
    }
}

/// The entries under `targets`; none where the document holds no mapping
/// there.
pub open spec fn declared_entries(doc: Node) -> Seq<(Node, Node)> {
    match doc.lookup("targets"@) {
        Some(targets) => targets.entries(),
        None => Seq::empty(),
    }
}

/// The backend that a target's settings ask for; empty where they name none.
pub open spec fn tool_of(settings: Node) -> Seq<char> {
    match settings.lookup("default_tool"@) {
        Some(Node::Text(tool)) => tool@,
        _ => Seq::empty(),
    }
}

/// Whether an entry declares a testbench: its key is a text that names one.
pub open spec fn qualifies(entry: (Node, Node)) -> bool {
    match entry.0.text() {
        Some(name) => testbench_name(name),
        None => false,
    }
}

/// The entries that declare a testbench, in the order of the document.
pub open spec fn testbenches(entries: Seq<(Node, Node)>) -> Seq<(Node, Node)> {
    entries.filter(|entry: (Node, Node)| qualifies(entry))
}

/// The target that the entry `entry` of the unit `core_name` declares.
pub open spec fn target_of(file: Seq<char>, core_name: Seq<char>, entry: (Node, Node))
    -> TargetModel {
    declared_target(file, core_name, entry.0.text().unwrap(), tool_of(entry.1))
}

/// The targets of the unit `core_name`: one for each entry that declares a
/// testbench, in the order of the document.
pub open spec fn selected_targets(
    file: Seq<char>,
    core_name: Seq<char>,
    entries: Seq<(Node, Node)>,
) -> Seq<TargetModel> {
    testbenches(entries).map_values(|entry: (Node, Node)| target_of(file, core_name, entry))
}

/// What the manifest `file` with the document `doc` yields: its testbench
/// targets, or the reason why it cannot be used.
pub open spec fn manifest_targets(file: Seq<char>, doc: Node) -> Result<
    Seq<TargetModel>,
    ManifestErrorModel,
> {
    match doc.lookup("name"@) {
        None => Err(ManifestErrorModel::MissingName),
        Some(name) => match name.text() {
            None => Err(ManifestErrorModel::NameNotText),
            Some(core_name) => Ok(selected_targets(file, core_name, declared_entries(doc))),
        },
    }
}

/// What was read out of a manifest, as mathematical values.
pub open spec fn extraction_model(extracted: Result<Vec<VerificationTarget>, ManifestError>)
    -> Result<Seq<TargetModel>, ManifestErrorModel> {
    match extracted {
        Ok(found) => Ok(models(found@)),
        Err(error) => Err(error@),
    }
}

/// One entry more adds its target if it declares a testbench, and nothing
/// otherwise.
pub proof fn lemma_selected_step(
    file: Seq<char>,
    core_name: Seq<char>,
    entries: Seq<(Node, Node)>,
    i: int,
)
    requires
        0 <= i < entries.len(),
    ensures
        selected_targets(file, core_name, entries.take(i + 1)) == if qualifies(entries[i]) {
            selected_targets(file, core_name, entries.take(i)).push(
                target_of(file, core_name, entries[i]),
            )
        } else {
            selected_targets(file, core_name, entries.take(i))
        },
{
    reveal(Seq::filter);
    let next = entries.take(i + 1);
    assert(next.drop_last() =~= entries.take(i));
    assert(next.last() == entries[i]);
    if qualifies(entries[i]) {
        assert(testbenches(next) == testbenches(entries.take(i)).push(entries[i]));
        assert(selected_targets(file, core_name, next) =~= selected_targets(
            file,
            core_name,
            entries.take(i),
        ).push(target_of(file, core_name, entries[i])));
    } else {
        assert(testbenches(next) == testbenches(entries.take(i)));
    }
}

/// A manifest yields one target for each entry that declares a testbench, in
/// the order of the document and under the entry's name; the other entries
/// yield nothing.
pub proof fn lemma_one_target_for_each_testbench(
    file: Seq<char>,
    core_name: Seq<char>,
    entries: Seq<(Node, Node)>,
)
    ensures
        ({
            let targets = selected_targets(file, core_name, entries);
            let chosen = testbenches(entries);
            &&& targets.len() == chosen.len()
            &&& chosen.len() <= entries.len()
            &&& forall|i: int|
                0 <= i < targets.len() ==> {
                    &&& qualifies(#[trigger] chosen[i])
                    &&& entries.contains(chosen[i])
                    &&& testbench_name(targets[i].target_name)
                    &&& targets[i] == target_of(file, core_name, chosen[i])
                }
            &&& forall|i: int|
                0 <= i < entries.len() && qualifies(entries[i]) ==> chosen.contains(
                    #[trigger] entries[i],
                )
        }),
{
    let pred = |entry: (Node, Node)| qualifies(entry);
    entries.lemma_filter_len(pred);
    let chosen = testbenches(entries);
    assert forall|i: int| 0 <= i < chosen.len() implies qualifies(#[trigger] chosen[i])
        && entries.contains(chosen[i]) by {
        entries.lemma_filter_pred(pred, i);
        entries.lemma_filter_contains_rev(pred, chosen[i]);
    }
    assert forall|i: int| 0 <= i < entries.len() && qualifies(entries[i]) implies chosen.contains(
        #[trigger] entries[i],
    ) by {
        entries.lemma_filter_contains(pred, i);
    }
}

/// The type of the values that `serde_yaml` reads out of a document.
#[verifier::external_type_specification]
#[verifier::external_body]
pub struct ExValue(serde_yaml::Value);

/// The document that `serde_yaml::from_slice` reads out of `contents`, as a
/// tree; `None` where it reports an error.
pub uninterp spec fn parsed_document(contents: Seq<u8>) -> Option<Node>;

/// What a value of `serde_yaml` holds, as a tree.
pub uninterp spec fn tree_of(value: serde_yaml::Value) -> Node;

/// What `Display` writes for the error that `serde_yaml::from_slice` reports
/// on `contents`.
pub uninterp spec fn syntax_words(contents: Seq<u8>) -> Seq<char>;

/// Calls `serde_yaml::from_slice` for a `serde_yaml::Value` and, on its
/// error, the error's `Display`. The contract says that what comes back goes
/// by `contents` alone: a value that holds the tree `parsed_document` names,
/// or, where `parsed_document` is `None`, the words that `syntax_words`
/// names.
#[verifier::external_body]
fn read_document(contents: &[u8]) -> (r: Result<serde_yaml::Value, String>)
    ensures
        match r {
            Ok(value) => parsed_document(contents@) == Some(tree_of(value)),
            Err(words) => parsed_document(contents@) is None && words@ == syntax_words(
                contents@,
            ),
        },
{
    match serde_yaml::from_slice(contents) {
        Ok(value) => Ok(value),
        Err(error) => Err(error.to_string()),
    }
}

/// What the manifest `file` yields that holds `contents`: what its document
/// yields, or the parser's words where the contents are no document.
pub open spec fn manifest_reading(file: Seq<char>, contents: Seq<u8>) -> Result<
    Seq<TargetModel>,
    ManifestErrorModel,
> {
    match parsed_document(contents) {
        Some(doc) => manifest_targets(file, doc),
        None => Err(ManifestErrorModel::Syntax(syntax_words(contents))),
    }
}

/// Copies a `serde_yaml::Value` into a tree, variant by variant; a number is
/// taken as `Number`'s `Display` writes it, and a mapping's entries in the
/// order of `Mapping::iter`. The contract names the tree after the value.
#[verifier::external_body]
fn tree(value: &serde_yaml::Value) -> (r: Node)
    ensures
        r == tree_of(*value),
{
    match value {
        serde_yaml::Value::Null => Node::Null,
        serde_yaml::Value::Bool(b) => Node::Bool(*b),
        serde_yaml::Value::Number(n) => Node::Number(n.to_string()),
        serde_yaml::Value::String(s) => Node::Text(s.clone()),
        serde_yaml::Value::Sequence(items) => Node::Sequence(items.iter().map(tree).collect()),
        serde_yaml::Value::Mapping(m) => Node::Mapping(
            m.iter().map(|(k, v)| (tree(k), tree(v))).collect(),
        ),
    }
}

impl VerificationTarget {
    /// Reads the testbench targets out of a manifest: `file` is its path and
    /// `contents` what the file holds.
    pub fn new(file: &str, contents: &[u8]) -> (r: Result<Vec<VerificationTarget>, ManifestError>)
        ensures
            extraction_model(r) == manifest_reading(file@, contents@),
    {
        match read_document(contents) {
            Ok(value) => {
                let doc = tree(&value);
                VerificationTarget::from_document(file, &doc)
            },
            Err(words) => Err(ManifestError::Syntax(words)),
        }
    }

    /// Reads the testbench targets out of the document `doc` of the manifest
    /// `file`.
    pub fn from_document(file: &str, doc: &Node) -> (r: Result<
        Vec<VerificationTarget>,
        ManifestError,
    >)
        ensures
            extraction_model(r) == manifest_targets(file@, *doc),
    {
        let core_name = match doc.get("name") {
            None => {
                return Err(ManifestError::MissingName);
            },
            Some(name) => match name.as_text() {
                None => {
                    return Err(ManifestError::NameNotText);
                },
                Some(text) => text,
            },
        };
        let mut found: Vec<VerificationTarget> = Vec::new();
        let ghost entries = declared_entries(*doc);
        assert(entries.take(0) =~= Seq::<(Node, Node)>::empty());
        assert(selected_targets(file@, core_name@, entries.take(0)) =~= Seq::<
            TargetModel,
        >::empty()) by {
            reveal(Seq::filter);
        }
        let targets = doc.get("targets");
        if let Some(Node::Mapping(m)) = targets {
            let mut i: usize = 0;
            while i < m.len()
                invariant
                    i <= m.len(),
                    m@ == entries,
                    models(found@) == selected_targets(file@, core_name@, entries.take(i as int)),
                decreases m.len() - i,
            {
                let entry = &m[i];
                proof {
                    lemma_selected_step(file@, core_name@, entries, i as int);
                }
                if let Node::Text(target_name) = &entry.0 {
                    if is_testbench_name(target_name.as_str()) {
                        let tool = match entry.1.get("default_tool") {
                            Some(Node::Text(tool)) => tool.as_str(),
                            _ => "",
                        };
                        proof {
                            reveal_strlit("");
                            assert(tool@ =~= tool_of(entry.1));
                        }
                        let ghost before = models(found@);
                        found.push(
                            VerificationTarget::declared(
                                file,
                                core_name,
                                target_name.as_str(),
                                tool,
                            ),
                        );
                        assert(models(found@) =~= before.push(
                            target_of(file@, core_name@, *entry),
                        ));
                    }
                }
                i += 1;
            }
            assert(entries.take(m.len() as int) =~= entries);
            assert(models(found@) == selected_targets(file@, core_name@, entries));
        } else {
            assert(entries.take(0) =~= entries);
            assert(models(found@) == selected_targets(file@, core_name@, entries));
        }
        assert(manifest_targets(file@, *doc) == Ok::<Seq<TargetModel>, ManifestErrorModel>(
            selected_targets(file@, core_name@, entries),
        ));
        Ok(found)
    }
}

} // verus!
