use fsva::manifest::{Fault, ManifestError, Node};
use fsva::target::VerificationTarget;

fn text(s: &str) -> Node {
    Node::Text(s.to_string())
}

fn mapping(entries: Vec<(Node, Node)>) -> Node {
    Node::Mapping(entries)
}

fn names(targets: &[VerificationTarget]) -> Vec<String> {
    targets.iter().map(|t| t.target_name.clone()).collect()
}

fn fault_of(r: Result<Vec<VerificationTarget>, ManifestError>) -> Fault {
    match r {
        Ok(targets) => panic!("{} targets", targets.len()),
        Err(e) => e.kind(),
    }
}

#[test]
fn manifest_with_one_testbench_yields_one_target() {
    let yaml = "name: \":proj:top\"\ntargets:\n  tb_sim:\n    default_tool: ghdl\n  build:\n    filesets: [rtl]\n";
    let mut targets = VerificationTarget::new("dir/top.core", yaml.as_bytes()).unwrap();
    assert_eq!(1, targets.len());
    let t = &mut targets[0];
    assert_eq!("dir/top.core", t.core_file);
    assert_eq!(":proj:top", t.core_name);
    assert_eq!("tb_sim", t.target_name);
    assert_eq!("ghdl", t.eda_tool);
    t.prepare_for_verification("out");
    assert_eq!("out/proj-top_tb_sim", t.output_file);
    assert!(t.output_file.ends_with("/proj-top_tb_sim"));
    let n = t.command_arguments.len();
    assert_eq!("tb_sim", t.command_arguments[n - 2]);
    assert_eq!(":proj:top", t.command_arguments[n - 1]);
    assert!(t
        .command_arguments
        .contains(&"\\-P/usr/local/lib/ghdl/vendors -frelaxed-rules".to_string()));
}

#[test]
fn only_the_testbenches_are_taken_in_document_order() {
    let yaml = "name: unit\ntargets:\n  default: {}\n  z_tb: {default_tool: icarus}\n  tb_a: {}\n  synth: {default_tool: vivado}\n  footb: {}\n  tb: {}\n  tb_m: {default_tool: ghdl}\n";
    let targets = VerificationTarget::new("u.core", yaml.as_bytes()).unwrap();
    assert_eq!(vec!["z_tb", "tb_a", "tb_m"], names(&targets));
    assert_eq!("icarus", targets[0].eda_tool);
    assert_eq!("", targets[1].eda_tool);
    assert_eq!("ghdl", targets[2].eda_tool);
    for t in &targets {
        assert_eq!("unit", t.core_name);
        assert_eq!("u.core", t.core_file);
        assert_eq!("fusesoc", t.command);
        assert_eq!(4, t.command_arguments.len());
        assert!(!t.passed);
    }
}

#[test]
fn manifest_without_testbenches_yields_nothing() {
    let yaml = "name: unit\ntargets:\n  default: {}\n  synth: {}\n";
    assert_eq!(0, VerificationTarget::new("u.core", yaml.as_bytes()).unwrap().len());
}

#[test]
fn missing_or_malformed_targets_yield_nothing() {
    for yaml in [
        "name: unit\n",
        "name: unit\ntargets: 5\n",
        "name: unit\ntargets: tb_x\n",
        "name: unit\ntargets: [tb_a, tb_b]\n",
        "name: unit\ntargets: ~\n",
        "name: unit\ntargets: {}\n",
    ] {
        assert_eq!(0, VerificationTarget::new("u.core", yaml.as_bytes()).unwrap().len(), "{}", yaml);
    }
}

#[test]
fn keys_that_are_no_text_are_skipped() {
    let yaml = "name: unit\ntargets:\n  1: {}\n  true: {}\n  [tb_a]: {}\n  ~: {}\n  tb_b: {}\n";
    let targets = VerificationTarget::new("u.core", yaml.as_bytes()).unwrap();
    assert_eq!(vec!["tb_b"], names(&targets));
}

#[test]
fn tool_that_is_no_text_counts_as_none() {
    let yaml = "name: unit\ntargets:\n  tb_a: {default_tool: 5}\n  tb_b: {default_tool: [ghdl]}\n  tb_c: ~\n  tb_d: ghdl\n  tb_e: {tool: ghdl}\n";
    let targets = VerificationTarget::new("u.core", yaml.as_bytes()).unwrap();
    assert_eq!(5, targets.len());
    for t in &targets {
        assert_eq!("", t.eda_tool);
    }
}

#[test]
fn name_must_be_there() {
    assert_eq!(Fault::MissingName, fault_of(VerificationTarget::new("u.core", b"targets:\n  tb_a: {}\n")));
    assert_eq!(Fault::MissingName, fault_of(VerificationTarget::new("u.core", b"- a\n- b\n")));
    assert_eq!(Fault::MissingName, fault_of(VerificationTarget::new("u.core", b"just text\n")));
}

#[test]
fn name_must_be_text() {
    for yaml in ["name: 5\n", "name: [a]\n", "name: {a: b}\n", "name: true\n", "name: ~\n", "name: 1.5\n"] {
        assert_eq!(Fault::NameNotText, fault_of(VerificationTarget::new("u.core", yaml.as_bytes())), "{}", yaml);
    }
}

#[test]
fn manifest_must_be_a_document() {
    for yaml in ["name: [unclosed\n", "a: b: c: d\n\t- x", "", "\u{0}"] {
        match VerificationTarget::new("u.core", yaml.as_bytes()) {
            Err(ManifestError::Syntax(words)) => assert!(!words.is_empty()),
            other => panic!("{:?} {:?}", yaml, other),
        }
    }
    match VerificationTarget::new("u.core", &[0xff, 0xfe, 0x00]) {
        Err(ManifestError::Syntax(_)) => {}
        other => panic!("{:?}", other),
    }
}

#[test]
fn parser_words_are_the_message() {
    let expected = serde_yaml::from_slice::<serde_yaml::Value>(b"name: [unclosed\n").unwrap_err().to_string();
    match VerificationTarget::new("u.core", b"name: [unclosed\n") {
        Err(e) => {
            assert_eq!(Fault::Syntax, e.kind());
            assert_eq!(expected, e.message("u.core"));
        }
        Ok(_) => panic!(),
    }
}

#[test]
fn messages_name_the_manifest() {
    assert_eq!(
        "core name must be string, file: \"dir/u.core\"",
        ManifestError::NameNotText.message("dir/u.core")
    );
    assert_eq!(
        "core name is missing, file: \"dir/u.core\"",
        ManifestError::MissingName.message("dir/u.core")
    );
    assert_eq!("words", ManifestError::Syntax("words".to_string()).message("dir/u.core"));
    assert_eq!(Fault::Syntax, ManifestError::Syntax(String::new()).kind());
    assert_eq!(Fault::MissingName, ManifestError::MissingName.kind());
    assert_eq!(Fault::NameNotText, ManifestError::NameNotText.kind());
}

#[test]
fn document_written_by_hand() {
    let doc = mapping(vec![
        (text("name"), text(":proj:top")),
        (
            text("targets"),
            mapping(vec![
                (text("tb_sim"), mapping(vec![(text("default_tool"), text("ghdl"))])),
                (text("build"), Node::Null),
                (Node::Number("3".to_string()), Node::Null),
                (Node::Bool(true), mapping(vec![])),
                (text("lint_tb"), Node::Sequence(vec![text("default_tool"), text("ghdl")])),
            ]),
        ),
    ]);
    let targets = VerificationTarget::from_document("top.core", &doc).unwrap();
    assert_eq!(vec!["tb_sim", "lint_tb"], names(&targets));
    assert_eq!("ghdl", targets[0].eda_tool);
    assert_eq!("", targets[1].eda_tool);
    assert_eq!(":proj:top", targets[1].core_name);
}

#[test]
fn documents_by_hand_that_cannot_be_used() {
    assert_eq!(Fault::MissingName, fault_of(VerificationTarget::from_document("f", &Node::Null)));
    assert_eq!(Fault::MissingName, fault_of(VerificationTarget::from_document("f", &mapping(vec![]))));
    assert_eq!(
        Fault::MissingName,
        fault_of(VerificationTarget::from_document("f", &mapping(vec![(text("Name"), text("u"))])))
    );
    assert_eq!(
        Fault::NameNotText,
        fault_of(VerificationTarget::from_document("f", &mapping(vec![(text("name"), Node::Bool(false))])))
    );
}

#[test]
fn first_entry_under_a_key_is_found() {
    let doc = mapping(vec![
        (Node::Null, text("no")),
        (text("a"), text("first")),
        (text("b"), Node::Bool(true)),
        (text("a"), text("second")),
    ]);
    assert_eq!(Some("first"), doc.get("a").and_then(|n| n.as_text()));
    assert!(matches!(doc.get("b"), Some(Node::Bool(true))));
    assert!(doc.get("c").is_none());
    assert!(doc.get("").is_none());
    assert!(text("a").get("a").is_none());
    assert!(Node::Sequence(vec![text("a")]).get("a").is_none());
    assert_eq!(None, Node::Number("1".to_string()).as_text());
    assert_eq!(Some(""), text("").as_text());
}

#[test]
fn numbers_and_nested_values_are_read() {
    let yaml = "name: u\nextra:\n  - 1\n  - 2.5\n  - {k: [true, ~]}\ntargets:\n  tb_x: {default_tool: ghdl, n: -3}\n";
    let targets = VerificationTarget::new("u.core", yaml.as_bytes()).unwrap();
    assert_eq!(vec!["tb_x"], names(&targets));
    assert_eq!("ghdl", targets[0].eda_tool);
}
