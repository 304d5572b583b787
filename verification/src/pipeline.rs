//! A run from its first step to its last. The library decides what is to be
//! done next; the caller does it and reports what came of it.

use crate::manifest::{extraction_model, manifest_error_text, manifest_reading, ManifestError, ManifestErrorModel};
use crate::outcome::{announcement_text, classification, classified, classify, recorded, report_bytes, report_contents, Outcome, OutcomeModel};
use crate::paths::{archive_of, archive_path, final_component, join_path, joined, last_component};
use crate::summary::{all_passed, models, path_debug, quoted_path, run_succeeded};
use crate::target::{copy_texts, prepared, texts, TargetModel, VerificationTarget};
use crate::text::is_digit;
use vstd::prelude::*;
use vstd::string::StringExecFns;

verus! {

/// How far a run has come.
#[derive(Clone, Copy, Debug, PartialEq, Eq, Structural)]
pub enum Stage {
    /// The manifests are being looked for.
    Scanning,
    /// A manifest is being read.
    Reading,
    /// The output directory is being made.
    Creating,
    /// A target is running.
    Running,
    /// The output of a target is being written.
    Reporting,
    /// The summary is being written.
    Summarizing,
    /// The output directory is being packed.
    Archiving,
    /// Nothing is left to do.
    Finished,
}

/// Why a run ended early or without success.
#[derive(Debug)]
pub enum RunError {
    /// No manifest stands below the work path.
    NoManifests { workpath: String },
    /// The manifests declare no testbench.
    NoTargets,
    /// A manifest could not be used.
    Manifest { file: String, error: ManifestError },
    /// A target wrote output that is no text.
    NotText { core_name: String, target_name: String },
    /// A target did not pass.
    TargetsFailed,
    /// The caller could not do what it was asked to; its words.
    Failed(String),
    /// The caller reported what the run was not waiting for.
    OutOfTurn,
}

/// What a [`RunError`] holds, as mathematical values.
#[verifier::ext_equal]
pub enum ErrorModel {
    NoManifests { workpath: Seq<char> },
    NoTargets,
    Manifest { file: Seq<char>, error: ManifestErrorModel },
    NotText { core_name: Seq<char>, target_name: Seq<char> },
    TargetsFailed,
    Failed(Seq<char>),
    OutOfTurn,
}

impl View for RunError {
    type V = ErrorModel;

    open spec fn view(&self) -> ErrorModel {
        match self {
            RunError::NoManifests { workpath } => ErrorModel::NoManifests { workpath: workpath@ },
            RunError::NoTargets => ErrorModel::NoTargets,
            RunError::Manifest { file, error } => ErrorModel::Manifest {
                file: file@,
                error: error@,
            },
            RunError::NotText { core_name, target_name } => ErrorModel::NotText {
                core_name: core_name@,
                target_name: target_name@,
            },
            RunError::TargetsFailed => ErrorModel::TargetsFailed,
            RunError::Failed(words) => ErrorModel::Failed(words@),
            RunError::OutOfTurn => ErrorModel::OutOfTurn,
        }
    }
}

/// How a run ended, as mathematical values.
pub open spec fn result_model(result: Result<(), RunError>) -> Result<(), ErrorModel> {
    match result {
        Ok(_) => Ok(()),
        Err(error) => Err(error@),
    }
}

/// What the caller reports.
#[derive(Debug)]
pub enum Event {
    /// The manifests that stand below the work path.
    Scanned(Vec<String>),
    /// What the manifest holds that was to be read.
    ManifestRead(Vec<u8>),
    /// The output directory was made; its path.
    OutputCreated(String),
    /// The target's run has ended.
    Exited { success: bool, stdout: Vec<u8>, stderr: Vec<u8> },
    /// The output of the target was written.
    ReportWritten,
    /// The summary was written.
    SummaryWritten,
    /// The output directory was packed.
    Archived,
    /// What was to be done could not be done; why.
    Failed(String),
}

/// What an [`Event`] holds, as mathematical values.
#[verifier::ext_equal]
pub enum EventModel {
    Scanned(Seq<Seq<char>>),
    ManifestRead(Seq<u8>),
    OutputCreated(Seq<char>),
    Exited { success: bool, stdout: Seq<u8>, stderr: Seq<u8> },
    ReportWritten,
    SummaryWritten,
    Archived,
    Failed(Seq<char>),
}

impl View for Event {
    type V = EventModel;

    open spec fn view(&self) -> EventModel {
        match self {
            Event::Scanned(manifests) => EventModel::Scanned(texts(manifests@)),
            Event::ManifestRead(contents) => EventModel::ManifestRead(contents@),
            Event::OutputCreated(outpath) => EventModel::OutputCreated(outpath@),
            Event::Exited { success, stdout, stderr } => EventModel::Exited {
                success: *success,
                stdout: stdout@,
                stderr: stderr@,
            },
            Event::ReportWritten => EventModel::ReportWritten,
            Event::SummaryWritten => EventModel::SummaryWritten,
            Event::Archived => EventModel::Archived,
            Event::Failed(words) => EventModel::Failed(words@),
        }
    }
}

/// What the caller is to do next.
#[derive(Debug)]
pub enum Action {
    /// Look for the manifests below `workpath`.
    Scan { workpath: String },
    /// Read the manifest `file`.
    ReadManifest { file: String },
    /// Make the output directory of the run, named by the time, below
    /// `outdir` in `workpath`.
    CreateOutput { workpath: String, outdir: String },
    /// Say `announcement`, then run `command` with `arguments`.
    Execute { announcement: String, command: String, arguments: Vec<String> },
    /// Write `contents` to `file`.
    WriteReport { file: String, contents: Vec<u8> },
    /// Show the summary of the run and write it to `file`.
    WriteSummary { file: String },
    /// Pack `directory` into `archive`, under the name `root`, and remove it.
    Archive { directory: String, archive: String, root: String },
    /// Stop: the run is over, with this result.
    Stop(Result<(), RunError>),
}

/// What an [`Action`] holds, as mathematical values.
#[verifier::ext_equal]
pub enum ActionModel {
    Scan { workpath: Seq<char> },
    ReadManifest { file: Seq<char> },
    CreateOutput { workpath: Seq<char>, outdir: Seq<char> },
    Execute { announcement: Seq<char>, command: Seq<char>, arguments: Seq<Seq<char>> },
    WriteReport { file: Seq<char>, contents: Seq<u8> },
    WriteSummary { file: Seq<char> },
    Archive { directory: Seq<char>, archive: Seq<char>, root: Seq<char> },
    Stop(Result<(), ErrorModel>),
}

impl View for Action {
    type V = ActionModel;

    open spec fn view(&self) -> ActionModel {
        match self {
            Action::Scan { workpath } => ActionModel::Scan { workpath: workpath@ },
            Action::ReadManifest { file } => ActionModel::ReadManifest { file: file@ },
            Action::CreateOutput { workpath, outdir } => ActionModel::CreateOutput {
                workpath: workpath@,
                outdir: outdir@,
            },
            Action::Execute { announcement, command, arguments } => ActionModel::Execute {
                announcement: announcement@,
                command: command@,
                arguments: texts(arguments@),
            },
            Action::WriteReport { file, contents } => ActionModel::WriteReport {
                file: file@,
                contents: contents@,
            },
            Action::WriteSummary { file } => ActionModel::WriteSummary { file: file@ },
            Action::Archive { directory, archive, root } => ActionModel::Archive {
                directory: directory@,
                archive: archive@,
                root: root@,
            },
            Action::Stop(result) => ActionModel::Stop(result_model(*result)),
        }
    }
}

/// A run in progress.
#[derive(Debug)]
pub struct Run {
    /// How far the run has come.
    pub stage: Stage,
    /// The manifest that is being read, or the target that is running.
    pub cursor: usize,
    /// The directory below which the manifests are looked for.
    pub workpath: String,
    /// The name of the directory, in the work path, that takes the output
    /// directories.
    pub outdir: String,
    /// Whether the output directory is to be packed once all targets passed.
    pub compress: bool,
    /// The manifests that were found.
    pub manifests: Vec<String>,
    /// The targets that the manifests declare.
    pub targets: Vec<VerificationTarget>,
    /// The output directory of the run.
    pub outpath: String,
}

/// What a [`Run`] holds, as mathematical values.
#[verifier::ext_equal]
pub struct RunModel {
    pub stage: Stage,
    pub cursor: nat,
    pub workpath: Seq<char>,
    pub outdir: Seq<char>,
    pub compress: bool,
    pub manifests: Seq<Seq<char>>,
    pub targets: Seq<TargetModel>,
    pub outpath: Seq<char>,
}

impl View for Run {
    type V = RunModel;

    open spec fn view(&self) -> RunModel {
        RunModel {
            stage: self.stage,
            cursor: self.cursor as nat,
            workpath: self.workpath@,
            outdir: self.outdir@,
            compress: self.compress,
            manifests: texts(self.manifests@),
            targets: models(self.targets@),
            outpath: self.outpath@,
        }
    }
}

/// A run as it begins: nothing is known yet, and the manifests are to be
/// looked for.
pub open spec fn started(workpath: Seq<char>, outdir: Seq<char>, compress: bool) -> (
    RunModel,
    ActionModel,
) {
    (
        RunModel {
            stage: Stage::Scanning,
            cursor: 0,
            workpath,
            outdir,
            compress,
            manifests: Seq::empty(),
            targets: Seq::empty(),
            outpath: Seq::empty(),
        },
        ActionModel::Scan { workpath },
    )
}

/// The run ends here, with `result`.
pub open spec fn halted(pre: RunModel, result: Result<(), ErrorModel>) -> (RunModel, ActionModel) {
    (RunModel { stage: Stage::Finished, ..pre }, ActionModel::Stop(result))
}

/// The manifests were found: without any the run ends, otherwise the first
/// is read.
pub open spec fn after_scan(pre: RunModel, manifests: Seq<Seq<char>>) -> (RunModel, ActionModel) {
    if manifests.len() == 0 {
        halted(pre, Err(ErrorModel::NoManifests { workpath: pre.workpath }))
    } else {
        (
            RunModel { stage: Stage::Reading, cursor: 0, manifests, ..pre },
            ActionModel::ReadManifest { file: manifests[0] },
        )
    }
}

/// A manifest was read, with `outcome`. One that cannot be used ends the run.
/// Otherwise its targets join those of the manifests before it, and the next
/// manifest is read; after the last, the output directory is made, unless
/// there is no target at all, which ends the run.
pub open spec fn after_manifest(
    pre: RunModel,
    outcome: Result<Seq<TargetModel>, ManifestErrorModel>,
) -> (
    RunModel,
    ActionModel,
) {
    match outcome {
        Err(error) => halted(
            pre,
            Err(ErrorModel::Manifest { file: pre.manifests[pre.cursor as int], error }),
        ),
        Ok(found) => {
            let grown = RunModel { targets: pre.targets + found, ..pre };
            if pre.cursor + 1 < pre.manifests.len() {
                (
                    RunModel { cursor: pre.cursor + 1, ..grown },
                    ActionModel::ReadManifest { file: pre.manifests[pre.cursor as int + 1] },
                )
            } else if grown.targets.len() == 0 {
                halted(grown, Err(ErrorModel::NoTargets))
            } else {
                (
                    RunModel { stage: Stage::Creating, cursor: 0, ..grown },
                    ActionModel::CreateOutput { workpath: pre.workpath, outdir: pre.outdir },
                )
            }
        },
    }
}

/// The target `index` is made ready and run.
pub open spec fn launched(pre: RunModel, index: nat) -> (RunModel, ActionModel) {
    let ready = prepared(pre.targets[index as int], pre.outpath);
    (
        RunModel {
            stage: Stage::Running,
            cursor: index,
            targets: pre.targets.update(index as int, ready),
            ..pre
        },
        ActionModel::Execute {
            announcement: announcement_text(ready),
            command: ready.command,
            arguments: ready.command_arguments,
        },
    )
}

/// A target's run has ended, with `outcome`. Output that is no text ends the
/// run. Otherwise the result is taken down and the output is written to the
/// target's file.
pub open spec fn after_exit(
    pre: RunModel,
    outcome: Option<OutcomeModel>,
    stdout: Seq<u8>,
    stderr: Seq<u8>,
) -> (RunModel, ActionModel) {
    let target = pre.targets[pre.cursor as int];
    match outcome {
        None => halted(
            pre,
            Err(
                ErrorModel::NotText {
                    core_name: target.core_name,
                    target_name: target.target_name,
                },
            ),
        ),
        Some(outcome) => (
            RunModel {
                stage: Stage::Reporting,
                targets: pre.targets.update(pre.cursor as int, recorded(target, outcome)),
                ..pre
            },
            ActionModel::WriteReport {
                file: target.output_file,
                contents: report_bytes(stderr, stdout),
            },
        ),
    }
}

/// The output of a target was written: the next target runs, and after the
/// last the summary is written.
pub open spec fn after_report(pre: RunModel) -> (RunModel, ActionModel) {
    if pre.cursor + 1 < pre.targets.len() {
        launched(pre, pre.cursor + 1)
    } else {
        (
            RunModel { stage: Stage::Summarizing, ..pre },
            ActionModel::WriteSummary { file: joined(pre.outpath, "summary"@) },
        )
    }
}

/// The summary was written: the run has failed if a target did not pass;
/// otherwise the output directory is packed, if that was asked for, and the
/// run ends with success.
pub open spec fn after_summary(pre: RunModel) -> (RunModel, ActionModel) {
    if !run_succeeded(pre.targets) {
        halted(pre, Err(ErrorModel::TargetsFailed))
    } else if pre.compress {
        (
            RunModel { stage: Stage::Archiving, ..pre },
            ActionModel::Archive {
                directory: pre.outpath,
                archive: archive_of(pre.outpath),
                root: final_component(pre.outpath),
            },
        )
    } else {
        halted(pre, Ok(()))
    }
}

/// Whether the run's cursor stands on one of its manifests.
pub open spec fn on_manifest(pre: RunModel) -> bool {
    pre.cursor < pre.manifests.len()
}

/// Whether the run's cursor stands on one of its targets.
pub open spec fn on_target(pre: RunModel) -> bool {
    pre.cursor < pre.targets.len()
}

/// What follows when the manifest that was to be read is found to yield
/// `outcome`; this is out of turn unless a manifest is being read.
pub open spec fn after_extraction(
    pre: RunModel,
    outcome: Result<Seq<TargetModel>, ManifestErrorModel>,
) -> (
    RunModel,
    ActionModel,
) {
    if pre.stage == Stage::Reading && on_manifest(pre) {
        after_manifest(pre, outcome)
    } else {
        halted(pre, Err(ErrorModel::OutOfTurn))
    }
}

/// What follows when the run of a target is found to come to `outcome`; this
/// is out of turn unless a target is running.
pub open spec fn after_classification(
    pre: RunModel,
    outcome: Option<OutcomeModel>,
    stdout: Seq<u8>,
    stderr: Seq<u8>,
) -> (RunModel, ActionModel) {
    if pre.stage == Stage::Running && on_target(pre) {
        after_exit(pre, outcome, stdout, stderr)
    } else {
        halted(pre, Err(ErrorModel::OutOfTurn))
    }
}

/// The state and the action that follow when the caller reports `event` to
/// the run `pre`. A failure that the caller reports ends the run, and so does
/// a report that the run is not waiting for.
pub open spec fn next(pre: RunModel, event: EventModel) -> (RunModel, ActionModel) {
    let out_of_turn = halted(pre, Err(ErrorModel::OutOfTurn));
    if pre.stage == Stage::Finished {
        out_of_turn
    } else {
        match event {
            EventModel::Failed(words) => halted(pre, Err(ErrorModel::Failed(words))),
            EventModel::Scanned(manifests) => if pre.stage == Stage::Scanning {
                after_scan(pre, manifests)
            } else {
                out_of_turn
            },
            EventModel::ManifestRead(contents) => after_extraction(
                pre,
                manifest_reading(pre.manifests[pre.cursor as int], contents),
            ),
            EventModel::OutputCreated(outpath) => if pre.stage == Stage::Creating
                && pre.targets.len() > 0 {
                launched(RunModel { outpath, ..pre }, 0)
            } else {
                out_of_turn
            },
            EventModel::Exited { success, stdout, stderr } => after_classification(
                pre,
                classification(success, stdout),
                stdout,
                stderr,
            ),
            EventModel::ReportWritten => if pre.stage == Stage::Reporting {
                after_report(pre)
            } else {
                out_of_turn
            },
            EventModel::SummaryWritten => if pre.stage == Stage::Summarizing {
                after_summary(pre)
            } else {
                out_of_turn
            },
            EventModel::Archived => if pre.stage == Stage::Archiving {
                halted(pre, Ok(()))
            } else {
                out_of_turn
            },
        }
    }
}

impl Run {
    /// Begins a run below `workpath`, whose output goes below `outdir`; the
    /// first thing to do is to look for the manifests.
    pub fn start(workpath: &str, outdir: &str, compress: bool) -> (r: (Run, Action))
        ensures
            (r.0@, r.1@) == started(workpath@, outdir@, compress),
    {
        let run = Run {
            stage: Stage::Scanning,
            cursor: 0,
            workpath: String::from_str(workpath),
            outdir: String::from_str(outdir),
            compress,
            manifests: Vec::new(),
            targets: Vec::new(),
            outpath: String::new(),
        };
        let action = Action::Scan { workpath: String::from_str(workpath) };
        assert(run@ =~= started(workpath@, outdir@, compress).0);
        (run, action)
    }

    /// Ends the run with `result`.
    fn halt(&mut self, result: Result<(), RunError>) -> (action: Action)
        ensures
            (final(self)@, action@) == halted(old(self)@, result_model(result)),
    {
        self.stage = Stage::Finished;
        Action::Stop(result)
    }

    /// Ends the run because the caller reported what it was not waiting for.
    fn refuse(&mut self) -> (action: Action)
        ensures
            (final(self)@, action@) == halted(old(self)@, Err(ErrorModel::OutOfTurn)),
    {
        self.halt(Err(RunError::OutOfTurn))
    }

    /// Makes the target `index` ready and has it run.
    fn launch(&mut self, index: usize) -> (action: Action)
        requires
            index < old(self).targets.len(),
        ensures
            (final(self)@, action@) == launched(old(self)@, index as nat),
    {
        let ghost before = models(self.targets@);
        let mut target = self.targets[index].duplicate();
        target.prepare_for_verification(self.outpath.as_str());
        let action = Action::Execute {
            announcement: target.announcement(),
            command: target.command.clone(),
            arguments: copy_texts(&target.command_arguments),
        };
        self.targets[index] = target;
        self.stage = Stage::Running;
        self.cursor = index;
        assert(models(self.targets@) =~= before.update(index as int, target@));
        action
    }

    /// Takes the manifests that were found.
    fn take_manifests(&mut self, manifests: Vec<String>) -> (action: Action)
        ensures
            (final(self)@, action@) == after_scan(old(self)@, texts(manifests@)),
    {
        if manifests.len() == 0 {
            let workpath = self.workpath.clone();
            self.halt(Err(RunError::NoManifests { workpath }))
        } else {
            let file = manifests[0].clone();
            self.stage = Stage::Reading;
            self.cursor = 0;
            self.manifests = manifests;
            Action::ReadManifest { file }
        }
    }

    /// Takes what the manifest under the cursor was found to yield.
    pub fn take_targets(&mut self, extracted: Result<Vec<VerificationTarget>, ManifestError>) -> (action:
        Action)
        ensures
            (final(self)@, action@) == after_extraction(old(self)@, extraction_model(extracted)),
    {
        if !(self.stage == Stage::Reading && self.cursor < self.manifests.len()) {
            return self.refuse();
        }
        match extracted {
            Err(error) => {
                let file = self.manifests[self.cursor].clone();
                self.halt(Err(RunError::Manifest { file, error }))
            },
            Ok(found) => {
                let mut found = found;
                let ghost before = models(self.targets@);
                let ghost added = models(found@);
                self.targets.append(&mut found);
                assert(models(self.targets@) =~= before + added);
                let count = self.manifests.len();
                if self.cursor + 1 < count {
                    self.cursor = self.cursor + 1;
                    Action::ReadManifest { file: self.manifests[self.cursor].clone() }
                } else if self.targets.len() == 0 {
                    self.halt(Err(RunError::NoTargets))
                } else {
                    self.stage = Stage::Creating;
                    self.cursor = 0;
                    Action::CreateOutput {
                        workpath: self.workpath.clone(),
                        outdir: self.outdir.clone(),
                    }
                }
            },
        }
    }

    /// Takes what the run of the target under the cursor was found to come
    /// to, with what it wrote.
    pub fn take_outcome(&mut self, outcome: Option<Outcome>, stdout: &[u8], stderr: &[u8]) -> (action:
        Action)
        ensures
            (final(self)@, action@) == after_classification(
                old(self)@,
                classified(outcome),
                stdout@,
                stderr@,
            ),
    {
        if !(self.stage == Stage::Running && self.cursor < self.targets.len()) {
            return self.refuse();
        }
        let ghost before = models(self.targets@);
        match outcome {
            None => {
                let core_name = self.targets[self.cursor].core_name.clone();
                let target_name = self.targets[self.cursor].target_name.clone();
                self.halt(Err(RunError::NotText { core_name, target_name }))
            },
            Some(outcome) => {
                let mut target = self.targets[self.cursor].duplicate();
                let file = target.output_file.clone();
                target.record(outcome);
                self.targets[self.cursor] = target;
                self.stage = Stage::Reporting;
                assert(models(self.targets@) =~= before.update(self.cursor as int, target@));
                Action::WriteReport { file, contents: report_contents(stderr, stdout) }
            },
        }
    }

    /// Goes on after the output of a target was written.
    fn take_report(&mut self) -> (action: Action)
        ensures
            (final(self)@, action@) == after_report(old(self)@),
    {
        if self.cursor < self.targets.len() && self.cursor + 1 < self.targets.len() {
            self.launch(self.cursor + 1)
        } else {
            self.stage = Stage::Summarizing;
            Action::WriteSummary { file: join_path(self.outpath.as_str(), "summary") }
        }
    }

    /// Goes on after the summary was written.
    fn take_summary(&mut self) -> (action: Action)
        ensures
            (final(self)@, action@) == after_summary(old(self)@),
    {
        if !all_passed(&self.targets) {
            self.halt(Err(RunError::TargetsFailed))
        } else if self.compress {
            self.stage = Stage::Archiving;
            Action::Archive {
                directory: self.outpath.clone(),
                archive: archive_path(self.outpath.as_str()),
                root: last_component(self.outpath.as_str()),
            }
        } else {
            self.halt(Ok(()))
        }
    }

    /// Takes what the caller reports and says what is to be done next.
    pub fn step(&mut self, event: Event) -> (action: Action)
        ensures
            (final(self)@, action@) == next(old(self)@, event@),
    {
        if self.stage == Stage::Finished {
            return self.refuse();
        }
        match event {
            Event::Failed(words) => self.halt(Err(RunError::Failed(words))),
            Event::Scanned(manifests) => {
                if self.stage == Stage::Scanning {
                    self.take_manifests(manifests)
                } else {
                    self.refuse()
                }
            },
            Event::ManifestRead(contents) => {
                if self.stage == Stage::Reading && self.cursor < self.manifests.len() {
                    let extracted = VerificationTarget::new(
                        self.manifests[self.cursor].as_str(),
                        contents.as_slice(),
                    );
                    self.take_targets(extracted)
                } else {
                    self.refuse()
                }
            },
            Event::OutputCreated(outpath) => {
                if self.stage == Stage::Creating && self.targets.len() > 0 {
                    self.outpath = outpath;
                    self.launch(0)
                } else {
                    self.refuse()
                }
            },
            Event::Exited { success, stdout, stderr } => {
                let outcome = classify(success, stdout.as_slice());
                self.take_outcome(outcome, stdout.as_slice(), stderr.as_slice())
            },
            Event::ReportWritten => {
                if self.stage == Stage::Reporting {
                    self.take_report()
                } else {
                    self.refuse()
                }
            },
            Event::SummaryWritten => {
                if self.stage == Stage::Summarizing {
                    self.take_summary()
                } else {
                    self.refuse()
                }
            },
            Event::Archived => {
                if self.stage == Stage::Archiving {
                    self.halt(Ok(()))
                } else {
                    self.refuse()
                }
            },
        }
    }
}

/// The path that the error names: the work path without manifests, or the
/// manifest that could not be used; empty for the other errors.
pub open spec fn named_path(error: ErrorModel) -> Seq<char> {
    match error {
        ErrorModel::NoManifests { workpath } => workpath,
        ErrorModel::Manifest { file, error } => file,
        _ => Seq::empty(),
    }
}

/// The error `error` in words; `shown_path` is the path that the error
/// names, as it is to be shown.
pub open spec fn error_text(error: ErrorModel, shown_path: Seq<char>) -> Seq<char> {
    match error {
        ErrorModel::NoManifests { workpath } => "No .core files found under the workpath: "@
            + shown_path + "."@,
        ErrorModel::NoTargets => "No verification targets found."@,
        ErrorModel::Manifest { file, error } => manifest_error_text(error, shown_path),
        ErrorModel::NotText { core_name, target_name } => "Output is not valid UTF-8, core: "@
            + core_name + ", target: "@ + target_name,
        ErrorModel::TargetsFailed =>
            "At least one verification target failed. Check summary for details."@,
        ErrorModel::Failed(words) => words,
        ErrorModel::OutOfTurn => "Event does not fit the stage of the run."@,
    }
}

impl RunError {
    /// The error in words.
    pub fn message(&self) -> (r: String)
        ensures
            r@ == error_text(self@, path_debug(named_path(self@))),
    {
        match self {
            RunError::NoManifests { workpath } => {
                let mut r = String::from_str("No .core files found under the workpath: ");
                r.append(quoted_path(workpath.as_str()).as_str());
                r.append(".");
                r
            },
            RunError::NoTargets => String::from_str("No verification targets found."),
            RunError::Manifest { file, error } => error.message(file.as_str()),
            RunError::NotText { core_name, target_name } => {
                let mut r = String::from_str("Output is not valid UTF-8, core: ");
                r.append(core_name.as_str());
                r.append(", target: ");
                r.append(target_name.as_str());
                assert(r@ =~= error_text(self@, path_debug(named_path(self@))));
                r
            },
            RunError::TargetsFailed => String::from_str(
                "At least one verification target failed. Check summary for details.",
            ),
            RunError::Failed(words) => words.clone(),
            RunError::OutOfTurn => String::from_str("Event does not fit the stage of the run."),
        }
    }
}

/// The pattern after which an output directory is named: the date and the
/// time of day, to the second.
pub open spec fn stamp_pattern() -> Seq<char> {
    "%Y-%m-%d_%H-%M-%S"@
}

/// Whether `s` has the form of a time stamp: the year, the month, the day,
/// the hour, the minute and the second in decimal digits, the year in four
/// of them or behind a plus sign in five or more, the others in two each;
/// hyphens part the fields, but an underscore parts the day from the hour.
pub open spec fn is_stamp(s: Seq<char>) -> bool {
    let n = s.len() as int;
    &&& n >= 19
    &&& s[n - 15] == '-'
    &&& s[n - 12] == '-'
    &&& s[n - 9] == '_'
    &&& s[n - 6] == '-'
    &&& s[n - 3] == '-'
    &&& forall|i: int|
        0 <= i < n && i != n - 15 && i != n - 12 && i != n - 9 && i != n - 6 && i != n - 3
            ==> is_digit(#[trigger] s[i]) || (i == 0 && n >= 21 && s[i] == '+')
}

/// The time stamp of the moment `secs` seconds after the beginning of 1970:
/// what `chrono` writes for it under the pattern of output directories;
/// `None` where `chrono` has no date for the moment.
pub uninterp spec fn stamp_text(secs: int) -> Option<Seq<char>>;

/// Calls `chrono::DateTime::from_timestamp` and, where it gives a time,
/// writes it with `DateTime::format` under `pattern`. The pattern is the one
/// that names output directories, which `chrono` can always write. The
/// contract gives the text a name that goes by the moment, and says what
/// `chrono` documents of the pattern's six fields for a moment that is not
/// before 1970: the width of each, and the sign of a year beyond 9999.
#[verifier::external_body]
fn stamp_at(secs: i64, pattern: &str) -> (r: Option<String>)
    requires
        pattern@ == stamp_pattern(),
    ensures
        match r {
            Some(stamp) => stamp_text(secs as int) == Some(stamp@) && (secs >= 0 ==> is_stamp(
                stamp@,
            )),
            None => stamp_text(secs as int) is None,
        },
{
    match chrono::DateTime::from_timestamp(secs, 0) {
        Some(time) => Some(time.format(pattern).to_string()),
        None => None,
    }
}

/// The output directory of the run that began at `stamp`.
pub open spec fn output_directory_of(workpath: Seq<char>, outdir: Seq<char>, stamp: Seq<char>)
    -> Seq<char> {
    joined(joined(workpath, outdir), stamp)
}

/// Names the output directory of the run that began at `stamp`: it stands
/// in `outdir`, which stands in `workpath`.
pub fn output_directory(workpath: &str, outdir: &str, stamp: &str) -> (r: String)
    ensures
        r@ == output_directory_of(workpath@, outdir@, stamp@),
{
    let parent = join_path(workpath, outdir);
    join_path(parent.as_str(), stamp)
}

/// Names the output directory of the run that begins `secs` seconds after
/// the beginning of 1970; `None` where no date belongs to that moment.
pub fn output_directory_at(workpath: &str, outdir: &str, secs: i64) -> (r: Option<String>)
    ensures
        match r {
            Some(path) => stamp_text(secs as int) matches Some(stamp) && path@
                == output_directory_of(workpath@, outdir@, stamp) && (secs >= 0 ==> is_stamp(
                stamp,
            )),
            None => stamp_text(secs as int) is None,
        },
{
    match stamp_at(secs, "%Y-%m-%d_%H-%M-%S") {
        Some(stamp) => Some(output_directory(workpath, outdir, stamp.as_str())),
        None => None,
    }
}

/// Whether the run is in a state that a run can come to: while a manifest is
/// read the cursor stands on one, while a target runs or is written it
/// stands on one, and once the manifests have been read there is a target.
pub open spec fn well_formed(run: RunModel) -> bool {
    match run.stage {
        Stage::Scanning | Stage::Finished => true,
        Stage::Reading => on_manifest(run),
        Stage::Running | Stage::Reporting => on_target(run),
        Stage::Creating | Stage::Summarizing | Stage::Archiving => run.targets.len() > 0,
    }
}

/// A run begins in a state that a run can come to.
pub proof fn lemma_start_is_well_formed(workpath: Seq<char>, outdir: Seq<char>, compress: bool)
    ensures
        well_formed(started(workpath, outdir, compress).0),
{
}

/// Every step keeps a run in a state that a run can come to.
pub proof fn lemma_steps_keep_well_formed(pre: RunModel, event: EventModel)
    requires
        well_formed(pre),
    ensures
        well_formed(next(pre, event).0),
{
}

/// Whenever a target is to be run, the cursor stands on it, and its name and
/// the name of its unit are the last two arguments, in this order.
pub proof fn lemma_runs_end_with_the_names(pre: RunModel, event: EventModel)
    requires
        well_formed(pre),
        next(pre, event).1 is Execute,
    ensures
        ({
            let (post, action) = next(pre, event);
            let target = post.targets[post.cursor as int];
            let arguments = action->arguments;
            &&& on_target(post)
            &&& action->command == target.command
            &&& arguments == target.command_arguments
            &&& arguments.len() >= 2
            &&& arguments[arguments.len() - 2] == target.target_name
            &&& arguments[arguments.len() - 1] == target.core_name
        }),
{
}

/// A run that is where a run can come to refuses no report that it is
/// waiting for: the caller is told that it spoke out of turn only where the
/// report does not belong to the stage.
pub proof fn lemma_expected_reports_are_taken(pre: RunModel, event: EventModel)
    requires
        well_formed(pre),
        next(pre, event).1 == ActionModel::Stop(Err(ErrorModel::OutOfTurn)),
    ensures
        match event {
            EventModel::Failed(_) => pre.stage == Stage::Finished,
            EventModel::Scanned(_) => pre.stage != Stage::Scanning,
            EventModel::ManifestRead(_) => pre.stage != Stage::Reading,
            EventModel::OutputCreated(_) => pre.stage != Stage::Creating,
            EventModel::Exited { .. } => pre.stage != Stage::Running,
            EventModel::ReportWritten => pre.stage != Stage::Reporting,
            EventModel::SummaryWritten => pre.stage != Stage::Summarizing,
            EventModel::Archived => pre.stage != Stage::Archiving,
        },
{
}

/// A run ends with success only after its summary or its archive was
/// written and only if every target passed; how many errors and warnings the
/// targets have makes no difference.
pub proof fn lemma_success_needs_every_target(pre: RunModel, event: EventModel)
    requires
        next(pre, event).1 == ActionModel::Stop(Ok(())),
    ensures
        event == EventModel::SummaryWritten && pre.stage == Stage::Summarizing && run_succeeded(
            pre.targets,
        ) || event == EventModel::Archived && pre.stage == Stage::Archiving,
{
}

/// The output directory is asked for only once the manifests have yielded a
/// target: a run without manifests, or without targets, ends before.
pub proof fn lemma_output_needs_a_target(pre: RunModel, event: EventModel)
    requires
        next(pre, event).1 is CreateOutput,
    ensures
        pre.stage == Stage::Reading,
        pre.manifests.len() > 0,
        next(pre, event).0.targets.len() > 0,
{
}

/// Whether the report `event` is the one that the run `pre` is waiting for
/// and tells of no failure: the manifest that was read can be used, and the
/// target that ran ended with success and wrote text. What the text says
/// makes no difference.
pub open spec fn goes_well(pre: RunModel, event: EventModel) -> bool {
    match event {
        EventModel::Scanned(_) => pre.stage == Stage::Scanning,
        EventModel::ManifestRead(contents) => pre.stage == Stage::Reading && manifest_reading(
            pre.manifests[pre.cursor as int],
            contents,
        ) is Ok,
        EventModel::OutputCreated(_) => pre.stage == Stage::Creating,
        EventModel::Exited { success, stdout, stderr } => pre.stage == Stage::Running && success
            && classification(success, stdout) is Some,
        EventModel::ReportWritten => pre.stage == Stage::Reporting,
        EventModel::SummaryWritten => pre.stage == Stage::Summarizing,
        EventModel::Archived => pre.stage == Stage::Archiving,
        EventModel::Failed(_) => false,
    }
}

/// Whether every target passed that has run so far.
pub open spec fn passed_so_far(run: RunModel) -> bool {
    match run.stage {
        Stage::Running => forall|k: int| 0 <= k < run.cursor ==> (#[trigger] run.targets[k]).passed,
        Stage::Reporting => forall|k: int|
            0 <= k <= run.cursor ==> (#[trigger] run.targets[k]).passed,
        Stage::Summarizing | Stage::Archiving => run_succeeded(run.targets),
        _ => true,
    }
}

/// Whether `result` is success, or the failure of a run that found nothing
/// to verify.
pub open spec fn ok_or_nothing_found(result: Result<(), ErrorModel>) -> bool {
    match result {
        Ok(_) => true,
        Err(error) => error is NoManifests || error is NoTargets,
    }
}

/// A step that goes well keeps the run where a run can come to, with every
/// target passed that has run so far. If it ends the run, the run ends with
/// success, unless nothing was found to verify; once the manifests have been
/// read, it can only be success.
pub proof fn lemma_step_that_goes_well(pre: RunModel, event: EventModel)
    requires
        well_formed(pre),
        passed_so_far(pre),
        goes_well(pre, event),
    ensures
        ({
            let (post, action) = next(pre, event);
            &&& well_formed(post)
            &&& passed_so_far(post)
            &&& action matches ActionModel::Stop(result) ==> ok_or_nothing_found(result) && (
            pre.stage != Stage::Scanning && pre.stage != Stage::Reading ==> result is Ok)
        }),
{
    let (post, action) = next(pre, event);
    match event {
        EventModel::Exited { success, stdout, stderr } => {
            assert(post.targets[pre.cursor as int].passed);
        },
        EventModel::ReportWritten => {
            if pre.cursor + 1 < pre.targets.len() {
            } else {
                assert(pre.cursor == pre.targets.len() - 1);
            }
        },
        _ => {},
    }
}

/// The result with which the run `pre` ends when the caller reports
/// `events` one after the other; `None` where they do not bring it to its
/// end.
pub open spec fn result_of(pre: RunModel, events: Seq<EventModel>) -> Option<
    Result<(), ErrorModel>,
>
    decreases events.len(),
{
    if events.len() == 0 {
        None
    } else {
        let (post, action) = next(pre, events[0]);
        match action {
            ActionModel::Stop(result) => Some(result),
            _ => result_of(post, events.drop_first()),
        }
    }
}

/// Whether each of `events`, reported to the run `pre` one after the other
/// until the run ends, goes well.
pub open spec fn all_go_well(pre: RunModel, events: Seq<EventModel>) -> bool
    decreases events.len(),
{
    events.len() == 0 || (goes_well(pre, events[0]) && (next(pre, events[0]).1 is Stop
        || all_go_well(next(pre, events[0]).0, events.drop_first())))
}

/// A run in which every step goes well ends with success, whatever the
/// targets write and however many errors and warnings are counted in it; it
/// fails only if nothing was found to verify, and not even so once the
/// manifests have been read.
pub proof fn lemma_run_that_goes_well(pre: RunModel, events: Seq<EventModel>)
    requires
        well_formed(pre),
        passed_so_far(pre),
        all_go_well(pre, events),
        result_of(pre, events) is Some,
    ensures
        ok_or_nothing_found(result_of(pre, events)->0),
        pre.stage != Stage::Scanning && pre.stage != Stage::Reading ==> result_of(
            pre,
            events,
        )->0 is Ok,
    decreases events.len(),
{
    if events.len() > 0 {
        lemma_step_that_goes_well(pre, events[0]);
        let (post, action) = next(pre, events[0]);
        if !(action is Stop) {
            lemma_run_that_goes_well(post, events.drop_first());
            if post.stage == Stage::Scanning || post.stage == Stage::Reading {
                assert(pre.stage == Stage::Scanning || pre.stage == Stage::Reading);
            }
        }
    }
}

/// From its beginning, a run in which every step goes well ends with
/// success or with nothing found to verify.
pub proof fn lemma_whole_run_that_goes_well(
    workpath: Seq<char>,
    outdir: Seq<char>,
    compress: bool,
    events: Seq<EventModel>,
)
    requires
        all_go_well(started(workpath, outdir, compress).0, events),
        result_of(started(workpath, outdir, compress).0, events) is Some,
    ensures
        ok_or_nothing_found(result_of(started(workpath, outdir, compress).0, events)->0),
{
    lemma_run_that_goes_well(started(workpath, outdir, compress).0, events);
}

} // verus!
