//! Verification automation for hardware projects that are built with a
//! manifest-driven build tool: discovery of testbench targets, construction of
//! the tool's command line, classification of each run and the final report.

pub mod manifest;
pub mod options;
pub mod outcome;
pub mod paths;
pub mod pipeline;
pub mod summary;
pub mod target;
pub mod text;

pub use crate::manifest::{ManifestError, Node};
pub use crate::options::numprocesses_validator;
pub use crate::outcome::Outcome;
pub use crate::paths::string_to_path;
pub use crate::pipeline::{Action, Event, Run, RunError, Stage};
pub use crate::summary::{ms_to_min_s_ms, summarize, RunTotals, Summary};
pub use crate::target::VerificationTarget;
