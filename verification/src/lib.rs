//! A toolkit for talking to the GitHub Actions runner: workflow commands,
//! annotations, inputs, outputs, environment files and job summaries.
//!
//! Everything here computes: the commands to print, the lines to append to
//! environment files, the values of inputs read from an environment
//! snapshot, the job-summary HTML and whether it may be written. Printing,
//! reading the process environment and touching files is left to the caller.

pub mod annotation;
pub mod command;
pub mod env;
pub mod error;
pub mod file_command;
pub mod input;
pub mod log;
pub mod output;
pub mod summary;
pub mod text;

pub use annotation::{Annotation, AnnotationKind};
pub use command::WorkflowCommand;
pub use env::{Context, Environment, RunnerArch, RunnerOs};
pub use error::Error;
pub use file_command::FileCommand;
pub use input::InputOptions;
pub use summary::{Cell, Summary, SummaryText};
