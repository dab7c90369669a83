//! The command line's shape: the subcommands and their options. Parsing
//! happens outside the library; these are the values it produces.
use vstd::prelude::*;

verus! {

/// The global options and the subcommand to run.
#[derive(Debug, Clone)]
pub struct Args {
    pub command: Command,
    /// Log verbosely.
    pub verbose: bool,
    /// The configuration file.
    pub config: Option<String>,
    /// The project root directory.
    pub project: Option<String>,
}

/// The subcommands.
#[derive(Debug, Clone)]
pub enum Command {
    /// Scan a project and build the analysis matrix.
    Scan {
        path: Option<String>,
        output: OutputFormat,
        output_file: Option<String>,
        no_llm: bool,
        include_tests: bool,
    },
    /// Analyze code quality from an existing matrix.
    Quality { matrix: Option<String>, metrics: Vec<QualityMetric> },
    /// Generate documentation from an existing matrix.
    Docs { matrix: Option<String>, format: DocFormat, output_dir: Option<String> },
    /// List the configured plugins.
    Plugins { detailed: bool },
    /// Write a new configuration file.
    Init { force: bool },
}

/// How scan results are written.
#[derive(Debug, Clone, Copy, PartialEq, Eq, Structural)]
pub enum OutputFormat {
    Json,
    Yaml,
    Pretty,
}

/// The quality metrics that can be asked for.
#[derive(Debug, Clone, Copy, PartialEq, Eq, Structural)]
pub enum QualityMetric {
    Complexity,
    Coverage,
    Maintainability,
    Security,
    Performance,
    All,
}

/// The documentation formats.
#[derive(Debug, Clone, Copy, PartialEq, Eq, Structural)]
pub enum DocFormat {
    Markdown,
    Html,
    Pdf,
}

} // verus!
