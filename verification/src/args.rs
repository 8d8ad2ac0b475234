//! The configuration of a run.

use vstd::prelude::*;

verus! {

/// The configuration of a run.
#[derive(Debug)]
pub struct Config {
    /// Glob pattern of the input files.
    pub pattern: String,
    /// Path of a file whose content becomes one more step, or empty.
    pub mod_file: String,
    /// The output directory.
    pub output: String,
    /// How the install file is written.
    pub install_config: InstallConfig,
}

/// How the install file, the listing of the stored steps, is written.
#[derive(Debug)]
pub struct InstallConfig {
    /// Name of the install file.
    pub install_file_name: String,
    /// The lines the install file starts with.
    pub header_lines: Vec<String>,
    /// The text of a step's line, with `{}` where the step file's name goes.
    pub sql_execution_format: String,
    /// The last line, with `{}` where its step number goes.
    pub footer_line: Option<String>,
    /// The content of the file that the last line names.
    pub footer_sql_content: Option<String>,
}

/// What an `InstallConfig` is, mathematically.
pub struct InstallConfigView {
    pub install_file_name: Seq<char>,
    pub header_lines: Seq<Seq<char>>,
    pub sql_execution_format: Seq<char>,
    pub footer_line: Option<Seq<char>>,
    pub footer_sql_content: Option<Seq<char>>,
}

impl DeepView for InstallConfig {
    type V = InstallConfigView;

    open spec fn deep_view(&self) -> InstallConfigView {
        InstallConfigView {
            install_file_name: self.install_file_name@,
            header_lines: self.header_lines.deep_view(),
            sql_execution_format: self.sql_execution_format@,
            footer_line: self.footer_line.deep_view(),
            footer_sql_content: self.footer_sql_content.deep_view(),
        }
    }
}

impl Config {
    /// Whether a file is named whose content becomes one more step.
    pub fn has_mod_file(&self) -> (b: bool)
        ensures
            b == (self.mod_file@.len() > 0),
    {
        !self.mod_file.as_str().is_empty()
    }
}

} // verus!
