//! The configuration document: two sections with one text field each.

use vstd::prelude::*;
use vstd::string::StringExecFns;

verus! {

/// The name of the configuration file in the working directory.
pub const CONFIG_FILE_NAME: &'static str = "config.toml";

/// The section `general`.
#[derive(Debug)]
pub struct General {
    pub path_to_polars_csv: String,
}

/// The section `Environment`.
#[derive(Debug)]
pub struct Environment {
    pub name: String,
}

/// A configuration: both sections are always there.
#[derive(Debug)]
pub struct Config {
    pub general: General,
    pub environment: Environment,
}

/// What a configuration stands for: the text of its two fields.
pub struct ConfigView {
    pub path_to_polars_csv: Seq<char>,
    pub environment_name: Seq<char>,
}

impl View for Config {
    type V = ConfigView;

    open spec fn view(&self) -> ConfigView {
        ConfigView {
            path_to_polars_csv: self.general.path_to_polars_csv@,
            environment_name: self.environment.name@,
        }
    }
}

impl PartialEq for Config {
    fn eq(&self, other: &Self) -> (equal: bool) {
        self.general.path_to_polars_csv == other.general.path_to_polars_csv
            && self.environment.name == other.environment.name
    }
}

impl vstd::std_specs::cmp::PartialEqSpecImpl for Config {
    open spec fn obeys_eq_spec() -> bool {
        true
    }

    open spec fn eq_spec(&self, other: &Self) -> bool {
        self@ == other@
    }
}

/// The document that stands in for a configuration file that cannot be read.
pub open spec fn default_document() -> Seq<char> {
    "[general]\npath_to_polars_csv = \"./polars.csv\"\n\n[Environment]\nname = \"development\""@
}

/// The values that every run writes over the loaded ones: a path that
/// carries the time stamp of the run, and the environment `development`.
pub open spec fn refreshed(stamp: Seq<char>) -> ConfigView {
    ConfigView {
        path_to_polars_csv: "./"@ + stamp + "polars.csv"@,
        environment_name: "development"@,
    }
}

/// The two lines that report a configuration.
pub open spec fn report(config: ConfigView) -> (Seq<char>, Seq<char>) {
    ("Path to polars csv: "@ + config.path_to_polars_csv, "Environment name: "@ + config.environment_name)
}

/// The warning that tells of a configuration file that could not be read.
pub open spec fn missing_file_warning(path: Seq<char>, reason: Seq<char>) -> Seq<char> {
    "Creating default config. "@ + path + " not found: "@ + reason
}

impl Config {
    /// Overwrites both fields with those of `other`.
    pub fn update_config(&mut self, other: &Config)
        ensures
            final(self)@ == other@,
    {
        self.general.path_to_polars_csv = other.general.path_to_polars_csv.clone();
        self.environment.name = other.environment.name.clone();
    }

    /// The configuration that a run with the time stamp `stamp` writes.
    pub fn refreshed(stamp: &str) -> (config: Config)
        ensures
            config@ == refreshed(stamp@),
    {
        let mut path = String::from_str("./");
        path.append(stamp);
        path.append("polars.csv");
        Config {
            general: General { path_to_polars_csv: path },
            environment: Environment { name: String::from_str("development") },
        }
    }

    /// The lines that report this configuration: first the path, then the
    /// name of the environment.
    pub fn report(&self) -> (lines: (String, String))
        ensures
            (lines.0@, lines.1@) == report(self@),
    {
        let mut path_line = String::from_str("Path to polars csv: ");
        path_line.append(self.general.path_to_polars_csv.as_str());
        let mut environment_line = String::from_str("Environment name: ");
        environment_line.append(self.environment.name.as_str());
        (path_line, environment_line)
    }
}

/// The text of the default document.
pub fn default_document_text() -> (text: String)
    ensures
        text@ == default_document(),
{
    String::from_str(
        "[general]\npath_to_polars_csv = \"./polars.csv\"\n\n[Environment]\nname = \"development\"",
    )
}

/// The text of the warning for the file at `path` that could not be read
/// for `reason`.
pub fn missing_file_warning_text(path: &str, reason: &str) -> (text: String)
    ensures
        text@ == missing_file_warning(path@, reason@),
{
    let mut text = String::from_str("Creating default config. ");
    text.append(path);
    text.append(" not found: ");
    text.append(reason);
    text
}

} // verus!
