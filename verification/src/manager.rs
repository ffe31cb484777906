//! The configuration manager as a state machine. One run goes once through
//! locating the file, loading it, reporting what was loaded, overwriting
//! the two fields, and persisting the result. The machine decides; its
//! caller does what each action asks for and hands back what came of it.

use vstd::prelude::*;
use crate::config::{Config, CONFIG_FILE_NAME, default_document, default_document_text, refreshed,
    report, missing_file_warning, missing_file_warning_text};

verus! {

/// Where a run stands: what it is waiting for.
#[derive(Debug)]
pub enum State {
    /// For the place of the configuration file.
    Locating,
    /// For the text of the file.
    Reading,
    /// For the configuration that the text holds.
    Parsing,
    /// For the report on the loaded configuration to be printed.
    Reporting(Config),
    /// For the time stamp of the run.
    Stamping(Config),
    /// For the text of the new configuration.
    Serializing,
    /// For the text to be written to the file.
    Writing,
    /// For nothing: the run has ended well.
    Done,
    /// For nothing: the run has been given up.
    Failed,
}

/// What came of the last action.
#[derive(Debug)]
pub enum Event {
    /// The place of the file is known.
    Located,
    /// The file was read, and this is its text.
    Text(String),
    /// The file at `path` could not be read, for `reason`: it is taken to
    /// be missing.
    Missing { path: String, reason: String },
    /// The text holds this configuration.
    Parsed(Config),
    /// The report was printed.
    Reported,
    /// The time stamp of the run.
    Stamp(String),
    /// The text of the configuration.
    Serialized(String),
    /// The text was written.
    Written,
    /// The action failed.
    Failure,
}

/// What the caller is to do next.
#[derive(Debug)]
pub enum Action {
    /// Find the file of this name in the working directory.
    Locate(&'static str),
    /// Read the file.
    Read,
    /// Print the warning, if there is one, and parse `text`.
    Parse { text: String, warning: Option<String> },
    /// Print the two lines.
    Report { path_line: String, environment_line: String },
    /// Take the time.
    Stamp,
    /// Turn the configuration into text.
    Serialize(Config),
    /// Write the text over the file.
    Write(String),
    /// Stop: the run has ended well.
    Finish,
    /// Stop: the failure is fatal.
    Abort,
}

/// The beginning of a run.
pub fn start() -> (first: (State, Action))
    ensures
        first.0 is Locating,
        first.1 == Action::Locate(CONFIG_FILE_NAME),
{
    (State::Locating, Action::Locate(CONFIG_FILE_NAME))
}

/// `next` is the step that the machine takes from `state` on `event`.
///
/// A file that cannot be read is no failure: the default document is parsed
/// in its place, with a warning. Everything else that goes wrong is fatal,
/// and so is an event that the state was not waiting for. Once a run has
/// ended, it stays ended.
pub open spec fn steps(state: State, event: Event, next: (State, Action)) -> bool {
    match (state, event) {
        (State::Locating, Event::Located) => next.0 is Reading && next.1 is Read,
        (State::Reading, Event::Text(read)) => {
            &&& next.0 is Parsing
            &&& next.1 matches Action::Parse { text, warning }
            &&& text@ == read@
            &&& warning is None
        },
        (State::Reading, Event::Missing { path, reason }) => {
            &&& next.0 is Parsing
            &&& next.1 matches Action::Parse { text, warning }
            &&& text@ == default_document()
            &&& warning matches Some(w)
            &&& w@ == missing_file_warning(path@, reason@)
        },
        (State::Parsing, Event::Parsed(loaded)) => {
            &&& next.0 matches State::Reporting(kept)
            &&& kept@ == loaded@
            &&& next.1 matches Action::Report { path_line, environment_line }
            &&& (path_line@, environment_line@) == report(loaded@)
        },
        (State::Reporting(loaded), Event::Reported) => {
            &&& next.0 matches State::Stamping(kept)
            &&& kept@ == loaded@
            &&& next.1 is Stamp
        },
        (State::Stamping(_), Event::Stamp(stamp)) => {
            &&& next.0 is Serializing
            &&& next.1 matches Action::Serialize(merged)
            &&& merged@ == refreshed(stamp@)
        },
        (State::Serializing, Event::Serialized(written)) => {
            &&& next.0 is Writing
            &&& next.1 matches Action::Write(text)
            &&& text@ == written@
        },
        (State::Writing, Event::Written) => next.0 is Done && next.1 is Finish,
        (State::Done, _) => next.0 is Done && next.1 is Finish,
        _ => next.0 is Failed && next.1 is Abort,
    }
}

/// Takes one step of a run.
pub fn step(state: State, event: Event) -> (next: (State, Action))
    ensures
        steps(state, event, next),
{
    match (state, event) {
        (State::Locating, Event::Located) => (State::Reading, Action::Read),
        (State::Reading, Event::Text(text)) => (
            State::Parsing,
            Action::Parse { text, warning: None },
        ),
        (State::Reading, Event::Missing { path, reason }) => (
            State::Parsing,
            Action::Parse {
                text: default_document_text(),
                warning: Some(missing_file_warning_text(path.as_str(), reason.as_str())),
            },
        ),
        (State::Parsing, Event::Parsed(loaded)) => {
            let (path_line, environment_line) = loaded.report();
            (State::Reporting(loaded), Action::Report { path_line, environment_line })
        },
        (State::Reporting(loaded), Event::Reported) => (State::Stamping(loaded), Action::Stamp),
        (State::Stamping(loaded), Event::Stamp(stamp)) => {
            let mut merged = loaded;
            merged.update_config(&Config::refreshed(stamp.as_str()));
            (State::Serializing, Action::Serialize(merged))
        },
        (State::Serializing, Event::Serialized(text)) => (State::Writing, Action::Write(text)),
        (State::Writing, Event::Written) => (State::Done, Action::Finish),
        (State::Done, _) => (State::Done, Action::Finish),
        _ => (State::Failed, Action::Abort),
    }
}

} // verus!
