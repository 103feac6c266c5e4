//! The steps of a run as a state machine.
//!
//! A run starts idle, asks for a scan, and ends completed or failed
//! according to how the scan went. `update` is one step: it takes the state
//! and a message and gives the next state and, if something is to be done
//! outside, a command. The scan itself is the caller's work.

use vstd::prelude::*;
use crate::config::{ScannerConfig, ScannerConfigView};
use crate::offenders::OffenderFilter;
use crate::output::{render_report, report_of, OutputFormat, Report};
use crate::summary::{option_text, views, ScannedFile, ScannedFileView};

verus! {

/// How far a run has come.
#[derive(Clone, Copy, Debug, PartialEq, Eq)]
pub enum Status {
    Idle,
    Scanning,
    Completed,
    Failed,
}

/// The state of a run.
#[derive(Debug)]
pub struct Model {
    config: ScannerConfig,
    files: Vec<ScannedFile>,
    status: Status,
    error: Option<String>,
}

/// What can happen to a run.
#[derive(Debug)]
pub enum Msg {
    /// The run begins.
    Start,
    /// The scan has ended with these files.
    ScanCompleted(Vec<ScannedFile>),
    /// The scan has failed for this reason.
    ScanFailed(String),
}

/// What a step asks the caller to do.
#[derive(Debug)]
pub enum Command {
    /// Scan under these settings.
    Scan(ScannerConfig),
}

impl Command {
    /// The message that answers the command once the scan it asked for has
    /// ended with `outcome`.
    pub fn resolve(self, outcome: Result<Vec<ScannedFile>, String>) -> (message: Msg)
        ensures
            match outcome {
                Ok(files) => message == Msg::ScanCompleted(files),
                Err(error) => message == Msg::ScanFailed(error),
            },
    {
        match self {
            Command::Scan(_) => match outcome {
                Ok(files) => Msg::ScanCompleted(files),
                Err(error) => Msg::ScanFailed(error),
            },
        }
    }
}

impl Model {
    /// The settings of the run.
    pub closed spec fn config(&self) -> ScannerConfigView {
        self.config@
    }

    /// The files of the scan, once it has completed.
    pub closed spec fn files(&self) -> Seq<ScannedFileView> {
        views(self.files@)
    }

    /// How far the run has come.
    pub closed spec fn status(&self) -> Status {
        self.status
    }

    /// Why the scan failed, once it has.
    pub closed spec fn error(&self) -> Option<Seq<char>> {
        option_text(self.error)
    }

    /// An idle run under the given settings.
    pub fn new(config: ScannerConfig) -> (model: Model)
        ensures
            model.config() == config@,
            model.files().len() == 0,
            model.status() == Status::Idle,
            model.error() is None,
    {
        Model { config, files: Vec::new(), status: Status::Idle, error: None }
    }

    /// What the run has come to: the report if the scan completed, the
    /// reason if it failed, and a complaint if the run has not ended.
    pub fn finish(
        self,
        format: OutputFormat,
        offender_filter: Option<&OffenderFilter>,
    ) -> (result: Result<Report, String>)
        ensures
            match self.status() {
                Status::Completed => result matches Ok(report) && report@ == report_of(
                    self.config(),
                    self.files(),
                    format,
                    match offender_filter {
                        Some(limits) => Some(*limits),
                        None => None,
                    },
                ),
                Status::Failed => result matches Err(message) && message@ == match self.error() {
                    Some(reason) => reason,
                    None => "command failed without providing an error message"@,
                },
                Status::Idle | Status::Scanning => result matches Err(message) && message@
                    == "application exited before finishing processing"@,
            },
    {
        match self.status {
            Status::Completed => Ok(
                render_report(&self.config, self.files.as_slice(), format, offender_filter),
            ),
            Status::Failed => match self.error {
                Some(message) => Err(message),
                None => Err(String::from_str("command failed without providing an error message")),
            },
            Status::Idle | Status::Scanning => Err(
                String::from_str("application exited before finishing processing"),
            ),
        }
    }
}

/// One step of a run: takes a message, moves the state on and says what is
/// to be done outside, if anything.
///
/// The start of a run asks for a scan under the run's settings. The end of
/// the scan, either way, is recorded and asks for nothing more.
pub fn update(model: &mut Model, message: Msg) -> (command: Option<Command>)
    ensures
        final(model).config() == old(model).config(),
        match message {
            Msg::Start => {
                &&& final(model).status() == Status::Scanning
                &&& final(model).files() == old(model).files()
                &&& final(model).error() == old(model).error()
                &&& command matches Some(Command::Scan(config)) && config@ == old(model).config()
            },
            Msg::ScanCompleted(files) => {
                &&& final(model).status() == Status::Completed
                &&& final(model).files() == views(files@)
                &&& final(model).error() == old(model).error()
                &&& command is None
            },
            Msg::ScanFailed(error) => {
                &&& final(model).status() == Status::Failed
                &&& final(model).files() == old(model).files()
                &&& final(model).error() == Some(error@)
                &&& command is None
            },
        },
{
    match message {
        Msg::Start => {
            model.status = Status::Scanning;
            Some(Command::Scan(model.config.clone()))
        },
        Msg::ScanCompleted(files) => {
            model.status = Status::Completed;
            model.files = files;
            None
        },
        Msg::ScanFailed(error) => {
            model.status = Status::Failed;
            model.error = Some(error);
            None
        },
    }
}

/// Runs the state machine from its start to its end for a scan that ended
/// with `outcome`: the report on the files if the scan went well, its reason
/// if it failed.
pub fn run(
    config: ScannerConfig,
    format: OutputFormat,
    offender_filter: Option<&OffenderFilter>,
    outcome: Result<Vec<ScannedFile>, String>,
) -> (result: Result<Report, String>)
    ensures
        match outcome {
            Ok(files) => result matches Ok(report) && report@ == report_of(
                config@,
                views(files@),
                format,
                match offender_filter {
                    Some(limits) => Some(*limits),
                    None => None,
                },
            ),
            Err(error) => result matches Err(message) && message@ == error@,
        },
{
    let mut model = Model::new(config);
    match update(&mut model, Msg::Start) {
        Some(command) => {
            let follow_up = command.resolve(outcome);
            let _ = update(&mut model, follow_up);
        },
        None => {},
    }
    model.finish(format, offender_filter)
}

} // verus!
