//! Reads a personal planning vault (a dish catalogue, a weekly meal plan and
//! task notes, all written as markdown with front-matter) into typed values,
//! and derives from them a shopping task and kanban boards.

use vstd::prelude::*;
use vstd::string::StringExecFns;

use crate::yaml::{scan_error_text, text_of_scan_error};

pub mod dates;
pub mod food;
pub mod food_shoping_sheduler;
pub mod kanban;
pub mod make_kanban_boards;
pub mod mdast;
pub mod name_map;
pub mod task;
pub mod text;
pub mod util;
pub mod world;
pub mod yaml;

verus! {

/// The names of the vault's directories.
pub struct Directories {
    pub jobs: String,
    pub food: String,
    pub tasks: String,
}

impl Directories {
    /// The directories of a vault that has no configuration of its own.
    pub fn new() -> (directories: Directories)
        ensures
            directories.jobs@ == "jobs"@,
            directories.food@ == "food"@,
            directories.tasks@ == "tasks"@,
    {
        Directories { jobs: "jobs".to_owned(), food: "food".to_owned(), tasks: "tasks".to_owned() }
    }
}

/// The configuration of a run.
pub struct Config {
    pub directories: Directories,
}

/// What can be wrong with the text of a configuration. No text is refused
/// so far, so `Config::from_str` never returns one.
#[derive(Debug)]
pub enum ParseError {
    Malformed,
}

/// Why a vault could not be read.
#[derive(Debug)]
pub enum WorldError {
    /// The configuration is malformed.
    Parse(ParseError),
    /// The markdown parser refused a document; its message.
    MarkdownParse(String),
    /// The dish catalogue has not the shape of a catalogue.
    ErrorWhileParsingDiches,
    /// The weekly schedule has not the shape of a schedule, names a dish
    /// that the catalogue lacks, or leaves out a day.
    ErrorWhileParsingWeekDichShedule,
    /// A task note lacks front-matter, or its front-matter lacks what a task
    /// needs.
    ErrorWhileParsingTask,
    /// Front-matter is opened and never closed, or holds no document.
    NoMetadataEnding,
    /// The front-matter is no YAML.
    YamlParsingError(::yaml_rust::ScanError),
}

/// What reading a vault gives: a value, or why there is none.
pub type WorldResult<T> = Result<T, WorldError>;

/// A `WorldError` as a mathematical value: the kind of the failure, with
/// the error or the message that it holds.
pub enum Failure {
    Parse(ParseError),
    MarkdownParse(Seq<char>),
    ErrorWhileParsingDiches,
    ErrorWhileParsingWeekDichShedule,
    ErrorWhileParsingTask,
    NoMetadataEnding,
    YamlParsingError(::yaml_rust::ScanError),
}

impl View for WorldError {
    type V = Failure;

    open spec fn view(&self) -> Failure {
        match self {
            WorldError::Parse(error) => Failure::Parse(*error),
            WorldError::MarkdownParse(message) => Failure::MarkdownParse(message@),
            WorldError::ErrorWhileParsingDiches => Failure::ErrorWhileParsingDiches,
            WorldError::ErrorWhileParsingWeekDichShedule => {
                Failure::ErrorWhileParsingWeekDichShedule
            },
            WorldError::ErrorWhileParsingTask => Failure::ErrorWhileParsingTask,
            WorldError::NoMetadataEnding => Failure::NoMetadataEnding,
            WorldError::YamlParsingError(error) => Failure::YamlParsingError(*error),
        }
    }
}

impl ParseError {
    /// What the error says.
    pub open spec fn message(self) -> Seq<char> {
        "malformed configuration"@
    }

    /// The error in words.
    pub fn to_string(&self) -> (text: String)
        ensures
            text@ == self.message(),
    {
        "malformed configuration".to_owned()
    }
}

impl WorldError {
    /// What the error says.
    pub open spec fn message(self) -> Seq<char> {
        match self {
            WorldError::Parse(error) => "Parse Error: "@ + error.message(),
            WorldError::MarkdownParse(message) => "MD parse Error: "@ + message@,
            WorldError::ErrorWhileParsingDiches => "Error while parsing diches"@,
            WorldError::ErrorWhileParsingWeekDichShedule => {
                "Error while parsing week diches shedule"@
            },
            WorldError::ErrorWhileParsingTask => "Error while parsing task"@,
            WorldError::NoMetadataEnding => "No metadata ending"@,
            WorldError::YamlParsingError(error) => "Yaml parsing error: "@ + text_of_scan_error(
                error,
            ),
        }
    }

    /// The error in words.
    pub fn to_string(&self) -> (text: String)
        ensures
            text@ == self.message(),
    {
        match self {
            WorldError::Parse(error) => {
                let mut text = "Parse Error: ".to_owned();
                text.append(error.to_string().as_str());
                text
            },
            WorldError::MarkdownParse(message) => {
                let mut text = "MD parse Error: ".to_owned();
                text.append(message.as_str());
                text
            },
            WorldError::ErrorWhileParsingDiches => "Error while parsing diches".to_owned(),
            WorldError::ErrorWhileParsingWeekDichShedule => {
                "Error while parsing week diches shedule".to_owned()
            },
            WorldError::ErrorWhileParsingTask => "Error while parsing task".to_owned(),
            WorldError::NoMetadataEnding => "No metadata ending".to_owned(),
            WorldError::YamlParsingError(error) => {
                let mut text = "Yaml parsing error: ".to_owned();
                text.append(scan_error_text(error).as_str());
                text
            },
        }
    }
}

impl Config {
    /// The configuration of a vault: read from the text of its
    /// configuration file, or the default where the vault has no such file.
    pub fn new(contents: Option<&str>) -> (config: WorldResult<Config>)
        ensures
            config matches Ok(c) && c.directories.jobs@ == "jobs"@ && c.directories.food@
                == "food"@ && c.directories.tasks@ == "tasks"@,
    {
        match contents {
            Some(text) => match Config::from_str(text) {
                Ok(config) => Ok(config),
                Err(error) => Err(WorldError::Parse(error)),
            },
            None => Ok(Config { directories: Directories::new() }),
        }
    }

    /// Reads a configuration from its text. No key is defined yet, so every
    /// text gives the default directories.
    pub fn from_str(s: &str) -> (config: Result<Config, ParseError>)
        ensures
            config matches Ok(c) && c.directories.jobs@ == "jobs"@ && c.directories.food@
                == "food"@ && c.directories.tasks@ == "tasks"@,
    {
        Ok(Config { directories: Directories::new() })
    }
}

impl std::str::FromStr for Config {
    type Err = ParseError;

    /// Reads a configuration from its text, as the function of the same
    /// name does: every text gives the default directories.
    fn from_str(s: &str) -> (config: Result<Config, ParseError>)
        ensures
            config matches Ok(c) && c.directories.jobs@ == "jobs"@ && c.directories.food@
                == "food"@ && c.directories.tasks@ == "tasks"@,
    {
        Config::from_str(s)
    }
}

} // verus!
