//! What one run is asked to do.

use vstd::prelude::*;
use vstd::string::*;
use crate::text::{same_text, texts};

verus! {

/// What becomes of a source file once it has been written to its destination.
#[derive(Debug, Clone, Copy, PartialEq, Eq, Structural)]
pub enum Mode {
    /// The source file stays.
    Copy,
    /// The source file is removed.
    Move,
}

/// The settings of a run. They are fixed before the first file is looked at.
#[derive(Debug, Clone, PartialEq, Eq)]
pub struct Configuration {
    /// The root of the tree that is scanned.
    pub source: String,
    /// The root under which files are written.
    pub destination: String,
    /// The extensions that let a file pass.
    pub extensions: Vec<String>,
    /// The file names that let a file pass.
    pub file_names: Vec<String>,
    /// Whether a file keeps its relative path under the destination.
    pub preserve_structure: bool,
    /// Copy or move.
    pub mode: Mode,
    /// Whether the run only reports what it would do.
    pub dry_run: bool,
}

/// What a `Configuration` holds, as text.
pub struct ConfigurationView {
    pub source: Seq<char>,
    pub destination: Seq<char>,
    pub extensions: Seq<Seq<char>>,
    pub file_names: Seq<Seq<char>>,
    pub preserve_structure: bool,
    pub mode: Mode,
    pub dry_run: bool,
}

impl View for Configuration {
    type V = ConfigurationView;

    open spec fn view(&self) -> ConfigurationView {
        ConfigurationView {
            source: self.source@,
            destination: self.destination@,
            extensions: texts(self.extensions@),
            file_names: texts(self.file_names@),
            preserve_structure: self.preserve_structure,
            mode: self.mode,
            dry_run: self.dry_run,
        }
    }
}

/// Why a run cannot start.
#[derive(Debug, Clone, PartialEq, Eq)]
pub enum ConfigError {
    /// The option named here came last, without the value it needs.
    MissingValue(String),
    /// The argument named here is no option of the tool.
    UnknownArgument(String),
    /// Neither copying nor moving was asked for.
    MissingMode,
    /// Both copying and moving were asked for.
    ConflictingModes,
    /// The path named here is no directory.
    NotADirectory(String),
}

/// What a `ConfigError` holds, as text.
pub enum ConfigErrorView {
    MissingValue(Seq<char>),
    UnknownArgument(Seq<char>),
    MissingMode,
    ConflictingModes,
    NotADirectory(Seq<char>),
}

impl View for ConfigError {
    type V = ConfigErrorView;

    open spec fn view(&self) -> ConfigErrorView {
        match self {
            ConfigError::MissingValue(option) => ConfigErrorView::MissingValue(option@),
            ConfigError::UnknownArgument(argument) => ConfigErrorView::UnknownArgument(argument@),
            ConfigError::MissingMode => ConfigErrorView::MissingMode,
            ConfigError::ConflictingModes => ConfigErrorView::ConflictingModes,
            ConfigError::NotADirectory(path) => ConfigErrorView::NotADirectory(path@),
        }
    }
}

/// What an option that takes a value wants after it.
pub open spec fn value_kind(option: Seq<char>) -> Seq<char> {
    if option == "--extensions"@ {
        "a comma-separated list of extensions"@
    } else if option == "--file_name"@ {
        "a comma-separated list of file names"@
    } else {
        "a directory path"@
    }
}

/// The line that tells the user of an error.
pub open spec fn message_of(e: ConfigErrorView) -> Seq<char> {
    match e {
        ConfigErrorView::MissingValue(option) => "Error: "@ + option + " requires "@ + value_kind(
            option,
        ),
        ConfigErrorView::UnknownArgument(argument) => "Error: Unknown argument '"@ + argument
            + "'"@,
        ConfigErrorView::MissingMode => "Error: Either --copy or --cut is required"@,
        ConfigErrorView::ConflictingModes => "Error: --copy and --cut cannot be used together"@,
        ConfigErrorView::NotADirectory(path) => "Error: \""@ + path + "\" is not a directory"@,
    }
}

impl ConfigError {
    /// The line that tells the user of this error.
    pub fn message(&self) -> (line: String)
        ensures
            line@ == message_of(self@),
    {
        match self {
            ConfigError::MissingValue(option) => {
                let mut line = String::from_str("Error: ");
                line.append(option.as_str());
                line.append(" requires ");
                if same_text(option.as_str(), "--extensions") {
                    line.append("a comma-separated list of extensions");
                } else if same_text(option.as_str(), "--file_name") {
                    line.append("a comma-separated list of file names");
                } else {
                    line.append("a directory path");
                }
                line
            },
            ConfigError::UnknownArgument(argument) => {
                let mut line = String::from_str("Error: Unknown argument '");
                line.append(argument.as_str());
                line.append("'");
                line
            },
            ConfigError::MissingMode => String::from_str("Error: Either --copy or --cut is required"),
            ConfigError::ConflictingModes => String::from_str(
                "Error: --copy and --cut cannot be used together",
            ),
            ConfigError::NotADirectory(path) => {
                let mut line = String::from_str("Error: \"");
                line.append(path.as_str());
                line.append("\" is not a directory");
                line
            },
        }
    }
}

impl Configuration {
    /// Refuses to start where the source root or the destination root is no
    /// directory. The caller looks at the two paths and says what it found;
    /// where both are wrong, the source root is the one named.
    pub fn check_directories(&self, source_is_dir: bool, destination_is_dir: bool) -> (r: Result<
        (),
        ConfigError,
    >)
        ensures
            r is Ok <==> source_is_dir && destination_is_dir,
            r matches Err(e) ==> e@ == ConfigErrorView::NotADirectory(
                if !source_is_dir {
                    self@.source
                } else {
                    self@.destination
                },
            ),
    {
        if !source_is_dir {
            Err(ConfigError::NotADirectory(self.source.clone()))
        } else if !destination_is_dir {
            Err(ConfigError::NotADirectory(self.destination.clone()))
        } else {
            Ok(())
        }
    }
}

} // verus!
