//! What the setters of the configuration and the loading of a configuration
//! file report when they fail.
//!
//! Every setter error has a kind `UnableToLoadConfig` for a configuration
//! that cannot be reached. The setters of this library work on a
//! configuration that they are handed, and never report it; it is there for
//! the keeper of a shared configuration, whose lock may fail.

use crate::logger::file_handler::file_manager::FileManagerFromStringError;
use crate::logger::formatter::ParseStringToWrappersError;
use vstd::prelude::*;
use vstd::std_specs::convert::FromSpecImpl;

verus! {

/// Why the manager of the log file cannot be reached.
#[derive(Debug, Clone, Copy, PartialEq, Eq, Structural)]
pub enum AccessError {
    LoadConfig,
    FileNotSet,
}

/// Why no log file was set.
#[derive(Debug, Clone, Copy, PartialEq, Eq, Structural)]
pub enum SetFileError {
    UnableToLoadConfig,
    UnableToLoadFromString(FileManagerFromStringError),
    FileIsntSet,
}

/// Why the compression was not set.
#[derive(Debug, Clone, Copy, PartialEq, Eq, Structural)]
pub enum SetCompressionError {
    UnableToLoadConfig,
    FileIsntSet,
    IncorrectCompressionValue,
}

/// Why no rotation rule was added.
#[derive(Debug, Clone, Copy, PartialEq, Eq, Structural)]
pub enum AddRotationError {
    UnableToLoadConfig,
    FileIsntSet,
    IncorrectFormatGiven,
}

/// Why the threshold was not set.
#[derive(Debug, Clone, Copy, PartialEq, Eq, Structural)]
pub enum SetLogLevelError {
    UnableToLoadConfig,
}

/// Why the terminal was not switched on or off.
#[derive(Debug, Clone, Copy, PartialEq, Eq, Structural)]
pub enum SetPrintToTerminalError {
    UnableToLoadConfig,
}

/// Why the colors were not switched on or off.
#[derive(Debug, Clone, Copy, PartialEq, Eq, Structural)]
pub enum SetColorizedError {
    UnableToLoadConfig,
}

/// Why a template of log lines was not set.
#[derive(Debug, Clone, Copy, PartialEq, Eq, Structural)]
pub enum SetLevelFormattingError {
    UnableToLoadConfig,
    IncorrectFormatGiven(ParseStringToWrappersError),
}

/// Why the directory of the archives was not set.
#[derive(Debug, Clone, Copy, PartialEq, Eq, Structural)]
pub enum SetArchiveDirError {
    UnableToLoadConfig,
    UnableToCreateDir,
}

impl From<ParseStringToWrappersError> for SetLevelFormattingError {
    fn from(value: ParseStringToWrappersError) -> (out: Self) {
        SetLevelFormattingError::IncorrectFormatGiven(value)
    }
}

impl FromSpecImpl<ParseStringToWrappersError> for SetLevelFormattingError {
    open spec fn obeys_from_spec() -> bool {
        true
    }

    open spec fn from_spec(value: ParseStringToWrappersError) -> Self {
        SetLevelFormattingError::IncorrectFormatGiven(value)
    }
}

impl From<AccessError> for SetCompressionError {
    fn from(e: AccessError) -> (out: Self) {
        match e {
            AccessError::LoadConfig => SetCompressionError::UnableToLoadConfig,
            AccessError::FileNotSet => SetCompressionError::FileIsntSet,
        }
    }
}

impl FromSpecImpl<AccessError> for SetCompressionError {
    open spec fn obeys_from_spec() -> bool {
        true
    }

    open spec fn from_spec(e: AccessError) -> Self {
        match e {
            AccessError::LoadConfig => SetCompressionError::UnableToLoadConfig,
            AccessError::FileNotSet => SetCompressionError::FileIsntSet,
        }
    }
}

impl From<AccessError> for SetFileError {
    fn from(e: AccessError) -> (out: Self) {
        match e {
            AccessError::LoadConfig => SetFileError::UnableToLoadConfig,
            AccessError::FileNotSet => SetFileError::FileIsntSet,
        }
    }
}

impl FromSpecImpl<AccessError> for SetFileError {
    open spec fn obeys_from_spec() -> bool {
        true
    }

    open spec fn from_spec(e: AccessError) -> Self {
        match e {
            AccessError::LoadConfig => SetFileError::UnableToLoadConfig,
            AccessError::FileNotSet => SetFileError::FileIsntSet,
        }
    }
}

impl From<AccessError> for AddRotationError {
    fn from(e: AccessError) -> (out: Self) {
        match e {
            AccessError::LoadConfig => AddRotationError::UnableToLoadConfig,
            AccessError::FileNotSet => AddRotationError::FileIsntSet,
        }
    }
}

impl FromSpecImpl<AccessError> for AddRotationError {
    open spec fn obeys_from_spec() -> bool {
        true
    }

    open spec fn from_spec(e: AccessError) -> Self {
        match e {
            AccessError::LoadConfig => AddRotationError::UnableToLoadConfig,
            AccessError::FileNotSet => AddRotationError::FileIsntSet,
        }
    }
}

/// Why a configuration file is refused. `ReadFileError` and `ParseError`
/// hold what the reader or the parser said.
#[derive(Debug, PartialEq, Eq)]
pub enum ReadFromConfigFileError {
    ReadFileError(String),
    IncorrectFileName,
    IncorrectFileExtension,
    ParseError(String),
    DisabledToBeUsed,
    IncorrectValue,
    SetLogLevel(SetLogLevelError),
    SetPrintToTerminal(SetPrintToTerminalError),
    SetColorized(SetColorizedError),
    SetLevelFormatting(SetLevelFormattingError),
    SetFile(SetFileError),
    SetCompression(SetCompressionError),
    AddRotation(AddRotationError),
    SetArchiveDirError(SetArchiveDirError),
}

/// What a [`ReadFromConfigFileError`] stands for.
pub enum ReadErrorView {
    ReadFileError(Seq<char>),
    IncorrectFileName,
    IncorrectFileExtension,
    ParseError(Seq<char>),
    DisabledToBeUsed,
    IncorrectValue,
    SetLogLevel(SetLogLevelError),
    SetPrintToTerminal(SetPrintToTerminalError),
    SetColorized(SetColorizedError),
    SetLevelFormatting(SetLevelFormattingError),
    SetFile(SetFileError),
    SetCompression(SetCompressionError),
    AddRotation(AddRotationError),
    SetArchiveDirError(SetArchiveDirError),
}

impl View for ReadFromConfigFileError {
    type V = ReadErrorView;

    open spec fn view(&self) -> ReadErrorView {
        match self {
            ReadFromConfigFileError::ReadFileError(cause) => ReadErrorView::ReadFileError(cause@),
            ReadFromConfigFileError::IncorrectFileName => ReadErrorView::IncorrectFileName,
            ReadFromConfigFileError::IncorrectFileExtension => ReadErrorView::IncorrectFileExtension,
            ReadFromConfigFileError::ParseError(cause) => ReadErrorView::ParseError(cause@),
            ReadFromConfigFileError::DisabledToBeUsed => ReadErrorView::DisabledToBeUsed,
            ReadFromConfigFileError::IncorrectValue => ReadErrorView::IncorrectValue,
            ReadFromConfigFileError::SetLogLevel(e) => ReadErrorView::SetLogLevel(*e),
            ReadFromConfigFileError::SetPrintToTerminal(e) => ReadErrorView::SetPrintToTerminal(*e),
            ReadFromConfigFileError::SetColorized(e) => ReadErrorView::SetColorized(*e),
            ReadFromConfigFileError::SetLevelFormatting(e) => ReadErrorView::SetLevelFormatting(*e),
            ReadFromConfigFileError::SetFile(e) => ReadErrorView::SetFile(*e),
            ReadFromConfigFileError::SetCompression(e) => ReadErrorView::SetCompression(*e),
            ReadFromConfigFileError::AddRotation(e) => ReadErrorView::AddRotation(*e),
            ReadFromConfigFileError::SetArchiveDirError(e) => ReadErrorView::SetArchiveDirError(*e),
        }
    }
}

/// Why the values of a configuration make no sense.
#[derive(Debug, Clone, Copy, PartialEq, Eq, Structural)]
pub enum ParseConfigError {
    IncorrectValue,
}

impl ParseConfigError {
    /// The error in words.
    pub open spec fn spec_message(self) -> Seq<char> {
        "incorrect value given"@
    }

    /// The error in words.
    pub fn message(&self) -> (out: String)
        ensures
            out@ == self.spec_message(),
    {
        String::from_str("incorrect value given")
    }
}

} // verus!
