//! A logging runtime: templates for log lines and file names, rotation
//! rules for log files, and the configuration store that ties them together.
//!
//! The library works on plain values. A [`Config`] holds the settings; the
//! functions of [`logger`] change it and render log records with it. What
//! a record looks like is said by a template, compiled by
//! [`logger::formatter`]; where it goes on disk is said by the manager of
//! the log file in [`logger::file_handler`], which names the files, keeps
//! the rotation rules and says, step by step, what is to be done on the
//! file system to write a line. The library itself touches no file: the
//! caller performs each step and reports what came of it.
//!
//! Every function that depends on the time of day comes in two forms: one
//! that is handed the moment, and one that reads the clock.

use crate::logger::file_handler::file_manager::{FileManager, FileManagerView};
use crate::logger::formatter::{
    default_error_segments, default_segments, LogFormatter, WrapperView,
};
use vstd::prelude::*;

verus! {

/// Severity of a log record, from the least to the most severe.
#[derive(Debug, Copy, Clone, PartialEq, Eq, Structural, PartialOrd, Ord, Hash)]
pub enum Level {
    TRACE,
    DEBUG,
    INFO,
    WARN,
    ERROR,
}

impl Level {
    /// Position of the level in the order `TRACE < DEBUG < INFO < WARN < ERROR`.
    pub open spec fn rank(self) -> nat {
        match self {
            Level::TRACE => 0,
            Level::DEBUG => 1,
            Level::INFO => 2,
            Level::WARN => 3,
            Level::ERROR => 4,
        }
    }

    /// The name under which the level appears in log lines and file names.
    pub open spec fn spec_name(self) -> Seq<char> {
        match self {
            Level::TRACE => "TRACE"@,
            Level::DEBUG => "DEBUG"@,
            Level::INFO => "INFO"@,
            Level::WARN => "WARN"@,
            Level::ERROR => "ERROR"@,
        }
    }

    /// The name under which the level appears in log lines and file names.
    pub fn name(&self) -> (name: &'static str)
        ensures
            name@ == self.spec_name(),
    {
        match self {
            Level::TRACE => "TRACE",
            Level::DEBUG => "DEBUG",
            Level::INFO => "INFO",
            Level::WARN => "WARN",
            Level::ERROR => "ERROR",
        }
    }

    /// Whether the level is at least as severe as `threshold`.
    pub fn at_least(&self, threshold: Level) -> (reached: bool)
        ensures
            reached == (self.rank() >= threshold.rank()),
    {
        let mine: u8 = match self {
            Level::TRACE => 0,
            Level::DEBUG => 1,
            Level::INFO => 2,
            Level::WARN => 3,
            Level::ERROR => 4,
        };
        let other: u8 = match threshold {
            Level::TRACE => 0,
            Level::DEBUG => 1,
            Level::INFO => 2,
            Level::WARN => 3,
            Level::ERROR => 4,
        };
        mine >= other
    }
}

/// The settings of the logger: the threshold below which records are
/// dropped, where lines go, the formatter of each level, the manager of the
/// log file where one is set, and the directory of the archives.
#[derive(Debug)]
pub struct Config {
    pub level: Level,
    pub print_to_terminal: bool,
    pub colorized: bool,
    pub trace_log_format: LogFormatter,
    pub debug_log_format: LogFormatter,
    pub info_log_format: LogFormatter,
    pub warn_log_format: LogFormatter,
    pub error_log_format: LogFormatter,
    pub file_manager: Option<FileManager>,
    pub archive_dir: Option<String>,
}

/// What a [`Config`] stands for.
pub struct ConfigView {
    pub level: Level,
    pub print_to_terminal: bool,
    pub colorized: bool,
    pub trace_log_format: Seq<WrapperView>,
    pub debug_log_format: Seq<WrapperView>,
    pub info_log_format: Seq<WrapperView>,
    pub warn_log_format: Seq<WrapperView>,
    pub error_log_format: Seq<WrapperView>,
    pub file_manager: Option<FileManagerView>,
    pub archive_dir: Option<Seq<char>>,
}

impl ConfigView {
    /// The formatter of the lines of `level`.
    pub open spec fn format_of(self, level: Level) -> Seq<WrapperView> {
        match level {
            Level::TRACE => self.trace_log_format,
            Level::DEBUG => self.debug_log_format,
            Level::INFO => self.info_log_format,
            Level::WARN => self.warn_log_format,
            Level::ERROR => self.error_log_format,
        }
    }
}

/// The settings with which the logger starts: records from `INFO` up go to
/// the terminal without colors, in the default templates, and no log file
/// is set.
pub open spec fn default_config() -> ConfigView {
    ConfigView {
        level: Level::INFO,
        print_to_terminal: true,
        colorized: false,
        trace_log_format: default_segments(),
        debug_log_format: default_segments(),
        info_log_format: default_segments(),
        warn_log_format: default_segments(),
        error_log_format: default_error_segments(),
        file_manager: None,
        archive_dir: None,
    }
}

impl View for Config {
    type V = ConfigView;

    open spec fn view(&self) -> ConfigView {
        ConfigView {
            level: self.level,
            print_to_terminal: self.print_to_terminal,
            colorized: self.colorized,
            trace_log_format: self.trace_log_format@,
            debug_log_format: self.debug_log_format@,
            info_log_format: self.info_log_format@,
            warn_log_format: self.warn_log_format@,
            error_log_format: self.error_log_format@,
            file_manager: match self.file_manager {
                Some(manager) => Some(manager@),
                None => None,
            },
            archive_dir: match self.archive_dir {
                Some(dir) => Some(dir@),
                None => None,
            },
        }
    }
}

impl Default for Config {
    fn default() -> (config: Self)
        ensures
            config@ == default_config(),
    {
        Config {
            level: Level::INFO,
            print_to_terminal: true,
            colorized: false,
            trace_log_format: LogFormatter::default(),
            debug_log_format: LogFormatter::default(),
            info_log_format: LogFormatter::default(),
            warn_log_format: LogFormatter::default(),
            error_log_format: LogFormatter::default_for_errors(),
            file_manager: None,
            archive_dir: None,
        }
    }
}

impl Clone for Config {
    fn clone(&self) -> (config: Self)
        ensures
            config@ == self@,
    {
        Config {
            level: self.level,
            print_to_terminal: self.print_to_terminal,
            colorized: self.colorized,
            trace_log_format: self.trace_log_format.clone(),
            debug_log_format: self.debug_log_format.clone(),
            info_log_format: self.info_log_format.clone(),
            warn_log_format: self.warn_log_format.clone(),
            error_log_format: self.error_log_format.clone(),
            file_manager: match &self.file_manager {
                Some(manager) => Some(manager.clone()),
                None => None,
            },
            archive_dir: match &self.archive_dir {
                Some(dir) => Some(dir.clone()),
                None => None,
            },
        }
    }
}

impl Default for Level {
    fn default() -> (level: Self)
        ensures
            level == Level::INFO,
    {
        Level::INFO
    }
}

} // verus!

pub mod helper;
pub mod text;
pub mod logger;
