//! Configuration of the logger and the rendering of log records.

use crate::helper::Clock;
use crate::logger::file_handler::file_manager::{
    lemma_manager_error, manager_error, manager_of, with_compression, with_rotation,
    CompressionType, FileManager,
};
use crate::logger::file_handler::file_manager::rotation_of;
use crate::logger::formatter::{
    compile, segments_of, LogColor, LogFormatter, LogPart, PartView, WrapperView,
};
use crate::logger::from_file_config::{
    applied_view, load_config, load_error, load_of, ConfigForSerde,
};
use crate::logger::set_errors::{
    AddRotationError, ReadFromConfigFileError, SetArchiveDirError, SetColorizedError,
    SetCompressionError, SetFileError, SetLevelFormattingError, SetLogLevelError,
    SetPrintToTerminalError,
};
use crate::text::{decimal, push_decimal};
use crate::{default_config, Config, ConfigView, Level};
use vstd::prelude::*;

pub mod archivation;
pub mod file_handler;
pub mod formatter;
pub mod from_env;
pub mod from_file_config;
pub mod set_errors;

verus! {

/// One log record: where the call stands, what it says and how severe it is.
#[derive(Debug)]
pub struct LogInfo {
    pub module: String,
    pub file: String,
    pub line: u32,
    pub message: String,
    pub level: Level,
}

/// What a [`LogInfo`] stands for.
pub struct LogInfoView {
    pub module: Seq<char>,
    pub file: Seq<char>,
    pub line: u32,
    pub message: Seq<char>,
    pub level: Level,
}

impl View for LogInfo {
    type V = LogInfoView;

    open spec fn view(&self) -> LogInfoView {
        LogInfoView {
            module: self.module@,
            file: self.file@,
            line: self.line,
            message: self.message@,
            level: self.level,
        }
    }
}

/// The text that a part of a log line stands for in a record written at
/// the moment whose time and date are given.
pub open spec fn segment_text(part: PartView, info: LogInfoView, time: Seq<char>, date: Seq<char>) -> Seq<
    char,
> {
    match part {
        PartView::Message => info.message,
        PartView::Time => time,
        PartView::File => info.file,
        PartView::Line => decimal(info.line as nat),
        PartView::Date => date,
        PartView::Level => info.level.spec_name(),
        PartView::Text(text) => text,
        PartView::ModulePath => info.module,
    }
}

/// The text of one segment: the text of its part, wrapped in the escape
/// codes of its color where colors are on and the segment has one.
pub open spec fn segment_output(
    segment: WrapperView,
    info: LogInfoView,
    time: Seq<char>,
    date: Seq<char>,
    colorize: bool,
) -> Seq<char> {
    let text = segment_text(segment.part, info, time, date);
    match segment.color {
        Some(color) => if colorize {
            LogColor::spec_colorize(text, color)
        } else {
            text
        },
        None => text,
    }
}

/// The log line of a record: the texts of the segments, one after the other.
pub open spec fn render(
    segments: Seq<WrapperView>,
    info: LogInfoView,
    time: Seq<char>,
    date: Seq<char>,
    colorize: bool,
) -> Seq<char>
    decreases segments.len(),
{
    if segments.len() == 0 {
        Seq::empty()
    } else {
        render(segments.drop_last(), info, time, date, colorize) + segment_output(
            segments.last(),
            info,
            time,
            date,
            colorize,
        )
    }
}

/// The threshold below which records are dropped.
pub fn get_log_level(config: &Config) -> (level: Level)
    ensures
        level == config@.level,
{
    config.level
}

/// The formatter of the lines of `level`.
pub fn get_log_format(config: &Config, level: Level) -> (formatter: LogFormatter)
    ensures
        formatter@ == config@.format_of(level),
{
    match level {
        Level::TRACE => config.trace_log_format.clone(),
        Level::DEBUG => config.debug_log_format.clone(),
        Level::INFO => config.info_log_format.clone(),
        Level::WARN => config.warn_log_format.clone(),
        Level::ERROR => config.error_log_format.clone(),
    }
}

/// The configuration after a log file is set at the moment whose time and
/// date are given: a new manager takes the place of the one before it. A
/// template that is refused changes nothing.
pub open spec fn with_file(v: ConfigView, format: Seq<char>, time: Seq<char>, date: Seq<char>) -> ConfigView {
    match manager_of(format, v.level, time, date) {
        Ok(manager) => ConfigView { file_manager: Some(manager), ..v },
        Err(_) => v,
    }
}

/// What setting a log file returns.
pub open spec fn set_file_result(
    v: ConfigView,
    format: Seq<char>,
    time: Seq<char>,
    date: Seq<char>,
) -> Result<(), SetFileError> {
    match manager_of(format, v.level, time, date) {
        Ok(_) => Ok(()),
        Err(e) => Err(SetFileError::UnableToLoadFromString(e)),
    }
}

/// Sends the log lines to files named after the template `format`, the
/// first name being expanded at the moment whose time and date are given.
pub fn set_file_at(config: &mut Config, format: &str, time: &str, date: &str) -> (res: Result<
    (),
    SetFileError,
>)
    ensures
        res == set_file_result(old(config)@, format@, time@, date@),
        final(config)@ == with_file(old(config)@, format@, time@, date@),
{
    match FileManager::init_from_string_at(format, config.level, time, date) {
        Ok(manager) => {
            config.file_manager = Some(manager);
            Ok(())
        },
        Err(e) => Err(SetFileError::UnableToLoadFromString(e)),
    }
}

/// Sends the log lines to files named after the template `format`, the
/// first name being expanded at the moment at which the clock is read.
pub fn set_file(config: &mut Config, format: &str) -> (res: Result<(), SetFileError>)
    ensures
        res == match manager_error(format@) {
            None => Ok::<(), SetFileError>(()),
            Some(e) => Err(SetFileError::UnableToLoadFromString(e)),
        },
        res is Err ==> final(config)@ == old(config)@,
        exists|clock: Clock|
            clock.wf() && res == #[trigger] set_file_result(
                old(config)@,
                format@,
                clock.time_text(),
                clock.date_text(),
            ) && final(config)@ == with_file(
                old(config)@,
                format@,
                clock.time_text(),
                clock.date_text(),
            ),
{
    let clock = Clock::now();
    let time = clock.time_string();
    let date = clock.date_string();
    let res = set_file_at(config, format, time.as_str(), date.as_str());
    assert(res == set_file_result(old(config)@, format@, clock.time_text(), clock.date_text()));
    proof {
        lemma_manager_error(format@, old(config)@.level, clock.time_text(), clock.date_text());
    }
    res
}

/// Sets the directory in which archives are kept, and hands it back.
pub fn set_archive_dir(config: &mut Config, dir: &str) -> (res: Result<String, SetArchiveDirError>)
    ensures
        res is Ok,
        res->Ok_0@ == dir@,
        final(config)@ == (ConfigView { archive_dir: Some(dir@), ..old(config)@ }),
{
    config.archive_dir = Some(String::from_str(dir));
    Ok(String::from_str(dir))
}

/// The configuration whose manager, where it has one, has the compression
/// that `ctype` names, where it names one.
pub open spec fn config_with_compression(v: ConfigView, ctype: Seq<char>) -> ConfigView {
    match v.file_manager {
        Some(manager) => ConfigView {
            file_manager: Some(with_compression(manager, ctype)),
            ..v
        },
        None => v,
    }
}

/// The configuration whose manager, where it has one, has one more rule,
/// where `constraint` describes one.
pub open spec fn config_with_rotation(v: ConfigView, constraint: Seq<char>, clock: Clock) -> ConfigView {
    match v.file_manager {
        Some(manager) => ConfigView {
            file_manager: Some(with_rotation(manager, constraint, clock)),
            ..v
        },
        None => v,
    }
}

/// Sets the compression of retired log files. Without a log file, and for
/// any name but `zip`, nothing changes.
pub fn set_compression(config: &mut Config, ctype: &str) -> (res: Result<(), SetCompressionError>)
    ensures
        res == match old(config)@.file_manager {
            None => Err::<(), SetCompressionError>(SetCompressionError::FileIsntSet),
            Some(_) => if CompressionType::spec_try_from_string(ctype@) is Some {
                Ok(())
            } else {
                Err(SetCompressionError::IncorrectCompressionValue)
            },
        },
        final(config)@ == config_with_compression(old(config)@, ctype@),
        res is Err ==> final(config)@ == old(config)@,
{
    let taken = config.file_manager.take();
    match taken {
        None => Err(SetCompressionError::FileIsntSet),
        Some(mut manager) => {
            let set = manager.set_compression(ctype);
            config.file_manager = Some(manager);
            if set {
                Ok(())
            } else {
                Err(SetCompressionError::IncorrectCompressionValue)
            }
        },
    }
}

/// What adding a rotation rule returns.
pub open spec fn add_rotation_result(v: ConfigView, constraint: Seq<char>) -> Result<
    (),
    AddRotationError,
> {
    match v.file_manager {
        None => Err(AddRotationError::FileIsntSet),
        Some(_) => if rotation_of(constraint) is Some {
            Ok(())
        } else {
            Err(AddRotationError::IncorrectFormatGiven)
        },
    }
}

/// Adds a rotation rule whose cycle starts at `clock`. Without a log file,
/// and for a text that describes no rule, nothing changes.
pub fn add_rotation_at(config: &mut Config, constraint: &str, clock: &Clock) -> (res: Result<
    (),
    AddRotationError,
>)
    requires
        clock.wf(),
    ensures
        res == add_rotation_result(old(config)@, constraint@),
        final(config)@ == config_with_rotation(old(config)@, constraint@, *clock),
        res is Err ==> final(config)@ == old(config)@,
{
    let taken = config.file_manager.take();
    match taken {
        None => Err(AddRotationError::FileIsntSet),
        Some(mut manager) => {
            let added = manager.add_rotation_at(constraint, clock);
            config.file_manager = Some(manager);
            if added {
                Ok(())
            } else {
                Err(AddRotationError::IncorrectFormatGiven)
            }
        },
    }
}

/// Adds a rotation rule whose cycle starts at the moment at which the clock
/// is read. Without a log file, and for a text that describes no rule,
/// nothing changes.
pub fn add_rotation(config: &mut Config, constraint: &str) -> (res: Result<(), AddRotationError>)
    ensures
        res == add_rotation_result(old(config)@, constraint@),
        res is Err ==> final(config)@ == old(config)@,
        exists|clock: Clock|
            clock.wf() && final(config)@ == #[trigger] config_with_rotation(
                old(config)@,
                constraint@,
                clock,
            ),
{
    let clock = Clock::now();
    let res = add_rotation_at(config, constraint, &clock);
    assert(config@ == config_with_rotation(old(config)@, constraint@, clock));
    res
}

/// Loads a configuration file into the configuration. `parsed` holds the
/// fields that the file was read into, or why it could not be read; a file
/// that could not be read, a value that makes no sense and a setter that
/// fails leave the configuration as it was before the call.
pub fn load_config_from_file(
    config: &mut Config,
    parsed: Result<ConfigForSerde, ReadFromConfigFileError>,
    archive_dir_created: bool,
) -> (res: Result<(), ReadFromConfigFileError>)
    ensures
        res is Err ==> final(config)@ == old(config)@,
        match parsed {
            Err(e) => res is Err && res->Err_0@ == e@,
            Ok(fields) => (match res {
                Ok(_) => load_error(fields@, old(config)@, archive_dir_created) is None,
                Err(e) => load_error(fields@, old(config)@, archive_dir_created) == Some(e@),
            }) && exists|clock: Clock|
                clock.wf() && applied_view(final(config)@, res) == #[trigger] load_of(
                    fields@,
                    old(config)@,
                    clock,
                    archive_dir_created,
                ),
        },
{
    match parsed {
        Err(e) => Err(e),
        Ok(fields) => load_config(config, fields, archive_dir_created),
    }
}

/// Sets the threshold below which records are dropped.
pub fn set_log_level(config: &mut Config, lvl: Level) -> (res: Result<(), SetLogLevelError>)
    ensures
        res is Ok,
        final(config)@ == (ConfigView { level: lvl, ..old(config)@ }),
{
    config.level = lvl;
    Ok(())
}

/// Switches the terminal as a destination of log lines on or off.
pub fn set_print_to_terminal(config: &mut Config, val: bool) -> (res: Result<
    (),
    SetPrintToTerminalError,
>)
    ensures
        res is Ok,
        final(config)@ == (ConfigView { print_to_terminal: val, ..old(config)@ }),
{
    config.print_to_terminal = val;
    Ok(())
}

/// Switches the colors of the lines on the terminal on or off.
pub fn set_colorized(config: &mut Config, val: bool) -> (res: Result<(), SetColorizedError>)
    ensures
        res is Ok,
        final(config)@ == (ConfigView { colorized: val, ..old(config)@ }),
{
    config.colorized = val;
    Ok(())
}

/// The configuration with `segments` as the formatter of `level`.
pub open spec fn with_format(v: ConfigView, level: Level, segments: Seq<WrapperView>) -> ConfigView {
    match level {
        Level::TRACE => ConfigView { trace_log_format: segments, ..v },
        Level::DEBUG => ConfigView { debug_log_format: segments, ..v },
        Level::INFO => ConfigView { info_log_format: segments, ..v },
        Level::WARN => ConfigView { warn_log_format: segments, ..v },
        Level::ERROR => ConfigView { error_log_format: segments, ..v },
    }
}

/// The configuration with `segments` as the formatter of every level.
pub open spec fn with_all_formats(v: ConfigView, segments: Seq<WrapperView>) -> ConfigView {
    ConfigView {
        trace_log_format: segments,
        debug_log_format: segments,
        info_log_format: segments,
        warn_log_format: segments,
        error_log_format: segments,
        ..v
    }
}

/// The configuration after the template of one level is set.
pub open spec fn with_format_of(v: ConfigView, level: Level, template: Seq<char>) -> ConfigView {
    match compile(template) {
        Ok(segments) => with_format(v, level, segments),
        Err(_) => v,
    }
}

/// The configuration after the template of every level is set.
pub open spec fn with_global_format_of(v: ConfigView, template: Seq<char>) -> ConfigView {
    match compile(template) {
        Ok(segments) => with_all_formats(v, segments),
        Err(_) => v,
    }
}

/// Sets the template of the lines of one level. A template that does not
/// compile changes nothing.
pub fn set_level_formatting(config: &mut Config, level: Level, format: &str) -> (res: Result<
    (),
    SetLevelFormattingError,
>)
    ensures
        final(config)@ == with_format_of(old(config)@, level, format@),
        match compile(format@) {
            Ok(_) => res is Ok,
            Err(e) => res == Err::<(), SetLevelFormattingError>(
                SetLevelFormattingError::IncorrectFormatGiven(e),
            ) && final(config)@ == old(config)@,
        },
{
    let formatter = match LogFormatter::parse_from_string(format) {
        Ok(f) => f,
        Err(e) => {
            return Err(SetLevelFormattingError::IncorrectFormatGiven(e));
        },
    };
    match level {
        Level::TRACE => config.trace_log_format = formatter,
        Level::DEBUG => config.debug_log_format = formatter,
        Level::INFO => config.info_log_format = formatter,
        Level::WARN => config.warn_log_format = formatter,
        Level::ERROR => config.error_log_format = formatter,
    }
    Ok(())
}

/// Sets the template of the lines of every level. A template that does not
/// compile changes nothing.
pub fn set_global_formatting(config: &mut Config, format: &str) -> (res: Result<
    (),
    SetLevelFormattingError,
>)
    ensures
        final(config)@ == with_global_format_of(old(config)@, format@),
        match compile(format@) {
            Ok(_) => res is Ok,
            Err(e) => res == Err::<(), SetLevelFormattingError>(
                SetLevelFormattingError::IncorrectFormatGiven(e),
            ) && final(config)@ == old(config)@,
        },
{
    let formatter = match LogFormatter::parse_from_string(format) {
        Ok(f) => f,
        Err(e) => {
            return Err(SetLevelFormattingError::IncorrectFormatGiven(e));
        },
    };
    config.trace_log_format = formatter.clone();
    config.debug_log_format = formatter.clone();
    config.info_log_format = formatter.clone();
    config.warn_log_format = formatter.clone();
    config.error_log_format = formatter;
    Ok(())
}

/// Puts the starting settings in place of the current ones.
pub fn init(config: &mut Config)
    ensures
        final(config)@ == default_config(),
{
    *config = Config::default();
}


/// Renders a record with the formatter of its level, at the moment whose
/// time and date are given.
pub fn string_log_at(config: &Config, log_info: &LogInfo, colorize: bool, time: &str, date: &str) -> (out:
    String)
    ensures
        out@ == render(config@.format_of(log_info.level), log_info@, time@, date@, colorize),
{
    let formatter = get_log_format(config, log_info.level);
    let ghost segments = formatter@;
    let mut mess_to_print = String::new();
    let mut i: usize = 0;
    while i < formatter.parts.len()
        invariant
            i <= formatter.parts@.len(),
            segments == formatter@,
            mess_to_print@ == render(segments.take(i as int), log_info@, time@, date@, colorize),
        decreases formatter.parts@.len() - i,
    {
        let log_part = &formatter.parts[i];
        assert(segments.take(i + 1).drop_last() =~= segments.take(i as int));
        assert(segments.take(i + 1).last() == log_part@);
        let mut piece = String::new();
        match &log_part.part {
            LogPart::Message => piece.append(log_info.message.as_str()),
            LogPart::Time => piece.append(time),
            LogPart::File => piece.append(log_info.file.as_str()),
            LogPart::Line => push_decimal(&mut piece, log_info.line as u64),
            LogPart::Date => piece.append(date),
            LogPart::Level => piece.append(log_info.level.name()),
            LogPart::Text(text) => piece.append(text.as_str()),
            LogPart::ModulePath => piece.append(log_info.module.as_str()),
        }
        assert(piece@ =~= segment_text(log_part@.part, log_info@, time@, date@));
        match log_part.color {
            Some(color) => {
                if colorize {
                    let colored_str = LogColor::colorize_str(piece.as_str(), color);
                    mess_to_print.append(colored_str.as_str());
                } else {
                    mess_to_print.append(piece.as_str());
                }
            },
            None => {
                mess_to_print.append(piece.as_str());
            },
        }
        i += 1;
    }
    assert(segments.take(formatter.parts@.len() as int) =~= segments);
    mess_to_print
}

/// Renders a record with the formatter of its level, at the moment at
/// which the clock is read.
pub fn string_log(config: &Config, log_info: &LogInfo, colorize: bool) -> (out: String)
    ensures
        exists|clock: Clock|
            clock.wf() && out@ == #[trigger] render(
                config@.format_of(log_info.level),
                log_info@,
                clock.time_text(),
                clock.date_text(),
                colorize,
            ),
{
    let clock = Clock::now();
    let time = clock.time_string();
    let date = clock.date_string();
    let out = string_log_at(config, log_info, colorize, time.as_str(), date.as_str());
    assert(out@ == render(
        config@.format_of(log_info.level),
        log_info@,
        clock.time_text(),
        clock.date_text(),
        colorize,
    ));
    out
}

/// Where the line of a record goes: to the terminal, on the error stream
/// for errors and on the ordinary one for the rest, and to the log file.
#[derive(Debug)]
pub struct LogOutput {
    pub terminal: Option<String>,
    pub to_stderr: bool,
    pub file: Option<String>,
}

/// What a [`LogOutput`] stands for.
pub struct LogOutputView {
    pub terminal: Option<Seq<char>>,
    pub to_stderr: bool,
    pub file: Option<Seq<char>>,
}

impl View for LogOutput {
    type V = LogOutputView;

    open spec fn view(&self) -> LogOutputView {
        LogOutputView {
            terminal: match self.terminal {
                Some(line) => Some(line@),
                None => None,
            },
            to_stderr: self.to_stderr,
            file: match self.file {
                Some(line) => Some(line@),
                None => None,
            },
        }
    }
}

/// The output of a record that passed the threshold. The terminal gets the
/// line where printing is on, in colors where they are on; the log file
/// gets the line without colors where a file is set.
pub open spec fn output_of(v: ConfigView, info: LogInfoView, time: Seq<char>, date: Seq<char>) -> LogOutputView {
    LogOutputView {
        terminal: if v.print_to_terminal {
            Some(render(v.format_of(info.level), info, time, date, v.colorized))
        } else {
            None
        },
        to_stderr: info.level == Level::ERROR,
        file: if v.file_manager is Some {
            Some(render(v.format_of(info.level), info, time, date, false))
        } else {
            None
        },
    }
}

/// The output of a record, none where its level is below the threshold.
pub open spec fn filtered_output(
    v: ConfigView,
    info: LogInfoView,
    time: Seq<char>,
    date: Seq<char>,
) -> Option<LogOutputView> {
    if info.level.rank() >= v.level.rank() {
        Some(output_of(v, info, time, date))
    } else {
        None
    }
}

/// What `output` stands for.
pub open spec fn output_option_view(output: Option<LogOutput>) -> Option<LogOutputView> {
    match output {
        Some(o) => Some(o@),
        None => None,
    }
}

/// Renders a record for each of its destinations, at the moment whose time
/// and date are given.
pub fn log_handler_at(config: &Config, log_info: &LogInfo, time: &str, date: &str) -> (output: LogOutput)
    ensures
        output@ == output_of(config@, log_info@, time@, date@),
{
    let terminal = if config.print_to_terminal {
        Some(string_log_at(config, log_info, config.colorized, time, date))
    } else {
        None
    };
    let file = if config.file_manager.is_some() {
        Some(string_log_at(config, log_info, false, time, date))
    } else {
        None
    };
    let to_stderr = match log_info.level {
        Level::ERROR => true,
        _ => false,
    };
    LogOutput { terminal, to_stderr, file }
}

/// Renders a record for each of its destinations, at the moment at which
/// the clock is read.
pub fn log_handler(config: &Config, log_info: LogInfo) -> (output: LogOutput)
    ensures
        exists|clock: Clock|
            clock.wf() && output@ == #[trigger] output_of(
                config@,
                log_info@,
                clock.time_text(),
                clock.date_text(),
            ),
{
    let clock = Clock::now();
    let time = clock.time_string();
    let date = clock.date_string();
    let output = log_handler_at(config, &log_info, time.as_str(), date.as_str());
    assert(output@ == output_of(config@, log_info@, clock.time_text(), clock.date_text()));
    output
}

/// The record of a log call.
pub open spec fn record_of(
    module: Seq<char>,
    file: Seq<char>,
    line: u32,
    message: Seq<char>,
    level: Level,
) -> LogInfoView {
    LogInfoView { module, file, line, message, level }
}

/// Handles a log call at the moment whose time and date are given: a
/// record below the threshold has no output.
pub fn macro_handler_at(
    config: &Config,
    module: &str,
    file: &str,
    line: u32,
    deb_str: String,
    level: Level,
    time: &str,
    date: &str,
) -> (output: Option<LogOutput>)
    ensures
        output_option_view(output) == filtered_output(
            config@,
            record_of(module@, file@, line, deb_str@, level),
            time@,
            date@,
        ),
{
    let log_info = LogInfo {
        module: String::from_str(module),
        file: String::from_str(file),
        line,
        message: deb_str,
        level,
    };
    if level.at_least(get_log_level(config)) {
        Some(log_handler_at(config, &log_info, time, date))
    } else {
        None
    }
}

/// Handles a log call at the moment at which the clock is read: a record
/// below the threshold has no output.
pub fn macro_handler(
    config: &Config,
    module: &str,
    file: &str,
    line: u32,
    deb_str: String,
    level: Level,
) -> (output: Option<LogOutput>)
    ensures
        output is Some <==> level.rank() >= config@.level.rank(),
        exists|clock: Clock|
            clock.wf() && output_option_view(output) == #[trigger] filtered_output(
                config@,
                record_of(module@, file@, line, deb_str@, level),
                clock.time_text(),
                clock.date_text(),
            ),
{
    let clock = Clock::now();
    let time = clock.time_string();
    let date = clock.date_string();
    let output = macro_handler_at(
        config,
        module,
        file,
        line,
        deb_str,
        level,
        time.as_str(),
        date.as_str(),
    );
    assert(output_option_view(output) == filtered_output(
        config@,
        record_of(module@, file@, line, deb_str@, level),
        clock.time_text(),
        clock.date_text(),
    ));
    output
}

/// The entry point of the log macros: handles a log call at the moment at
/// which the clock is read.
pub fn __debug_handler(
    config: &Config,
    module: &str,
    file: &str,
    line: u32,
    deb_str: String,
    level: Level,
) -> (output: Option<LogOutput>)
    ensures
        output is Some <==> level.rank() >= config@.level.rank(),
        exists|clock: Clock|
            clock.wf() && output_option_view(output) == #[trigger] filtered_output(
                config@,
                record_of(module@, file@, line, deb_str@, level),
                clock.time_text(),
                clock.date_text(),
            ),
{
    macro_handler(config, module, file, line, deb_str, level)
}

/// Level filtering. A record has output exactly when its level is at
/// least the threshold: below it, nothing goes to the terminal and nothing
/// to the log file.
pub proof fn lemma_level_filtering(
    v: ConfigView,
    info: LogInfoView,
    time: Seq<char>,
    date: Seq<char>,
)
    ensures
        filtered_output(v, info, time, date) is Some <==> info.level.rank() >= v.level.rank(),
        v.level == Level::WARN ==> (filtered_output(v, info, time, date) is Some <==> (info.level
            == Level::WARN || info.level == Level::ERROR)),
{
}

/// Rejection without mutation. A log file, a rotation rule and a
/// compression that are refused leave every part of the configuration as it
/// was, the rules that were added before among them.
pub proof fn lemma_refused_setters_change_nothing(
    v: ConfigView,
    text: Seq<char>,
    level: Level,
    clock: Clock,
    time: Seq<char>,
    date: Seq<char>,
)
    ensures
        set_file_result(v, text, time, date) is Err ==> with_file(v, text, time, date) == v,
        add_rotation_result(v, text) is Err ==> config_with_rotation(v, text, clock) == v,
        CompressionType::spec_try_from_string(text) is None ==> config_with_compression(v, text)
            == v,
        compile(text) is Err ==> with_format_of(v, level, text) == v && with_global_format_of(
            v,
            text,
        ) == v,
{
}

/// A log line is the lines of the pieces of its template, one after the
/// other.
pub proof fn lemma_render_concatenates(
    first: Seq<WrapperView>,
    second: Seq<WrapperView>,
    info: LogInfoView,
    time: Seq<char>,
    date: Seq<char>,
    colorize: bool,
)
    ensures
        render(first + second, info, time, date, colorize) == render(
            first,
            info,
            time,
            date,
            colorize,
        ) + render(second, info, time, date, colorize),
    decreases second.len(),
{
    if second.len() == 0 {
        assert(first + second =~= first);
        assert(render(first, info, time, date, colorize) + Seq::<char>::empty() =~= render(
            first,
            info,
            time,
            date,
            colorize,
        ));
    } else {
        lemma_render_concatenates(first, second.drop_last(), info, time, date, colorize);
        assert((first + second).drop_last() =~= first + second.drop_last());
        assert((first + second).last() == second.last());
        let piece = segment_output(second.last(), info, time, date, colorize);
        assert(render(first, info, time, date, colorize) + render(
            second.drop_last(),
            info,
            time,
            date,
            colorize,
        ) + piece =~= render(first, info, time, date, colorize) + (render(
            second.drop_last(),
            info,
            time,
            date,
            colorize,
        ) + piece));
    }
}

/// Without colors a log line does not depend on the colors of its
/// segments.
pub proof fn lemma_plain_render_ignores_colors(
    first: Seq<WrapperView>,
    second: Seq<WrapperView>,
    info: LogInfoView,
    time: Seq<char>,
    date: Seq<char>,
)
    requires
        first.len() == second.len(),
        forall|i: int| 0 <= i < first.len() ==> first[i].part == second[i].part,
    ensures
        render(first, info, time, date, false) == render(second, info, time, date, false),
    decreases first.len(),
{
    if first.len() > 0 {
        lemma_plain_render_ignores_colors(
            first.drop_last(),
            second.drop_last(),
            info,
            time,
            date,
        );
    }
}

/// Rendering is a function of the template, the record and the moment:
/// equal templates compile to equal segments, and equal segments render
/// equal records to equal lines.
pub proof fn lemma_compile_render_deterministic(
    first: Seq<char>,
    second: Seq<char>,
    info: LogInfoView,
    time: Seq<char>,
    date: Seq<char>,
    colorize: bool,
)
    requires
        first == second,
    ensures
        compile(first) == compile(second),
        render(segments_of(first), info, time, date, colorize) == render(
            segments_of(second),
            info,
            time,
            date,
            colorize,
        ),
{
}

} // verus!
