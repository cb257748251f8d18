//! The manager of a log file: its name, the rules by which it is rotated,
//! and the steps of writing one line to it.

use crate::helper::Clock;
use crate::logger::file_handler::file_formatter::{
    file_template, FileFormatter, FileFormatterTryFromStringError,
};
use crate::logger::file_handler::file_name::{
    file_name_of, FileName, FileNameFromFileFormatterError, FileNameView,
};
use crate::logger::formatter::PartView;
use crate::text::{contains_char, ends_with, find_last, parse_number, str_eq, to_chars};
use crate::text::{last_index_of, parse_unsigned, spec_ends_with};
use crate::{Config, Level};
use vstd::prelude::*;

verus! {

/// A rule by which a log file is rotated: after a period of seconds, every
/// day at an hour and a minute, or above a size in bytes.
#[derive(Debug, Clone, Copy, PartialEq, Eq, Structural)]
pub enum RotationType {
    Period(u64),
    Time(u8, u8),
    Size(u64),
}

/// The number that stands before `unit` at the end of `text`, times
/// `factor`, where `text` holds a numeral there and the product fits 64 bits.
pub open spec fn scaled(text: Seq<char>, unit: Seq<char>, factor: nat) -> Option<u64> {
    match parse_unsigned(text.subrange(0, text.len() - unit.len()), u64::MAX as nat) {
        Some(n) => if n * factor <= u64::MAX {
            Some((n * factor) as u64)
        } else {
            None
        },
        None => None,
    }
}

/// The size rule of a scaled number.
pub open spec fn size_rule(bytes: Option<u64>) -> Option<RotationType> {
    match bytes {
        Some(n) => Some(RotationType::Size(n)),
        None => None,
    }
}

/// The period rule of a scaled number.
pub open spec fn period_rule(seconds: Option<u64>) -> Option<RotationType> {
    match seconds {
        Some(n) => Some(RotationType::Period(n)),
        None => None,
    }
}

/// The rule of a text that holds a `:`: an hour up to 23 before the only
/// `:` and a minute up to 59 after it.
pub open spec fn clock_rule(text: Seq<char>) -> Option<RotationType> {
    let colon = last_index_of(text, ':');
    if text.subrange(0, colon).contains(':') {
        None
    } else {
        match (
            parse_unsigned(text.subrange(0, colon), 255),
            parse_unsigned(text.subrange(colon + 1, text.len() as int), 255),
        ) {
            (Some(h), Some(m)) => if h <= 23 && m <= 59 {
                Some(RotationType::Time(h as u8, m as u8))
            } else {
                None
            },
            _ => None,
        }
    }
}

/// The rule that `text` describes, if it describes one. A text with a `:`
/// is a time of day. A number before ` KB`, ` MB`, ` GB` or ` TB` is a size
/// in units of 1024 bytes and its powers. A number before ` hour`, ` day`,
/// ` week`, ` month` or ` year` is a period, a month being 30 days and a
/// year 365. Nothing else is a rule.
pub open spec fn rotation_of(text: Seq<char>) -> Option<RotationType> {
    if text.contains(':') {
        clock_rule(text)
    } else if spec_ends_with(text, " KB"@) {
        size_rule(scaled(text, " KB"@, 1024))
    } else if spec_ends_with(text, " MB"@) {
        size_rule(scaled(text, " MB"@, 1048576))
    } else if spec_ends_with(text, " GB"@) {
        size_rule(scaled(text, " GB"@, 1073741824))
    } else if spec_ends_with(text, " TB"@) {
        size_rule(scaled(text, " TB"@, 1099511627776))
    } else if spec_ends_with(text, " hour"@) {
        period_rule(scaled(text, " hour"@, 3600))
    } else if spec_ends_with(text, " day"@) {
        period_rule(scaled(text, " day"@, 86400))
    } else if spec_ends_with(text, " week"@) {
        period_rule(scaled(text, " week"@, 604800))
    } else if spec_ends_with(text, " month"@) {
        period_rule(scaled(text, " month"@, 2592000))
    } else if spec_ends_with(text, " year"@) {
        period_rule(scaled(text, " year"@, 31536000))
    } else {
        None
    }
}

/// The number before `unit` at the end of `chars`, times `factor`.
fn read_scaled(chars: &Vec<char>, unit: &Vec<char>, factor: u64) -> (value: Option<u64>)
    requires
        spec_ends_with(chars@, unit@),
        factor > 0,
    ensures
        value == scaled(chars@, unit@, factor as nat),
{
    let end: usize = chars.len() - unit.len();
    assert(chars@.subrange(0, end as int) =~= chars@.subrange(0, chars@.len() - unit@.len()));
    match parse_number(chars, 0, end, u64::MAX) {
        Some(n) => {
            if n > u64::MAX / factor {
                assert(n * factor > u64::MAX) by (nonlinear_arith)
                    requires
                        n > u64::MAX / factor,
                        factor > 0,
                {}
                None
            } else {
                assert(n * factor <= u64::MAX) by (nonlinear_arith)
                    requires
                        n <= u64::MAX / factor,
                        factor > 0,
                {}
                Some(n * factor)
            }
        },
        None => None,
    }
}

fn read_size(chars: &Vec<char>, unit: &str, factor: u64) -> (rule: Option<Option<RotationType>>)
    requires
        factor > 0,
    ensures
        match rule {
            Some(r) => spec_ends_with(chars@, unit@) && r == size_rule(
                scaled(chars@, unit@, factor as nat),
            ),
            None => !spec_ends_with(chars@, unit@),
        },
{
    let unit_chars = to_chars(unit);
    if ends_with(chars, &unit_chars) {
        match read_scaled(chars, &unit_chars, factor) {
            Some(n) => Some(Some(RotationType::Size(n))),
            None => Some(None),
        }
    } else {
        None
    }
}

fn read_period(chars: &Vec<char>, unit: &str, factor: u64) -> (rule: Option<Option<RotationType>>)
    requires
        factor > 0,
    ensures
        match rule {
            Some(r) => spec_ends_with(chars@, unit@) && r == period_rule(
                scaled(chars@, unit@, factor as nat),
            ),
            None => !spec_ends_with(chars@, unit@),
        },
{
    let unit_chars = to_chars(unit);
    if ends_with(chars, &unit_chars) {
        match read_scaled(chars, &unit_chars, factor) {
            Some(n) => Some(Some(RotationType::Period(n))),
            None => Some(None),
        }
    } else {
        None
    }
}

#[verifier::loop_isolation(false)]
fn read_clock(chars: &Vec<char>) -> (rule: Option<RotationType>)
    requires
        chars@.contains(':'),
    ensures
        rule == clock_rule(chars@),
{
    proof {
        crate::text::lemma_last_index_of(chars@, ':');
    }
    let colon = match find_last(chars, ':') {
        Some(k) => k,
        None => {
            return None;
        },
    };
    let mut i: usize = 0;
    while i < colon
        invariant
            i <= colon < chars@.len(),
            forall|j: int| 0 <= j < i ==> chars@[j] != ':',
        decreases colon - i,
    {
        if chars[i] == ':' {
            assert(chars@.subrange(0, colon as int)[i as int] == ':');
            return None;
        }
        i += 1;
    }
    assert(!chars@.subrange(0, colon as int).contains(':'));
    let length = chars.len();
    assert(colon < length);
    let h = parse_number(chars, 0, colon, 255);
    let m = parse_number(chars, colon + 1, length, 255);
    match (h, m) {
        (Some(h), Some(m)) => {
            if h <= 23 && m <= 59 {
                Some(RotationType::Time(h as u8, m as u8))
            } else {
                None
            }
        },
        _ => None,
    }
}

impl RotationType {
    /// Reads a rotation rule.
    pub fn try_from_string(text: &str) -> (rule: Option<RotationType>)
        ensures
            rule == rotation_of(text@),
    {
        let chars = to_chars(text);
        if contains_char(&chars, ':') {
            return read_clock(&chars);
        }
        if let Some(rule) = read_size(&chars, " KB", 1024) {
            return rule;
        }
        if let Some(rule) = read_size(&chars, " MB", 1048576) {
            return rule;
        }
        if let Some(rule) = read_size(&chars, " GB", 1073741824) {
            return rule;
        }
        if let Some(rule) = read_size(&chars, " TB", 1099511627776) {
            return rule;
        }
        if let Some(rule) = read_period(&chars, " hour", 3600) {
            return rule;
        }
        if let Some(rule) = read_period(&chars, " day", 86400) {
            return rule;
        }
        if let Some(rule) = read_period(&chars, " week", 604800) {
            return rule;
        }
        if let Some(rule) = read_period(&chars, " month", 2592000) {
            return rule;
        }
        if let Some(rule) = read_period(&chars, " year", 31536000) {
            return rule;
        }
        None
    }
}


/// A rule together with its trigger: for a period and a time of day the
/// second since 1970 after which the file is rotated, for a size the number
/// of bytes above which it is.
#[derive(Debug, Clone, Copy, PartialEq, Eq, Structural)]
pub struct Rotation {
    pub rotation_type: RotationType,
    pub next_rotation: u64,
}

/// `n`, or the largest 64-bit number where `n` is larger than that.
pub open spec fn saturating(n: int) -> u64 {
    if n > u64::MAX {
        u64::MAX
    } else {
        n as u64
    }
}

/// The trigger of a rule that starts its cycle at `clock`. A period ends
/// that many seconds later. A time of day comes later the same day where the
/// local hour and minute are before it, and the day after otherwise. A size
/// is its own trigger. A trigger that would not fit 64 bits is the largest
/// 64-bit number.
pub open spec fn next_trigger(rot_type: RotationType, clock: Clock) -> u64 {
    match rot_type {
        RotationType::Period(p) => saturating(clock.unix + p),
        RotationType::Time(h, m) => {
            let wanted = h * 3600 + m * 60;
            let current = clock.local_hour * 3600 + clock.local_minute * 60;
            if clock.local_hour < h || (clock.local_hour == h && clock.local_minute < m) {
                saturating(clock.unix + (wanted - current))
            } else {
                saturating(clock.unix + (86400 - current) + wanted)
            }
        },
        RotationType::Size(s) => s,
    }
}

fn saturating_add(a: u64, b: u64) -> (sum: u64)
    ensures
        sum == saturating(a + b),
{
    if a > u64::MAX - b {
        u64::MAX
    } else {
        a + b
    }
}

impl Rotation {
    /// The rule at the start of a cycle that begins at `clock`.
    pub open spec fn renewed(rot_type: RotationType, clock: Clock) -> Rotation {
        Rotation { rotation_type: rot_type, next_rotation: next_trigger(rot_type, clock) }
    }

    /// Whether the rule asks for a rotation of a file of `size` bytes at
    /// `clock`: the clock is past the trigger, or the file is larger than it.
    pub open spec fn fires(self, size: u64, clock: Clock) -> bool {
        match self.rotation_type {
            RotationType::Size(_) => size > self.next_rotation,
            _ => clock.unix > self.next_rotation,
        }
    }

    /// Starts the cycle of a rule at `clock`.
    pub fn init_from_rotation_type_at(rot_type: RotationType, clock: &Clock) -> (rotation: Rotation)
        requires
            clock.wf(),
        ensures
            rotation == Rotation::renewed(rot_type, *clock),
    {
        let next_rotation: u64 = match rot_type {
            RotationType::Period(p) => saturating_add(clock.unix, p),
            RotationType::Time(h, m) => {
                let wanted: u64 = (h as u64) * 3600 + (m as u64) * 60;
                let current: u64 = (clock.local_hour as u64) * 3600 + (clock.local_minute as u64)
                    * 60;
                if clock.local_hour < h as u32 || (clock.local_hour == h as u32
                    && clock.local_minute < m as u32) {
                    saturating_add(clock.unix, wanted - current)
                } else {
                    let till_tomorrow: u64 = 86400 - current;
                    saturating_add(clock.unix, till_tomorrow + wanted)
                }
            },
            RotationType::Size(s) => s,
        };
        Rotation { rotation_type: rot_type, next_rotation }
    }

    /// Starts the cycle of a rule at the moment at which the clock is read.
    pub fn init_from_rotation_type(rot_type: RotationType) -> (rotation: Rotation)
        ensures
            exists|clock: Clock| clock.wf() && rotation == #[trigger] Rotation::renewed(rot_type, clock),
    {
        let clock = Clock::now();
        let rotation = Rotation::init_from_rotation_type_at(rot_type, &clock);
        assert(rotation == Rotation::renewed(rot_type, clock));
        rotation
    }

    /// Whether the rule asks for a rotation of a file of `size` bytes at `clock`.
    pub fn is_due(&self, size: u64, clock: &Clock) -> (due: bool)
        ensures
            due == self.fires(size, *clock),
    {
        match self.rotation_type {
            RotationType::Size(_) => size > self.next_rotation,
            _ => clock.unix > self.next_rotation,
        }
    }
}

/// How retired log files are compressed.
#[derive(Debug, Clone, Copy, PartialEq, Eq, Structural)]
pub enum CompressionType {
    Zip,
}

impl CompressionType {
    /// The kind of compression that `text` names: `zip` and nothing else.
    pub open spec fn spec_try_from_string(text: Seq<char>) -> Option<CompressionType> {
        if text == "zip"@ {
            Some(CompressionType::Zip)
        } else {
            None
        }
    }

    /// Reads the name of a kind of compression.
    pub fn try_from_string(text: &str) -> (kind: Option<CompressionType>)
        ensures
            kind == CompressionType::spec_try_from_string(text@),
    {
        if str_eq(text, "zip") {
            Some(CompressionType::Zip)
        } else {
            None
        }
    }
}

/// The rules of a log file and the compression of the files it retires.
#[derive(Debug)]
pub struct FileConstraints {
    pub compression: Option<CompressionType>,
    pub rotation: Vec<Rotation>,
}

/// Whether some rule asks for a rotation.
pub open spec fn any_fires(rules: Seq<Rotation>, size: u64, clock: Clock) -> bool {
    exists|i: int| 0 <= i < rules.len() && (#[trigger] rules[i]).fires(size, clock)
}

/// Every rule at the start of a cycle that begins at `clock`.
pub open spec fn regenerate(rules: Seq<Rotation>, clock: Clock) -> Seq<Rotation> {
    Seq::new(rules.len(), |i: int| Rotation::renewed(rules[i].rotation_type, clock))
}

/// What a check of the rules asks for.
#[derive(Debug, Clone, Copy, PartialEq, Eq, Structural)]
pub enum RotationOutcome {
    Keep,
    Rotate,
}

/// Why no new file could be made for a rotation.
#[derive(Debug, Clone, Copy, PartialEq, Eq, Structural)]
pub enum CreateNewFileError {
    UnableToVerifyFileExistence,
    UnableToCreateFileIO,
    /// The template did not expand into a name.
    UnableToGetFileName(FileNameFromFileFormatterError),
    /// A file stands at the name with every number up to the largest.
    NoFreeName,
}

/// What went wrong before a line was appended.
#[derive(Debug, Clone, Copy, PartialEq, Eq, Structural)]
pub enum VerifyConstraintsError {
    UnableToVerifyFileExistence,
    UnableToCreateFile,
    UnableToOpenFile,
    UnableToGetFileMetadata,
    UnableToDeleteOldLogFile,
    UnableToCompressFile,
    UnableToCreateNewFile(CreateNewFileError),
}

/// Whether the line goes to the file that was current or to a new one.
#[derive(Debug, Clone, Copy, PartialEq, Eq, Structural)]
pub enum VerifyConstraintsRes {
    ConstraintsPassed,
    NewFileCreated,
}

/// Why no archive is planned for a file.
#[derive(Debug, Clone, Copy, PartialEq, Eq, Structural)]
pub enum CompressFileError {
    UnableToGetCompressionSettings,
}

/// Why no manager could be made from a template.
#[derive(Debug, Clone, Copy, PartialEq, Eq, Structural)]
pub enum FileManagerFromStringError {
    FileFormatParsingError(FileFormatterTryFromStringError),
    FileNameParsingError(FileNameFromFileFormatterError),
}

/// What stood before the append: the outcome of the check of the rules, or
/// what went wrong in it.
#[derive(Debug, Clone, Copy, PartialEq, Eq)]
pub enum RotationReport {
    Passed(VerifyConstraintsRes),
    Failed(VerifyConstraintsError),
}

/// Where the writing of a line stands: which answer the manager waits for.
#[derive(Debug, Clone, Copy, PartialEq, Eq)]
pub enum WritePhase {
    Ready,
    CheckingFile,
    CreatingFile,
    Measuring,
    Probing,
    CreatingNew,
    Archiving,
    Deleting,
    Appending(RotationReport),
}

/// What the file system answered to the last action.
#[derive(Debug, Clone, Copy, PartialEq, Eq)]
pub enum FileEvent {
    /// A line is to be written: no action came before.
    Begin,
    /// The answer to `CheckExists`: whether a file stands at the name.
    Exists(bool),
    /// The answer to `Measure`: the length of the file in bytes.
    Measured(u64),
    /// The action was done.
    Done,
    /// The action failed.
    Failed,
    /// The file to measure could not be opened.
    OpenFailed,
}

/// How the writing of a line ended.
#[derive(Debug, Clone, Copy, PartialEq, Eq)]
pub struct WriteOutcome {
    pub rotation: RotationReport,
    pub written: bool,
}

/// What is to be done on the file system next. `CheckExists`, `Create`,
/// `Measure` and `Append` are about the current file, `Archive` and `Delete`
/// about the retired one.
#[derive(Debug, Clone, Copy, PartialEq, Eq)]
pub enum FileAction {
    /// Find out whether a file stands at the current name.
    CheckExists,
    /// Make an empty file at the current name.
    Create,
    /// Measure the file at the current name.
    Measure,
    /// Compress the retired file into the directory of the archives.
    Archive(CompressionType),
    /// Delete the retired file.
    Delete,
    /// Append the line to the file at the current name.
    Append,
    /// The write is over.
    Finish(WriteOutcome),
    /// The event was none that the manager waited for; the write is over.
    Rejected,
}

/// The manager of a log file.
#[derive(Debug)]
pub struct FileManager {
    file_format: FileFormatter,
    file_name: FileName,
    file_constraints: FileConstraints,
    retired: Option<FileName>,
    phase: WritePhase,
}

/// What a [`FileManager`] stands for.
pub struct FileManagerView {
    pub format: Seq<PartView>,
    pub name: FileNameView,
    pub compression: Option<CompressionType>,
    pub rules: Seq<Rotation>,
    pub retired: Option<FileNameView>,
    pub phase: WritePhase,
}

/// The name with its first number, 1, or with the number after the one it has.
pub open spec fn bumped(name: FileNameView) -> FileNameView {
    FileNameView {
        num: match name.num {
            None => Some(1u32),
            Some(n) => Some((n + 1) as u32),
        },
        ..name
    }
}

/// The manager about to append, with what stood before the append.
pub open spec fn append_after(v: FileManagerView, report: RotationReport) -> (
    FileManagerView,
    FileAction,
) {
    (FileManagerView { phase: WritePhase::Appending(report), ..v }, FileAction::Append)
}

/// The manager that gives a rotation up: the retired file is current
/// again, and the line goes to it.
pub open spec fn abandon(v: FileManagerView, e: CreateNewFileError) -> (
    FileManagerView,
    FileAction,
) {
    append_after(
        FileManagerView {
            name: match v.retired {
                Some(old) => old,
                None => v.name,
            },
            retired: None,
            ..v
        },
        RotationReport::Failed(VerifyConstraintsError::UnableToCreateNewFile(e)),
    )
}

/// The manager at the start of a rotation: every rule starts a new cycle,
/// the current file is retired, and the template is expanded anew into the
/// name that is tried first. Where the template does not expand, the line
/// goes to the current file.
pub open spec fn start_rotation(v: FileManagerView, level: Level, clock: Clock) -> (
    FileManagerView,
    FileAction,
) {
    let renewed = FileManagerView { rules: regenerate(v.rules, clock), ..v };
    match file_name_of(v.format, level, clock.time_text(), clock.date_text()) {
        Ok(name) => (
            FileManagerView {
                name,
                retired: Some(v.name),
                phase: WritePhase::Probing,
                ..renewed
            },
            FileAction::CheckExists,
        ),
        Err(e) => append_after(
            renewed,
            RotationReport::Failed(
                VerifyConstraintsError::UnableToCreateNewFile(
                    CreateNewFileError::UnableToGetFileName(e),
                ),
            ),
        ),
    }
}

/// The manager after the answer to whether a file stands at the name that
/// is tried for the new file. Where none does, the file is made there.
/// Where one does, the name gets its first number or the next one, and is
/// tried again; after the largest number the rotation is given up.
pub open spec fn next_candidate(v: FileManagerView, found: bool) -> (FileManagerView, FileAction) {
    if !found {
        (FileManagerView { phase: WritePhase::CreatingNew, ..v }, FileAction::Create)
    } else if v.name.num == Some(u32::MAX) {
        abandon(v, CreateNewFileError::NoFreeName)
    } else {
        (FileManagerView { name: bumped(v.name), ..v }, FileAction::CheckExists)
    }
}

/// One step of writing a line: the manager after `event`, and what is to
/// be done next.
///
/// A write begins by making sure that the current file exists, and measures
/// it. Where a rule fires, a rotation starts: the name expanded anew is
/// tried, then the same name with the numbers 1, 2 and so on, until no file
/// stands at it; the new file is made; and the retired file is archived and
/// deleted where compression is set. Whatever fails on the way, the line is
/// appended to the file that is current then, and the failure is reported
/// with the outcome. An event that the phase does not wait for ends the
/// write.
pub open spec fn spec_step(v: FileManagerView, event: FileEvent, level: Level, clock: Clock) -> (
    FileManagerView,
    FileAction,
) {
    let reset = FileManagerView { phase: WritePhase::Ready, retired: None, ..v };
    match event {
        FileEvent::Begin => (
            FileManagerView { phase: WritePhase::CheckingFile, retired: None, ..v },
            FileAction::CheckExists,
        ),
        FileEvent::Exists(found) => match v.phase {
            WritePhase::CheckingFile => if found {
                (FileManagerView { phase: WritePhase::Measuring, ..v }, FileAction::Measure)
            } else {
                (FileManagerView { phase: WritePhase::CreatingFile, ..v }, FileAction::Create)
            },
            WritePhase::Probing => next_candidate(v, found),
            _ => (reset, FileAction::Rejected),
        },
        FileEvent::Measured(size) => match v.phase {
            WritePhase::Measuring => if any_fires(v.rules, size, clock) {
                start_rotation(v, level, clock)
            } else {
                append_after(v, RotationReport::Passed(VerifyConstraintsRes::ConstraintsPassed))
            },
            _ => (reset, FileAction::Rejected),
        },
        FileEvent::Done => match v.phase {
            WritePhase::CreatingFile => (
                FileManagerView { phase: WritePhase::Measuring, ..v },
                FileAction::Measure,
            ),
            WritePhase::CreatingNew => match v.compression {
                Some(kind) => (
                    FileManagerView { phase: WritePhase::Archiving, ..v },
                    FileAction::Archive(kind),
                ),
                None => append_after(
                    FileManagerView { retired: None, ..v },
                    RotationReport::Passed(VerifyConstraintsRes::NewFileCreated),
                ),
            },
            WritePhase::Archiving => (
                FileManagerView { phase: WritePhase::Deleting, ..v },
                FileAction::Delete,
            ),
            WritePhase::Deleting => append_after(
                FileManagerView { retired: None, ..v },
                RotationReport::Passed(VerifyConstraintsRes::NewFileCreated),
            ),
            WritePhase::Appending(report) => (
                reset,
                FileAction::Finish(WriteOutcome { rotation: report, written: true }),
            ),
            _ => (reset, FileAction::Rejected),
        },
        FileEvent::Failed => match v.phase {
            WritePhase::CheckingFile => append_after(
                v,
                RotationReport::Failed(VerifyConstraintsError::UnableToVerifyFileExistence),
            ),
            WritePhase::CreatingFile => append_after(
                v,
                RotationReport::Failed(VerifyConstraintsError::UnableToCreateFile),
            ),
            WritePhase::Measuring => append_after(
                v,
                RotationReport::Failed(VerifyConstraintsError::UnableToGetFileMetadata),
            ),
            WritePhase::Probing => abandon(v, CreateNewFileError::UnableToVerifyFileExistence),
            WritePhase::CreatingNew => abandon(v, CreateNewFileError::UnableToCreateFileIO),
            WritePhase::Archiving => append_after(
                v,
                RotationReport::Failed(VerifyConstraintsError::UnableToCompressFile),
            ),
            WritePhase::Deleting => append_after(
                v,
                RotationReport::Failed(VerifyConstraintsError::UnableToDeleteOldLogFile),
            ),
            WritePhase::Appending(report) => (
                reset,
                FileAction::Finish(WriteOutcome { rotation: report, written: false }),
            ),
            _ => (reset, FileAction::Rejected),
        },
        FileEvent::OpenFailed => match v.phase {
            WritePhase::Measuring => append_after(
                v,
                RotationReport::Failed(VerifyConstraintsError::UnableToOpenFile),
            ),
            _ => (reset, FileAction::Rejected),
        },
    }
}


impl Clone for FileConstraints {
    fn clone(&self) -> (out: Self)
        ensures
            out.compression == self.compression,
            out.rotation@ == self.rotation@,
    {
        let mut rotation: Vec<Rotation> = Vec::new();
        let mut i: usize = 0;
        while i < self.rotation.len()
            invariant
                i <= self.rotation@.len(),
                rotation@ =~= self.rotation@.take(i as int),
            decreases self.rotation@.len() - i,
        {
            rotation.push(self.rotation[i]);
            i += 1;
        }
        assert(self.rotation@.take(self.rotation@.len() as int) =~= self.rotation@);
        FileConstraints { compression: self.compression, rotation }
    }
}

impl View for FileManager {
    type V = FileManagerView;

    closed spec fn view(&self) -> FileManagerView {
        FileManagerView {
            format: self.file_format@,
            name: self.file_name@,
            compression: self.file_constraints.compression,
            rules: self.file_constraints.rotation@,
            retired: match self.retired {
                Some(name) => Some(name@),
                None => None,
            },
            phase: self.phase,
        }
    }
}

impl Clone for FileManager {
    fn clone(&self) -> (out: Self)
        ensures
            out@ == self@,
    {
        FileManager {
            file_format: self.file_format.clone(),
            file_name: self.file_name.clone(),
            file_constraints: self.file_constraints.clone(),
            retired: match &self.retired {
                Some(name) => Some(name.clone()),
                None => None,
            },
            phase: self.phase,
        }
    }
}


/// The manager of the file-name template `format` at the moment whose time
/// and date are given, or why there is none: no rule, no compression, no
/// write under way.
pub open spec fn manager_of(format: Seq<char>, level: Level, time: Seq<char>, date: Seq<char>) -> Result<
    FileManagerView,
    FileManagerFromStringError,
> {
    match file_template(format) {
        Err(e) => Err(FileManagerFromStringError::FileFormatParsingError(e)),
        Ok(parts) => match file_name_of(parts, level, time, date) {
            Err(e) => Err(FileManagerFromStringError::FileNameParsingError(e)),
            Ok(name) => Ok(
                FileManagerView {
                    format: parts,
                    name,
                    compression: None,
                    rules: Seq::empty(),
                    retired: None,
                    phase: WritePhase::Ready,
                },
            ),
        },
    }
}

/// Why the text `format` makes no manager, at whatever moment and for
/// whatever level; none where it makes one.
pub open spec fn manager_error(format: Seq<char>) -> Option<FileManagerFromStringError> {
    match manager_of(format, Level::INFO, Seq::empty(), Seq::empty()) {
        Ok(_) => None,
        Err(e) => Some(e),
    }
}

/// Whether a text makes a manager, and why it does not, depends on
/// neither the moment nor the level.
pub proof fn lemma_manager_error(format: Seq<char>, level: Level, time: Seq<char>, date: Seq<char>)
    ensures
        match manager_of(format, level, time, date) {
            Ok(_) => manager_error(format) is None,
            Err(e) => manager_error(format) == Some(e),
        },
{
}

/// A text makes a manager exactly when it is a file-name template: the
/// name of an accepted template always expands.
pub proof fn lemma_template_makes_manager(
    format: Seq<char>,
    level: Level,
    time: Seq<char>,
    date: Seq<char>,
)
    ensures
        match file_template(format) {
            Ok(_) => manager_of(format, level, time, date) is Ok && manager_error(format) is None,
            Err(e) => manager_error(format) == Some(
                FileManagerFromStringError::FileFormatParsingError(e),
            ),
        },
{
    match file_template(format) {
        Ok(parts) => {
            crate::logger::file_handler::file_name::lemma_valid_template_expands(
                parts,
                level,
                time,
                date,
            );
            crate::logger::file_handler::file_name::lemma_valid_template_expands(
                parts,
                Level::INFO,
                Seq::empty(),
                Seq::empty(),
            );
        },
        Err(_) => {},
    }
}

/// What `res` stands for.
pub open spec fn manager_result_view(res: Result<FileManager, FileManagerFromStringError>) -> Result<
    FileManagerView,
    FileManagerFromStringError,
> {
    match res {
        Ok(manager) => Ok(manager@),
        Err(e) => Err(e),
    }
}

/// The manager with one more rule, where `text` describes a rule.
pub open spec fn with_rotation(v: FileManagerView, text: Seq<char>, clock: Clock) -> FileManagerView {
    match rotation_of(text) {
        Some(rule) => FileManagerView { rules: v.rules.push(Rotation::renewed(rule, clock)), ..v },
        None => v,
    }
}

/// The manager with the compression that `text` names, where it names one.
pub open spec fn with_compression(v: FileManagerView, text: Seq<char>) -> FileManagerView {
    match CompressionType::spec_try_from_string(text) {
        Some(kind) => FileManagerView { compression: Some(kind), ..v },
        None => v,
    }
}

/// The name of the archive of the file at `path`.
pub open spec fn archive_name(path: Seq<char>) -> Seq<char> {
    path + ".zip"@
}

impl FileManager {
    /// Makes the manager of a file-name template at the moment whose time
    /// and date are given.
    pub fn init_from_string_at(format: &str, level: Level, time: &str, date: &str) -> (res: Result<
        FileManager,
        FileManagerFromStringError,
    >)
        ensures
            manager_result_view(res) == manager_of(format@, level, time@, date@),
    {
        let f_format = match FileFormatter::try_from_string(format) {
            Ok(f) => f,
            Err(e) => {
                return Err(FileManagerFromStringError::FileFormatParsingError(e));
            },
        };
        let f_name = match FileName::from_file_formatter_at(&f_format, level, time, date) {
            Ok(f) => f,
            Err(e) => {
                return Err(FileManagerFromStringError::FileNameParsingError(e));
            },
        };
        Ok(
            FileManager {
                file_format: f_format,
                file_name: f_name,
                file_constraints: FileConstraints { compression: None, rotation: Vec::new() },
                retired: None,
                phase: WritePhase::Ready,
            },
        )
    }

    /// Makes the manager of a file-name template at the moment at which the
    /// clock is read, for the level of `config`.
    pub fn init_from_string(format: &str, config: Config) -> (res: Result<
        FileManager,
        FileManagerFromStringError,
    >)
        ensures
            match res {
                Ok(_) => manager_error(format@) is None,
                Err(e) => manager_error(format@) == Some(e),
            },
            exists|clock: Clock|
                clock.wf() && manager_result_view(res) == #[trigger] manager_of(
                    format@,
                    config.level,
                    clock.time_text(),
                    clock.date_text(),
                ),
    {
        let clock = Clock::now();
        let time = clock.time_string();
        let date = clock.date_string();
        let res = FileManager::init_from_string_at(
            format,
            config.level,
            time.as_str(),
            date.as_str(),
        );
        assert(manager_result_view(res) == manager_of(
            format@,
            config.level,
            clock.time_text(),
            clock.date_text(),
        ));
        proof {
            lemma_manager_error(format@, config.level, clock.time_text(), clock.date_text());
        }
        res
    }

    /// The name of the current file as it stands on disk.
    pub fn get_file_name(&self) -> (name: String)
        ensures
            name@ == self@.name.full(),
    {
        self.file_name.get_full_file_name()
    }

    /// The name on disk of the file that the rotation under way retires.
    pub fn retired_file_name(&self) -> (name: Option<String>)
        ensures
            match name {
                Some(text) => self@.retired is Some && text@ == self@.retired->0.full(),
                None => self@.retired is None,
            },
    {
        match &self.retired {
            Some(name) => Some(name.get_full_file_name()),
            None => None,
        }
    }

    /// The rules with their triggers, in the order in which they were added.
    pub fn rotations(&self) -> (rules: Vec<Rotation>)
        ensures
            rules@ == self@.rules,
    {
        self.file_constraints.clone().rotation
    }

    /// The compression of retired files, where one is set.
    pub fn compression(&self) -> (kind: Option<CompressionType>)
        ensures
            kind == self@.compression,
    {
        self.file_constraints.compression
    }

    /// Drops every rule.
    pub fn remove_rotations(&mut self)
        ensures
            final(self)@ == (FileManagerView { rules: Seq::empty(), ..old(self)@ }),
    {
        self.file_constraints.rotation = Vec::new();
    }

    /// Adds the rule that `string` describes, its cycle starting at `clock`.
    /// A text that describes no rule changes nothing.
    pub fn add_rotation_at(&mut self, string: &str, clock: &Clock) -> (added: bool)
        requires
            clock.wf(),
        ensures
            added == rotation_of(string@) is Some,
            final(self)@ == with_rotation(old(self)@, string@, *clock),
    {
        let rot_type = match RotationType::try_from_string(string) {
            Some(r) => r,
            None => {
                return false;
            },
        };
        let rot = Rotation::init_from_rotation_type_at(rot_type, clock);
        self.file_constraints.rotation.push(rot);
        true
    }

    /// Adds the rule that `string` describes, its cycle starting at the
    /// moment at which the clock is read. A text that describes no rule
    /// changes nothing.
    pub fn add_rotation(&mut self, string: &str) -> (added: bool)
        ensures
            added == rotation_of(string@) is Some,
            !added ==> final(self)@ == old(self)@,
            exists|clock: Clock|
                clock.wf() && final(self)@ == #[trigger] with_rotation(old(self)@, string@, clock),
    {
        let clock = Clock::now();
        let added = self.add_rotation_at(string, &clock);
        assert(self@ == with_rotation(old(self)@, string@, clock));
        added
    }

    /// Sets the compression that `string` names. A text that names none
    /// changes nothing.
    pub fn set_compression(&mut self, string: &str) -> (set: bool)
        ensures
            set == CompressionType::spec_try_from_string(string@) is Some,
            final(self)@ == with_compression(old(self)@, string@),
    {
        match CompressionType::try_from_string(string) {
            Some(r) => {
                self.file_constraints.compression = Some(r);
                true
            },
            None => false,
        }
    }

    /// Switches compression off.
    pub fn remove_compression(&mut self)
        ensures
            final(self)@ == (FileManagerView { compression: None, ..old(self)@ }),
    {
        self.file_constraints.compression = None;
    }

    /// How the file at `path` is to be archived: the kind of compression and
    /// the name of the archive. Without compression nothing is archived.
    pub fn compress_file(&self, path: &str) -> (plan: Result<
        (CompressionType, String),
        CompressFileError,
    >)
        ensures
            match plan {
                Ok((kind, name)) => self@.compression == Some(kind) && name@ == archive_name(
                    path@,
                ),
                Err(e) => self@.compression is None
                    && e == CompressFileError::UnableToGetCompressionSettings,
            },
    {
        match self.file_constraints.compression {
            Some(kind) => {
                let mut name = String::from_str(path);
                name.append(".zip");
                Ok((kind, name))
            },
            None => Err(CompressFileError::UnableToGetCompressionSettings),
        }
    }

    /// Checks the rules against a file of `current_file_size` bytes at
    /// `clock`. Where one fires, every rule starts a new cycle at `clock`;
    /// where none does, nothing changes.
    pub fn should_rotate_and_advance_at(&mut self, current_file_size: u64, clock: &Clock) -> (outcome:
        RotationOutcome)
        requires
            clock.wf(),
        ensures
            outcome == if any_fires(old(self)@.rules, current_file_size, *clock) {
                RotationOutcome::Rotate
            } else {
                RotationOutcome::Keep
            },
            final(self)@ == (FileManagerView {
                rules: if any_fires(old(self)@.rules, current_file_size, *clock) {
                    regenerate(old(self)@.rules, *clock)
                } else {
                    old(self)@.rules
                },
                ..old(self)@
            }),
    {
        let ghost rules = self.file_constraints.rotation@;
        let count = self.file_constraints.rotation.len();
        let mut fired = false;
        let mut i: usize = 0;
        while i < count && !fired
            invariant
                i <= count == rules.len(),
                self.file_constraints.rotation@ == rules,
                fired ==> any_fires(rules, current_file_size, *clock),
                !fired ==> forall|j: int| 0 <= j < i ==> !(#[trigger] rules[j]).fires(
                    current_file_size,
                    *clock,
                ),
            decreases count - i + (if fired { 0int } else { 1int }),
        {
            if self.file_constraints.rotation[i].is_due(current_file_size, clock) {
                fired = true;
            } else {
                i += 1;
            }
        }
        if !fired {
            return RotationOutcome::Keep;
        }
        let mut renewed: Vec<Rotation> = Vec::new();
        let mut k: usize = 0;
        while k < count
            invariant
                k <= count == rules.len(),
                self.file_constraints.rotation@ == rules,
                clock.wf(),
                renewed@ =~= regenerate(rules, *clock).take(k as int),
            decreases count - k,
        {
            let rule = self.file_constraints.rotation[k];
            renewed.push(Rotation::init_from_rotation_type_at(rule.rotation_type, clock));
            k += 1;
        }
        assert(regenerate(rules, *clock).take(count as int) =~= regenerate(rules, *clock));
        self.file_constraints.rotation = renewed;
        RotationOutcome::Rotate
    }

    /// Checks the rules against a file of `current_file_size` bytes at the
    /// moment at which the clock is read.
    pub fn should_rotate_and_advance(&mut self, current_file_size: u64) -> (outcome:
        RotationOutcome)
        ensures
            exists|clock: Clock|
                clock.wf() && outcome == (if #[trigger] any_fires(
                    old(self)@.rules,
                    current_file_size,
                    clock,
                ) {
                    RotationOutcome::Rotate
                } else {
                    RotationOutcome::Keep
                }) && final(self)@ == (FileManagerView {
                    rules: if any_fires(old(self)@.rules, current_file_size, clock) {
                        regenerate(old(self)@.rules, clock)
                    } else {
                        old(self)@.rules
                    },
                    ..old(self)@
                }),
    {
        let clock = Clock::now();
        let outcome = self.should_rotate_and_advance_at(current_file_size, &clock);
        assert(outcome == (if any_fires(old(self)@.rules, current_file_size, clock) {
            RotationOutcome::Rotate
        } else {
            RotationOutcome::Keep
        }));
        outcome
    }
}


impl FileManager {
    /// Where the writing of a line stands.
    pub fn phase(&self) -> (phase: WritePhase)
        ensures
            phase == self@.phase,
    {
        self.phase
    }

    fn append_next(&mut self, report: RotationReport) -> (action: FileAction)
        ensures
            (final(self)@, action) == append_after(old(self)@, report),
    {
        self.phase = WritePhase::Appending(report);
        FileAction::Append
    }

    fn reject(&mut self) -> (action: FileAction)
        ensures
            final(self)@ == (FileManagerView {
                phase: WritePhase::Ready,
                retired: None,
                ..old(self)@
            }),
            action == FileAction::Rejected,
    {
        self.phase = WritePhase::Ready;
        self.retired = None;
        FileAction::Rejected
    }

    fn finish(&mut self, report: RotationReport, written: bool) -> (action: FileAction)
        ensures
            final(self)@ == (FileManagerView {
                phase: WritePhase::Ready,
                retired: None,
                ..old(self)@
            }),
            action == FileAction::Finish(WriteOutcome { rotation: report, written }),
    {
        self.phase = WritePhase::Ready;
        self.retired = None;
        FileAction::Finish(WriteOutcome { rotation: report, written })
    }

    /// Gives the rotation under way up and goes on to the append.
    fn create_new_file_failed(&mut self, e: CreateNewFileError) -> (action: FileAction)
        ensures
            (final(self)@, action) == abandon(old(self)@, e),
    {
        let retired = self.retired.take();
        if let Some(old_name) = retired {
            self.file_name = old_name;
        }
        self.append_next(
            RotationReport::Failed(VerifyConstraintsError::UnableToCreateNewFile(e)),
        )
    }

    /// The next name to try for the new file, after one at which a file
    /// stands already.
    fn create_new_file(&mut self, found: bool) -> (action: FileAction)
        ensures
            (final(self)@, action) == next_candidate(old(self)@, found),
    {
        if !found {
            self.phase = WritePhase::CreatingNew;
            FileAction::Create
        } else {
            match self.file_name.file_num {
                Some(n) if n == u32::MAX => self.create_new_file_failed(
                    CreateNewFileError::NoFreeName,
                ),
                _ => {
                    self.file_name.increase_num();
                    FileAction::CheckExists
                },
            }
        }
    }

    /// Checks the rules once the current file is measured, and starts a
    /// rotation where one fires.
    fn verify_constraints(&mut self, size: u64, level: Level, clock: &Clock) -> (action: FileAction)
        requires
            clock.wf(),
            old(self)@.phase == WritePhase::Measuring,
        ensures
            (final(self)@, action) == spec_step(
                old(self)@,
                FileEvent::Measured(size),
                level,
                *clock,
            ),
    {
        match self.should_rotate_and_advance_at(size, clock) {
            RotationOutcome::Keep => self.append_next(
                RotationReport::Passed(VerifyConstraintsRes::ConstraintsPassed),
            ),
            RotationOutcome::Rotate => {
                let time = clock.time_string();
                let date = clock.date_string();
                match FileName::from_file_formatter_at(
                    &self.file_format,
                    level,
                    time.as_str(),
                    date.as_str(),
                ) {
                    Ok(name) => {
                        let old_name = self.file_name.clone();
                        self.retired = Some(old_name);
                        self.file_name = name;
                        self.phase = WritePhase::Probing;
                        FileAction::CheckExists
                    },
                    Err(e) => self.append_next(
                        RotationReport::Failed(
                            VerifyConstraintsError::UnableToCreateNewFile(
                                CreateNewFileError::UnableToGetFileName(e),
                            ),
                        ),
                    ),
                }
            },
        }
    }

    /// One step of writing a line at `clock`: takes what the file system
    /// answered to the last action and says what is to be done next. A write
    /// starts with `Begin` and ends with `Finish`. `level` is the threshold
    /// of the configuration, which `{level}` in the name of a new file
    /// stands for; the level of the record that is written has no part in
    /// the name.
    pub fn write_log_at(&mut self, event: FileEvent, level: Level, clock: &Clock) -> (action:
        FileAction)
        requires
            clock.wf(),
        ensures
            (final(self)@, action) == spec_step(old(self)@, event, level, *clock),
    {
        match event {
            FileEvent::Begin => {
                self.phase = WritePhase::CheckingFile;
                self.retired = None;
                FileAction::CheckExists
            },
            FileEvent::Exists(found) => match self.phase {
                WritePhase::CheckingFile => {
                    if found {
                        self.phase = WritePhase::Measuring;
                        FileAction::Measure
                    } else {
                        self.phase = WritePhase::CreatingFile;
                        FileAction::Create
                    }
                },
                WritePhase::Probing => self.create_new_file(found),
                _ => self.reject(),
            },
            FileEvent::Measured(size) => match self.phase {
                WritePhase::Measuring => self.verify_constraints(size, level, clock),
                _ => self.reject(),
            },
            FileEvent::Done => match self.phase {
                WritePhase::CreatingFile => {
                    self.phase = WritePhase::Measuring;
                    FileAction::Measure
                },
                WritePhase::CreatingNew => match self.file_constraints.compression {
                    Some(kind) => {
                        self.phase = WritePhase::Archiving;
                        FileAction::Archive(kind)
                    },
                    None => {
                        self.retired = None;
                        self.append_next(
                            RotationReport::Passed(VerifyConstraintsRes::NewFileCreated),
                        )
                    },
                },
                WritePhase::Archiving => {
                    self.phase = WritePhase::Deleting;
                    FileAction::Delete
                },
                WritePhase::Deleting => {
                    self.retired = None;
                    self.append_next(RotationReport::Passed(VerifyConstraintsRes::NewFileCreated))
                },
                WritePhase::Appending(report) => self.finish(report, true),
                _ => self.reject(),
            },
            FileEvent::Failed => match self.phase {
                WritePhase::CheckingFile => self.append_next(
                    RotationReport::Failed(VerifyConstraintsError::UnableToVerifyFileExistence),
                ),
                WritePhase::CreatingFile => self.append_next(
                    RotationReport::Failed(VerifyConstraintsError::UnableToCreateFile),
                ),
                WritePhase::Measuring => self.append_next(
                    RotationReport::Failed(VerifyConstraintsError::UnableToGetFileMetadata),
                ),
                WritePhase::Probing => self.create_new_file_failed(
                    CreateNewFileError::UnableToVerifyFileExistence,
                ),
                WritePhase::CreatingNew => self.create_new_file_failed(
                    CreateNewFileError::UnableToCreateFileIO,
                ),
                WritePhase::Archiving => self.append_next(
                    RotationReport::Failed(VerifyConstraintsError::UnableToCompressFile),
                ),
                WritePhase::Deleting => self.append_next(
                    RotationReport::Failed(VerifyConstraintsError::UnableToDeleteOldLogFile),
                ),
                WritePhase::Appending(report) => self.finish(report, false),
                _ => self.reject(),
            },
            FileEvent::OpenFailed => match self.phase {
                WritePhase::Measuring => self.append_next(
                    RotationReport::Failed(VerifyConstraintsError::UnableToOpenFile),
                ),
                _ => self.reject(),
            },
        }
    }

    /// One step of writing a line at the moment at which the clock is read.
    /// `level` is the threshold of the configuration, which `{level}` in
    /// the name of a new file stands for.
    pub fn write_log(&mut self, event: FileEvent, level: Level) -> (action: FileAction)
        ensures
            exists|clock: Clock|
                clock.wf() && (final(self)@, action) == #[trigger] spec_step(
                    old(self)@,
                    event,
                    level,
                    clock,
                ),
    {
        let clock = Clock::now();
        let action = self.write_log_at(event, level, &clock);
        assert((self@, action) == spec_step(old(self)@, event, level, clock));
        action
    }
}


/// How far a write has come: later phases have higher ranks.
pub open spec fn phase_rank(phase: WritePhase) -> nat {
    match phase {
        WritePhase::CheckingFile => 1,
        WritePhase::CreatingFile => 2,
        WritePhase::Measuring => 3,
        WritePhase::Probing => 4,
        WritePhase::CreatingNew => 5,
        WritePhase::Archiving => 6,
        WritePhase::Deleting => 7,
        WritePhase::Appending(_) => 8,
        WritePhase::Ready => 9,
    }
}

/// The number of a file name, none counting as zero.
pub open spec fn number_of(name: FileNameView) -> nat {
    match name.num {
        Some(n) => n as nat,
        None => 0,
    }
}

/// A rule of a size keeps its threshold when the rules start a new cycle.
pub proof fn lemma_size_rule_survives(rules: Seq<Rotation>, clock: Clock, i: int)
    requires
        0 <= i < rules.len(),
        rules[i].rotation_type is Size,
    ensures
        regenerate(rules, clock).len() == rules.len(),
        regenerate(rules, clock)[i].rotation_type == rules[i].rotation_type,
        regenerate(rules, clock)[i].next_rotation == rules[i].rotation_type->Size_0,
{
}

/// Rotation by size. Where the manager has measured the current file, a
/// rule of a size whose threshold the file has grown past starts a rotation:
/// every rule starts a new cycle, the rule of the size with its threshold
/// unchanged, and where the template expands the current file is retired and
/// a name for the new file is tried.
pub proof fn lemma_size_trigger_rotates(
    v: FileManagerView,
    i: int,
    size: u64,
    level: Level,
    clock: Clock,
)
    requires
        v.phase == WritePhase::Measuring,
        0 <= i < v.rules.len(),
        v.rules[i].rotation_type is Size,
        v.rules[i].next_rotation == v.rules[i].rotation_type->Size_0,
        size > v.rules[i].next_rotation,
    ensures
        ({
            let (after, action) = spec_step(v, FileEvent::Measured(size), level, clock);
            &&& after.rules == regenerate(v.rules, clock)
            &&& after.rules[i] == v.rules[i]
            &&& file_name_of(v.format, level, clock.time_text(), clock.date_text()) is Ok ==> {
                &&& action == FileAction::CheckExists
                &&& after.phase == WritePhase::Probing
                &&& after.retired == Some(v.name)
            }
        }),
{
    assert(v.rules[i].fires(size, clock));
    lemma_size_rule_survives(v.rules, clock, i);
}

/// Where no rule fires, the measured file stays current and the rules stay
/// as they are.
pub proof fn lemma_no_trigger_keeps_file(v: FileManagerView, size: u64, level: Level, clock: Clock)
    requires
        v.phase == WritePhase::Measuring,
        !any_fires(v.rules, size, clock),
    ensures
        spec_step(v, FileEvent::Measured(size), level, clock) == append_after(
            v,
            RotationReport::Passed(VerifyConstraintsRes::ConstraintsPassed),
        ),
{
}

/// One rotation per write, and no endless search. After `Begin`, every
/// step ends the write, or moves it to a later phase, or tries the next
/// number for the new file. The file is measured in one phase only, so the
/// rules are checked once in a write and at most one rotation starts.
pub proof fn lemma_write_progress(v: FileManagerView, event: FileEvent, level: Level, clock: Clock)
    requires
        event != FileEvent::Begin,
    ensures
        ({
            let (after, action) = spec_step(v, event, level, clock);
            ||| after.phase == WritePhase::Ready
            ||| phase_rank(after.phase) > phase_rank(v.phase)
            ||| (v.phase == WritePhase::Probing && after.phase == WritePhase::Probing
                && action == FileAction::CheckExists && number_of(after.name) > number_of(
                v.name,
            ))
        }),
{
}

/// No failure drops the line. Whatever fails before the append, the next
/// action is the append, the failure is kept for the outcome of the write,
/// and a rotation that could not make its new file leaves the retired file
/// current again.
pub proof fn lemma_failure_still_appends(v: FileManagerView, level: Level, clock: Clock)
    requires
        1 <= phase_rank(v.phase) <= 7,
    ensures
        ({
            let (after, action) = spec_step(v, FileEvent::Failed, level, clock);
            &&& action == FileAction::Append
            &&& after.phase is Appending
            &&& after.phase->Appending_0 is Failed
            &&& (v.phase == WritePhase::Probing || v.phase == WritePhase::CreatingNew) ==> (
            v.retired matches Some(old_name) ==> after.name == old_name)
            &&& !(v.phase == WritePhase::Probing || v.phase == WritePhase::CreatingNew)
                ==> after.name == v.name
        }),
{
}

/// The rules change in one step only: the one that measures the file.
pub proof fn lemma_rules_change_on_measure_only(
    v: FileManagerView,
    event: FileEvent,
    level: Level,
    clock: Clock,
)
    requires
        !(v.phase == WritePhase::Measuring && event is Measured),
    ensures
        spec_step(v, event, level, clock).0.rules == v.rules,
        spec_step(v, event, level, clock).0.format == v.format,
        spec_step(v, event, level, clock).0.compression == v.compression,
{
}

} // verus!
