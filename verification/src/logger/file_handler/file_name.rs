//! Names of log files: a file-name template expanded at one moment.

use crate::helper::{
    get_current_date_in_string, get_current_time_in_string, is_date_string, is_time_string,
};
use crate::logger::file_handler::file_formatter::FileFormatter;
use crate::logger::formatter::{parts_view, LogPart, PartView};
use crate::text::{decimal, find_last, from_chars, last_index_of, push_decimal, str_eq, to_chars};
use crate::Level;
use vstd::prelude::*;

verus! {

/// The name of a log file: a base, a number that tells it from other files
/// of the same base, and an extension.
#[derive(Debug)]
pub struct FileName {
    pub file_name: String,
    pub file_num: Option<u32>,
    pub file_extension: String,
}

/// What a [`FileName`] stands for.
pub struct FileNameView {
    pub base: Seq<char>,
    pub num: Option<u32>,
    pub extension: Seq<char>,
}

impl FileNameView {
    /// The name as it stands on disk: the base, the number in round
    /// brackets where there is one, a `.` and the extension.
    pub open spec fn full(self) -> Seq<char> {
        match self.num {
            Some(n) => self.base + seq!['('] + decimal(n as nat) + seq![')'] + seq!['.']
                + self.extension,
            None => self.base + seq!['.'] + self.extension,
        }
    }
}

impl View for FileName {
    type V = FileNameView;

    open spec fn view(&self) -> FileNameView {
        FileNameView {
            base: self.file_name@,
            num: self.file_num,
            extension: self.file_extension@,
        }
    }
}

impl Clone for FileName {
    fn clone(&self) -> (out: Self)
        ensures
            out@ == self@,
    {
        FileName {
            file_name: self.file_name.clone(),
            file_num: self.file_num,
            file_extension: self.file_extension.clone(),
        }
    }
}

/// Why a template cannot be expanded into a file name.
#[derive(Debug, Clone, Copy, PartialEq, Eq, Structural)]
pub enum FileNameFromFileFormatterError {
    NoFormatProvided,
    IncorrectLastPart,
    NoFileExtensionProvided,
    IncorrectFileExtension,
}

/// Whether log files may have the extension.
pub open spec fn spec_is_acceptable_file_extension(extension: Seq<char>) -> bool {
    extension == "txt"@ || extension == "log"@
}

/// The text that a part of a file name stands for, where `level` is the
/// threshold of the configuration. A part that no file name may hold stands
/// for nothing.
pub open spec fn part_text(part: PartView, level: Level, time: Seq<char>, date: Seq<char>) -> Seq<
    char,
> {
    match part {
        PartView::Time => time,
        PartView::Date => date,
        PartView::Level => level.spec_name(),
        PartView::Text(text) => text,
        _ => Seq::empty(),
    }
}

/// The texts of the parts, one after the other.
pub open spec fn expand(parts: Seq<PartView>, level: Level, time: Seq<char>, date: Seq<char>) -> Seq<
    char,
>
    decreases parts.len(),
{
    if parts.len() == 0 {
        Seq::empty()
    } else {
        expand(parts.drop_last(), level, time, date) + part_text(parts.last(), level, time, date)
    }
}

/// The file name that the parts of a template expand into at the moment
/// whose time and date are given, or why they expand into none. The last
/// part must be literal text; what follows its last `.` is the extension,
/// and what stands before that `.` closes the base.
pub open spec fn file_name_of(
    parts: Seq<PartView>,
    level: Level,
    time: Seq<char>,
    date: Seq<char>,
) -> Result<FileNameView, FileNameFromFileFormatterError> {
    if parts.len() == 0 {
        Err(FileNameFromFileFormatterError::NoFormatProvided)
    } else {
        match parts.last() {
            PartView::Text(text) => {
                let dot = last_index_of(text, '.');
                let extension = text.subrange(dot + 1, text.len() as int);
                if dot < 0 {
                    Err(FileNameFromFileFormatterError::NoFileExtensionProvided)
                } else if !spec_is_acceptable_file_extension(extension) {
                    Err(FileNameFromFileFormatterError::IncorrectFileExtension)
                } else {
                    Ok(
                        FileNameView {
                            base: expand(parts.drop_last(), level, time, date) + text.subrange(
                                0,
                                dot,
                            ),
                            num: None,
                            extension,
                        },
                    )
                }
            },
            _ => Err(FileNameFromFileFormatterError::IncorrectLastPart),
        }
    }
}

/// Why the parts of a template expand into no file name, at whatever
/// moment and for whatever level; none where they expand into one.
pub open spec fn file_name_error(parts: Seq<PartView>) -> Option<FileNameFromFileFormatterError> {
    match file_name_of(parts, Level::INFO, Seq::empty(), Seq::empty()) {
        Ok(_) => None,
        Err(e) => Some(e),
    }
}

/// Whether a template expands into a file name, and why it does not,
/// depends on neither the moment nor the level.
pub proof fn lemma_file_name_error(
    parts: Seq<PartView>,
    level: Level,
    time: Seq<char>,
    date: Seq<char>,
)
    ensures
        match file_name_of(parts, level, time, date) {
            Ok(_) => file_name_error(parts) is None,
            Err(e) => file_name_error(parts) == Some(e),
        },
{
}

/// What `res` stands for.
pub open spec fn file_name_result_view(
    res: Result<FileName, FileNameFromFileFormatterError>,
) -> Result<FileNameView, FileNameFromFileFormatterError> {
    match res {
        Ok(name) => Ok(name@),
        Err(e) => Err(e),
    }
}

impl FileName {
    /// The extensions that log files may have.
    pub fn acceptable_file_extensions() -> (extensions: Vec<String>)
        ensures
            extensions@.len() == 2,
            extensions@[0]@ == "txt"@,
            extensions@[1]@ == "log"@,
    {
        let mut extensions: Vec<String> = Vec::new();
        extensions.push(String::from_str("txt"));
        extensions.push(String::from_str("log"));
        extensions
    }

    /// Whether log files may have the extension.
    pub fn is_acceptable_file_extension(ext: &str) -> (acceptable: bool)
        ensures
            acceptable == spec_is_acceptable_file_extension(ext@),
    {
        let extensions = FileName::acceptable_file_extensions();
        str_eq(extensions[0].as_str(), ext) || str_eq(extensions[1].as_str(), ext)
    }

    /// Gives the name its first number, 1, or the number after the one it has.
    pub fn increase_num(&mut self)
        requires
            old(self).file_num != Some(u32::MAX),
        ensures
            final(self)@.base == old(self)@.base,
            final(self)@.extension == old(self)@.extension,
            final(self)@.num == match old(self)@.num {
                None => Some(1u32),
                Some(n) => Some((n + 1) as u32),
            },
    {
        match self.file_num {
            None => self.file_num = Some(1),
            Some(num) => self.file_num = Some(num + 1),
        };
    }

    /// The texts of the parts, one after the other, at the moment whose time
    /// and date are given.
    pub fn expand_parts(parts: &Vec<LogPart>, count: usize, level: Level, time: &str, date: &str) -> (out:
        String)
        requires
            count <= parts@.len(),
        ensures
            out@ == expand(parts_view(parts@).take(count as int), level, time@, date@),
    {
        let ghost all = parts_view(parts@);
        let mut out = String::new();
        let mut i: usize = 0;
        while i < count
            invariant
                i <= count <= parts@.len(),
                all == parts_view(parts@),
                out@ == expand(all.take(i as int), level, time@, date@),
            decreases count - i,
        {
            let ghost before = out@;
            assert(all.take(i + 1).drop_last() =~= all.take(i as int));
            assert(all.take(i + 1).last() == parts@[i as int]@);
            match &parts[i] {
                LogPart::Time => out.append(time),
                LogPart::Date => out.append(date),
                LogPart::Level => out.append(level.name()),
                LogPart::Text(text) => out.append(text.as_str()),
                _ => {
                    assert(out@ =~= before + Seq::<char>::empty());
                },
            }
            i += 1;
        }
        out
    }

    /// The texts of the parts, one after the other, at the moment at which
    /// the clock is read.
    pub fn get_string_from_log_parts(parts: Vec<LogPart>, level: Level) -> (out: String)
        ensures
            exists|time: Seq<char>, date: Seq<char>|
                is_time_string(time) && is_date_string(date) && out@ == #[trigger] expand(
                    parts_view(parts@),
                    level,
                    time,
                    date,
                ),
    {
        let time_str = get_current_time_in_string();
        let date_str = get_current_date_in_string();
        let out = FileName::expand_parts(
            &parts,
            parts.len(),
            level,
            time_str.as_str(),
            date_str.as_str(),
        );
        assert(parts_view(parts@).take(parts@.len() as int) =~= parts_view(parts@));
        assert(out@ == expand(parts_view(parts@), level, time_str@, date_str@));
        out
    }

    /// Expands a template into a file name at the moment whose time and date
    /// are given.
    pub fn from_file_formatter_at(format: &FileFormatter, level: Level, time: &str, date: &str) -> (res:
        Result<FileName, FileNameFromFileFormatterError>)
        ensures
            file_name_result_view(res) == file_name_of(format@, level, time@, date@),
    {
        let parts = &format.format;
        if parts.len() == 0 {
            return Err(FileNameFromFileFormatterError::NoFormatProvided);
        }
        let ghost all = parts_view(parts@);
        assert(all.last() == parts@[parts@.len() - 1]@);
        let txt = match &parts[parts.len() - 1] {
            LogPart::Text(tt) => to_chars(tt.as_str()),
            _ => {
                return Err(FileNameFromFileFormatterError::IncorrectLastPart);
            },
        };
        let dot = match find_last(&txt, '.') {
            Some(k) => k,
            None => {
                return Err(FileNameFromFileFormatterError::NoFileExtensionProvided);
            },
        };
        proof {
            crate::text::lemma_last_index_of(txt@, '.');
        }
        let extension = from_chars(&txt, dot + 1, txt.len());
        if !FileName::is_acceptable_file_extension(extension.as_str()) {
            return Err(FileNameFromFileFormatterError::IncorrectFileExtension);
        }
        let stem = from_chars(&txt, 0, dot);
        let mut file_name = FileName::expand_parts(parts, parts.len() - 1, level, time, date);
        file_name.append(stem.as_str());
        assert(all.take(parts@.len() - 1) =~= all.drop_last());
        Ok(FileName { file_name, file_num: None, file_extension: extension })
    }

    /// Expands a template into a file name at the moment at which the clock
    /// is read. Whether the template expands does not depend on the clock.
    pub fn from_file_formatter(format: FileFormatter, level: Level) -> (res: Result<
        FileName,
        FileNameFromFileFormatterError,
    >)
        ensures
            match res {
                Ok(_) => file_name_error(format@) is None,
                Err(e) => file_name_error(format@) == Some(e),
            },
            exists|time: Seq<char>, date: Seq<char>|
                is_time_string(time) && is_date_string(date) && file_name_result_view(res)
                    == #[trigger] file_name_of(format@, level, time, date),
    {
        let time_str = get_current_time_in_string();
        let date_str = get_current_date_in_string();
        let res = FileName::from_file_formatter_at(
            &format,
            level,
            time_str.as_str(),
            date_str.as_str(),
        );
        assert(file_name_result_view(res) == file_name_of(format@, level, time_str@, date_str@));
        res
    }

    /// The name as it stands on disk.
    pub fn get_full_file_name(&self) -> (out: String)
        ensures
            out@ == self@.full(),
    {
        let mut txt = self.file_name.clone();
        if let Some(num) = self.file_num {
            txt.push('(');
            push_decimal(&mut txt, num as u64);
            txt.push(')');
        }
        txt.push('.');
        txt.append(self.file_extension.as_str());
        assert(txt@ =~= self@.full());
        txt
    }
}

impl From<FileName> for String {
    /// The name as it stands on disk.
    fn from(value: FileName) -> (out: String)
        ensures
            out@ == value@.full(),
    {
        value.get_full_file_name()
    }
}

/// No text can be written down in a specification, so the conversion is
/// stated by the `ensures` of `from` alone.
impl vstd::std_specs::convert::FromSpecImpl<FileName> for String {
    open spec fn obeys_from_spec() -> bool {
        false
    }

    open spec fn from_spec(value: FileName) -> String {
        arbitrary()
    }
}

/// A template that `FileFormatter::try_from_string` accepts always expands
/// into a file name, at whatever moment and for whatever level: a name
/// without a number, with the extension of the template, `txt` or `log`.
pub proof fn lemma_valid_template_expands(
    parts: Seq<PartView>,
    level: Level,
    time: Seq<char>,
    date: Seq<char>,
)
    requires
        crate::logger::file_handler::file_formatter::ends_in_extension(parts),
    ensures
        file_name_error(parts) is None,
        file_name_of(parts, level, time, date) is Ok,
        file_name_of(parts, level, time, date)->Ok_0.num is None,
        spec_is_acceptable_file_extension(
            file_name_of(parts, level, time, date)->Ok_0.extension,
        ),
{
    match parts.last() {
        PartView::Text(text) => {
            crate::text::lemma_last_index_of(text, '.');
        },
        _ => {},
    }
}

} // verus!
