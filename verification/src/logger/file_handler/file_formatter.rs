//! Templates of file names: templates restricted to what a file name may
//! depend on, ending in literal text that holds the extension of a log file.

use crate::logger::file_handler::file_name::{spec_is_acceptable_file_extension, FileName};
use crate::logger::formatter::{
    clone_parts, compile_parts, parse_string_to_logparts, parts_view, LogPart, PartView,
};
use crate::text::{contains_char, find_last, from_chars, last_index_of, to_chars};
use vstd::prelude::*;

verus! {

/// A validated template of a file name.
#[derive(Debug)]
pub struct FileFormatter {
    pub format: Vec<LogPart>,
}

/// Why a text is no template of a file name.
#[derive(Debug, Clone, Copy, PartialEq, Eq, Structural)]
pub enum FileFormatterTryFromStringError {
    IncorrectCharacterGiven(char),
    EmptyStringGiven,
    NoFileExtensionProvided,
    IncorrectFormatPartGiven,
}

/// Whether a file name may hold the part: the time, the date, the level and
/// literal text, but nothing that differs from one log call to the next.
pub open spec fn spec_is_part_authorized(part: PartView) -> bool {
    part is Time || part is Date || part is Level || part is Text
}

/// Whether a file name may hold every part.
pub open spec fn all_authorized(parts: Seq<PartView>) -> bool {
    forall|i: int| 0 <= i < parts.len() ==> spec_is_part_authorized(#[trigger] parts[i])
}

/// The extension of a literal text: what follows its last `.`.
pub open spec fn extension_of(text: Seq<char>) -> Seq<char> {
    text.subrange(last_index_of(text, '.') + 1, text.len() as int)
}

/// Whether the parts end in literal text that holds a `.`, with an
/// extension that log files may have, `txt` or `log`, after its last `.`.
pub open spec fn ends_in_extension(parts: Seq<PartView>) -> bool {
    parts.len() > 0 && match parts.last() {
        PartView::Text(text) => text.contains('.') && spec_is_acceptable_file_extension(
            extension_of(text),
        ),
        _ => false,
    }
}

/// The first of `<`, `>`, `&` and `%`, in this order, that `format` holds.
pub open spec fn forbidden_character(format: Seq<char>) -> Option<char> {
    if format.contains('<') {
        Some('<')
    } else if format.contains('>') {
        Some('>')
    } else if format.contains('&') {
        Some('&')
    } else if format.contains('%') {
        Some('%')
    } else {
        None
    }
}

/// The parts of the file-name template `format`, or why it is refused: for
/// a forbidden character, for not compiling, for being empty, for not ending
/// in the extension `txt` or `log`, or for a part that a file name may not
/// hold, whichever comes first in this order.
pub open spec fn file_template(format: Seq<char>) -> Result<
    Seq<PartView>,
    FileFormatterTryFromStringError,
> {
    match forbidden_character(format) {
        Some(c) => Err(FileFormatterTryFromStringError::IncorrectCharacterGiven(c)),
        None => match compile_parts(format) {
            Err(_) => Err(FileFormatterTryFromStringError::IncorrectFormatPartGiven),
            Ok(parts) => if parts.len() == 0 {
                Err(FileFormatterTryFromStringError::EmptyStringGiven)
            } else if !ends_in_extension(parts) {
                Err(FileFormatterTryFromStringError::NoFileExtensionProvided)
            } else if !all_authorized(parts) {
                Err(FileFormatterTryFromStringError::IncorrectFormatPartGiven)
            } else {
                Ok(parts)
            },
        },
    }
}

/// The extension invariant. Every accepted template ends in literal text
/// whose extension is `txt` or `log`, and holds nothing but the time, the
/// date, the level and literal text; a template that compiles and ends in
/// anything else is refused for its extension.
pub proof fn lemma_extension_invariant(format: Seq<char>)
    ensures
        match file_template(format) {
            Ok(parts) => ends_in_extension(parts) && all_authorized(parts) && compile_parts(format)
                == Ok::<Seq<PartView>, crate::logger::formatter::ParseStringToWrappersError>(
                parts,
            ),
            Err(e) => (forbidden_character(format) is None && compile_parts(format) is Ok
                && compile_parts(format)->Ok_0.len() > 0 && !ends_in_extension(
                compile_parts(format)->Ok_0,
            )) ==> e == FileFormatterTryFromStringError::NoFileExtensionProvided,
        },
{
}

impl View for FileFormatter {
    type V = Seq<PartView>;

    open spec fn view(&self) -> Seq<PartView> {
        parts_view(self.format@)
    }
}

impl Clone for FileFormatter {
    fn clone(&self) -> (out: Self)
        ensures
            out@ == self@,
    {
        FileFormatter { format: clone_parts(&self.format) }
    }
}

impl FileFormatter {
    /// What every template that `try_from_string` accepts holds.
    pub open spec fn wf(&self) -> bool {
        ends_in_extension(self@) && all_authorized(self@)
    }

    /// Whether a file name may hold the part.
    pub fn is_part_authorized(part: &LogPart) -> (authorized: bool)
        ensures
            authorized == spec_is_part_authorized(part@),
    {
        match part {
            LogPart::Time => true,
            LogPart::Date => true,
            LogPart::Level => true,
            LogPart::Text(_) => true,
            _ => false,
        }
    }

    /// The characters that no file-name template may hold.
    pub fn forbidden_characters() -> (chars: [char; 4])
        ensures
            chars@ == seq!['<', '>', '&', '%'],
    {
        let chars = ['<', '>', '&', '%'];
        assert(chars@ =~= seq!['<', '>', '&', '%']);
        chars
    }

    /// Reads a file-name template.
    #[verifier::loop_isolation(false)]
    pub fn try_from_string(format: &str) -> (res: Result<
        FileFormatter,
        FileFormatterTryFromStringError,
    >)
        ensures
            match res {
                Ok(formatter) => file_template(format@) == Ok::<
                    Seq<PartView>,
                    FileFormatterTryFromStringError,
                >(formatter@) && formatter.wf(),
                Err(e) => file_template(format@) == Err::<
                    Seq<PartView>,
                    FileFormatterTryFromStringError,
                >(e),
            },
    {
        let chars = to_chars(format);
        let forbidden = FileFormatter::forbidden_characters();
        let mut k: usize = 0;
        while k < 4
            invariant
                k <= 4,
                chars@ == format@,
                forbidden@ == seq!['<', '>', '&', '%'],
                forall|j: int| 0 <= j < k ==> !format@.contains(#[trigger] forbidden@[j]),
            decreases 4 - k,
        {
            let ch = forbidden[k];
            if contains_char(&chars, ch) {
                return Err(FileFormatterTryFromStringError::IncorrectCharacterGiven(ch));
            }
            k += 1;
        }
        assert(!format@.contains(forbidden@[0]) && !format@.contains(forbidden@[1])
            && !format@.contains(forbidden@[2]) && !format@.contains(forbidden@[3]));
        let elems = match parse_string_to_logparts(format) {
            Ok(r) => r,
            Err(_) => {
                return Err(FileFormatterTryFromStringError::IncorrectFormatPartGiven);
            },
        };
        if elems.len() == 0 {
            return Err(FileFormatterTryFromStringError::EmptyStringGiven);
        }
        let ghost parts = parts_view(elems@);
        assert(parts.last() == elems@[elems@.len() - 1]@);
        match &elems[elems.len() - 1] {
            LogPart::Text(t) => {
                let text = to_chars(t.as_str());
                proof {
                    crate::text::lemma_last_index_of(text@, '.');
                }
                let dot = match find_last(&text, '.') {
                    Some(k) => k,
                    None => {
                        return Err(FileFormatterTryFromStringError::NoFileExtensionProvided);
                    },
                };
                let length = text.len();
                assert(dot < length);
                let extension = from_chars(&text, dot + 1, length);
                if !FileName::is_acceptable_file_extension(extension.as_str()) {
                    return Err(FileFormatterTryFromStringError::NoFileExtensionProvided);
                }
            },
            _ => {
                return Err(FileFormatterTryFromStringError::NoFileExtensionProvided);
            },
        }
        let mut i: usize = 0;
        while i < elems.len()
            invariant
                i <= elems@.len(),
                parts == parts_view(elems@),
                forall|j: int| 0 <= j < i ==> spec_is_part_authorized(#[trigger] parts[j]),
            decreases elems@.len() - i,
        {
            if !FileFormatter::is_part_authorized(&elems[i]) {
                assert(!spec_is_part_authorized(parts[i as int]));
                return Err(FileFormatterTryFromStringError::IncorrectFormatPartGiven);
            }
            i += 1;
        }
        Ok(FileFormatter { format: elems })
    }
}

} // verus!
