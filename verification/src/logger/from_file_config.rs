//! Loading the configuration from the fields of a configuration file.

use crate::helper::Clock;
use crate::logger::set_errors::{
    ParseConfigError, ReadErrorView, ReadFromConfigFileError, SetArchiveDirError,
};
use crate::logger::{
    add_rotation_at, add_rotation_result, config_with_rotation, set_archive_dir, set_colorized,
    set_compression, set_file_at, set_file_result, set_global_formatting, set_level_formatting,
    set_log_level, set_print_to_terminal, with_all_formats, with_file, with_format,
    config_with_compression,
};
use crate::logger::file_handler::file_manager::CompressionType;
use crate::logger::formatter::compile;
use crate::logger::set_errors::{SetCompressionError, SetLevelFormattingError};
use crate::text::{
    comma_list, find_last, from_chars, last_index_of, split_comma_list, str_eq, strings_view,
    to_chars,
};
use crate::{Config, ConfigView, Level};
use vstd::prelude::*;

verus! {

/// The fields of a configuration file as they stand in it: texts, and a
/// list of texts for the rotation rules.
#[derive(Debug, Default)]
pub struct ConfigForSerde {
    pub enabled: Option<String>,
    pub level: Option<String>,
    pub print_to_terminal: Option<String>,
    pub colorized: Option<String>,
    pub global_formatting: Option<String>,
    pub trace_formatting: Option<String>,
    pub debug_formatting: Option<String>,
    pub info_formatting: Option<String>,
    pub warn_formatting: Option<String>,
    pub error_formatting: Option<String>,
    pub file_name: Option<String>,
    pub compression: Option<String>,
    pub rotations: Option<Vec<String>>,
    pub archive_dir: Option<String>,
}

/// What a [`ConfigForSerde`] stands for.
pub struct SerdeView {
    pub enabled: Option<Seq<char>>,
    pub level: Option<Seq<char>>,
    pub print_to_terminal: Option<Seq<char>>,
    pub colorized: Option<Seq<char>>,
    pub global_formatting: Option<Seq<char>>,
    pub trace_formatting: Option<Seq<char>>,
    pub debug_formatting: Option<Seq<char>>,
    pub info_formatting: Option<Seq<char>>,
    pub warn_formatting: Option<Seq<char>>,
    pub error_formatting: Option<Seq<char>>,
    pub file_name: Option<Seq<char>>,
    pub compression: Option<Seq<char>>,
    pub rotations: Option<Seq<Seq<char>>>,
    pub archive_dir: Option<Seq<char>>,
}

/// What an optional text stands for.
pub open spec fn text_view(text: Option<String>) -> Option<Seq<char>> {
    match text {
        Some(t) => Some(t@),
        None => None,
    }
}

impl View for ConfigForSerde {
    type V = SerdeView;

    open spec fn view(&self) -> SerdeView {
        SerdeView {
            enabled: text_view(self.enabled),
            level: text_view(self.level),
            print_to_terminal: text_view(self.print_to_terminal),
            colorized: text_view(self.colorized),
            global_formatting: text_view(self.global_formatting),
            trace_formatting: text_view(self.trace_formatting),
            debug_formatting: text_view(self.debug_formatting),
            info_formatting: text_view(self.info_formatting),
            warn_formatting: text_view(self.warn_formatting),
            error_formatting: text_view(self.error_formatting),
            file_name: text_view(self.file_name),
            compression: text_view(self.compression),
            rotations: match self.rotations {
                Some(list) => Some(strings_view(list@)),
                None => None,
            },
            archive_dir: text_view(self.archive_dir),
        }
    }
}

fn clone_text(text: &Option<String>) -> (out: Option<String>)
    ensures
        text_view(out) == text_view(*text),
{
    match text {
        Some(t) => Some(t.clone()),
        None => None,
    }
}

fn clone_texts(texts: &Option<Vec<String>>) -> (out: Option<Vec<String>>)
    ensures
        match (out, *texts) {
            (Some(copy), Some(list)) => strings_view(copy@) == strings_view(list@),
            (None, None) => true,
            _ => false,
        },
{
    match texts {
        None => None,
        Some(list) => {
            let mut copy: Vec<String> = Vec::new();
            let mut i: usize = 0;
            while i < list.len()
                invariant
                    i <= list@.len(),
                    copy@.len() == i,
                    forall|j: int| 0 <= j < i ==> (#[trigger] copy@[j])@ == list@[j]@,
                decreases list@.len() - i,
            {
                copy.push(list[i].clone());
                i += 1;
            }
            assert(strings_view(copy@) =~= strings_view(list@));
            Some(copy)
        },
    }
}

impl Clone for ConfigForSerde {
    fn clone(&self) -> (out: Self)
        ensures
            out@ == self@,
    {
        ConfigForSerde {
            enabled: clone_text(&self.enabled),
            level: clone_text(&self.level),
            print_to_terminal: clone_text(&self.print_to_terminal),
            colorized: clone_text(&self.colorized),
            global_formatting: clone_text(&self.global_formatting),
            trace_formatting: clone_text(&self.trace_formatting),
            debug_formatting: clone_text(&self.debug_formatting),
            info_formatting: clone_text(&self.info_formatting),
            warn_formatting: clone_text(&self.warn_formatting),
            error_formatting: clone_text(&self.error_formatting),
            file_name: clone_text(&self.file_name),
            compression: clone_text(&self.compression),
            rotations: clone_texts(&self.rotations),
            archive_dir: clone_text(&self.archive_dir),
        }
    }
}

/// The fields of a configuration file once their values are read: flags
/// and the level are typed, templates and rules are still texts.
#[derive(Debug, Default)]
pub struct InterConfig {
    pub enabled: Option<bool>,
    pub level: Option<Level>,
    pub print_to_terminal: Option<bool>,
    pub colorized: Option<bool>,
    pub global_formatting: Option<String>,
    pub trace_formatting: Option<String>,
    pub debug_formatting: Option<String>,
    pub info_formatting: Option<String>,
    pub warn_formatting: Option<String>,
    pub error_formatting: Option<String>,
    pub file_name: Option<String>,
    pub compression: Option<String>,
    pub rotations: Option<Vec<String>>,
    pub archive_dir: Option<String>,
}

/// What an [`InterConfig`] stands for.
pub struct InterView {
    pub enabled: Option<bool>,
    pub level: Option<Level>,
    pub print_to_terminal: Option<bool>,
    pub colorized: Option<bool>,
    pub global_formatting: Option<Seq<char>>,
    pub trace_formatting: Option<Seq<char>>,
    pub debug_formatting: Option<Seq<char>>,
    pub info_formatting: Option<Seq<char>>,
    pub warn_formatting: Option<Seq<char>>,
    pub error_formatting: Option<Seq<char>>,
    pub file_name: Option<Seq<char>>,
    pub compression: Option<Seq<char>>,
    pub rotations: Option<Seq<Seq<char>>>,
    pub archive_dir: Option<Seq<char>>,
}

impl View for InterConfig {
    type V = InterView;

    open spec fn view(&self) -> InterView {
        InterView {
            enabled: self.enabled,
            level: self.level,
            print_to_terminal: self.print_to_terminal,
            colorized: self.colorized,
            global_formatting: text_view(self.global_formatting),
            trace_formatting: text_view(self.trace_formatting),
            debug_formatting: text_view(self.debug_formatting),
            info_formatting: text_view(self.info_formatting),
            warn_formatting: text_view(self.warn_formatting),
            error_formatting: text_view(self.error_formatting),
            file_name: text_view(self.file_name),
            compression: text_view(self.compression),
            rotations: match self.rotations {
                Some(list) => Some(strings_view(list@)),
                None => None,
            },
            archive_dir: text_view(self.archive_dir),
        }
    }
}

/// The flag that `text` stands for: `true` or `false`, nothing else.
pub open spec fn flag_of(text: Seq<char>) -> Option<bool> {
    if text == "true"@ {
        Some(true)
    } else if text == "false"@ {
        Some(false)
    } else {
        None
    }
}

/// The lower-case form of an upper-case letter of the Latin alphabet, and
/// the character itself for every other character.
pub open spec fn ascii_lower(c: char) -> char {
    if 'A' <= c <= 'Z' {
        ((c as u8) + 32) as char
    } else {
        c
    }
}

/// The text with its upper-case Latin letters in lower case.
pub open spec fn ascii_lowercase(text: Seq<char>) -> Seq<char> {
    Seq::new(text.len(), |i: int| ascii_lower(text[i]))
}

/// The level that `text` names, in any mix of upper and lower case.
pub open spec fn level_of(text: Seq<char>) -> Option<Level> {
    let lower = ascii_lowercase(text);
    if lower == "trace"@ {
        Some(Level::TRACE)
    } else if lower == "debug"@ {
        Some(Level::DEBUG)
    } else if lower == "info"@ {
        Some(Level::INFO)
    } else if lower == "warn"@ {
        Some(Level::WARN)
    } else if lower == "error"@ {
        Some(Level::ERROR)
    } else {
        None
    }
}

/// Whether an optional flag is absent or well written.
pub open spec fn flag_ok(text: Option<Seq<char>>) -> bool {
    match text {
        Some(t) => flag_of(t) is Some,
        None => true,
    }
}

/// The flag of an optional text.
pub open spec fn optional_flag(text: Option<Seq<char>>) -> Option<bool> {
    match text {
        Some(t) => flag_of(t),
        None => None,
    }
}

/// The typed fields of a configuration file, or the refusal of a flag that
/// is neither `true` nor `false` or of a level that is none of the five.
pub open spec fn inter_of(s: SerdeView) -> Result<InterView, ParseConfigError> {
    if !flag_ok(s.enabled) || !flag_ok(s.print_to_terminal) || !flag_ok(s.colorized) || (
    s.level is Some && level_of(s.level->0) is None) {
        Err(ParseConfigError::IncorrectValue)
    } else {
        Ok(
            InterView {
                enabled: optional_flag(s.enabled),
                level: match s.level {
                    Some(t) => level_of(t),
                    None => None,
                },
                print_to_terminal: optional_flag(s.print_to_terminal),
                colorized: optional_flag(s.colorized),
                global_formatting: s.global_formatting,
                trace_formatting: s.trace_formatting,
                debug_formatting: s.debug_formatting,
                info_formatting: s.info_formatting,
                warn_formatting: s.warn_formatting,
                error_formatting: s.error_formatting,
                file_name: s.file_name,
                compression: s.compression,
                rotations: s.rotations,
                archive_dir: s.archive_dir,
            },
        )
    }
}

fn read_flag(text: &Option<String>) -> (res: Result<Option<bool>, ParseConfigError>)
    ensures
        match res {
            Ok(flag) => flag_ok(text_view(*text)) && flag == optional_flag(text_view(*text)),
            Err(_) => !flag_ok(text_view(*text)),
        },
{
    match text {
        None => Ok(None),
        Some(v) => {
            if str_eq(v.as_str(), "true") {
                Ok(Some(true))
            } else if str_eq(v.as_str(), "false") {
                Ok(Some(false))
            } else {
                Err(ParseConfigError::IncorrectValue)
            }
        },
    }
}

fn lowercase(text: &str) -> (out: Vec<char>)
    ensures
        out@ == ascii_lowercase(text@),
{
    let chars = to_chars(text);
    let mut out: Vec<char> = Vec::new();
    let mut i: usize = 0;
    while i < chars.len()
        invariant
            i <= chars@.len(),
            out@.len() == i,
            forall|j: int| 0 <= j < i ==> out@[j] == ascii_lower(chars@[j]),
        decreases chars@.len() - i,
    {
        let c = chars[i];
        let lower = if c >= 'A' && c <= 'Z' {
            ((c as u8) + 32) as char
        } else {
            c
        };
        out.push(lower);
        i += 1;
    }
    assert(out@ =~= ascii_lowercase(chars@));
    out
}

fn read_level(text: &str) -> (level: Option<Level>)
    ensures
        level == level_of(text@),
{
    let lower = lowercase(text);
    if crate::text::chars_eq(&lower, &to_chars("trace")) {
        Some(Level::TRACE)
    } else if crate::text::chars_eq(&lower, &to_chars("debug")) {
        Some(Level::DEBUG)
    } else if crate::text::chars_eq(&lower, &to_chars("info")) {
        Some(Level::INFO)
    } else if crate::text::chars_eq(&lower, &to_chars("warn")) {
        Some(Level::WARN)
    } else if crate::text::chars_eq(&lower, &to_chars("error")) {
        Some(Level::ERROR)
    } else {
        None
    }
}

/// What `res` stands for.
pub open spec fn inter_result_view(res: Result<InterConfig, ParseConfigError>) -> Result<
    InterView,
    ParseConfigError,
> {
    match res {
        Ok(inter) => Ok(inter@),
        Err(e) => Err(e),
    }
}

/// Reads the values of the fields of a configuration file.
pub fn parse_inter_config_from_serde_config(s_conf: ConfigForSerde) -> (res: Result<
    InterConfig,
    ParseConfigError,
>)
    ensures
        inter_result_view(res) == inter_of(s_conf@),
{
    let enabled = match read_flag(&s_conf.enabled) {
        Ok(f) => f,
        Err(e) => {
            return Err(e);
        },
    };
    let level = match &s_conf.level {
        Some(v) => match read_level(v.as_str()) {
            Some(l) => Some(l),
            None => {
                return Err(ParseConfigError::IncorrectValue);
            },
        },
        None => None,
    };
    let print_to_terminal = match read_flag(&s_conf.print_to_terminal) {
        Ok(f) => f,
        Err(e) => {
            return Err(e);
        },
    };
    let colorized = match read_flag(&s_conf.colorized) {
        Ok(f) => f,
        Err(e) => {
            return Err(e);
        },
    };
    Ok(
        InterConfig {
            enabled,
            level,
            print_to_terminal,
            colorized,
            global_formatting: s_conf.global_formatting,
            trace_formatting: s_conf.trace_formatting,
            debug_formatting: s_conf.debug_formatting,
            info_formatting: s_conf.info_formatting,
            warn_formatting: s_conf.warn_formatting,
            error_formatting: s_conf.error_formatting,
            file_name: s_conf.file_name,
            compression: s_conf.compression,
            rotations: s_conf.rotations,
            archive_dir: s_conf.archive_dir,
        },
    )
}


/// How far the fields of a configuration file are applied: the
/// configuration so far, and the failure that stopped the work, if any.
pub struct Applied {
    pub config: ConfigView,
    pub error: Option<ReadErrorView>,
}

/// Sets the template of one level, or of all where `level` is none.
pub open spec fn apply_format(st: Applied, level: Option<Level>, template: Option<Seq<char>>) -> Applied {
    if st.error is Some || template is None {
        st
    } else {
        match compile(template->0) {
            Ok(segments) => Applied {
                config: match level {
                    Some(l) => with_format(st.config, l, segments),
                    None => with_all_formats(st.config, segments),
                },
                ..st
            },
            Err(e) => Applied {
                error: Some(
                    ReadErrorView::SetLevelFormatting(
                        SetLevelFormattingError::IncorrectFormatGiven(e),
                    ),
                ),
                ..st
            },
        }
    }
}

/// Sets the log file.
pub open spec fn apply_file(st: Applied, template: Option<Seq<char>>, clock: Clock) -> Applied {
    if st.error is Some || template is None {
        st
    } else {
        match set_file_result(st.config, template->0, clock.time_text(), clock.date_text()) {
            Ok(_) => Applied {
                config: with_file(st.config, template->0, clock.time_text(), clock.date_text()),
                ..st
            },
            Err(e) => Applied { error: Some(ReadErrorView::SetFile(e)), ..st },
        }
    }
}

/// Sets the compression.
pub open spec fn apply_compression(st: Applied, name: Option<Seq<char>>) -> Applied {
    if st.error is Some || name is None {
        st
    } else if st.config.file_manager is None {
        Applied {
            error: Some(ReadErrorView::SetCompression(SetCompressionError::FileIsntSet)),
            ..st
        }
    } else if CompressionType::spec_try_from_string(name->0) is None {
        Applied {
            error: Some(
                ReadErrorView::SetCompression(SetCompressionError::IncorrectCompressionValue),
            ),
            ..st
        }
    } else {
        Applied { config: config_with_compression(st.config, name->0), ..st }
    }
}

/// Adds the rules one after the other, up to the first that is refused.
pub open spec fn apply_rotations(st: Applied, rules: Seq<Seq<char>>, clock: Clock) -> Applied
    decreases rules.len(),
{
    if st.error is Some || rules.len() == 0 {
        st
    } else {
        match add_rotation_result(st.config, rules[0]) {
            Ok(_) => apply_rotations(
                Applied { config: config_with_rotation(st.config, rules[0], clock), ..st },
                rules.skip(1),
                clock,
            ),
            Err(e) => Applied { error: Some(ReadErrorView::AddRotation(e)), ..st },
        }
    }
}

/// Sets the directory of the archives, which must have been made.
pub open spec fn apply_archive_dir(st: Applied, dir: Option<Seq<char>>, created: bool) -> Applied {
    if st.error is Some || dir is None {
        st
    } else if !created {
        Applied {
            error: Some(ReadErrorView::SetArchiveDirError(SetArchiveDirError::UnableToCreateDir)),
            ..st
        }
    } else {
        Applied { config: ConfigView { archive_dir: dir, ..st.config }, ..st }
    }
}

/// The configuration with the level and the flags that the fields hold.
pub open spec fn apply_flags(inter: InterView, v: ConfigView) -> ConfigView {
    ConfigView {
        level: match inter.level {
            Some(l) => l,
            None => v.level,
        },
        print_to_terminal: match inter.print_to_terminal {
            Some(b) => b,
            None => v.print_to_terminal,
        },
        colorized: match inter.colorized {
            Some(b) => b,
            None => v.colorized,
        },
        ..v
    }
}

/// Sets the template of all levels, then those of the single levels.
pub open spec fn apply_formats(st: Applied, inter: InterView) -> Applied {
    let st1 = apply_format(st, None, inter.global_formatting);
    let st2 = apply_format(st1, Some(Level::TRACE), inter.trace_formatting);
    let st3 = apply_format(st2, Some(Level::DEBUG), inter.debug_formatting);
    let st4 = apply_format(st3, Some(Level::INFO), inter.info_formatting);
    let st5 = apply_format(st4, Some(Level::WARN), inter.warn_formatting);
    apply_format(st5, Some(Level::ERROR), inter.error_formatting)
}

/// Sets the log file, the compression, the rotation rules and the
/// directory of the archives.
pub open spec fn apply_outputs(st: Applied, inter: InterView, clock: Clock, created: bool) -> Applied {
    let st1 = apply_file(st, inter.file_name, clock);
    let st2 = apply_compression(st1, inter.compression);
    let st3 = match inter.rotations {
        Some(rules) => apply_rotations(st2, rules, clock),
        None => st2,
    };
    apply_archive_dir(st3, inter.archive_dir, created)
}

/// The configuration after the fields of a configuration file are applied
/// to `v`, in this order: the level, the two flags, the template of all
/// levels and those of the single levels, the log file, the compression,
/// the rotation rules and the directory of the archives. A file that is
/// switched off changes nothing; the first setter that fails stops the work.
pub open spec fn apply_of(inter: InterView, v: ConfigView, clock: Clock, created: bool) -> Applied {
    if inter.enabled == Some(false) {
        Applied { config: v, error: Some(ReadErrorView::DisabledToBeUsed) }
    } else {
        apply_outputs(
            apply_formats(Applied { config: apply_flags(inter, v), error: None }, inter),
            inter,
            clock,
            created,
        )
    }
}

/// What the outcome of applying a configuration stands for.
pub open spec fn applied_view(config: ConfigView, res: Result<(), ReadFromConfigFileError>) -> Applied {
    Applied {
        config,
        error: match res {
            Ok(_) => None,
            Err(e) => Some(e@),
        },
    }
}

fn set_format(config: &mut Config, level: Option<Level>, template: &Option<String>) -> (res: Result<
    (),
    ReadFromConfigFileError,
>)
    ensures
        applied_view(final(config)@, res) == apply_format(
            Applied { config: old(config)@, error: None },
            level,
            text_view(*template),
        ),
{
    match template {
        None => Ok(()),
        Some(fmt) => {
            let set = match level {
                Some(l) => set_level_formatting(config, l, fmt.as_str()),
                None => set_global_formatting(config, fmt.as_str()),
            };
            match set {
                Ok(_) => Ok(()),
                Err(e) => Err(ReadFromConfigFileError::SetLevelFormatting(e)),
            }
        },
    }
}

fn add_rotations(config: &mut Config, rules: &Vec<String>, clock: &Clock) -> (res: Result<
    (),
    ReadFromConfigFileError,
>)
    requires
        clock.wf(),
    ensures
        applied_view(final(config)@, res) == apply_rotations(
            Applied { config: old(config)@, error: None },
            strings_view(rules@),
            *clock,
        ),
{
    let ghost all = strings_view(rules@);
    let ghost start = Applied { config: config@, error: None };
    let mut i: usize = 0;
    assert(all.skip(0) =~= all);
    while i < rules.len()
        invariant
            i <= rules@.len(),
            clock.wf(),
            all == strings_view(rules@),
            start == (Applied { config: old(config)@, error: None }),
            apply_rotations(start, all, *clock) == apply_rotations(
                Applied { config: config@, error: None },
                all.skip(i as int),
                *clock,
            ),
        decreases rules@.len() - i,
    {
        assert(all.skip(i as int)[0] == rules@[i as int]@);
        assert(all.skip(i as int).skip(1) =~= all.skip(i + 1));
        match add_rotation_at(config, rules[i].as_str(), clock) {
            Ok(_) => {},
            Err(e) => {
                return Err(ReadFromConfigFileError::AddRotation(e));
            },
        }
        i += 1;
    }
    Ok(())
}

impl InterConfig {
    fn set_flags(&self, config: &mut Config)
        ensures
            final(config)@ == apply_flags(self@, old(config)@),
    {
        if let Some(level) = self.level {
            let _ = set_log_level(config, level);
        }
        if let Some(to_term) = self.print_to_terminal {
            let _ = set_print_to_terminal(config, to_term);
        }
        if let Some(col) = self.colorized {
            let _ = set_colorized(config, col);
        }
    }

    fn set_formats(&self, config: &mut Config) -> (res: Result<(), ReadFromConfigFileError>)
        ensures
            applied_view(final(config)@, res) == apply_formats(
                Applied { config: old(config)@, error: None },
                self@,
            ),
    {
        if let Err(e) = set_format(config, None, &self.global_formatting) {
            return Err(e);
        }
        if let Err(e) = set_format(config, Some(Level::TRACE), &self.trace_formatting) {
            return Err(e);
        }
        if let Err(e) = set_format(config, Some(Level::DEBUG), &self.debug_formatting) {
            return Err(e);
        }
        if let Err(e) = set_format(config, Some(Level::INFO), &self.info_formatting) {
            return Err(e);
        }
        if let Err(e) = set_format(config, Some(Level::WARN), &self.warn_formatting) {
            return Err(e);
        }
        set_format(config, Some(Level::ERROR), &self.error_formatting)
    }

    fn set_log_file(&self, config: &mut Config, clock: &Clock) -> (res: Result<
        (),
        ReadFromConfigFileError,
    >)
        requires
            clock.wf(),
        ensures
            applied_view(final(config)@, res) == apply_file(
                Applied { config: old(config)@, error: None },
                self@.file_name,
                *clock,
            ),
    {
        match &self.file_name {
            None => Ok(()),
            Some(pattern) => {
                let time = clock.time_string();
                let date = clock.date_string();
                match set_file_at(config, pattern.as_str(), time.as_str(), date.as_str()) {
                    Ok(_) => Ok(()),
                    Err(e) => Err(ReadFromConfigFileError::SetFile(e)),
                }
            },
        }
    }

    fn set_file_compression(&self, config: &mut Config) -> (res: Result<
        (),
        ReadFromConfigFileError,
    >)
        ensures
            applied_view(final(config)@, res) == apply_compression(
                Applied { config: old(config)@, error: None },
                self@.compression,
            ),
    {
        match &self.compression {
            None => Ok(()),
            Some(comp) => match set_compression(config, comp.as_str()) {
                Ok(_) => Ok(()),
                Err(e) => Err(ReadFromConfigFileError::SetCompression(e)),
            },
        }
    }

    fn set_rotations(&self, config: &mut Config, clock: &Clock) -> (res: Result<
        (),
        ReadFromConfigFileError,
    >)
        requires
            clock.wf(),
        ensures
            applied_view(final(config)@, res) == (match self@.rotations {
                Some(rules) => apply_rotations(
                    Applied { config: old(config)@, error: None },
                    rules,
                    *clock,
                ),
                None => Applied { config: old(config)@, error: None },
            }),
    {
        match &self.rotations {
            None => Ok(()),
            Some(rotations) => add_rotations(config, rotations, clock),
        }
    }

    fn set_archives(&self, config: &mut Config, archive_dir_created: bool) -> (res: Result<
        (),
        ReadFromConfigFileError,
    >)
        ensures
            applied_view(final(config)@, res) == apply_archive_dir(
                Applied { config: old(config)@, error: None },
                self@.archive_dir,
                archive_dir_created,
            ),
    {
        match &self.archive_dir {
            None => Ok(()),
            Some(dir) => {
                if !archive_dir_created {
                    return Err(
                        ReadFromConfigFileError::SetArchiveDirError(
                            SetArchiveDirError::UnableToCreateDir,
                        ),
                    );
                }
                let _ = set_archive_dir(config, dir.as_str());
                Ok(())
            },
        }
    }

    fn set_outputs(&self, config: &mut Config, clock: &Clock, archive_dir_created: bool) -> (res:
        Result<(), ReadFromConfigFileError>)
        requires
            clock.wf(),
        ensures
            applied_view(final(config)@, res) == apply_outputs(
                Applied { config: old(config)@, error: None },
                self@,
                *clock,
                archive_dir_created,
            ),
    {
        if let Err(e) = self.set_log_file(config, clock) {
            return Err(e);
        }
        if let Err(e) = self.set_file_compression(config) {
            return Err(e);
        }
        if let Err(e) = self.set_rotations(config, clock) {
            return Err(e);
        }
        self.set_archives(config, archive_dir_created)
    }

    /// Applies the fields to the configuration, for a file set and rules
    /// added at `clock`. `archive_dir_created` says whether the directory of
    /// the archives, where the fields name one, could be made.
    pub fn apply_at(self, config: &mut Config, clock: &Clock, archive_dir_created: bool) -> (res:
        Result<(), ReadFromConfigFileError>)
        requires
            clock.wf(),
        ensures
            applied_view(final(config)@, res) == apply_of(
                self@,
                old(config)@,
                *clock,
                archive_dir_created,
            ),
    {
        if let Some(enabled) = self.enabled {
            if !enabled {
                return Err(ReadFromConfigFileError::DisabledToBeUsed);
            }
        }
        self.set_flags(config);
        if let Err(e) = self.set_formats(config) {
            return Err(e);
        }
        self.set_outputs(config, clock, archive_dir_created)
    }

    /// Applies the fields to the configuration, for a file set and rules
    /// added at the moment at which the clock is read.
    pub fn apply(self, config: &mut Config, archive_dir_created: bool) -> (res: Result<
        (),
        ReadFromConfigFileError,
    >)
        ensures
            match res {
                Ok(_) => apply_error(self@, old(config)@, archive_dir_created) is None,
                Err(e) => apply_error(self@, old(config)@, archive_dir_created) == Some(e@),
            },
            exists|clock: Clock|
                clock.wf() && applied_view(final(config)@, res) == #[trigger] apply_of(
                    self@,
                    old(config)@,
                    clock,
                    archive_dir_created,
                ),
    {
        let clock = Clock::now();
        let ghost fields = self@;
        proof {
            lemma_apply_ignores_clock(
                fields,
                config@,
                clock,
                first_moment(),
                archive_dir_created,
            );
        }
        let res = self.apply_at(config, &clock, archive_dir_created);
        assert(applied_view(config@, res) == apply_of(
            fields,
            old(config)@,
            clock,
            archive_dir_created,
        ));
        res
    }
}

/// The configuration after the fields of a configuration file are loaded
/// into `v`: as applied where every setter succeeds, and `v` itself where
/// a value or a setter is refused.
pub open spec fn load_of(s: SerdeView, v: ConfigView, clock: Clock, created: bool) -> Applied {
    match inter_of(s) {
        Err(e) => Applied {
            config: v,
            error: Some(ReadErrorView::ParseError(e.spec_message())),
        },
        Ok(inter) => {
            let applied = apply_of(inter, v, clock, created);
            if applied.error is Some {
                Applied { config: v, ..applied }
            } else {
                applied
            }
        },
    }
}

/// The first moment that a clock can show: midnight before the first of
/// January 1970.
pub open spec fn first_moment() -> Clock {
    Clock {
        unix: 0,
        local_hour: 0,
        local_minute: 0,
        day: 1,
        month: 1,
        year: 1970,
        hour: 0,
        minute: 0,
        second: 0,
    }
}

/// The failure that stops the applying of the fields of a configuration
/// file, at whatever moment; none where they are applied.
pub open spec fn apply_error(inter: InterView, v: ConfigView, created: bool) -> Option<
    ReadErrorView,
> {
    apply_of(inter, v, first_moment(), created).error
}

/// Whether two configurations differ in nothing but what their managers
/// hold: both have a manager or neither has.
pub open spec fn same_but_manager(first: ConfigView, second: ConfigView) -> bool {
    (ConfigView { file_manager: None, ..first }) == (ConfigView { file_manager: None, ..second })
        && (first.file_manager is Some <==> second.file_manager is Some)
}

/// Whether two states of applying differ in nothing but what the managers
/// hold.
pub open spec fn same_progress(first: Applied, second: Applied) -> bool {
    first.error == second.error && same_but_manager(first.config, second.config)
}

proof fn lemma_formats_ignore_manager(first: Applied, second: Applied, inter: InterView)
    requires
        same_progress(first, second),
    ensures
        same_progress(apply_formats(first, inter), apply_formats(second, inter)),
{
    let a1 = apply_format(first, None, inter.global_formatting);
    let b1 = apply_format(second, None, inter.global_formatting);
    assert(same_progress(a1, b1));
    let a2 = apply_format(a1, Some(Level::TRACE), inter.trace_formatting);
    let b2 = apply_format(b1, Some(Level::TRACE), inter.trace_formatting);
    assert(same_progress(a2, b2));
    let a3 = apply_format(a2, Some(Level::DEBUG), inter.debug_formatting);
    let b3 = apply_format(b2, Some(Level::DEBUG), inter.debug_formatting);
    assert(same_progress(a3, b3));
    let a4 = apply_format(a3, Some(Level::INFO), inter.info_formatting);
    let b4 = apply_format(b3, Some(Level::INFO), inter.info_formatting);
    assert(same_progress(a4, b4));
    let a5 = apply_format(a4, Some(Level::WARN), inter.warn_formatting);
    let b5 = apply_format(b4, Some(Level::WARN), inter.warn_formatting);
    assert(same_progress(a5, b5));
}

proof fn lemma_rotations_ignore_clock(
    first: Applied,
    second: Applied,
    rules: Seq<Seq<char>>,
    clock: Clock,
    other: Clock,
)
    requires
        same_progress(first, second),
    ensures
        same_progress(
            apply_rotations(first, rules, clock),
            apply_rotations(second, rules, other),
        ),
    decreases rules.len(),
{
    if first.error is None && rules.len() > 0 {
        if add_rotation_result(first.config, rules[0]) is Ok {
            lemma_rotations_ignore_clock(
                Applied { config: config_with_rotation(first.config, rules[0], clock), ..first },
                Applied { config: config_with_rotation(second.config, rules[0], other), ..second },
                rules.skip(1),
                clock,
                other,
            );
        }
    }
}

/// Whether the fields of a configuration file are applied, and which
/// failure stops the work, does not depend on the moment; nor does any part
/// of the configuration but what the manager of the log file holds.
pub proof fn lemma_apply_ignores_clock(
    inter: InterView,
    v: ConfigView,
    clock: Clock,
    other: Clock,
    created: bool,
)
    ensures
        same_progress(apply_of(inter, v, clock, created), apply_of(inter, v, other, created)),
{
    if inter.enabled != Some(false) {
        let start = Applied { config: apply_flags(inter, v), error: None };
        lemma_formats_ignore_manager(start, start, inter);
        let formatted = apply_formats(start, inter);
        let a1 = apply_file(formatted, inter.file_name, clock);
        let b1 = apply_file(formatted, inter.file_name, other);
        if formatted.error is None && inter.file_name is Some {
            crate::logger::file_handler::file_manager::lemma_manager_error(
                inter.file_name->0,
                formatted.config.level,
                clock.time_text(),
                clock.date_text(),
            );
            crate::logger::file_handler::file_manager::lemma_manager_error(
                inter.file_name->0,
                formatted.config.level,
                other.time_text(),
                other.date_text(),
            );
        }
        assert(same_progress(a1, b1));
        let a2 = apply_compression(a1, inter.compression);
        let b2 = apply_compression(b1, inter.compression);
        assert(same_progress(a2, b2));
        match inter.rotations {
            Some(rules) => {
                lemma_rotations_ignore_clock(a2, b2, rules, clock, other);
            },
            None => {},
        }
    }
}

/// The failure that stops the loading of the fields of a configuration
/// file, at whatever moment; none where they are loaded.
pub open spec fn load_error(s: SerdeView, v: ConfigView, created: bool) -> Option<ReadErrorView> {
    load_of(s, v, first_moment(), created).error
}

/// Whether the fields of a configuration file are loaded, and why they are
/// not, does not depend on the moment.
pub proof fn lemma_load_error(s: SerdeView, v: ConfigView, clock: Clock, created: bool)
    ensures
        load_of(s, v, clock, created).error == load_error(s, v, created),
{
    match inter_of(s) {
        Ok(inter) => {
            lemma_apply_ignores_clock(inter, v, clock, first_moment(), created);
        },
        Err(_) => {},
    }
}

/// Loads the fields of a configuration file into the configuration, for a
/// file set and rules added at `clock`. Where a value or a setter is
/// refused, the configuration is as it was before the call.
pub fn load_config_at(
    config: &mut Config,
    s_conf: ConfigForSerde,
    clock: &Clock,
    archive_dir_created: bool,
) -> (res: Result<(), ReadFromConfigFileError>)
    requires
        clock.wf(),
    ensures
        applied_view(final(config)@, res) == load_of(
            s_conf@,
            old(config)@,
            *clock,
            archive_dir_created,
        ),
        res is Err ==> final(config)@ == old(config)@,
{
    let curr_conf = config.clone();
    let inter_conf = match parse_inter_config_from_serde_config(s_conf) {
        Ok(inter) => inter,
        Err(e) => {
            return Err(ReadFromConfigFileError::ParseError(e.message()));
        },
    };
    match inter_conf.apply_at(config, clock, archive_dir_created) {
        Ok(_) => Ok(()),
        Err(e) => {
            *config = curr_conf;
            Err(e)
        },
    }
}

/// Loads the fields of a configuration file into the configuration, for a
/// file set and rules added at the moment at which the clock is read. Where
/// a value or a setter is refused, the configuration is as it was before
/// the call.
pub fn load_config(config: &mut Config, s_conf: ConfigForSerde, archive_dir_created: bool) -> (res:
    Result<(), ReadFromConfigFileError>)
    ensures
        res is Err ==> final(config)@ == old(config)@,
        match res {
            Ok(_) => load_error(s_conf@, old(config)@, archive_dir_created) is None,
            Err(e) => load_error(s_conf@, old(config)@, archive_dir_created) == Some(e@),
        },
        exists|clock: Clock|
            clock.wf() && applied_view(final(config)@, res) == #[trigger] load_of(
                s_conf@,
                old(config)@,
                clock,
                archive_dir_created,
            ),
{
    let clock = Clock::now();
    let ghost fields = s_conf@;
    proof {
        lemma_load_error(fields, config@, clock, archive_dir_created);
    }
    let res = load_config_at(config, s_conf, &clock, archive_dir_created);
    assert(applied_view(config@, res) == load_of(
        fields,
        old(config)@,
        clock,
        archive_dir_created,
    ));
    res
}


/// The directory of the archives that is to be made before the fields of
/// a configuration file are loaded: the one that the fields name, where
/// nothing else in them is refused; none where they name none, and none
/// where a value or a setter is refused, so that a refused file leaves no
/// directory behind. The configuration is not changed.
pub open spec fn dir_to_create(s: SerdeView, v: ConfigView) -> Option<Seq<char>> {
    if load_error(s, v, true) is None {
        s.archive_dir
    } else {
        None
    }
}

/// Tells which directory is to be made for the archives before the fields
/// are loaded, by loading them into a copy of the configuration.
pub fn archive_dir_to_create(config: &Config, fields: &ConfigForSerde) -> (dir: Option<String>)
    ensures
        text_view(dir) == dir_to_create(fields@, config@),
{
    let mut trial = config.clone();
    let clock = Clock::now();
    proof {
        lemma_load_error(fields@, config@, clock, true);
    }
    match load_config_at(&mut trial, fields.clone(), &clock, true) {
        Ok(_) => clone_text(&fields.archive_dir),
        Err(_) => None,
    }
}

/// The formats of configuration files.
#[derive(Debug, Clone, Copy, PartialEq, Eq, Structural)]
pub enum ConfigFileKind {
    Ini,
    Json,
    Env,
}

/// The format of the configuration file at `path`, told by what follows
/// the last `.` of the path: `ini`, `json` or `env`. A path without a `.`
/// and any other extension are refused.
pub open spec fn kind_of_path(path: Seq<char>) -> Result<ConfigFileKind, ReadErrorView> {
    let dot = last_index_of(path, '.');
    let extension = path.subrange(dot + 1, path.len() as int);
    if dot < 0 {
        Err(ReadErrorView::IncorrectFileName)
    } else if extension == "ini"@ {
        Ok(ConfigFileKind::Ini)
    } else if extension == "json"@ {
        Ok(ConfigFileKind::Json)
    } else if extension == "env"@ {
        Ok(ConfigFileKind::Env)
    } else {
        Err(ReadErrorView::IncorrectFileExtension)
    }
}

/// Tells the format of a configuration file by the extension of its path.
pub fn config_file_kind(path: &str) -> (res: Result<ConfigFileKind, ReadFromConfigFileError>)
    ensures
        match res {
            Ok(kind) => kind_of_path(path@) == Ok::<ConfigFileKind, ReadErrorView>(kind),
            Err(e) => kind_of_path(path@) == Err::<ConfigFileKind, ReadErrorView>(e@),
        },
{
    let chars = to_chars(path);
    let dot = match find_last(&chars, '.') {
        Some(k) => k,
        None => {
            return Err(ReadFromConfigFileError::IncorrectFileName);
        },
    };
    proof {
        crate::text::lemma_last_index_of(chars@, '.');
    }
    let length = chars.len();
    assert(dot < length);
    let ext = from_chars(&chars, dot + 1, length);
    if str_eq(ext.as_str(), "ini") {
        Ok(ConfigFileKind::Ini)
    } else if str_eq(ext.as_str(), "json") {
        Ok(ConfigFileKind::Json)
    } else if str_eq(ext.as_str(), "env") {
        Ok(ConfigFileKind::Env)
    } else {
        Err(ReadFromConfigFileError::IncorrectFileExtension)
    }
}

/// The value of `key` among the entries, where they hold one.
pub open spec fn entry(entries: Map<Seq<char>, Seq<char>>, key: Seq<char>) -> Option<Seq<char>> {
    if entries.contains_key(key) {
        Some(entries[key])
    } else {
        None
    }
}

/// The fields of a configuration file whose keys and values are `entries`.
/// The template of the file name stands under `file`; the rotation rules
/// stand in one text, with commas between them.
pub open spec fn config_of_entries(entries: Map<Seq<char>, Seq<char>>) -> SerdeView {
    SerdeView {
        enabled: entry(entries, "enabled"@),
        level: entry(entries, "level"@),
        print_to_terminal: entry(entries, "print_to_terminal"@),
        colorized: entry(entries, "colorized"@),
        global_formatting: entry(entries, "global_formatting"@),
        trace_formatting: entry(entries, "trace_formatting"@),
        debug_formatting: entry(entries, "debug_formatting"@),
        info_formatting: entry(entries, "info_formatting"@),
        warn_formatting: entry(entries, "warn_formatting"@),
        error_formatting: entry(entries, "error_formatting"@),
        file_name: entry(entries, "file"@),
        compression: entry(entries, "compression"@),
        rotations: match entry(entries, "rotations"@) {
            Some(list) => Some(comma_list(list)),
            None => None,
        },
        archive_dir: entry(entries, "archive_dir"@),
    }
}

fn split_rotations(list: Option<String>) -> (rules: Option<Vec<String>>)
    ensures
        match rules {
            Some(items) => list is Some && strings_view(items@) == comma_list(list->0@),
            None => list is None,
        },
{
    match list {
        Some(v) => Some(split_comma_list(v.as_str())),
        None => None,
    }
}

/// `ini::Ini`, an INI document. Nothing is known of what is inside but
/// through `ini_sections`.
#[verifier::external_type_specification]
#[verifier::external_body]
pub struct ExIni(ini::Ini);

/// `ini::Properties`, one section of an INI document. Nothing is known of
/// what is inside but through `ini_properties`.
#[verifier::external_type_specification]
#[verifier::external_body]
pub struct ExIniProperties(ini::Properties);

/// `ini::ParseError`, the place and the message of a text that is no INI
/// document. Nothing is known of what is inside.
#[verifier::external_type_specification]
#[verifier::external_body]
pub struct ExIniParseError(ini::ParseError);

/// The sections of the INI document that a text is read as, each with the
/// first value of each of its keys; none where the text is no INI document.
pub uninterp spec fn ini_document(text: Seq<char>) -> Option<
    Map<Seq<char>, Map<Seq<char>, Seq<char>>>,
>;

/// The named sections that an INI document holds, each with the first
/// value of each of its keys.
pub uninterp spec fn ini_sections(document: ini::Ini) -> Map<
    Seq<char>,
    Map<Seq<char>, Seq<char>>,
>;

/// The keys of a section of an INI document, each with its first value.
pub uninterp spec fn ini_properties(section: ini::Properties) -> Map<Seq<char>, Seq<char>>;

/// `ini::Ini::load_from_str` reads a text as an INI document. The contract
/// says that whether the text is read, and what the document then holds,
/// depends on the text alone.
#[verifier::external_body]
fn load_ini(text: &str) -> (res: Result<ini::Ini, ini::ParseError>)
    ensures
        match res {
            Ok(document) => ini_document(text@) == Some(ini_sections(document)),
            Err(_) => ini_document(text@) is None,
        },
{
    ini::Ini::load_from_str(text)
}

/// `ini::Ini::section` hands out the first section of a name. The contract
/// says that a section comes back exactly where the document holds the
/// name, and that it holds what the document holds under the name.
#[verifier::external_body]
fn ini_section<'a>(document: &'a ini::Ini, name: &str) -> (section: Option<&'a ini::Properties>)
    ensures
        match section {
            Some(found) => ini_sections(*document).contains_key(name@) && ini_properties(*found)
                == ini_sections(*document)[name@],
            None => !ini_sections(*document).contains_key(name@),
        },
{
    document.section(Some(name))
}

/// `ini::Properties::get` hands out the first value of a key. The contract
/// says that a value comes back exactly where the section holds the key,
/// and that it is the value that the section holds.
#[verifier::external_body]
fn ini_get(section: &ini::Properties, key: &str) -> (value: Option<String>)
    ensures
        text_view(value) == entry(ini_properties(*section), key@),
{
    section.get(key).map(|v| v.to_string())
}

/// The `Display` text of `ini::ParseError`: the line, the column and the
/// message of the parser. Nothing is stated of it.
#[verifier::external_body]
fn ini_error_text(e: &ini::ParseError) -> (out: String) {
    e.to_string()
}

/// The fields that a section of an INI document holds.
pub fn config_from_ini_section(section: &ini::Properties) -> (res_conf: ConfigForSerde)
    ensures
        res_conf@ == config_of_entries(ini_properties(*section)),
{
    ConfigForSerde {
        enabled: ini_get(section, "enabled"),
        level: ini_get(section, "level"),
        print_to_terminal: ini_get(section, "print_to_terminal"),
        colorized: ini_get(section, "colorized"),
        global_formatting: ini_get(section, "global_formatting"),
        trace_formatting: ini_get(section, "trace_formatting"),
        debug_formatting: ini_get(section, "debug_formatting"),
        info_formatting: ini_get(section, "info_formatting"),
        warn_formatting: ini_get(section, "warn_formatting"),
        error_formatting: ini_get(section, "error_formatting"),
        file_name: ini_get(section, "file"),
        compression: ini_get(section, "compression"),
        rotations: split_rotations(ini_get(section, "rotations")),
        archive_dir: ini_get(section, "archive_dir"),
    }
}

/// What is reported where an INI document has no section `Config`.
pub open spec fn missing_section_message() -> Seq<char> {
    "couldn't find Config section in the provided ini file"@
}

/// The fields that the section `Config` of an INI document holds; a
/// document without that section is refused.
pub fn config_from_ini(document: &ini::Ini) -> (res: Result<
    ConfigForSerde,
    ReadFromConfigFileError,
>)
    ensures
        match res {
            Ok(res_conf) => ini_sections(*document).contains_key("Config"@) && res_conf@
                == config_of_entries(ini_sections(*document)["Config"@]),
            Err(e) => !ini_sections(*document).contains_key("Config"@) && e@
                == ReadErrorView::ParseError(missing_section_message()),
        },
{
    match ini_section(document, "Config") {
        None => Err(
            ReadFromConfigFileError::ParseError(
                String::from_str("couldn't find Config section in the provided ini file"),
            ),
        ),
        Some(section) => Ok(config_from_ini_section(section)),
    }
}

/// The text of a file without the byte-order mark that it may begin with.
pub open spec fn without_mark(text: Seq<char>) -> Seq<char> {
    if text.len() > 0 && text[0] == '\u{feff}' {
        text.skip(1)
    } else {
        text
    }
}

/// Drops the byte-order mark that the text of a file may begin with.
pub fn drop_mark(text: &str) -> (out: String)
    ensures
        out@ == without_mark(text@),
{
    let chars = to_chars(text);
    if chars.len() > 0 && chars[0] == '\u{feff}' {
        let out = from_chars(&chars, 1, chars.len());
        assert(chars@.subrange(1, chars@.len() as int) =~= chars@.skip(1));
        out
    } else {
        String::from_str(text)
    }
}

/// Reads the fields of a configuration from the text of an INI file,
/// without the byte-order mark that the file may begin with. A text that
/// is no INI document is refused with what the parser says.
pub fn parse_config_from_ini_text(text: &str) -> (res: Result<
    ConfigForSerde,
    ReadFromConfigFileError,
>)
    ensures
        match ini_document(without_mark(text@)) {
            None => res is Err && res->Err_0@ is ParseError,
            Some(sections) => match res {
                Ok(res_conf) => sections.contains_key("Config"@) && res_conf@ == config_of_entries(
                    sections["Config"@],
                ),
                Err(e) => !sections.contains_key("Config"@) && e@ == ReadErrorView::ParseError(
                    missing_section_message(),
                ),
            },
        },
{
    let document = drop_mark(text);
    match load_ini(document.as_str()) {
        Err(e) => Err(ReadFromConfigFileError::ParseError(ini_error_text(&e))),
        Ok(document) => config_from_ini(&document),
    }
}

/// What a list of pairs of texts stands for.
pub open spec fn pairs_view(pairs: Seq<(String, String)>) -> Seq<(Seq<char>, Seq<char>)> {
    Seq::new(pairs.len(), |i: int| (pairs[i].0@, pairs[i].1@))
}

/// The value of the first pair whose key is `key`.
pub open spec fn lookup(pairs: Seq<(Seq<char>, Seq<char>)>, key: Seq<char>) -> Option<Seq<char>>
    decreases pairs.len(),
{
    if pairs.len() == 0 {
        None
    } else if pairs[0].0 == key {
        Some(pairs[0].1)
    } else {
        lookup(pairs.skip(1), key)
    }
}

/// The keys of a list of pairs, each with the value of its first pair.
pub open spec fn pairs_map(pairs: Seq<(Seq<char>, Seq<char>)>) -> Map<Seq<char>, Seq<char>> {
    Map::new(
        |key: Seq<char>| lookup(pairs, key) is Some,
        |key: Seq<char>| lookup(pairs, key)->0,
    )
}

/// Whether the pairs hold the keys of `vars`, each with its value, and no
/// other key.
pub open spec fn pairs_hold(pairs: Seq<(Seq<char>, Seq<char>)>, vars: Map<Seq<char>, Seq<char>>) -> bool {
    forall|key: Seq<char>| #[trigger] lookup(pairs, key) == entry(vars, key)
}

/// The value of the first pair whose key is `key`.
pub fn find_value(pairs: &Vec<(String, String)>, key: &str) -> (value: Option<String>)
    ensures
        text_view(value) == lookup(pairs_view(pairs@), key@),
        text_view(value) == entry(pairs_map(pairs_view(pairs@)), key@),
{
    let ghost all = pairs_view(pairs@);
    let mut i: usize = 0;
    assert(all.skip(0) =~= all);
    while i < pairs.len()
        invariant
            i <= pairs@.len(),
            all == pairs_view(pairs@),
            lookup(all, key@) == lookup(all.skip(i as int), key@),
        decreases pairs@.len() - i,
    {
        assert(all.skip(i as int)[0] == all[i as int]);
        assert(all.skip(i as int).skip(1) =~= all.skip(i + 1));
        if str_eq(pairs[i].0.as_str(), key) {
            return Some(pairs[i].1.clone());
        }
        i += 1;
    }
    None
}

/// The variables that a text in the format of an env file sets, each with
/// its value; none where the text is not in that format.
pub uninterp spec fn env_document(text: Seq<char>) -> Option<Map<Seq<char>, Seq<char>>>;

/// `env_file_reader::read_str` reads a text in the format of an env file
/// into a map, which is handed out as the list of its pairs, in the order
/// in which the map is walked. The contract says that whether the text is
/// read, and which variables it then sets, depends on the text alone, and
/// that the pairs hold these variables, whatever their order. The error is
/// handed out as its `Display` text.
#[verifier::external_body]
fn read_env_text(text: &str) -> (res: Result<Vec<(String, String)>, String>)
    ensures
        match res {
            Ok(pairs) => env_document(text@) is Some && pairs_hold(
                pairs_view(pairs@),
                env_document(text@)->0,
            ),
            Err(_) => env_document(text@) is None,
        },
{
    env_file_reader::read_str(text).map(|vars| vars.into_iter().collect()).map_err(
        |e| e.to_string(),
    )
}

/// The fields that the variables of an env file hold.
pub fn config_from_env_vars(vars: &Vec<(String, String)>) -> (res_conf: ConfigForSerde)
    ensures
        res_conf@ == config_of_entries(pairs_map(pairs_view(vars@))),
{
    ConfigForSerde {
        enabled: find_value(vars, "enabled"),
        level: find_value(vars, "level"),
        print_to_terminal: find_value(vars, "print_to_terminal"),
        colorized: find_value(vars, "colorized"),
        global_formatting: find_value(vars, "global_formatting"),
        trace_formatting: find_value(vars, "trace_formatting"),
        debug_formatting: find_value(vars, "debug_formatting"),
        info_formatting: find_value(vars, "info_formatting"),
        warn_formatting: find_value(vars, "warn_formatting"),
        error_formatting: find_value(vars, "error_formatting"),
        file_name: find_value(vars, "file"),
        compression: find_value(vars, "compression"),
        rotations: split_rotations(find_value(vars, "rotations")),
        archive_dir: find_value(vars, "archive_dir"),
    }
}

/// The fields of a configuration depend on the entries of the fourteen
/// keys only: two sets of entries that agree on every key hold the same
/// fields.
pub proof fn lemma_config_of_equal_entries(
    first: Map<Seq<char>, Seq<char>>,
    second: Map<Seq<char>, Seq<char>>,
)
    requires
        forall|key: Seq<char>| #[trigger] entry(first, key) == entry(second, key),
    ensures
        config_of_entries(first) == config_of_entries(second),
{
}

/// Reads the fields of a configuration from the text of an env file. A
/// text that is not in that format is refused with what the reader says.
pub fn parse_config_from_env_text(text: &str) -> (res: Result<
    ConfigForSerde,
    ReadFromConfigFileError,
>)
    ensures
        match env_document(text@) {
            None => res is Err && res->Err_0@ is ReadFileError,
            Some(vars) => res is Ok && res->Ok_0@ == config_of_entries(vars),
        },
{
    match read_env_text(text) {
        Err(e) => Err(ReadFromConfigFileError::ReadFileError(e)),
        Ok(vars) => {
            proof {
                let held = pairs_map(pairs_view(vars@));
                assert forall|key: Seq<char>| #[trigger]
                    entry(held, key) == entry(env_document(text@)->0, key) by {
                    assert(lookup(pairs_view(vars@), key) == entry(env_document(text@)->0, key));
                }
                lemma_config_of_equal_entries(held, env_document(text@)->0);
            }
            Ok(config_from_env_vars(&vars))
        },
    }
}

} // verus!
