//! The template language of log lines: colors, placeholders and the
//! compiler that turns a template string into a sequence of segments.

use crate::text::{from_chars, str_eq, to_chars};
use vstd::prelude::*;

verus! {

/// A terminal color that a segment of a log line can be wrapped in.
#[derive(Clone, Copy, PartialEq, Eq, Structural, Debug)]
pub enum LogColor {
    Red,
    Green,
    Blue,
    Yellow,
    Black,
    White,
    Purple,
}

/// The escape sequence that ends a colored region.
pub open spec fn color_reset() -> Seq<char> {
    "\x1b[0m"@
}

impl LogColor {
    /// The name by which a template refers to the color.
    pub open spec fn spec_name(self) -> Seq<char> {
        match self {
            LogColor::Red => "red"@,
            LogColor::Green => "green"@,
            LogColor::Blue => "blue"@,
            LogColor::Yellow => "yellow"@,
            LogColor::Black => "black"@,
            LogColor::White => "white"@,
            LogColor::Purple => "purple"@,
        }
    }

    /// The color that `name` stands for, if it is one of the seven names.
    pub open spec fn spec_from_name(name: Seq<char>) -> Option<LogColor> {
        if name == "red"@ {
            Some(LogColor::Red)
        } else if name == "green"@ {
            Some(LogColor::Green)
        } else if name == "blue"@ {
            Some(LogColor::Blue)
        } else if name == "yellow"@ {
            Some(LogColor::Yellow)
        } else if name == "black"@ {
            Some(LogColor::Black)
        } else if name == "white"@ {
            Some(LogColor::White)
        } else if name == "purple"@ {
            Some(LogColor::Purple)
        } else {
            None
        }
    }

    /// The escape sequence that switches the terminal to the color.
    pub open spec fn spec_ascii(self) -> Seq<char> {
        match self {
            LogColor::Red => "\x1b[38;2;255;0;0m"@,
            LogColor::Green => "\x1b[38;2;0;255;0m"@,
            LogColor::Blue => "\x1b[38;2;0;0;255m"@,
            LogColor::Yellow => "\x1b[38;2;255;255;0m"@,
            LogColor::Black => "\x1b[38;2;0;0;0m"@,
            LogColor::White => "\x1b[38;2;255;255;255m"@,
            LogColor::Purple => "\x1b[38;2;128;0;128m"@,
        }
    }

    /// Text wrapped in the color's escape sequence and the reset sequence.
    pub open spec fn spec_colorize(text: Seq<char>, color: LogColor) -> Seq<char> {
        color.spec_ascii() + text + color_reset()
    }

    /// The seven color names of the template language.
    pub fn get_colors_str() -> (names: [&'static str; 7])
        ensures
            names@.len() == 7,
            names@[0]@ == LogColor::Red.spec_name(),
            names@[1]@ == LogColor::Green.spec_name(),
            names@[2]@ == LogColor::Blue.spec_name(),
            names@[3]@ == LogColor::Yellow.spec_name(),
            names@[4]@ == LogColor::Black.spec_name(),
            names@[5]@ == LogColor::White.spec_name(),
            names@[6]@ == LogColor::Purple.spec_name(),
    {
        ["red", "green", "blue", "yellow", "black", "white", "purple"]
    }

    /// Reads a color name. Any text but the seven names is refused.
    pub fn from_name(name: &str) -> (color: Option<LogColor>)
        ensures
            color == LogColor::spec_from_name(name@),
    {
        if str_eq(name, "red") {
            Some(LogColor::Red)
        } else if str_eq(name, "green") {
            Some(LogColor::Green)
        } else if str_eq(name, "blue") {
            Some(LogColor::Blue)
        } else if str_eq(name, "yellow") {
            Some(LogColor::Yellow)
        } else if str_eq(name, "black") {
            Some(LogColor::Black)
        } else if str_eq(name, "white") {
            Some(LogColor::White)
        } else if str_eq(name, "purple") {
            Some(LogColor::Purple)
        } else {
            None
        }
    }

    /// The escape sequence that switches the terminal to the color.
    pub fn get_ascii(&self) -> (code: &'static str)
        ensures
            code@ == self.spec_ascii(),
    {
        match self {
            LogColor::Red => "\x1b[38;2;255;0;0m",
            LogColor::Green => "\x1b[38;2;0;255;0m",
            LogColor::Blue => "\x1b[38;2;0;0;255m",
            LogColor::Yellow => "\x1b[38;2;255;255;0m",
            LogColor::Black => "\x1b[38;2;0;0;0m",
            LogColor::White => "\x1b[38;2;255;255;255m",
            LogColor::Purple => "\x1b[38;2;128;0;128m",
        }
    }

    /// Wraps `text` in the color's escape sequence and the reset sequence.
    pub fn colorize_str(text: &str, color: LogColor) -> (out: String)
        ensures
            out@ == LogColor::spec_colorize(text@, color),
    {
        let mut out = String::from_str(color.get_ascii());
        out.append(text);
        out.append("\x1b[0m");
        out
    }
}

/// Every color is read back from its own name.
pub proof fn lemma_color_name_round_trip(color: LogColor)
    ensures
        LogColor::spec_from_name(color.spec_name()) == Some(color),
{
    reveal_strlit("red");
    reveal_strlit("green");
    reveal_strlit("blue");
    reveal_strlit("yellow");
    reveal_strlit("black");
    reveal_strlit("white");
    reveal_strlit("purple");
    assert("red"@.len() == 3);
    assert("green"@.len() == 5);
    assert("blue"@.len() == 4);
    assert("yellow"@.len() == 6);
    assert("black"@.len() == 5);
    assert("white"@.len() == 5);
    assert("purple"@.len() == 6);
    assert("green"@[0] == 'g');
    assert("black"@[0] == 'b');
    assert("white"@[0] == 'w');
    assert("yellow"@[0] == 'y');
    assert("purple"@[0] == 'p');
}


/// One unit of a template: a placeholder or a run of literal text.
#[derive(Debug, PartialEq, Eq)]
pub enum LogPart {
    Message,
    Time,
    File,
    Line,
    Date,
    Level,
    Text(String),
    ModulePath,
}

/// What a [`LogPart`] stands for: the same unit with its text as a sequence.
pub enum PartView {
    Message,
    Time,
    File,
    Line,
    Date,
    Level,
    Text(Seq<char>),
    ModulePath,
}

impl View for LogPart {
    type V = PartView;

    open spec fn view(&self) -> PartView {
        match self {
            LogPart::Message => PartView::Message,
            LogPart::Time => PartView::Time,
            LogPart::File => PartView::File,
            LogPart::Line => PartView::Line,
            LogPart::Date => PartView::Date,
            LogPart::Level => PartView::Level,
            LogPart::Text(t) => PartView::Text(t@),
            LogPart::ModulePath => PartView::ModulePath,
        }
    }
}

impl Clone for LogPart {
    fn clone(&self) -> (out: Self)
        ensures
            out@ == self@,
    {
        match self {
            LogPart::Message => LogPart::Message,
            LogPart::Time => LogPart::Time,
            LogPart::File => LogPart::File,
            LogPart::Line => LogPart::Line,
            LogPart::Date => LogPart::Date,
            LogPart::Level => LogPart::Level,
            LogPart::Text(t) => LogPart::Text(t.clone()),
            LogPart::ModulePath => LogPart::ModulePath,
        }
    }
}

impl LogPart {
    /// The placeholder that `name` stands for, if it is one of the seven names.
    pub open spec fn spec_from_name(name: Seq<char>) -> Option<PartView> {
        if name == "message"@ {
            Some(PartView::Message)
        } else if name == "time"@ {
            Some(PartView::Time)
        } else if name == "date"@ {
            Some(PartView::Date)
        } else if name == "file"@ {
            Some(PartView::File)
        } else if name == "line"@ {
            Some(PartView::Line)
        } else if name == "level"@ {
            Some(PartView::Level)
        } else if name == "module"@ {
            Some(PartView::ModulePath)
        } else {
            None
        }
    }

    /// The seven placeholder names of the template language.
    pub fn get_parts_str() -> (names: [&'static str; 7])
        ensures
            names@.len() == 7,
            LogPart::spec_from_name(names@[0]@) == Some(PartView::Message),
            LogPart::spec_from_name(names@[1]@) == Some(PartView::Time),
            LogPart::spec_from_name(names@[2]@) == Some(PartView::Date),
            LogPart::spec_from_name(names@[3]@) == Some(PartView::File),
            LogPart::spec_from_name(names@[4]@) == Some(PartView::Line),
            LogPart::spec_from_name(names@[5]@) == Some(PartView::Level),
            LogPart::spec_from_name(names@[6]@) == Some(PartView::ModulePath),
    {
        proof {
            lemma_placeholder_names_differ();
        }
        ["message", "time", "date", "file", "line", "level", "module"]
    }

    /// Reads a placeholder name. Any text but the seven names is refused.
    pub fn from_name(name: &str) -> (part: Option<LogPart>)
        ensures
            match part {
                Some(p) => LogPart::spec_from_name(name@) == Some(p@),
                None => LogPart::spec_from_name(name@) is None,
            },
    {
        if str_eq(name, "message") {
            Some(LogPart::Message)
        } else if str_eq(name, "time") {
            Some(LogPart::Time)
        } else if str_eq(name, "date") {
            Some(LogPart::Date)
        } else if str_eq(name, "file") {
            Some(LogPart::File)
        } else if str_eq(name, "line") {
            Some(LogPart::Line)
        } else if str_eq(name, "level") {
            Some(LogPart::Level)
        } else if str_eq(name, "module") {
            Some(LogPart::ModulePath)
        } else {
            None
        }
    }
}

/// The seven placeholder names are seven different texts.
pub proof fn lemma_placeholder_names_differ()
    ensures
        LogPart::spec_from_name("message"@) == Some(PartView::Message),
        LogPart::spec_from_name("time"@) == Some(PartView::Time),
        LogPart::spec_from_name("date"@) == Some(PartView::Date),
        LogPart::spec_from_name("file"@) == Some(PartView::File),
        LogPart::spec_from_name("line"@) == Some(PartView::Line),
        LogPart::spec_from_name("level"@) == Some(PartView::Level),
        LogPart::spec_from_name("module"@) == Some(PartView::ModulePath),
{
    reveal_strlit("message");
    reveal_strlit("time");
    reveal_strlit("date");
    reveal_strlit("file");
    reveal_strlit("line");
    reveal_strlit("level");
    reveal_strlit("module");
    assert("message"@.len() == 7);
    assert("time"@.len() == 4);
    assert("date"@.len() == 4);
    assert("file"@.len() == 4);
    assert("line"@.len() == 4);
    assert("level"@.len() == 5);
    assert("module"@.len() == 6);
    assert("time"@[0] == 't');
    assert("date"@[0] == 'd');
    assert("file"@[0] == 'f');
    assert("line"@[0] == 'l');
}

/// A segment of a compiled template: a part and the color it is shown in.
#[derive(Debug, PartialEq, Eq)]
pub struct LogFormatWrapper {
    pub color: Option<LogColor>,
    pub part: LogPart,
}

/// What a [`LogFormatWrapper`] stands for.
pub struct WrapperView {
    pub color: Option<LogColor>,
    pub part: PartView,
}

impl View for LogFormatWrapper {
    type V = WrapperView;

    open spec fn view(&self) -> WrapperView {
        WrapperView { color: self.color, part: self.part@ }
    }
}

impl Clone for LogFormatWrapper {
    fn clone(&self) -> (out: Self)
        ensures
            out@ == self@,
    {
        LogFormatWrapper { color: self.color, part: self.part.clone() }
    }
}

/// The segments that a vector of wrappers stands for.
pub open spec fn wrappers_view(v: Seq<LogFormatWrapper>) -> Seq<WrapperView> {
    Seq::new(v.len(), |i: int| v[i]@)
}

/// The parts that a vector of parts stands for.
pub open spec fn parts_view(v: Seq<LogPart>) -> Seq<PartView> {
    Seq::new(v.len(), |i: int| v[i]@)
}

/// Copies a vector of parts.
pub fn clone_parts(parts: &Vec<LogPart>) -> (out: Vec<LogPart>)
    ensures
        parts_view(out@) == parts_view(parts@),
{
    let mut out: Vec<LogPart> = Vec::new();
    let mut i: usize = 0;
    while i < parts.len()
        invariant
            i <= parts@.len(),
            out@.len() == i,
            forall|j: int| 0 <= j < i ==> (#[trigger] out@[j])@ == parts@[j]@,
        decreases parts@.len() - i,
    {
        out.push(parts[i].clone());
        i += 1;
    }
    assert(parts_view(out@) =~= parts_view(parts@));
    out
}

/// A compiled template: its segments in the order of the template.
#[derive(Debug, PartialEq, Eq)]
pub struct LogFormatter {
    pub parts: Vec<LogFormatWrapper>,
}

impl View for LogFormatter {
    type V = Seq<WrapperView>;

    open spec fn view(&self) -> Seq<WrapperView> {
        wrappers_view(self.parts@)
    }
}

impl Clone for LogFormatter {
    fn clone(&self) -> (out: Self)
        ensures
            out@ == self@,
    {
        let mut parts: Vec<LogFormatWrapper> = Vec::new();
        let mut i: usize = 0;
        while i < self.parts.len()
            invariant
                i <= self.parts@.len(),
                parts@.len() == i,
                forall|j: int| 0 <= j < i ==> (#[trigger] parts@[j])@ == self.parts@[j]@,
            decreases self.parts@.len() - i,
        {
            parts.push(self.parts[i].clone());
            i += 1;
        }
        assert(wrappers_view(parts@) =~= wrappers_view(self.parts@));
        LogFormatter { parts }
    }
}


/// The symbols that a template is scanned into. A scan yields a chain of
/// `AndNext` nodes, each holding what came before and one more symbol.
#[derive(Debug)]
pub enum ParseSymbs {
    Start,
    AndNext(Box<ParseSymbs>, Box<ParseSymbs>),
    AngleOpen,
    AngleClose,
    Text(String),
    BracketOpen,
    BracketClose,
}

/// One symbol of a scanned template, with its text as a sequence.
pub enum Token {
    Start,
    Nested,
    AngleOpen,
    AngleClose,
    Text(Seq<char>),
    BracketOpen,
    BracketClose,
}

impl ParseSymbs {
    /// The symbol that a node stands for when it is an item of a list.
    pub open spec fn token(self) -> Token {
        match self {
            ParseSymbs::Start => Token::Start,
            ParseSymbs::AndNext(_, _) => Token::Nested,
            ParseSymbs::AngleOpen => Token::AngleOpen,
            ParseSymbs::AngleClose => Token::AngleClose,
            ParseSymbs::Text(t) => Token::Text(t@),
            ParseSymbs::BracketOpen => Token::BracketOpen,
            ParseSymbs::BracketClose => Token::BracketClose,
        }
    }

    /// The number of `AndNext` nodes along the chain.
    pub open spec fn depth(self) -> nat
        decreases self,
    {
        match self {
            ParseSymbs::AndNext(next, _) => 1 + next.depth(),
            _ => 0,
        }
    }

    /// The symbols of a chain, oldest first.
    pub open spec fn flat(self) -> Seq<Token>
        decreases self,
    {
        match self {
            ParseSymbs::AndNext(next, el) => next.flat().push(el.token()),
            _ => seq![self.token()],
        }
    }
}

/// The symbols that a vector of nodes stands for.
pub open spec fn tokens_of(v: Seq<ParseSymbs>) -> Seq<Token> {
    Seq::new(v.len(), |i: int| v[i].token())
}

/// Whether `c` is one of the four structural characters of a template.
pub open spec fn is_delimiter(c: char) -> bool {
    c == '{' || c == '}' || c == '<' || c == '>'
}

/// The symbol of a structural character.
pub open spec fn delimiter_token(c: char) -> Token {
    if c == '{' {
        Token::BracketOpen
    } else if c == '}' {
        Token::BracketClose
    } else if c == '<' {
        Token::AngleOpen
    } else {
        Token::AngleClose
    }
}

/// The symbols of `s[run_start..]`, where `s[run_start..i]` is a run of
/// literal text already read. Every structural character closes the run
/// before it, which may be empty; the last run is kept unless it is empty.
pub open spec fn scan_from(s: Seq<char>, run_start: int, i: int) -> Seq<Token>
    decreases s.len() - i,
{
    if i >= s.len() {
        if run_start < s.len() {
            seq![Token::Text(s.subrange(run_start, s.len() as int))]
        } else {
            Seq::empty()
        }
    } else if is_delimiter(s[i]) {
        seq![Token::Text(s.subrange(run_start, i)), delimiter_token(s[i])] + scan_from(
            s,
            i + 1,
            i + 1,
        )
    } else {
        scan_from(s, run_start, i + 1)
    }
}

/// The symbols of a template, left to right.
pub open spec fn scan(s: Seq<char>) -> Seq<Token> {
    scan_from(s, 0, 0)
}

/// Scans a template into a chain of symbols that begins with `Start`.
pub fn string_parse(string: &str) -> (symbs: ParseSymbs)
    ensures
        symbs.flat() == seq![Token::Start] + scan(string@),
{
    let chars = to_chars(string);
    let mut acc = ParseSymbs::Start;
    let mut run_start: usize = 0;
    let mut i: usize = 0;
    while i < chars.len()
        invariant
            run_start <= i <= chars@.len(),
            acc.flat() + scan_from(chars@, run_start as int, i as int) == seq![Token::Start]
                + scan(chars@),
        decreases chars@.len() - i,
    {
        let c = chars[i];
        if c == '{' || c == '}' || c == '<' || c == '>' {
            let run = from_chars(&chars, run_start, i);
            let symbol = if c == '{' {
                ParseSymbs::BracketOpen
            } else if c == '}' {
                ParseSymbs::BracketClose
            } else if c == '<' {
                ParseSymbs::AngleOpen
            } else {
                ParseSymbs::AngleClose
            };
            let ghost before = acc.flat();
            let ghost text = Token::Text(run@);
            let ghost mark = symbol.token();
            acc = ParseSymbs::AndNext(Box::new(acc), Box::new(ParseSymbs::Text(run)));
            assert(acc.flat() == before.push(text));
            acc = ParseSymbs::AndNext(Box::new(acc), Box::new(symbol));
            assert(acc.flat() == before.push(text).push(mark));
            assert(mark == delimiter_token(c));
            assert(before.push(text).push(mark) =~= before + seq![text, mark]);
            assert(acc.flat() + scan_from(chars@, i + 1, i + 1) =~= before + scan_from(
                chars@,
                run_start as int,
                i as int,
            ));
            run_start = i + 1;
        }
        i += 1;
    }
    if run_start < chars.len() {
        let run = from_chars(&chars, run_start, chars.len());
        let ghost before = acc.flat();
        acc = ParseSymbs::AndNext(Box::new(acc), Box::new(ParseSymbs::Text(run)));
        assert(acc.flat() =~= before + scan_from(chars@, run_start as int, i as int));
    } else {
        assert(acc.flat() =~= acc.flat() + scan_from(chars@, run_start as int, i as int));
    }
    acc
}

/// Lays a chain of symbols out as a vector, oldest first.
pub fn parse_symbs_to_vec(symbs: ParseSymbs) -> (res: Vec<ParseSymbs>)
    ensures
        tokens_of(res@) == symbs.flat(),
{
    let mut newest_first: Vec<ParseSymbs> = Vec::new();
    let mut curr = symbs;
    loop
        invariant_except_break
            curr.flat() + tokens_of(newest_first@).reverse() == symbs.flat(),
        ensures
            tokens_of(newest_first@).reverse() == symbs.flat(),
        decreases curr.depth(),
    {
        let ghost done = tokens_of(newest_first@);
        match curr {
            ParseSymbs::AndNext(next, el) => {
                let ghost item = el.token();
                newest_first.push(*el);
                curr = *next;
                assert(tokens_of(newest_first@) =~= done.push(item));
                assert(curr.flat() + done.push(item).reverse() =~= curr.flat().push(item)
                    + done.reverse());
            },
            e => {
                let ghost item = e.token();
                let ghost whole = e.flat();
                newest_first.push(e);
                assert(tokens_of(newest_first@) =~= done.push(item));
                assert(done.push(item).reverse() =~= whole + done.reverse());
                break ;
            },
        }
    }
    let ghost all = tokens_of(newest_first@);
    let mut res: Vec<ParseSymbs> = Vec::new();
    while newest_first.len() > 0
        invariant
            newest_first@.len() <= all.len(),
            tokens_of(res@) + tokens_of(newest_first@).reverse() == all.reverse(),
        decreases newest_first@.len(),
    {
        let ghost rest = tokens_of(newest_first@);
        let ghost done = tokens_of(res@);
        let last = newest_first.pop().unwrap();
        let ghost item = last.token();
        res.push(last);
        assert(tokens_of(res@) =~= done.push(item));
        assert(rest =~= tokens_of(newest_first@).push(item));
        assert(done.push(item) + tokens_of(newest_first@).reverse() =~= done + rest.reverse());
    }
    assert(tokens_of(res@) =~= tokens_of(res@) + tokens_of(newest_first@).reverse());
    res
}


/// The units that the symbols of a template are grouped into: literal text,
/// a color tag `<name>` and a placeholder `{name}`.
#[derive(Debug)]
pub enum ParseParts {
    End,
    Text(String),
    Color(String),
    BracketBlock(String),
}

/// What a [`ParseParts`] stands for.
pub enum PartToken {
    End,
    Text(Seq<char>),
    Color(Seq<char>),
    BracketBlock(Seq<char>),
}

impl View for ParseParts {
    type V = PartToken;

    open spec fn view(&self) -> PartToken {
        match self {
            ParseParts::End => PartToken::End,
            ParseParts::Text(t) => PartToken::Text(t@),
            ParseParts::Color(t) => PartToken::Color(t@),
            ParseParts::BracketBlock(t) => PartToken::BracketBlock(t@),
        }
    }
}

impl PartToken {
    /// Whether the name in a color tag or a placeholder is one of the
    /// language. Literal text holds no name.
    pub open spec fn is_known(self) -> bool {
        match self {
            PartToken::Color(name) => LogColor::spec_from_name(name) is Some,
            PartToken::BracketBlock(name) => LogPart::spec_from_name(name) is Some,
            _ => true,
        }
    }
}

impl ParseParts {
    /// Whether the name in a color tag or a placeholder is one of the language.
    pub fn verify_color_block_integriy(&self) -> (known: bool)
        ensures
            known == self@.is_known(),
    {
        match self {
            ParseParts::Color(text) => LogColor::from_name(text.as_str()).is_some(),
            ParseParts::BracketBlock(text) => LogPart::from_name(text.as_str()).is_some(),
            _ => true,
        }
    }
}

/// The units that a vector of units stands for.
pub open spec fn part_tokens(v: Seq<ParseParts>) -> Seq<PartToken> {
    Seq::new(v.len(), |i: int| v[i]@)
}

/// Why the symbols of a template cannot be grouped into units.
#[derive(Debug, Clone, Copy, PartialEq, Eq, Structural)]
pub enum ParseSymbToPartsError {
    IncorrectDataGiven,
    UnexpectedError,
}

/// Why the units of a template cannot be reduced to segments.
#[derive(Debug, Clone, Copy, PartialEq, Eq, Structural)]
pub enum ParsePartsToFormatterError {
    UnexpectedError,
    IncorrectDataGiven,
}

/// Why a template does not compile.
#[derive(Debug, Clone, Copy, PartialEq, Eq, Structural)]
pub enum ParseStringToWrappersError {
    UnableToParseSymbolsToParts(ParseSymbToPartsError),
    UnableToParsePartsToFormatter(ParsePartsToFormatterError),
}

/// `head` put in front of a grouping that succeeded.
pub open spec fn extend_parts(
    head: Seq<PartToken>,
    rest: Result<Seq<PartToken>, ParseSymbToPartsError>,
) -> Result<Seq<PartToken>, ParseSymbToPartsError> {
    match rest {
        Ok(tail) => Ok(head + tail),
        Err(e) => Err(e),
    }
}

/// The name between an opening symbol at `t[0]` and the symbol `close`:
/// exactly one run of text must stand between the two.
pub open spec fn enclosed(t: Seq<Token>, close: Token) -> Option<Seq<char>> {
    if t.len() >= 3 && t[2] == close {
        match t[1] {
            Token::Text(name) => Some(name),
            _ => None,
        }
    } else {
        None
    }
}

/// Groups symbols into units, left to right. An opening symbol must be
/// followed by one run of text and its own closing symbol; a closing symbol
/// on its own is refused.
pub open spec fn group(t: Seq<Token>) -> Result<Seq<PartToken>, ParseSymbToPartsError>
    decreases t.len(),
{
    if t.len() == 0 {
        Ok(Seq::empty())
    } else {
        match t[0] {
            Token::Start => group(t.skip(1)),
            Token::Nested => Err(ParseSymbToPartsError::UnexpectedError),
            Token::Text(text) => extend_parts(seq![PartToken::Text(text)], group(t.skip(1))),
            Token::AngleOpen => match enclosed(t, Token::AngleClose) {
                Some(name) => extend_parts(seq![PartToken::Color(name)], group(t.skip(3))),
                None => Err(ParseSymbToPartsError::IncorrectDataGiven),
            },
            Token::BracketOpen => match enclosed(t, Token::BracketClose) {
                Some(name) => extend_parts(seq![PartToken::BracketBlock(name)], group(t.skip(3))),
                None => Err(ParseSymbToPartsError::IncorrectDataGiven),
            },
            _ => Err(ParseSymbToPartsError::IncorrectDataGiven),
        }
    }
}

/// Whether every name among the units is one of the language.
pub open spec fn all_known(parts: Seq<PartToken>) -> bool {
    forall|i: int| 0 <= i < parts.len() ==> (#[trigger] parts[i]).is_known()
}

/// The units of a list of symbols: the grouping, refused when it holds a
/// name that the language does not have.
pub open spec fn parts_of(t: Seq<Token>) -> Result<Seq<PartToken>, ParseSymbToPartsError> {
    match group(t) {
        Ok(parts) => if all_known(parts) {
            Ok(parts)
        } else {
            Err(ParseSymbToPartsError::IncorrectDataGiven)
        },
        Err(e) => Err(e),
    }
}

proof fn lemma_extend_parts_assoc(
    a: Seq<PartToken>,
    b: Seq<PartToken>,
    rest: Result<Seq<PartToken>, ParseSymbToPartsError>,
)
    ensures
        extend_parts(a, extend_parts(b, rest)) == extend_parts(a + b, rest),
{
    match rest {
        Ok(tail) => {
            assert(a + (b + tail) =~= (a + b) + tail);
        },
        Err(_) => {},
    }
}

/// Groups the symbols of a template into units and checks their names.
pub fn parse_vec_of_parse_symb_to_parts(symbs: Vec<ParseSymbs>) -> (res: Result<
    Vec<ParseParts>,
    ParseSymbToPartsError,
>)
    ensures
        match res {
            Ok(parts) => parts_of(tokens_of(symbs@)) == Ok::<
                Seq<PartToken>,
                ParseSymbToPartsError,
            >(part_tokens(parts@)),
            Err(e) => parts_of(tokens_of(symbs@)) == Err::<Seq<PartToken>, ParseSymbToPartsError>(
                e,
            ),
        },
{
    let ghost toks = tokens_of(symbs@);
    let mut res: Vec<ParseParts> = Vec::new();
    let mut i: usize = 0;
    assert(part_tokens(res@) + Seq::<PartToken>::empty() =~= Seq::<PartToken>::empty());
    assert(toks.skip(0) =~= toks);
    while i < symbs.len()
        invariant
            i <= symbs@.len(),
            toks == tokens_of(symbs@),
            group(toks) == extend_parts(part_tokens(res@), group(toks.skip(i as int))),
        decreases symbs@.len() - i,
    {
        let ghost here = toks.skip(i as int);
        let ghost done = part_tokens(res@);
        assert(here.len() == toks.len() - i);
        assert(here[0] == toks[i as int]);
        assert(here.skip(1) =~= toks.skip(i + 1));
        match &symbs[i] {
            ParseSymbs::Start => {
                i += 1;
            },
            ParseSymbs::AndNext(_, _) => {
                return Err(ParseSymbToPartsError::UnexpectedError);
            },
            ParseSymbs::Text(text) => {
                res.push(ParseParts::Text(text.clone()));
                proof {
                    assert(part_tokens(res@) =~= done + seq![PartToken::Text(text@)]);
                    lemma_extend_parts_assoc(
                        done,
                        seq![PartToken::Text(text@)],
                        group(toks.skip(i + 1)),
                    );
                }
                i += 1;
            },
            ParseSymbs::AngleOpen => {
                if symbs.len() - i < 3 {
                    return Err(ParseSymbToPartsError::IncorrectDataGiven);
                }
                assert(here[1] == toks[i + 1]);
                assert(here[2] == toks[i + 2]);
                assert(here.skip(3) =~= toks.skip(i + 3));
                let name = match &symbs[i + 1] {
                    ParseSymbs::Text(text) => text.clone(),
                    _ => {
                        return Err(ParseSymbToPartsError::IncorrectDataGiven);
                    },
                };
                match &symbs[i + 2] {
                    ParseSymbs::AngleClose => {},
                    _ => {
                        return Err(ParseSymbToPartsError::IncorrectDataGiven);
                    },
                }
                proof {
                    lemma_extend_parts_assoc(
                        done,
                        seq![PartToken::Color(name@)],
                        group(toks.skip(i + 3)),
                    );
                }
                res.push(ParseParts::Color(name));
                assert(part_tokens(res@) =~= done + seq![res@[res@.len() - 1]@]);
                i += 3;
            },
            ParseSymbs::BracketOpen => {
                if symbs.len() - i < 3 {
                    return Err(ParseSymbToPartsError::IncorrectDataGiven);
                }
                assert(here[1] == toks[i + 1]);
                assert(here[2] == toks[i + 2]);
                assert(here.skip(3) =~= toks.skip(i + 3));
                let name = match &symbs[i + 1] {
                    ParseSymbs::Text(text) => text.clone(),
                    _ => {
                        return Err(ParseSymbToPartsError::IncorrectDataGiven);
                    },
                };
                match &symbs[i + 2] {
                    ParseSymbs::BracketClose => {},
                    _ => {
                        return Err(ParseSymbToPartsError::IncorrectDataGiven);
                    },
                }
                proof {
                    lemma_extend_parts_assoc(
                        done,
                        seq![PartToken::BracketBlock(name@)],
                        group(toks.skip(i + 3)),
                    );
                }
                res.push(ParseParts::BracketBlock(name));
                assert(part_tokens(res@) =~= done + seq![res@[res@.len() - 1]@]);
                i += 3;
            },
            _ => {
                return Err(ParseSymbToPartsError::IncorrectDataGiven);
            },
        }
    }
    assert(part_tokens(res@) + Seq::<PartToken>::empty() =~= part_tokens(res@));
    let mut k: usize = 0;
    while k < res.len()
        invariant
            k <= res@.len(),
            group(tokens_of(symbs@)) == Ok::<Seq<PartToken>, ParseSymbToPartsError>(
                part_tokens(res@),
            ),
            forall|j: int| 0 <= j < k ==> (#[trigger] part_tokens(res@)[j]).is_known(),
        decreases res@.len() - k,
    {
        if !res[k].verify_color_block_integriy() {
            assert(!part_tokens(res@)[k as int].is_known());
            return Err(ParseSymbToPartsError::IncorrectDataGiven);
        }
        k += 1;
    }
    Ok(res)
}


/// `head` put in front of a reduction that succeeded.
pub open spec fn extend_wrappers(
    head: Seq<WrapperView>,
    rest: Result<Seq<WrapperView>, ParsePartsToFormatterError>,
) -> Result<Seq<WrapperView>, ParsePartsToFormatterError> {
    match rest {
        Ok(tail) => Ok(head + tail),
        Err(e) => Err(e),
    }
}

/// Reduces units to segments while `open` is the color region that is open.
/// A color tag opens a region when none is open and closes the region of its
/// own color; any other tag, an unknown name, and a region left open at the
/// end are refused. Text and placeholders take the open color.
pub open spec fn reduce(parts: Seq<PartToken>, open: Option<LogColor>) -> Result<
    Seq<WrapperView>,
    ParsePartsToFormatterError,
>
    decreases parts.len(),
{
    if parts.len() == 0 {
        if open is Some {
            Err(ParsePartsToFormatterError::IncorrectDataGiven)
        } else {
            Ok(Seq::empty())
        }
    } else {
        let rest = parts.skip(1);
        match parts[0] {
            PartToken::End => reduce(rest, open),
            PartToken::Text(text) => extend_wrappers(
                seq![WrapperView { color: open, part: PartView::Text(text) }],
                reduce(rest, open),
            ),
            PartToken::Color(name) => match LogColor::spec_from_name(name) {
                None => Err(ParsePartsToFormatterError::IncorrectDataGiven),
                Some(color) => match open {
                    None => reduce(rest, Some(color)),
                    Some(current) => if current == color {
                        reduce(rest, None)
                    } else {
                        Err(ParsePartsToFormatterError::IncorrectDataGiven)
                    },
                },
            },
            PartToken::BracketBlock(name) => match LogPart::spec_from_name(name) {
                None => Err(ParsePartsToFormatterError::IncorrectDataGiven),
                Some(part) => extend_wrappers(
                    seq![WrapperView { color: open, part }],
                    reduce(rest, open),
                ),
            },
        }
    }
}

proof fn lemma_extend_wrappers_assoc(
    a: Seq<WrapperView>,
    b: Seq<WrapperView>,
    rest: Result<Seq<WrapperView>, ParsePartsToFormatterError>,
)
    ensures
        extend_wrappers(a, extend_wrappers(b, rest)) == extend_wrappers(a + b, rest),
{
    match rest {
        Ok(tail) => {
            assert(a + (b + tail) =~= (a + b) + tail);
        },
        Err(_) => {},
    }
}

/// Reduces the units of a template to its segments.
pub fn parse_parts_to_formatter(parts: Vec<ParseParts>) -> (res: Result<
    Vec<LogFormatWrapper>,
    ParsePartsToFormatterError,
>)
    ensures
        match res {
            Ok(wrappers) => reduce(part_tokens(parts@), None) == Ok::<
                Seq<WrapperView>,
                ParsePartsToFormatterError,
            >(wrappers_view(wrappers@)),
            Err(e) => reduce(part_tokens(parts@), None) == Err::<
                Seq<WrapperView>,
                ParsePartsToFormatterError,
            >(e),
        },
{
    let ghost toks = part_tokens(parts@);
    let mut res: Vec<LogFormatWrapper> = Vec::new();
    let mut curr_color: Option<LogColor> = None;
    let mut i: usize = 0;
    assert(toks.skip(0) =~= toks);
    assert(wrappers_view(res@) =~= Seq::<WrapperView>::empty());
    assert(reduce(toks, None) == extend_wrappers(wrappers_view(res@), reduce(toks, None))) by {
        match reduce(toks, None) {
            Ok(tail) => {
                assert(Seq::<WrapperView>::empty() + tail =~= tail);
            },
            Err(_) => {},
        }
    }
    while i < parts.len()
        invariant
            i <= parts@.len(),
            toks == part_tokens(parts@),
            reduce(toks, None) == extend_wrappers(
                wrappers_view(res@),
                reduce(toks.skip(i as int), curr_color),
            ),
        decreases parts@.len() - i,
    {
        let ghost here = toks.skip(i as int);
        let ghost done = wrappers_view(res@);
        assert(here[0] == toks[i as int]);
        assert(here.skip(1) =~= toks.skip(i + 1));
        match &parts[i] {
            ParseParts::End => {},
            ParseParts::Text(text) => {
                let wrapper = LogFormatWrapper {
                    color: curr_color,
                    part: LogPart::Text(text.clone()),
                };
                proof {
                    lemma_extend_wrappers_assoc(
                        done,
                        seq![wrapper@],
                        reduce(toks.skip(i + 1), curr_color),
                    );
                }
                res.push(wrapper);
                assert(wrappers_view(res@) =~= done + seq![res@[res@.len() - 1]@]);
            },
            ParseParts::Color(text) => {
                let color = match LogColor::from_name(text.as_str()) {
                    Some(c) => c,
                    None => {
                        return Err(ParsePartsToFormatterError::IncorrectDataGiven);
                    },
                };
                match curr_color {
                    None => {
                        curr_color = Some(color);
                    },
                    Some(current) => {
                        if current == color {
                            curr_color = None;
                        } else {
                            return Err(ParsePartsToFormatterError::IncorrectDataGiven);
                        }
                    },
                }
            },
            ParseParts::BracketBlock(text) => {
                let part = match LogPart::from_name(text.as_str()) {
                    Some(p) => p,
                    None => {
                        return Err(ParsePartsToFormatterError::IncorrectDataGiven);
                    },
                };
                let wrapper = LogFormatWrapper { color: curr_color, part };
                proof {
                    lemma_extend_wrappers_assoc(
                        done,
                        seq![wrapper@],
                        reduce(toks.skip(i + 1), curr_color),
                    );
                }
                res.push(wrapper);
                assert(wrappers_view(res@) =~= done + seq![res@[res@.len() - 1]@]);
            },
        }
        i += 1;
    }
    if curr_color.is_some() {
        return Err(ParsePartsToFormatterError::IncorrectDataGiven);
    }
    assert(wrappers_view(res@) + Seq::<WrapperView>::empty() =~= wrappers_view(res@));
    Ok(res)
}

/// The segments of a template, or why it does not compile: the template is
/// scanned into symbols, the symbols are grouped into units, and the units
/// are reduced to segments.
pub open spec fn compile(s: Seq<char>) -> Result<Seq<WrapperView>, ParseStringToWrappersError> {
    match parts_of(seq![Token::Start] + scan(s)) {
        Err(e) => Err(ParseStringToWrappersError::UnableToParseSymbolsToParts(e)),
        Ok(parts) => match reduce(parts, None) {
            Err(e) => Err(ParseStringToWrappersError::UnableToParsePartsToFormatter(e)),
            Ok(wrappers) => Ok(wrappers),
        },
    }
}

/// The parts of a list of segments, without their colors.
pub open spec fn parts_only(wrappers: Seq<WrapperView>) -> Seq<PartView> {
    Seq::new(wrappers.len(), |i: int| wrappers[i].part)
}

/// The parts of a template, or why it does not compile.
pub open spec fn compile_parts(s: Seq<char>) -> Result<Seq<PartView>, ParseStringToWrappersError> {
    match compile(s) {
        Ok(wrappers) => Ok(parts_only(wrappers)),
        Err(e) => Err(e),
    }
}

/// Compiles a template into segments.
pub fn parse_string_to_wrappers(text: &str) -> (res: Result<
    Vec<LogFormatWrapper>,
    ParseStringToWrappersError,
>)
    ensures
        match res {
            Ok(wrappers) => compile(text@) == Ok::<Seq<WrapperView>, ParseStringToWrappersError>(
                wrappers_view(wrappers@),
            ),
            Err(e) => compile(text@) == Err::<Seq<WrapperView>, ParseStringToWrappersError>(e),
        },
{
    let symbols_struct = string_parse(text);
    let symbols = parse_symbs_to_vec(symbols_struct);
    let parts = match parse_vec_of_parse_symb_to_parts(symbols) {
        Ok(r) => r,
        Err(e) => {
            return Err(ParseStringToWrappersError::UnableToParseSymbolsToParts(e));
        },
    };
    match parse_parts_to_formatter(parts) {
        Ok(wrappers) => Ok(wrappers),
        Err(e) => Err(ParseStringToWrappersError::UnableToParsePartsToFormatter(e)),
    }
}

/// Compiles a template and keeps the parts of its segments.
pub fn parse_string_to_logparts(text: &str) -> (res: Result<
    Vec<LogPart>,
    ParseStringToWrappersError,
>)
    ensures
        match res {
            Ok(parts) => compile_parts(text@) == Ok::<Seq<PartView>, ParseStringToWrappersError>(
                parts_view(parts@),
            ),
            Err(e) => compile_parts(text@) == Err::<Seq<PartView>, ParseStringToWrappersError>(e),
        },
{
    let wrappers = match parse_string_to_wrappers(text) {
        Ok(w) => w,
        Err(e) => {
            return Err(e);
        },
    };
    let mut parts: Vec<LogPart> = Vec::new();
    let mut i: usize = 0;
    while i < wrappers.len()
        invariant
            i <= wrappers@.len(),
            parts@.len() == i,
            forall|j: int| 0 <= j < i ==> (#[trigger] parts@[j])@ == wrappers@[j]@.part,
        decreases wrappers@.len() - i,
    {
        parts.push(wrappers[i].part.clone());
        i += 1;
    }
    assert(parts_view(parts@) =~= parts_only(wrappers_view(wrappers@)));
    Ok(parts)
}

/// The template of a log line until another one is set.
pub open spec fn default_template() -> Seq<char> {
    "{file}-{line} <green>[{level}]<green> - {message}"@
}

/// The segments of a template, none where it does not compile.
pub open spec fn segments_of(template: Seq<char>) -> Seq<WrapperView> {
    match compile(template) {
        Ok(wrappers) => wrappers,
        Err(_) => Seq::empty(),
    }
}

impl LogFormatter {
    /// Compiles a template into a formatter.
    pub fn parse_from_string(text: &str) -> (res: Result<Self, ParseStringToWrappersError>)
        ensures
            match res {
                Ok(formatter) => compile(text@) == Ok::<
                    Seq<WrapperView>,
                    ParseStringToWrappersError,
                >(formatter@),
                Err(e) => compile(text@) == Err::<Seq<WrapperView>, ParseStringToWrappersError>(e),
            },
    {
        match parse_string_to_wrappers(text) {
            Ok(wrappers) => Ok(LogFormatter { parts: wrappers }),
            Err(e) => Err(e),
        }
    }

    /// The formatter of `template`, with no segment where it does not compile.
    pub fn from_template_or_empty(template: &str) -> (out: Self)
        ensures
            out@ == segments_of(template@),
    {
        match LogFormatter::parse_from_string(template) {
            Ok(formatter) => formatter,
            Err(_) => LogFormatter { parts: Vec::new() },
        }
    }
}

impl Default for LogFormatter {
    /// The formatter of the default template.
    fn default() -> (out: Self)
        ensures
            out@ == default_segments(),
            compile(default_template()) == Ok::<Seq<WrapperView>, ParseStringToWrappersError>(
                out@,
            ),
    {
        proof {
            lemma_default_template_compiles();
        }
        LogFormatter::from_template_or_empty("{file}-{line} <green>[{level}]<green> - {message}")
    }
}

impl LogFormatter {
    /// The formatter of the default template of error lines.
    pub fn default_for_errors() -> (out: Self)
        ensures
            out@ == default_error_segments(),
            compile(default_error_template()) == Ok::<
                Seq<WrapperView>,
                ParseStringToWrappersError,
            >(out@),
    {
        proof {
            lemma_error_template_compiles();
        }
        LogFormatter::from_template_or_empty(
            "<red>[{level}]<red> <blue>({file} {line})<blue> - <red>{message}<red>",
        )
    }
}


/// The units of a template, or why its symbols cannot be grouped.
pub open spec fn template_parts(template: Seq<char>) -> Result<
    Seq<PartToken>,
    ParseSymbToPartsError,
> {
    parts_of(seq![Token::Start] + scan(template))
}

/// The colors that the color tags among the units name, in order.
pub open spec fn color_tags(parts: Seq<PartToken>) -> Seq<LogColor>
    decreases parts.len(),
{
    if parts.len() == 0 {
        Seq::empty()
    } else {
        let rest = color_tags(parts.skip(1));
        match parts[0] {
            PartToken::Color(name) => match LogColor::spec_from_name(name) {
                Some(color) => seq![color] + rest,
                None => rest,
            },
            _ => rest,
        }
    }
}

/// Whether the tags pair up, first with second, third with fourth and so
/// on, each pair naming one color: every region is closed by its own color
/// before another one opens.
pub open spec fn balanced(tags: Seq<LogColor>) -> bool
    decreases tags.len(),
{
    tags.len() == 0 || (tags.len() >= 2 && tags[0] == tags[1] && balanced(tags.skip(2)))
}

/// Whether the tags close the region `open` and pair up after that.
pub open spec fn balanced_from(tags: Seq<LogColor>, open: Option<LogColor>) -> bool {
    match open {
        None => balanced(tags),
        Some(color) => tags.len() >= 1 && tags[0] == color && balanced(tags.skip(1)),
    }
}

/// How often `color` occurs among the tags.
pub open spec fn occurrences(tags: Seq<LogColor>, color: LogColor) -> nat
    decreases tags.len(),
{
    if tags.len() == 0 {
        0
    } else if tags[0] == color {
        1 + occurrences(tags.skip(1), color)
    } else {
        occurrences(tags.skip(1), color)
    }
}

/// Units whose names are all known reduce to segments exactly when their
/// color tags close the open region and pair up.
pub proof fn lemma_reduce_ok_iff_balanced(parts: Seq<PartToken>, open: Option<LogColor>)
    requires
        all_known(parts),
    ensures
        reduce(parts, open) is Ok <==> balanced_from(color_tags(parts), open),
    decreases parts.len(),
{
    if parts.len() > 0 {
        let rest = parts.skip(1);
        assert(all_known(rest)) by {
            assert forall|i: int| 0 <= i < rest.len() implies (#[trigger] rest[i]).is_known() by {
                assert(rest[i] == parts[i + 1]);
            }
        }
        assert(parts[0].is_known());
        let tags = color_tags(parts);
        let tail = color_tags(rest);
        match parts[0] {
            PartToken::End => {
                lemma_reduce_ok_iff_balanced(rest, open);
            },
            PartToken::Text(_) => {
                lemma_reduce_ok_iff_balanced(rest, open);
            },
            PartToken::BracketBlock(_) => {
                lemma_reduce_ok_iff_balanced(rest, open);
            },
            PartToken::Color(name) => {
                let color = LogColor::spec_from_name(name)->0;
                assert(tags == seq![color] + tail);
                assert(tags.skip(1) =~= tail);
                match open {
                    None => {
                        lemma_reduce_ok_iff_balanced(rest, Some(color));
                        if tail.len() >= 1 {
                            assert(tags.skip(2) =~= tail.skip(1));
                        }
                    },
                    Some(current) => {
                        if current == color {
                            lemma_reduce_ok_iff_balanced(rest, None);
                        }
                    },
                }
            },
        }
    }
}

/// In tags that pair up every color occurs an even number of times.
pub proof fn lemma_balanced_counts_even(tags: Seq<LogColor>, color: LogColor)
    requires
        balanced(tags),
    ensures
        occurrences(tags, color) % 2 == 0,
    decreases tags.len(),
{
    if tags.len() > 0 {
        lemma_balanced_counts_even(tags.skip(2), color);
        let after_first = tags.skip(1);
        assert(after_first.skip(1) =~= tags.skip(2));
        assert(after_first[0] == tags[1]);
        assert(occurrences(after_first, color) == if tags[1] == color {
            1 + occurrences(tags.skip(2), color)
        } else {
            occurrences(tags.skip(2), color)
        });
        assert(occurrences(tags, color) == if tags[0] == color {
            2 + occurrences(tags.skip(2), color)
        } else {
            occurrences(tags.skip(2), color)
        });
    }
}

/// Color balance. A template whose symbols group into units compiles exactly
/// when its color tags pair up, each region closed by its own color before
/// another opens; one whose symbols do not group does not compile.
pub proof fn lemma_color_balance(template: Seq<char>)
    ensures
        match template_parts(template) {
            Ok(parts) => compile(template) is Ok <==> balanced(color_tags(parts)),
            Err(_) => compile(template) is Err,
        },
{
    match template_parts(template) {
        Ok(parts) => {
            lemma_reduce_ok_iff_balanced(parts, None);
        },
        Err(_) => {},
    }
}

/// A template in which some color is named an odd number of times does not
/// compile.
pub proof fn lemma_odd_color_count_fails(template: Seq<char>, color: LogColor)
    requires
        match template_parts(template) {
            Ok(parts) => occurrences(color_tags(parts), color) % 2 == 1,
            Err(_) => true,
        },
    ensures
        compile(template) is Err,
{
    match template_parts(template) {
        Ok(parts) => {
            lemma_reduce_ok_iff_balanced(parts, None);
            if balanced(color_tags(parts)) {
                lemma_balanced_counts_even(color_tags(parts), color);
            }
        },
        Err(_) => {},
    }
}

/// A template in which a tag of another color follows an open tag does not
/// compile: the tag at position `2k` among the color tags opens a region,
/// and the tag after it names another color.
pub proof fn lemma_two_colors_open_fails(template: Seq<char>, k: int)
    requires
        match template_parts(template) {
            Ok(parts) => 0 <= k && 2 * k + 1 < color_tags(parts).len() && color_tags(parts)[2 * k]
                != color_tags(parts)[2 * k + 1],
            Err(_) => true,
        },
    ensures
        compile(template) is Err,
{
    match template_parts(template) {
        Ok(parts) => {
            lemma_reduce_ok_iff_balanced(parts, None);
            if balanced(color_tags(parts)) {
                lemma_balanced_pairs(color_tags(parts), k);
            }
        },
        Err(_) => {},
    }
}

/// In tags that pair up the tags at positions `2k` and `2k + 1` agree.
pub proof fn lemma_balanced_pairs(tags: Seq<LogColor>, k: int)
    requires
        balanced(tags),
        0 <= k,
        2 * k + 1 < tags.len(),
    ensures
        tags[2 * k] == tags[2 * k + 1],
    decreases k,
{
    if k > 0 {
        lemma_balanced_pairs(tags.skip(2), k - 1);
        assert(tags.skip(2)[2 * (k - 1)] == tags[2 * k]);
        assert(tags.skip(2)[2 * (k - 1) + 1] == tags[2 * k + 1]);
    }
}


/// The segments of the default template.
pub open spec fn default_segments() -> Seq<WrapperView> {
    seq![
        WrapperView { color: None, part: PartView::Text(Seq::empty()) },
        WrapperView { color: None, part: PartView::File },
        WrapperView { color: None, part: PartView::Text(seq!['-']) },
        WrapperView { color: None, part: PartView::Line },
        WrapperView { color: None, part: PartView::Text(seq![' ']) },
        WrapperView { color: Some(LogColor::Green), part: PartView::Text(seq!['[']) },
        WrapperView { color: Some(LogColor::Green), part: PartView::Level },
        WrapperView { color: Some(LogColor::Green), part: PartView::Text(seq![']']) },
        WrapperView { color: None, part: PartView::Text(seq![' ', '-', ' ']) },
        WrapperView { color: None, part: PartView::Message },
    ]
}

/// The symbols of the default template.
proof fn lemma_default_template_scan()
    ensures
        scan(default_template()) =~= seq![
            Token::Text(Seq::empty()),
            Token::BracketOpen,
            Token::Text("file"@),
            Token::BracketClose,
            Token::Text(seq!['-']),
            Token::BracketOpen,
            Token::Text("line"@),
            Token::BracketClose,
            Token::Text(seq![' ']),
            Token::AngleOpen,
            Token::Text("green"@),
            Token::AngleClose,
            Token::Text(seq!['[']),
            Token::BracketOpen,
            Token::Text("level"@),
            Token::BracketClose,
            Token::Text(seq![']']),
            Token::AngleOpen,
            Token::Text("green"@),
            Token::AngleClose,
            Token::Text(seq![' ', '-', ' ']),
            Token::BracketOpen,
            Token::Text("message"@),
            Token::BracketClose,
        ],
{
    let s = default_template();
    reveal_strlit("{file}-{line} <green>[{level}]<green> - {message}");
    reveal_strlit("file");
    reveal_strlit("line");
    reveal_strlit("green");
    reveal_strlit("level");
    reveal_strlit("message");
    assert(s.len() == 49);
    reveal_with_fuel(scan_from, 8);
    assert(s.subrange(0, 0) =~= Seq::<char>::empty());
    assert(s.subrange(1, 5) =~= "file"@);
    assert(s.subrange(6, 7) =~= seq!['-']);
    assert(s.subrange(8, 12) =~= "line"@);
    assert(s.subrange(13, 14) =~= seq![' ']);
    assert(s.subrange(15, 20) =~= "green"@);
    assert(s.subrange(21, 22) =~= seq!['[']);
    assert(s.subrange(23, 28) =~= "level"@);
    assert(s.subrange(29, 30) =~= seq![']']);
    assert(s.subrange(31, 36) =~= "green"@);
    assert(s.subrange(37, 40) =~= seq![' ', '-', ' ']);
    assert(s.subrange(41, 48) =~= "message"@);
    let t12 = scan_from(s, 49, 49);
    assert(t12 =~= Seq::<Token>::empty());
    let t11 = scan_from(s, 41, 41);
    assert(t11 == seq![Token::Text(s.subrange(41, 48)), Token::BracketClose] + t12);
    let t10 = scan_from(s, 37, 37);
    assert(t10 == seq![Token::Text(s.subrange(37, 40)), Token::BracketOpen] + t11);
    let t9 = scan_from(s, 31, 31);
    assert(t9 == seq![Token::Text(s.subrange(31, 36)), Token::AngleClose] + t10);
    let t8 = scan_from(s, 29, 29);
    assert(t8 == seq![Token::Text(s.subrange(29, 30)), Token::AngleOpen] + t9);
    let t7 = scan_from(s, 23, 23);
    assert(t7 == seq![Token::Text(s.subrange(23, 28)), Token::BracketClose] + t8);
    let t6 = scan_from(s, 21, 21);
    assert(t6 == seq![Token::Text(s.subrange(21, 22)), Token::BracketOpen] + t7);
    let t5 = scan_from(s, 15, 15);
    assert(t5 == seq![Token::Text(s.subrange(15, 20)), Token::AngleClose] + t6);
    let t4 = scan_from(s, 13, 13);
    assert(t4 == seq![Token::Text(s.subrange(13, 14)), Token::AngleOpen] + t5);
    let t3 = scan_from(s, 8, 8);
    assert(t3 == seq![Token::Text(s.subrange(8, 12)), Token::BracketClose] + t4);
    let t2 = scan_from(s, 6, 6);
    assert(t2 == seq![Token::Text(s.subrange(6, 7)), Token::BracketOpen] + t3);
    let t1 = scan_from(s, 1, 1);
    assert(t1 == seq![Token::Text(s.subrange(1, 5)), Token::BracketClose] + t2);
    let t0 = scan_from(s, 0, 0);
    assert(t0 == seq![Token::Text(s.subrange(0, 0)), Token::BracketOpen] + t1);
}


proof fn lemma_group_text(t: Seq<Token>, k: int, text: Seq<char>)
    requires
        0 <= k < t.len(),
        t[k] == Token::Text(text),
    ensures
        group(t.skip(k)) == extend_parts(seq![PartToken::Text(text)], group(t.skip(k + 1))),
{
    assert(t.skip(k)[0] == t[k]);
    assert(t.skip(k).skip(1) =~= t.skip(k + 1));
}

proof fn lemma_group_placeholder(t: Seq<Token>, k: int, name: Seq<char>)
    requires
        0 <= k,
        k + 2 < t.len(),
        t[k] == Token::BracketOpen,
        t[k + 1] == Token::Text(name),
        t[k + 2] == Token::BracketClose,
    ensures
        group(t.skip(k)) == extend_parts(
            seq![PartToken::BracketBlock(name)],
            group(t.skip(k + 3)),
        ),
{
    assert(t.skip(k)[0] == t[k]);
    assert(t.skip(k)[1] == t[k + 1]);
    assert(t.skip(k)[2] == t[k + 2]);
    assert(t.skip(k).skip(3) =~= t.skip(k + 3));
}

proof fn lemma_group_color(t: Seq<Token>, k: int, name: Seq<char>)
    requires
        0 <= k,
        k + 2 < t.len(),
        t[k] == Token::AngleOpen,
        t[k + 1] == Token::Text(name),
        t[k + 2] == Token::AngleClose,
    ensures
        group(t.skip(k)) == extend_parts(seq![PartToken::Color(name)], group(t.skip(k + 3))),
{
    assert(t.skip(k)[0] == t[k]);
    assert(t.skip(k)[1] == t[k + 1]);
    assert(t.skip(k)[2] == t[k + 2]);
    assert(t.skip(k).skip(3) =~= t.skip(k + 3));
}

/// One literal run and one placeholder from the place `k` on.
proof fn lemma_group_run_placeholder(
    t: Seq<Token>,
    k: int,
    text: Seq<char>,
    name: Seq<char>,
    rest: Seq<PartToken>,
)
    requires
        0 <= k,
        k + 3 < t.len(),
        t[k] == Token::Text(text),
        t[k + 1] == Token::BracketOpen,
        t[k + 2] == Token::Text(name),
        t[k + 3] == Token::BracketClose,
        group(t.skip(k + 4)) == Ok::<Seq<PartToken>, ParseSymbToPartsError>(rest),
    ensures
        group(t.skip(k)) == Ok::<Seq<PartToken>, ParseSymbToPartsError>(
            seq![PartToken::Text(text), PartToken::BracketBlock(name)] + rest,
        ),
{
    lemma_group_text(t, k, text);
    lemma_group_placeholder(t, k + 1, name);
    assert(seq![PartToken::Text(text)] + (seq![PartToken::BracketBlock(name)] + rest) =~= seq![
        PartToken::Text(text),
        PartToken::BracketBlock(name),
    ] + rest);
}

/// One literal run and one color tag from the place `k` on.
proof fn lemma_group_run_color(
    t: Seq<Token>,
    k: int,
    text: Seq<char>,
    name: Seq<char>,
    rest: Seq<PartToken>,
)
    requires
        0 <= k,
        k + 3 < t.len(),
        t[k] == Token::Text(text),
        t[k + 1] == Token::AngleOpen,
        t[k + 2] == Token::Text(name),
        t[k + 3] == Token::AngleClose,
        group(t.skip(k + 4)) == Ok::<Seq<PartToken>, ParseSymbToPartsError>(rest),
    ensures
        group(t.skip(k)) == Ok::<Seq<PartToken>, ParseSymbToPartsError>(
            seq![PartToken::Text(text), PartToken::Color(name)] + rest,
        ),
{
    lemma_group_text(t, k, text);
    lemma_group_color(t, k + 1, name);
    assert(seq![PartToken::Text(text)] + (seq![PartToken::Color(name)] + rest) =~= seq![
        PartToken::Text(text),
        PartToken::Color(name),
    ] + rest);
}

/// The units of the default template.
proof fn lemma_default_template_parts()
    ensures
        template_parts(default_template()) == Ok::<Seq<PartToken>, ParseSymbToPartsError>(
            seq![
                PartToken::Text(Seq::empty()),
                PartToken::BracketBlock("file"@),
                PartToken::Text(seq!['-']),
                PartToken::BracketBlock("line"@),
                PartToken::Text(seq![' ']),
                PartToken::Color("green"@),
                PartToken::Text(seq!['[']),
                PartToken::BracketBlock("level"@),
                PartToken::Text(seq![']']),
                PartToken::Color("green"@),
                PartToken::Text(seq![' ', '-', ' ']),
                PartToken::BracketBlock("message"@),
            ],
        ),
{
    lemma_default_template_scan();
    let t = seq![Token::Start] + scan(default_template());
    assert(t.len() == 25);
    let p6: Seq<PartToken> = Seq::empty();
    assert(t.skip(25) =~= Seq::<Token>::empty());
    assert(group(t.skip(25)) == Ok::<Seq<PartToken>, ParseSymbToPartsError>(p6));
    lemma_group_run_placeholder(t, 21, seq![' ', '-', ' '], "message"@, p6);
    let p5 = seq![PartToken::Text(seq![' ', '-', ' ']), PartToken::BracketBlock("message"@)]
        + p6;
    lemma_group_run_color(t, 17, seq![']'], "green"@, p5);
    let p4 = seq![PartToken::Text(seq![']']), PartToken::Color("green"@)] + p5;
    lemma_group_run_placeholder(t, 13, seq!['['], "level"@, p4);
    let p3 = seq![PartToken::Text(seq!['[']), PartToken::BracketBlock("level"@)] + p4;
    lemma_group_run_color(t, 9, seq![' '], "green"@, p3);
    let p2 = seq![PartToken::Text(seq![' ']), PartToken::Color("green"@)] + p3;
    lemma_group_run_placeholder(t, 5, seq!['-'], "line"@, p2);
    let p1 = seq![PartToken::Text(seq!['-']), PartToken::BracketBlock("line"@)] + p2;
    lemma_group_run_placeholder(t, 1, Seq::empty(), "file"@, p1);
    let p0 = seq![PartToken::Text(Seq::empty()), PartToken::BracketBlock("file"@)] + p1;
    assert(t.skip(0) =~= t);
    assert(t[0] == Token::Start);
    assert(t.skip(0).skip(1) =~= t.skip(1));
    assert(group(t) == Ok::<Seq<PartToken>, ParseSymbToPartsError>(p0));
    lemma_placeholder_names_differ();
    lemma_color_name_round_trip(LogColor::Green);
    assert(p0 =~= seq![
        PartToken::Text(Seq::empty()),
        PartToken::BracketBlock("file"@),
        PartToken::Text(seq!['-']),
        PartToken::BracketBlock("line"@),
        PartToken::Text(seq![' ']),
        PartToken::Color("green"@),
        PartToken::Text(seq!['[']),
        PartToken::BracketBlock("level"@),
        PartToken::Text(seq![']']),
        PartToken::Color("green"@),
        PartToken::Text(seq![' ', '-', ' ']),
        PartToken::BracketBlock("message"@),
    ]);
    assert(all_known(p0));
}


proof fn lemma_reduce_text(
    p: Seq<PartToken>,
    k: int,
    open: Option<LogColor>,
    text: Seq<char>,
    rest: Seq<WrapperView>,
)
    requires
        0 <= k < p.len(),
        p[k] == PartToken::Text(text),
        reduce(p.skip(k + 1), open) == Ok::<Seq<WrapperView>, ParsePartsToFormatterError>(rest),
    ensures
        reduce(p.skip(k), open) == Ok::<Seq<WrapperView>, ParsePartsToFormatterError>(
            seq![WrapperView { color: open, part: PartView::Text(text) }] + rest,
        ),
{
    assert(p.skip(k)[0] == p[k]);
    assert(p.skip(k).skip(1) =~= p.skip(k + 1));
}

proof fn lemma_reduce_placeholder(
    p: Seq<PartToken>,
    k: int,
    open: Option<LogColor>,
    name: Seq<char>,
    part: PartView,
    rest: Seq<WrapperView>,
)
    requires
        0 <= k < p.len(),
        p[k] == PartToken::BracketBlock(name),
        LogPart::spec_from_name(name) == Some(part),
        reduce(p.skip(k + 1), open) == Ok::<Seq<WrapperView>, ParsePartsToFormatterError>(rest),
    ensures
        reduce(p.skip(k), open) == Ok::<Seq<WrapperView>, ParsePartsToFormatterError>(
            seq![WrapperView { color: open, part }] + rest,
        ),
{
    assert(p.skip(k)[0] == p[k]);
    assert(p.skip(k).skip(1) =~= p.skip(k + 1));
}

proof fn lemma_reduce_tag(p: Seq<PartToken>, k: int, open: Option<LogColor>, color: LogColor)
    requires
        0 <= k < p.len(),
        p[k] == PartToken::Color(color.spec_name()),
        open is None || open == Some(color),
    ensures
        reduce(p.skip(k), open) == reduce(
            p.skip(k + 1),
            if open is None {
                Some(color)
            } else {
                None
            },
        ),
{
    lemma_color_name_round_trip(color);
    assert(p.skip(k)[0] == p[k]);
    assert(p.skip(k).skip(1) =~= p.skip(k + 1));
}

/// The default template compiles into its ten segments.
pub proof fn lemma_default_template_compiles()
    ensures
        compile(default_template()) == Ok::<Seq<WrapperView>, ParseStringToWrappersError>(
            default_segments(),
        ),
        segments_of(default_template()) == default_segments(),
{
    lemma_default_template_parts();
    lemma_placeholder_names_differ();
    let p = template_parts(default_template())->Ok_0;
    let green = Some(LogColor::Green);
    let w12: Seq<WrapperView> = Seq::empty();
    assert(p.skip(12) =~= Seq::<PartToken>::empty());
    assert(reduce(p.skip(12), None) == Ok::<Seq<WrapperView>, ParsePartsToFormatterError>(w12));
    lemma_reduce_placeholder(p, 11, None, "message"@, PartView::Message, w12);
    let w11 = seq![WrapperView { color: None, part: PartView::Message }] + w12;
    lemma_reduce_text(p, 10, None, seq![' ', '-', ' '], w11);
    let w10 = seq![WrapperView { color: None, part: PartView::Text(seq![' ', '-', ' ']) }] + w11;
    lemma_reduce_tag(p, 9, green, LogColor::Green);
    lemma_reduce_text(p, 8, green, seq![']'], w10);
    let w8 = seq![WrapperView { color: green, part: PartView::Text(seq![']']) }] + w10;
    lemma_reduce_placeholder(p, 7, green, "level"@, PartView::Level, w8);
    let w7 = seq![WrapperView { color: green, part: PartView::Level }] + w8;
    lemma_reduce_text(p, 6, green, seq!['['], w7);
    let w6 = seq![WrapperView { color: green, part: PartView::Text(seq!['[']) }] + w7;
    lemma_reduce_tag(p, 5, None, LogColor::Green);
    lemma_reduce_text(p, 4, None, seq![' '], w6);
    let w4 = seq![WrapperView { color: None, part: PartView::Text(seq![' ']) }] + w6;
    lemma_reduce_placeholder(p, 3, None, "line"@, PartView::Line, w4);
    let w3 = seq![WrapperView { color: None, part: PartView::Line }] + w4;
    lemma_reduce_text(p, 2, None, seq!['-'], w3);
    let w2 = seq![WrapperView { color: None, part: PartView::Text(seq!['-']) }] + w3;
    lemma_reduce_placeholder(p, 1, None, "file"@, PartView::File, w2);
    let w1 = seq![WrapperView { color: None, part: PartView::File }] + w2;
    lemma_reduce_text(p, 0, None, Seq::empty(), w1);
    let w0 = seq![WrapperView { color: None, part: PartView::Text(Seq::empty()) }] + w1;
    assert(p.skip(0) =~= p);
    assert(w0 =~= default_segments());
}


/// The parts that the units of a template hold, in their order: the runs
/// of text and the placeholders, without the color tags.
pub open spec fn contents(parts: Seq<PartToken>) -> Seq<PartView>
    decreases parts.len(),
{
    if parts.len() == 0 {
        Seq::empty()
    } else {
        let rest = contents(parts.skip(1));
        match parts[0] {
            PartToken::Text(text) => seq![PartView::Text(text)] + rest,
            PartToken::BracketBlock(name) => match LogPart::spec_from_name(name) {
                Some(part) => seq![part] + rest,
                None => rest,
            },
            _ => rest,
        }
    }
}

/// The segments keep the order of the template: their parts are the runs
/// of text and the placeholders of the units, one for one and in order.
pub proof fn lemma_reduce_keeps_order(parts: Seq<PartToken>, open: Option<LogColor>)
    ensures
        reduce(parts, open) is Ok ==> parts_only(reduce(parts, open)->Ok_0) == contents(parts),
    decreases parts.len(),
{
    if parts.len() > 0 && reduce(parts, open) is Ok {
        let rest = parts.skip(1);
        let out = reduce(parts, open)->Ok_0;
        match parts[0] {
            PartToken::End => {
                lemma_reduce_keeps_order(rest, open);
            },
            PartToken::Text(text) => {
                lemma_reduce_keeps_order(rest, open);
                let tail = reduce(rest, open)->Ok_0;
                assert(out == seq![WrapperView { color: open, part: PartView::Text(text) }] + tail);
                assert(parts_only(out) =~= seq![PartView::Text(text)] + parts_only(tail));
            },
            PartToken::Color(name) => {
                let color = LogColor::spec_from_name(name)->0;
                match open {
                    None => {
                        lemma_reduce_keeps_order(rest, Some(color));
                    },
                    Some(_) => {
                        lemma_reduce_keeps_order(rest, None);
                    },
                }
            },
            PartToken::BracketBlock(name) => {
                lemma_reduce_keeps_order(rest, open);
                let part = LogPart::spec_from_name(name)->0;
                let tail = reduce(rest, open)->Ok_0;
                assert(out == seq![WrapperView { color: open, part }] + tail);
                assert(parts_only(out) =~= seq![part] + parts_only(tail));
            },
        }
    } else if parts.len() == 0 && reduce(parts, open) is Ok {
        assert(parts_only(reduce(parts, open)->Ok_0) =~= Seq::<PartView>::empty());
    }
}

/// The characters that a symbol was scanned from.
pub open spec fn token_source(token: Token) -> Seq<char> {
    match token {
        Token::Text(text) => text,
        Token::AngleOpen => seq!['<'],
        Token::AngleClose => seq!['>'],
        Token::BracketOpen => seq!['{'],
        Token::BracketClose => seq!['}'],
        _ => Seq::empty(),
    }
}

/// The characters that a list of symbols was scanned from.
pub open spec fn tokens_source(tokens: Seq<Token>) -> Seq<char>
    decreases tokens.len(),
{
    if tokens.len() == 0 {
        Seq::empty()
    } else {
        token_source(tokens[0]) + tokens_source(tokens.skip(1))
    }
}

/// Whether a symbol is a run of text without a structural character, or
/// the symbol of a structural character.
pub open spec fn is_scanned_token(token: Token) -> bool {
    match token {
        Token::Text(text) => forall|j: int| 0 <= j < text.len() ==> !is_delimiter(#[trigger] text[j]),
        Token::Start => false,
        Token::Nested => false,
        _ => true,
    }
}

proof fn lemma_scan_from_lossless(s: Seq<char>, run_start: int, i: int)
    requires
        0 <= run_start <= i <= s.len(),
        forall|j: int| run_start <= j < i ==> !is_delimiter(s[j]),
    ensures
        tokens_source(scan_from(s, run_start, i)) == s.subrange(run_start, s.len() as int),
        forall|k: int|
            0 <= k < scan_from(s, run_start, i).len() ==> is_scanned_token(
                #[trigger] scan_from(s, run_start, i)[k],
            ),
    decreases s.len() - i,
{
    let tokens = scan_from(s, run_start, i);
    if i >= s.len() {
        if run_start < s.len() {
            assert(tokens.skip(1) =~= Seq::<Token>::empty());
            assert(tokens_source(tokens.skip(1)) =~= Seq::<char>::empty());
            assert(tokens_source(tokens) == token_source(tokens[0]) + tokens_source(
                tokens.skip(1),
            ));
            assert(tokens_source(tokens) =~= s.subrange(run_start, s.len() as int));
        } else {
            assert(s.subrange(run_start, s.len() as int) =~= Seq::<char>::empty());
        }
    } else if is_delimiter(s[i]) {
        lemma_scan_from_lossless(s, i + 1, i + 1);
        let rest = scan_from(s, i + 1, i + 1);
        let run = Token::Text(s.subrange(run_start, i));
        let mark = delimiter_token(s[i]);
        assert(tokens == seq![run, mark] + rest);
        assert(tokens.skip(1) =~= seq![mark] + rest);
        assert(tokens.skip(1).skip(1) =~= rest);
        assert(tokens.skip(1)[0] == mark);
        assert(token_source(mark) =~= seq![s[i]]);
        assert(tokens_source(tokens.skip(1)) == token_source(mark) + tokens_source(rest));
        assert(tokens_source(tokens) == token_source(run) + tokens_source(tokens.skip(1)));
        assert(tokens_source(tokens) =~= s.subrange(run_start, i) + seq![s[i]] + s.subrange(
            i + 1,
            s.len() as int,
        ));
        assert(tokens_source(tokens) =~= s.subrange(run_start, s.len() as int));
        assert forall|k: int| 0 <= k < tokens.len() implies is_scanned_token(
            #[trigger] tokens[k],
        ) by {
            if k >= 2 {
                assert(tokens[k] == rest[k - 2]);
            }
        }
    } else {
        lemma_scan_from_lossless(s, run_start, i + 1);
    }
}

/// Scanning loses nothing and splits at the structural characters only:
/// the symbols of a template, written one after the other, are the
/// template, and no run of text holds a structural character.
pub proof fn lemma_scan_lossless(s: Seq<char>)
    ensures
        tokens_source(scan(s)) == s,
        forall|k: int| 0 <= k < scan(s).len() ==> is_scanned_token(#[trigger] scan(s)[k]),
{
    lemma_scan_from_lossless(s, 0, 0);
    assert(s.subrange(0, s.len() as int) =~= s);
}

/// The template of error lines until another one is set.
pub open spec fn default_error_template() -> Seq<char> {
    "<red>[{level}]<red> <blue>({file} {line})<blue> - <red>{message}<red>"@
}

/// The segments of the default template of error lines.
pub open spec fn default_error_segments() -> Seq<WrapperView> {
    let red = Some(LogColor::Red);
    let blue = Some(LogColor::Blue);
    seq![
        WrapperView { color: None, part: PartView::Text(Seq::empty()) },
        WrapperView { color: red, part: PartView::Text(seq!['[']) },
        WrapperView { color: red, part: PartView::Level },
        WrapperView { color: red, part: PartView::Text(seq![']']) },
        WrapperView { color: None, part: PartView::Text(seq![' ']) },
        WrapperView { color: blue, part: PartView::Text(seq!['(']) },
        WrapperView { color: blue, part: PartView::File },
        WrapperView { color: blue, part: PartView::Text(seq![' ']) },
        WrapperView { color: blue, part: PartView::Line },
        WrapperView { color: blue, part: PartView::Text(seq![')']) },
        WrapperView { color: None, part: PartView::Text(seq![' ', '-', ' ']) },
        WrapperView { color: red, part: PartView::Text(Seq::empty()) },
        WrapperView { color: red, part: PartView::Message },
        WrapperView { color: red, part: PartView::Text(Seq::empty()) },
    ]
}

/// The units of the default template of error lines.
pub open spec fn default_error_parts() -> Seq<PartToken> {
    seq![
        PartToken::Text(Seq::empty()),
        PartToken::Color("red"@),
        PartToken::Text(seq!['[']),
        PartToken::BracketBlock("level"@),
        PartToken::Text(seq![']']),
        PartToken::Color("red"@),
        PartToken::Text(seq![' ']),
        PartToken::Color("blue"@),
        PartToken::Text(seq!['(']),
        PartToken::BracketBlock("file"@),
        PartToken::Text(seq![' ']),
        PartToken::BracketBlock("line"@),
        PartToken::Text(seq![')']),
        PartToken::Color("blue"@),
        PartToken::Text(seq![' ', '-', ' ']),
        PartToken::Color("red"@),
        PartToken::Text(Seq::empty()),
        PartToken::BracketBlock("message"@),
        PartToken::Text(Seq::empty()),
        PartToken::Color("red"@),
    ]
}

proof fn lemma_error_template_scan()
    ensures
        scan(default_error_template()) =~= seq![
            Token::Text(Seq::empty()),
            Token::AngleOpen,
            Token::Text("red"@),
            Token::AngleClose,
            Token::Text(seq!['[']),
            Token::BracketOpen,
            Token::Text("level"@),
            Token::BracketClose,
            Token::Text(seq![']']),
            Token::AngleOpen,
            Token::Text("red"@),
            Token::AngleClose,
            Token::Text(seq![' ']),
            Token::AngleOpen,
            Token::Text("blue"@),
            Token::AngleClose,
            Token::Text(seq!['(']),
            Token::BracketOpen,
            Token::Text("file"@),
            Token::BracketClose,
            Token::Text(seq![' ']),
            Token::BracketOpen,
            Token::Text("line"@),
            Token::BracketClose,
            Token::Text(seq![')']),
            Token::AngleOpen,
            Token::Text("blue"@),
            Token::AngleClose,
            Token::Text(seq![' ', '-', ' ']),
            Token::AngleOpen,
            Token::Text("red"@),
            Token::AngleClose,
            Token::Text(Seq::empty()),
            Token::BracketOpen,
            Token::Text("message"@),
            Token::BracketClose,
            Token::Text(Seq::empty()),
            Token::AngleOpen,
            Token::Text("red"@),
            Token::AngleClose,
        ],
{
    let s = default_error_template();
    reveal_strlit("<red>[{level}]<red> <blue>({file} {line})<blue> - <red>{message}<red>");
    reveal_strlit("file");
    reveal_strlit("line");
    reveal_strlit("red");
    reveal_strlit("blue");
    reveal_strlit("level");
    reveal_strlit("message");
    assert(s.len() == 69);
    reveal_with_fuel(scan_from, 8);
    assert(s.subrange(0, 0) =~= Seq::<char>::empty());
    assert(s.subrange(1, 4) =~= "red"@);
    assert(s.subrange(5, 6) =~= seq!['[']);
    assert(s.subrange(7, 12) =~= "level"@);
    assert(s.subrange(13, 14) =~= seq![']']);
    assert(s.subrange(15, 18) =~= "red"@);
    assert(s.subrange(19, 20) =~= seq![' ']);
    assert(s.subrange(21, 25) =~= "blue"@);
    assert(s.subrange(26, 27) =~= seq!['(']);
    assert(s.subrange(28, 32) =~= "file"@);
    assert(s.subrange(33, 34) =~= seq![' ']);
    assert(s.subrange(35, 39) =~= "line"@);
    assert(s.subrange(40, 41) =~= seq![')']);
    assert(s.subrange(42, 46) =~= "blue"@);
    assert(s.subrange(47, 50) =~= seq![' ', '-', ' ']);
    assert(s.subrange(51, 54) =~= "red"@);
    assert(s.subrange(55, 55) =~= Seq::<char>::empty());
    assert(s.subrange(56, 63) =~= "message"@);
    assert(s.subrange(64, 64) =~= Seq::<char>::empty());
    assert(s.subrange(65, 68) =~= "red"@);
    let t20 = scan_from(s, 69, 69);
    assert(t20 =~= Seq::<Token>::empty());
    let t19 = scan_from(s, 65, 65);
    assert(t19 == seq![Token::Text(s.subrange(65, 68)), Token::AngleClose] + t20);
    let t18 = scan_from(s, 64, 64);
    assert(t18 == seq![Token::Text(s.subrange(64, 64)), Token::AngleOpen] + t19);
    let t17 = scan_from(s, 56, 56);
    assert(t17 == seq![Token::Text(s.subrange(56, 63)), Token::BracketClose] + t18);
    let t16 = scan_from(s, 55, 55);
    assert(t16 == seq![Token::Text(s.subrange(55, 55)), Token::BracketOpen] + t17);
    let t15 = scan_from(s, 51, 51);
    assert(t15 == seq![Token::Text(s.subrange(51, 54)), Token::AngleClose] + t16);
    let t14 = scan_from(s, 47, 47);
    assert(t14 == seq![Token::Text(s.subrange(47, 50)), Token::AngleOpen] + t15);
    let t13 = scan_from(s, 42, 42);
    assert(t13 == seq![Token::Text(s.subrange(42, 46)), Token::AngleClose] + t14);
    let t12 = scan_from(s, 40, 40);
    assert(t12 == seq![Token::Text(s.subrange(40, 41)), Token::AngleOpen] + t13);
    let t11 = scan_from(s, 35, 35);
    assert(t11 == seq![Token::Text(s.subrange(35, 39)), Token::BracketClose] + t12);
    let t10 = scan_from(s, 33, 33);
    assert(t10 == seq![Token::Text(s.subrange(33, 34)), Token::BracketOpen] + t11);
    let t9 = scan_from(s, 28, 28);
    assert(t9 == seq![Token::Text(s.subrange(28, 32)), Token::BracketClose] + t10);
    let t8 = scan_from(s, 26, 26);
    assert(t8 == seq![Token::Text(s.subrange(26, 27)), Token::BracketOpen] + t9);
    let t7 = scan_from(s, 21, 21);
    assert(t7 == seq![Token::Text(s.subrange(21, 25)), Token::AngleClose] + t8);
    let t6 = scan_from(s, 19, 19);
    assert(t6 == seq![Token::Text(s.subrange(19, 20)), Token::AngleOpen] + t7);
    let t5 = scan_from(s, 15, 15);
    assert(t5 == seq![Token::Text(s.subrange(15, 18)), Token::AngleClose] + t6);
    let t4 = scan_from(s, 13, 13);
    assert(t4 == seq![Token::Text(s.subrange(13, 14)), Token::AngleOpen] + t5);
    let t3 = scan_from(s, 7, 7);
    assert(t3 == seq![Token::Text(s.subrange(7, 12)), Token::BracketClose] + t4);
    let t2 = scan_from(s, 5, 5);
    assert(t2 == seq![Token::Text(s.subrange(5, 6)), Token::BracketOpen] + t3);
    let t1 = scan_from(s, 1, 1);
    assert(t1 == seq![Token::Text(s.subrange(1, 4)), Token::AngleClose] + t2);
    let t0 = scan_from(s, 0, 0);
    assert(t0 == seq![Token::Text(s.subrange(0, 0)), Token::AngleOpen] + t1);
}

proof fn lemma_error_template_parts()
    ensures
        template_parts(default_error_template()) == Ok::<Seq<PartToken>, ParseSymbToPartsError>(
            default_error_parts(),
        ),
{
    lemma_error_template_scan();
    let t = seq![Token::Start] + scan(default_error_template());
    assert(t.len() == 41);
    let none: Seq<char> = Seq::empty();
    let p10: Seq<PartToken> = Seq::empty();
    assert(t.skip(41) =~= Seq::<Token>::empty());
    assert(group(t.skip(41)) == Ok::<Seq<PartToken>, ParseSymbToPartsError>(p10));
    lemma_group_run_color(t, 37, none, "red"@, p10);
    let p9 = seq![PartToken::Text(none), PartToken::Color("red"@)] + p10;
    lemma_group_run_placeholder(t, 33, none, "message"@, p9);
    let p8 = seq![PartToken::Text(none), PartToken::BracketBlock("message"@)] + p9;
    lemma_group_run_color(t, 29, seq![' ', '-', ' '], "red"@, p8);
    let p7 = seq![PartToken::Text(seq![' ', '-', ' ']), PartToken::Color("red"@)] + p8;
    lemma_group_run_color(t, 25, seq![')'], "blue"@, p7);
    let p6 = seq![PartToken::Text(seq![')']), PartToken::Color("blue"@)] + p7;
    lemma_group_run_placeholder(t, 21, seq![' '], "line"@, p6);
    let p5 = seq![PartToken::Text(seq![' ']), PartToken::BracketBlock("line"@)] + p6;
    lemma_group_run_placeholder(t, 17, seq!['('], "file"@, p5);
    let p4 = seq![PartToken::Text(seq!['(']), PartToken::BracketBlock("file"@)] + p5;
    lemma_group_run_color(t, 13, seq![' '], "blue"@, p4);
    let p3 = seq![PartToken::Text(seq![' ']), PartToken::Color("blue"@)] + p4;
    lemma_group_run_color(t, 9, seq![']'], "red"@, p3);
    let p2 = seq![PartToken::Text(seq![']']), PartToken::Color("red"@)] + p3;
    lemma_group_run_placeholder(t, 5, seq!['['], "level"@, p2);
    let p1 = seq![PartToken::Text(seq!['[']), PartToken::BracketBlock("level"@)] + p2;
    lemma_group_run_color(t, 1, none, "red"@, p1);
    let p0 = seq![PartToken::Text(none), PartToken::Color("red"@)] + p1;
    assert(t.skip(0) =~= t);
    assert(t[0] == Token::Start);
    assert(t.skip(0).skip(1) =~= t.skip(1));
    assert(group(t) == Ok::<Seq<PartToken>, ParseSymbToPartsError>(p0));
    lemma_placeholder_names_differ();
    lemma_color_name_round_trip(LogColor::Red);
    lemma_color_name_round_trip(LogColor::Blue);
    assert(p0 =~= default_error_parts());
    assert(all_known(default_error_parts()));
}

/// The default template of error lines compiles into its fourteen segments.
pub proof fn lemma_error_template_compiles()
    ensures
        compile(default_error_template()) == Ok::<Seq<WrapperView>, ParseStringToWrappersError>(
            default_error_segments(),
        ),
        segments_of(default_error_template()) == default_error_segments(),
{
    lemma_error_template_parts();
    lemma_placeholder_names_differ();
    let p = default_error_parts();
    let red = Some(LogColor::Red);
    let blue = Some(LogColor::Blue);
    let none: Seq<char> = Seq::empty();
    let w20: Seq<WrapperView> = Seq::empty();
    assert(p.skip(20) =~= Seq::<PartToken>::empty());
    assert(reduce(p.skip(20), None) == Ok::<Seq<WrapperView>, ParsePartsToFormatterError>(w20));
    lemma_reduce_tag(p, 19, red, LogColor::Red);
    lemma_reduce_text(p, 18, red, none, w20);
    let w18 = seq![WrapperView { color: red, part: PartView::Text(none) }] + w20;
    lemma_reduce_placeholder(p, 17, red, "message"@, PartView::Message, w18);
    let w17 = seq![WrapperView { color: red, part: PartView::Message }] + w18;
    lemma_reduce_text(p, 16, red, none, w17);
    let w16 = seq![WrapperView { color: red, part: PartView::Text(none) }] + w17;
    lemma_reduce_tag(p, 15, None, LogColor::Red);
    lemma_reduce_text(p, 14, None, seq![' ', '-', ' '], w16);
    let w14 = seq![WrapperView { color: None, part: PartView::Text(seq![' ', '-', ' ']) }] + w16;
    lemma_reduce_tag(p, 13, blue, LogColor::Blue);
    lemma_reduce_text(p, 12, blue, seq![')'], w14);
    let w12 = seq![WrapperView { color: blue, part: PartView::Text(seq![')']) }] + w14;
    lemma_reduce_placeholder(p, 11, blue, "line"@, PartView::Line, w12);
    let w11 = seq![WrapperView { color: blue, part: PartView::Line }] + w12;
    lemma_reduce_text(p, 10, blue, seq![' '], w11);
    let w10 = seq![WrapperView { color: blue, part: PartView::Text(seq![' ']) }] + w11;
    lemma_reduce_placeholder(p, 9, blue, "file"@, PartView::File, w10);
    let w9 = seq![WrapperView { color: blue, part: PartView::File }] + w10;
    lemma_reduce_text(p, 8, blue, seq!['('], w9);
    let w8 = seq![WrapperView { color: blue, part: PartView::Text(seq!['(']) }] + w9;
    lemma_reduce_tag(p, 7, None, LogColor::Blue);
    lemma_reduce_text(p, 6, None, seq![' '], w8);
    let w6 = seq![WrapperView { color: None, part: PartView::Text(seq![' ']) }] + w8;
    lemma_reduce_tag(p, 5, red, LogColor::Red);
    lemma_reduce_text(p, 4, red, seq![']'], w6);
    let w4 = seq![WrapperView { color: red, part: PartView::Text(seq![']']) }] + w6;
    lemma_reduce_placeholder(p, 3, red, "level"@, PartView::Level, w4);
    let w3 = seq![WrapperView { color: red, part: PartView::Level }] + w4;
    lemma_reduce_text(p, 2, red, seq!['['], w3);
    let w2 = seq![WrapperView { color: red, part: PartView::Text(seq!['[']) }] + w3;
    lemma_reduce_tag(p, 1, None, LogColor::Red);
    lemma_reduce_text(p, 0, None, none, w2);
    let w0 = seq![WrapperView { color: None, part: PartView::Text(none) }] + w2;
    assert(p.skip(0) =~= p);
    assert(w0 =~= default_error_segments());
}

} // verus!
