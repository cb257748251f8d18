//! Conversions between strings, sequences of characters and numbers.

use vstd::prelude::*;
use vstd::std_specs::iter::IteratorSpec;

verus! {

/// `String::push` appends one character to the end of the string.
pub assume_specification[ String::push ](s: &mut String, c: char)
    ensures
        final(s)@ == old(s)@.push(c),
;

/// The characters of `s`, in order.
pub fn to_chars(s: &str) -> (out: Vec<char>)
    ensures
        out@ == s@,
{
    let mut out: Vec<char> = Vec::new();
    for c in it: s.chars()
        invariant
            out@ =~= it.history(),
            it.seq() == s@,
    {
        out.push(c);
    }
    out
}

/// The string made of the characters `chars[from..to]`.
pub fn from_chars(chars: &Vec<char>, from: usize, to: usize) -> (out: String)
    requires
        from <= to <= chars@.len(),
    ensures
        out@ == chars@.subrange(from as int, to as int),
{
    let mut out = String::new();
    let mut i: usize = from;
    while i < to
        invariant
            from <= i <= to <= chars@.len(),
            out@ =~= chars@.subrange(from as int, i as int),
        decreases to - i,
    {
        out.push(chars[i]);
        i += 1;
    }
    out
}

/// Whether two sequences of characters are the same.
pub fn chars_eq(a: &Vec<char>, b: &Vec<char>) -> (same: bool)
    ensures
        same == (a@ == b@),
{
    if a.len() != b.len() {
        return false;
    }
    let mut i: usize = 0;
    while i < a.len()
        invariant
            a@.len() == b@.len(),
            i <= a@.len(),
            a@.take(i as int) =~= b@.take(i as int),
        decreases a@.len() - i,
    {
        if a[i] != b[i] {
            return false;
        }
        assert(a@.take(i + 1) =~= a@.take(i as int).push(a@[i as int]));
        assert(b@.take(i + 1) =~= b@.take(i as int).push(b@[i as int]));
        i += 1;
    }
    assert(a@ =~= a@.take(a@.len() as int));
    assert(b@ =~= b@.take(b@.len() as int));
    true
}

/// Whether two strings hold the same characters.
pub fn str_eq(a: &str, b: &str) -> (same: bool)
    ensures
        same == (a@ == b@),
{
    let x = to_chars(a);
    let y = to_chars(b);
    chars_eq(&x, &y)
}

/// Whether `c` occurs in `chars`.
pub fn contains_char(chars: &Vec<char>, c: char) -> (found: bool)
    ensures
        found == chars@.contains(c),
{
    let mut i: usize = 0;
    while i < chars.len()
        invariant
            i <= chars@.len(),
            forall|j: int| 0 <= j < i ==> chars@[j] != c,
        decreases chars@.len() - i,
    {
        if chars[i] == c {
            return true;
        }
        i += 1;
    }
    false
}

/// The place of the last `c` in `s`, or -1 where `s` holds none.
pub open spec fn last_index_of(s: Seq<char>, c: char) -> int
    decreases s.len(),
{
    if s.len() == 0 {
        -1
    } else if s.last() == c {
        s.len() - 1
    } else {
        last_index_of(s.drop_last(), c)
    }
}

/// The last `c` stands where `last_index_of` says, and none stands after it.
pub proof fn lemma_last_index_of(s: Seq<char>, c: char)
    ensures
        -1 <= last_index_of(s, c) < s.len(),
        last_index_of(s, c) >= 0 ==> s[last_index_of(s, c)] == c,
        forall|j: int| last_index_of(s, c) < j < s.len() ==> s[j] != c,
        last_index_of(s, c) >= 0 <==> s.contains(c),
    decreases s.len(),
{
    if s.len() > 0 && s.last() != c {
        lemma_last_index_of(s.drop_last(), c);
        let k = last_index_of(s.drop_last(), c);
        if k >= 0 {
            assert(s[k] == c);
        }
        if s.contains(c) {
            let j = choose|j: int| 0 <= j < s.len() && s[j] == c;
            assert(s.drop_last()[j] == c);
        }
        assert forall|j: int| last_index_of(s, c) < j < s.len() implies s[j] != c by {
            if j < s.len() - 1 {
                assert(s.drop_last()[j] == s[j]);
            }
        }
    }
}

/// The place of the last `c` in `chars`, if `chars` holds one.
pub fn find_last(chars: &Vec<char>, c: char) -> (place: Option<usize>)
    ensures
        match place {
            Some(k) => k as int == last_index_of(chars@, c),
            None => last_index_of(chars@, c) == -1,
        },
{
    let mut i: usize = chars.len();
    assert(chars@.take(i as int) =~= chars@);
    while i > 0
        invariant
            i <= chars@.len(),
            last_index_of(chars@, c) == last_index_of(chars@.take(i as int), c),
        decreases i,
    {
        assert(chars@.take(i as int).last() == chars@[i - 1]);
        assert(chars@.take(i as int).drop_last() =~= chars@.take(i - 1));
        if chars[i - 1] == c {
            return Some(i - 1);
        }
        i -= 1;
    }
    None
}

/// The decimal digit that stands for `d`.
pub open spec fn digit_char(d: nat) -> char {
    if d == 0 {
        '0'
    } else if d == 1 {
        '1'
    } else if d == 2 {
        '2'
    } else if d == 3 {
        '3'
    } else if d == 4 {
        '4'
    } else if d == 5 {
        '5'
    } else if d == 6 {
        '6'
    } else if d == 7 {
        '7'
    } else if d == 8 {
        '8'
    } else {
        '9'
    }
}

/// The decimal numeral of `n`: no sign, no leading zero except for zero itself.
pub open spec fn decimal(n: nat) -> Seq<char>
    decreases n,
{
    if n < 10 {
        seq![digit_char(n)]
    } else {
        decimal(n / 10).push(digit_char(n % 10))
    }
}

/// The decimal numeral of an integer, with a leading `-` when it is negative.
pub open spec fn signed_decimal(n: int) -> Seq<char> {
    if n < 0 {
        seq!['-'] + decimal((-n) as nat)
    } else {
        decimal(n as nat)
    }
}

fn digit(d: u64) -> (c: char)
    requires
        d < 10,
    ensures
        c == digit_char(d as nat),
{
    if d == 0 {
        '0'
    } else if d == 1 {
        '1'
    } else if d == 2 {
        '2'
    } else if d == 3 {
        '3'
    } else if d == 4 {
        '4'
    } else if d == 5 {
        '5'
    } else if d == 6 {
        '6'
    } else if d == 7 {
        '7'
    } else if d == 8 {
        '8'
    } else {
        '9'
    }
}

/// Appends the decimal numeral of `n` to `out`.
pub fn push_decimal(out: &mut String, n: u64)
    ensures
        final(out)@ == old(out)@ + decimal(n as nat),
    decreases n,
{
    if n < 10 {
        out.push(digit(n));
        assert(old(out)@.push(digit_char(n as nat)) =~= old(out)@ + decimal(n as nat));
    } else {
        push_decimal(out, n / 10);
        out.push(digit(n % 10));
        assert((old(out)@ + decimal((n / 10) as nat)).push(digit_char((n % 10) as nat)) =~= old(
            out,
        )@ + decimal(n as nat));
    }
}

/// Appends the decimal numeral of `n`, signed when negative, to `out`.
pub fn push_signed_decimal(out: &mut String, n: i64)
    ensures
        final(out)@ == old(out)@ + signed_decimal(n as int),
{
    if n < 0 {
        out.push('-');
        let m: u64 = if n == i64::MIN {
            9223372036854775808u64
        } else {
            (-n) as u64
        };
        push_decimal(out, m);
        assert(old(out)@.push('-') + decimal(m as nat) =~= old(out)@ + signed_decimal(n as int));
    } else {
        push_decimal(out, n as u64);
    }
}


/// Whether `s` ends in `suffix`.
pub open spec fn spec_ends_with(s: Seq<char>, suffix: Seq<char>) -> bool {
    s.len() >= suffix.len() && s.subrange(s.len() - suffix.len(), s.len() as int) == suffix
}

/// Whether `chars` ends in `suffix`.
pub fn ends_with(chars: &Vec<char>, suffix: &Vec<char>) -> (found: bool)
    ensures
        found == spec_ends_with(chars@, suffix@),
{
    if chars.len() < suffix.len() {
        return false;
    }
    let start: usize = chars.len() - suffix.len();
    let ghost tail = chars@.subrange(start as int, chars@.len() as int);
    let mut i: usize = 0;
    while i < suffix.len()
        invariant
            i <= suffix@.len(),
            start + suffix@.len() == chars@.len(),
            chars@.len() <= usize::MAX,
            tail == chars@.subrange(start as int, chars@.len() as int),
            forall|j: int| 0 <= j < i ==> tail[j] == suffix@[j],
        decreases suffix@.len() - i,
    {
        if chars[start + i] != suffix[i] {
            assert(tail[i as int] != suffix@[i as int]);
            return false;
        }
        i += 1;
    }
    assert(tail =~= suffix@);
    true
}

/// Whether `c` is one of the ten decimal digits.
pub open spec fn is_digit(c: char) -> bool {
    '0' <= c <= '9'
}

/// The number that the digit `c` stands for.
pub open spec fn digit_value(c: char) -> nat {
    (c as u32 - '0' as u32) as nat
}

/// Whether `s` holds decimal digits only.
pub open spec fn all_digits(s: Seq<char>) -> bool {
    forall|i: int| 0 <= i < s.len() ==> is_digit(#[trigger] s[i])
}

/// The number that the decimal digits `s` stand for.
pub open spec fn digits_value(s: Seq<char>) -> nat
    decreases s.len(),
{
    if s.len() == 0 {
        0
    } else {
        digits_value(s.drop_last()) * 10 + digit_value(s.last())
    }
}

/// The number that `s` is the decimal numeral of, where it is one and the
/// number is at most `max`: one or more decimal digits, with or without a
/// `+` in front, and nothing else.
pub open spec fn parse_unsigned(s: Seq<char>, max: nat) -> Option<nat> {
    let digits = if s.len() > 0 && s[0] == '+' {
        s.skip(1)
    } else {
        s
    };
    if digits.len() > 0 && all_digits(digits) && digits_value(digits) <= max {
        Some(digits_value(digits))
    } else {
        None
    }
}

/// A numeral stands for at least as much as each of its beginnings.
pub proof fn lemma_digits_value_grows(s: Seq<char>, k: int)
    requires
        0 <= k <= s.len(),
    ensures
        digits_value(s.take(k)) <= digits_value(s),
    decreases s.len() - k,
{
    if k < s.len() {
        lemma_digits_value_grows(s, k + 1);
        assert(s.take(k + 1).drop_last() =~= s.take(k));
    } else {
        assert(s.take(k) =~= s);
    }
}

/// Reads `chars[from..to]` as a decimal numeral of a number up to `max`.
#[verifier::loop_isolation(false)]
pub fn parse_number(chars: &Vec<char>, from: usize, to: usize, max: u64) -> (value: Option<u64>)
    requires
        from <= to <= chars@.len(),
    ensures
        match value {
            Some(n) => parse_unsigned(chars@.subrange(from as int, to as int), max as nat) == Some(
                n as nat,
            ),
            None => parse_unsigned(chars@.subrange(from as int, to as int), max as nat) is None,
        },
{
    let ghost text = chars@.subrange(from as int, to as int);
    let start: usize = if from < to && chars[from] == '+' {
        from + 1
    } else {
        from
    };
    let ghost digits = chars@.subrange(start as int, to as int);
    assert(digits =~= if text.len() > 0 && text[0] == '+' {
        text.skip(1)
    } else {
        text
    });
    if start == to {
        return None;
    }
    let mut acc: u64 = 0;
    let mut i: usize = start;
    assert(digits.take(0) =~= Seq::<char>::empty());
    while i < to
        invariant
            start <= i <= to <= chars@.len(),
            digits == chars@.subrange(start as int, to as int),
            all_digits(digits.take(i - start)),
            acc as nat == digits_value(digits.take(i - start)),
            acc <= max,
        decreases to - i,
    {
        let c = chars[i];
        let ghost upto = digits.take(i - start + 1);
        assert(upto.drop_last() =~= digits.take(i - start));
        assert(upto.last() == c);
        if c < '0' || c > '9' {
            assert(!is_digit(digits[i - start]));
            return None;
        }
        let d: u64 = (c as u32 - '0' as u32) as u64;
        assert(d as nat == digit_value(c));
        assert(all_digits(upto)) by {
            assert forall|j: int| 0 <= j < upto.len() implies is_digit(#[trigger] upto[j]) by {
                if j < upto.len() - 1 {
                    assert(upto[j] == digits.take(i - start)[j]);
                }
            }
        }
        if d > max {
            proof {
                assert(digits_value(upto) > max);
                lemma_digits_value_grows(digits, i - start + 1);
            }
            return None;
        }
        if acc > (max - d) / 10 {
            proof {
                assert(acc * 10 + d > max) by (nonlinear_arith)
                    requires
                        acc > (max - d) / 10,
                        d <= max,
                {}
                assert(digits_value(upto) > max);
                lemma_digits_value_grows(digits, i - start + 1);
            }
            return None;
        }
        assert(acc * 10 + d <= max) by (nonlinear_arith)
            requires
                acc <= (max - d) / 10,
                d <= max,
        {}
        acc = acc * 10 + d;
        i += 1;
    }
    assert(digits.take(to - start) =~= digits);
    Some(acc)
}


/// Whether `c` is white space: a blank, a tab, a line break or one of the
/// other characters that Unicode counts as white space.
pub open spec fn spec_is_whitespace(c: char) -> bool {
    ('\u{9}' <= c <= '\u{d}') || c == ' ' || c == '\u{85}' || c == '\u{a0}' || c == '\u{1680}' || (
    '\u{2000}' <= c <= '\u{200a}') || c == '\u{2028}' || c == '\u{2029}' || c == '\u{202f}' || c
        == '\u{205f}' || c == '\u{3000}'
}

/// Whether `c` is white space.
pub fn is_whitespace(c: char) -> (white: bool)
    ensures
        white == spec_is_whitespace(c),
{
    (c >= '\u{9}' && c <= '\u{d}') || c == ' ' || c == '\u{85}' || c == '\u{a0}' || c == '\u{1680}'
        || (c >= '\u{2000}' && c <= '\u{200a}') || c == '\u{2028}' || c == '\u{2029}' || c
        == '\u{202f}' || c == '\u{205f}' || c == '\u{3000}'
}

/// The place of the first character of `s[from..to]` that is no white
/// space, or `to` where there is none.
pub open spec fn skip_whitespace(s: Seq<char>, from: int, to: int) -> int
    decreases to - from,
{
    if from < to && spec_is_whitespace(s[from]) {
        skip_whitespace(s, from + 1, to)
    } else {
        from
    }
}

/// The place after the last character of `s[from..to]` that is no white
/// space, or `from` where there is none.
pub open spec fn drop_whitespace(s: Seq<char>, from: int, to: int) -> int
    decreases to - from,
{
    if from < to && spec_is_whitespace(s[to - 1]) {
        drop_whitespace(s, from, to - 1)
    } else {
        to
    }
}

/// `s[from..to]` without the white space at its two ends.
pub open spec fn trimmed(s: Seq<char>, from: int, to: int) -> Seq<char> {
    let first = skip_whitespace(s, from, to);
    s.subrange(first, drop_whitespace(s, first, to))
}

/// `chars[from..to]` without the white space at its two ends.
pub fn trim_range(chars: &Vec<char>, from: usize, to: usize) -> (out: String)
    requires
        from <= to <= chars@.len(),
    ensures
        out@ == trimmed(chars@, from as int, to as int),
{
    let mut first: usize = from;
    while first < to && is_whitespace(chars[first])
        invariant
            from <= first <= to <= chars@.len(),
            skip_whitespace(chars@, from as int, to as int) == skip_whitespace(
                chars@,
                first as int,
                to as int,
            ),
        decreases to - first,
    {
        first += 1;
    }
    let mut last: usize = to;
    while first < last && is_whitespace(chars[last - 1])
        invariant
            first <= last <= to <= chars@.len(),
            drop_whitespace(chars@, first as int, to as int) == drop_whitespace(
                chars@,
                first as int,
                last as int,
            ),
        decreases last - first,
    {
        last -= 1;
    }
    from_chars(chars, first, last)
}

/// The pieces of `s[start..]` between its commas, each without the white
/// space at its two ends, where `s[start..i]` holds no comma.
pub open spec fn pieces_from(s: Seq<char>, start: int, i: int) -> Seq<Seq<char>>
    decreases s.len() - i,
{
    if i >= s.len() {
        seq![trimmed(s, start, s.len() as int)]
    } else if s[i] == ',' {
        seq![trimmed(s, start, i)] + pieces_from(s, i + 1, i + 1)
    } else {
        pieces_from(s, start, i + 1)
    }
}

/// The items of a list written in one text: the text itself where it holds
/// no comma, else the pieces between the commas without the white space at
/// their ends.
pub open spec fn comma_list(s: Seq<char>) -> Seq<Seq<char>> {
    if s.contains(',') {
        pieces_from(s, 0, 0)
    } else {
        seq![s]
    }
}

/// What a list of texts stands for.
pub open spec fn strings_view(texts: Seq<String>) -> Seq<Seq<char>> {
    Seq::new(texts.len(), |i: int| texts[i]@)
}

/// Splits a list written in one text into its items.
pub fn split_comma_list(text: &str) -> (items: Vec<String>)
    ensures
        strings_view(items@) == comma_list(text@),
{
    let chars = to_chars(text);
    let mut items: Vec<String> = Vec::new();
    if !contains_char(&chars, ',') {
        items.push(String::from_str(text));
        assert(strings_view(items@) =~= seq![text@]);
        return items;
    }
    let mut start: usize = 0;
    let mut i: usize = 0;
    assert(strings_view(items@) =~= Seq::<Seq<char>>::empty());
    while i < chars.len()
        invariant
            start <= i <= chars@.len(),
            strings_view(items@) + pieces_from(chars@, start as int, i as int) == pieces_from(
                chars@,
                0,
                0,
            ),
        decreases chars@.len() - i,
    {
        if chars[i] == ',' {
            let ghost before = strings_view(items@);
            let piece = trim_range(&chars, start, i);
            items.push(piece);
            assert(strings_view(items@) =~= before + seq![trimmed(
                chars@,
                start as int,
                i as int,
            )]);
            assert(strings_view(items@) + pieces_from(chars@, i + 1, i + 1) =~= before
                + pieces_from(chars@, start as int, i as int));
            start = i + 1;
        }
        i += 1;
    }
    let ghost before = strings_view(items@);
    let piece = trim_range(&chars, start, chars.len());
    items.push(piece);
    assert(strings_view(items@) =~= before + pieces_from(chars@, start as int, i as int));
    items
}

} // verus!
