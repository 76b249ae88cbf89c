//! The lexical grammar, as spec functions over the source characters.
use crate::token::element::{
    CommentKind, DecimalLiteral, Lexeme, LineTerminator, NumericLiteral, StringLiteralKind,
};
use crate::token::keyword::{all_keywords, keyword_chars, Keyword};
use crate::token::location::{spec_next_column, spec_next_line, SourcePosition};
use crate::token::punctuator::{punctuator_chars, punctuators_in_lexical_order, Punctuator};
use crate::token::symbol::{
    spec_into_escaped, spec_is_ascii_digit, spec_is_identifier_part, spec_is_identifier_start,
    spec_is_line_terminator, spec_is_whitespace, CR, LF, LS, PS,
};
use vstd::prelude::*;

verus! {

/// The ways in which lexing can fail.
#[derive(Copy, Clone, Debug, PartialEq, Eq, Structural)]
pub enum ErrorKind {
    DigitFollowingNumericLiteral,
    IdentifierFollowingNumericLiteral,
    UnclosedComment,
    /// No lexical element starts with this character.
    InvalidCharacter,
}

/// What the lexer finds at an index of the source.
pub enum LexOutcome {
    /// The source has no characters left.
    End,
    /// An element, and the index just after its last character.
    Element(Lexeme, int),
    /// A failure, and the index at which it is reported (and where lexing stops).
    Failure(ErrorKind, int),
}

/// The character at `i`, if there is one.
pub open spec fn char_at(s: Seq<char>, i: int) -> Option<char> {
    if 0 <= i < s.len() {
        Some(s[i])
    } else {
        None
    }
}

/// `t` occurs in `s` at index `i`.
pub open spec fn matches_at(s: Seq<char>, i: int, t: Seq<char>) -> bool {
    0 <= i && i + t.len() <= s.len() && s.subrange(i, i + t.len()) == t
}

/// The end of the longest run of characters satisfying `p` which starts at `i`.
pub open spec fn run_end(s: Seq<char>, i: int, p: spec_fn(char) -> bool) -> int
    decreases s.len() - i,
{
    if 0 <= i < s.len() && p(s[i]) {
        run_end(s, i + 1, p)
    } else {
        i
    }
}

pub open spec fn not_line_terminator() -> spec_fn(char) -> bool {
    |c: char| !spec_is_line_terminator(c)
}

pub open spec fn whitespace_class() -> spec_fn(char) -> bool {
    |c: char| spec_is_whitespace(c)
}

pub open spec fn identifier_part_class() -> spec_fn(char) -> bool {
    |c: char| spec_is_identifier_part(c)
}

pub open spec fn identifier_start_class() -> spec_fn(char) -> bool {
    |c: char| spec_is_identifier_start(c)
}

pub open spec fn digit_class(radix: u32) -> spec_fn(char) -> bool {
    |c: char| is_radix_digit(c, radix)
}

// ---------------------------------------------------------------------------
// Source positions

/// The position of the character at index `n`, when the source starts at `start`. A line feed
/// which directly follows a carriage return does not start another line.
pub open spec fn position_after(start: SourcePosition, s: Seq<char>, n: int) -> SourcePosition
    decreases n,
{
    if n <= 0 || n > s.len() {
        start
    } else {
        let prev = position_after(start, s, n - 1);
        let ch = s[n - 1];
        if ch == LF && n >= 2 && s[n - 2] == CR {
            prev
        } else if spec_is_line_terminator(ch) {
            spec_next_line(prev)
        } else {
            spec_next_column(prev)
        }
    }
}

// ---------------------------------------------------------------------------
// Numbers

pub open spec fn is_radix_digit(ch: char, radix: u32) -> bool {
    if radix == 16 {
        ('0' <= ch && ch <= '9') || ('a' <= ch && ch <= 'f') || ('A' <= ch && ch <= 'F')
    } else {
        '0' <= ch && (ch as u32) < ('0' as u32) + radix
    }
}

pub open spec fn digit_value(ch: char) -> nat {
    if '0' <= ch && ch <= '9' {
        (ch as u32 - '0' as u32) as nat
    } else if 'a' <= ch && ch <= 'f' {
        (ch as u32 - 'a' as u32 + 10) as nat
    } else {
        (ch as u32 - 'A' as u32 + 10) as nat
    }
}

/// Digit values are the standard ones of base 16: the digits `0` to `9` are worth less than
/// ten and the letters `a` to `f` ten to fifteen, each run rising one by one in order; a
/// capital letter is worth what its small letter is. Together these fix every value: `f`
/// and `F` are worth 15, so `0xff` and `0xFF` are both 255.
pub proof fn lemma_digit_values(c: char, d: char)
    ensures
        '0' <= c && c <= '9' ==> digit_value(c) < 10,
        'a' <= c && c <= 'f' ==> 10 <= digit_value(c) < 16 && digit_value(c) == digit_value(
            (c as u32 - 32) as char,
        ),
        'A' <= c && c <= 'F' ==> 10 <= digit_value(c) < 16,
        '0' <= c && c < d && d <= '9' ==> digit_value(d) - digit_value(c) == d as u32 - c as u32,
        'a' <= c && c < d && d <= 'f' ==> digit_value(d) - digit_value(c) == d as u32 - c as u32,
        'A' <= c && c < d && d <= 'F' ==> digit_value(d) - digit_value(c) == d as u32 - c as u32,
{
}

/// The value of the digits `s[i..j]`, most significant first.
pub open spec fn digits_value(s: Seq<char>, i: int, j: int, radix: u32) -> nat
    decreases j - i,
{
    if j <= i {
        0
    } else {
        digits_value(s, i, j - 1, radix) * (radix as nat) + digit_value(s[j - 1])
    }
}

/// Digits are read most significant first: the first of them counts `radix` to the power of
/// how many follow it, and the rest are read the same way after it. So in base 16 `ff` is
/// worth 15 * 16 + 15.
pub proof fn lemma_digits_most_significant_first(s: Seq<char>, i: int, j: int, radix: u32)
    requires
        i < j,
    ensures
        digits_value(s, i, j, radix) == digit_value(s[i]) * vstd::arithmetic::power::pow(radix as int, (j - i - 1) as nat)
            + digits_value(s, i + 1, j, radix),
    decreases j - i,
{
    vstd::arithmetic::power::lemma_pow0(radix as int);
    if j > i + 1 {
        lemma_digits_most_significant_first(s, i, j - 1, radix);
        let p = vstd::arithmetic::power::pow(radix as int, (j - i - 2) as nat);
        vstd::arithmetic::power::lemma_pow_adds(radix as int, (j - i - 2) as nat, 1);
        vstd::arithmetic::power::lemma_pow1(radix as int);
        let d = digit_value(s[i]) as int;
        let rest = digits_value(s, i + 1, j - 1, radix) as int;
        let r = radix as int;
        assert((d * p + rest) * r == d * (p * r) + rest * r) by (nonlinear_arith);
        assert(digits_value(s, i, j, radix) == digits_value(s, i, j - 1, radix) * (radix as nat) + digit_value(s[j - 1]));
        assert(digits_value(s, i + 1, j, radix) == digits_value(s, i + 1, j - 1, radix) * (radix as nat) + digit_value(s[j - 1]));
        assert(vstd::arithmetic::power::pow(radix as int, (j - i - 1) as nat) == p * r);
    } else {
        let d = digit_value(s[i]) as int;
        assert(digits_value(s, i, i, radix) == 0);
        assert(digits_value(s, i, j, radix) == 0 * (radix as nat) + digit_value(s[i]));
        assert(d * 1 == d);
    }
}

/// A numeric value reduced to 64 bits, as unsigned 64-bit arithmetic wraps it.
pub open spec fn wrap64(v: nat) -> u64 {
    (v % 0x1_0000_0000_0000_0000) as u64
}

/// The radix that the character after a leading `0` selects, if any.
pub open spec fn radix_prefix(ch: char) -> Option<u32> {
    if ch == 'b' || ch == 'B' {
        Some(2)
    } else if ch == 'o' || ch == 'O' {
        Some(8)
    } else if ch == 'x' || ch == 'X' {
        Some(16)
    } else {
        None
    }
}

pub open spec fn radix_literal(radix: u32, value: u64) -> NumericLiteral {
    if radix == 2 {
        NumericLiteral::BinInt(value)
    } else if radix == 8 {
        NumericLiteral::OctInt(value)
    } else {
        NumericLiteral::HexInt(value)
    }
}

/// Whether `s[k]` is a decimal digit.
pub open spec fn decimal_digit_at(s: Seq<char>, k: int) -> bool {
    0 <= k < s.len() && is_radix_digit(s[k], 10)
}

/// An exponent part at `j`: `e` or `E`, an optional sign and decimal digits. Gives whether
/// the sign is `-`, and where the digits start and end.
pub open spec fn exponent_at(s: Seq<char>, j: int) -> Option<(bool, int, int)> {
    if char_at(s, j) == Some('e') || char_at(s, j) == Some('E') {
        let negative = char_at(s, j + 1) == Some('-');
        let ds = if char_at(s, j + 1) == Some('+') || negative {
            j + 2
        } else {
            j + 1
        };
        if decimal_digit_at(s, ds) {
            Some((negative, ds, run_end(s, ds, digit_class(10))))
        } else {
            None
        }
    } else {
        None
    }
}

/// The end of the integer part of a decimal literal starting at `i`: just after a lone `0`,
/// after a run of digits, or at `i` itself where the literal starts with `.`.
pub open spec fn decimal_int_end(s: Seq<char>, i: int) -> int {
    if char_at(s, i) == Some('0') {
        i + 1
    } else if char_at(s, i) == Some('.') {
        i
    } else {
        run_end(s, i, digit_class(10))
    }
}

/// Whether a decimal literal starting at `i` has a `.` after its integer part: a `.` with
/// digits before it, or one followed by a digit.
pub open spec fn decimal_has_dot(s: Seq<char>, i: int) -> bool {
    let int_end = decimal_int_end(s, i);
    char_at(s, int_end) == Some('.') && (int_end > i || decimal_digit_at(s, int_end + 1))
}

/// A decimal literal starting at `i`, which starts with a digit or with a `.` followed by a
/// digit: an integer literal where it has neither a fraction nor an exponent, else a decimal
/// literal held exactly.
pub open spec fn decimal_at(s: Seq<char>, i: int) -> (NumericLiteral, int) {
    let int_end = decimal_int_end(s, i);
    let has_dot = decimal_has_dot(s, i);
    let frac_start = if has_dot {
        int_end + 1
    } else {
        int_end
    };
    let frac_end = if has_dot {
        run_end(s, frac_start, digit_class(10))
    } else {
        int_end
    };
    match exponent_at(s, frac_end) {
        None => if !has_dot {
            (NumericLiteral::DecInt(wrap64(digits_value(s, i, int_end, 10))), int_end)
        } else {
            (decimal_literal(s, i, int_end, frac_start, frac_end, false, 0), frac_end)
        },
        Some((negative, ds, de)) => (
            decimal_literal(
                s,
                i,
                int_end,
                frac_start,
                frac_end,
                negative,
                wrap64(digits_value(s, ds, de, 10)),
            ),
            de,
        ),
    }
}

/// The decimal literal whose integer digits are `s[i..int_end]`, whose fraction digits are
/// `s[frac_start..frac_end]`, and whose exponent is as given.
pub open spec fn decimal_literal(
    s: Seq<char>,
    i: int,
    int_end: int,
    frac_start: int,
    frac_end: int,
    exponent_negative: bool,
    exponent: u64,
) -> NumericLiteral {
    let digits = s.subrange(i, int_end) + s.subrange(frac_start, frac_end);
    NumericLiteral::Decimal(
        DecimalLiteral {
            significand: wrap64(digits_value(digits, 0, digits.len() as int, 10)),
            scale: (frac_end - frac_start) as u64,
            exponent_negative,
            exponent,
        },
    )
}

/// A numeric literal starting at `i`, and the index after it.
pub open spec fn numeric_at(s: Seq<char>, i: int) -> Option<(NumericLiteral, int)> {
    if char_at(s, i) == Some('0') && i + 2 < s.len() && radix_prefix(s[i + 1]) is Some
        && is_radix_digit(s[i + 2], radix_prefix(s[i + 1]).unwrap()) {
        let radix = radix_prefix(s[i + 1]).unwrap();
        let e = run_end(s, i + 2, digit_class(radix));
        Some((radix_literal(radix, wrap64(digits_value(s, i + 2, e, radix))), e))
    } else if decimal_digit_at(s, i) || (char_at(s, i) == Some('.') && decimal_digit_at(s, i + 1)) {
        Some(decimal_at(s, i))
    } else {
        None
    }
}

// ---------------------------------------------------------------------------
// String and template literals

/// Scans the body of a quoted literal from `j`, after `acc` has been decoded so far, `escaped`
/// telling whether the previous character was an unconsumed backslash. Gives the decoded
/// content and the index after the closing quote; `None` where the source ends or an unescaped
/// line terminator (other than LS and PS) comes first.
pub open spec fn scan_quoted(s: Seq<char>, qt: char, j: int, escaped: bool, acc: Seq<char>) -> Option<
    (Seq<char>, int),
>
    decreases s.len() - j,
{
    if j < 0 || j >= s.len() {
        None
    } else {
        let ch = s[j];
        if !escaped && ch == qt {
            Some((acc, j + 1))
        } else if !escaped && ch == '\\' {
            scan_quoted(s, qt, j + 1, true, acc)
        } else if !escaped && (ch == LS || ch == PS) {
            scan_quoted(s, qt, j + 1, false, acc.push(ch))
        } else if !escaped && spec_is_line_terminator(ch) {
            None
        } else if escaped && spec_is_line_terminator(ch) {
            if ch == CR && char_at(s, j + 1) == Some(LF) {
                scan_quoted(s, qt, j + 2, false, acc)
            } else {
                scan_quoted(s, qt, j + 1, false, acc)
            }
        } else if escaped {
            scan_quoted(s, qt, j + 1, false, acc.push(spec_into_escaped(ch)))
        } else {
            scan_quoted(s, qt, j + 1, false, acc.push(ch))
        }
    }
}

/// A literal quoted by `qt` starting at `i`: its decoded content and the index after it.
pub open spec fn quoted_at(s: Seq<char>, i: int, qt: char) -> Option<(Seq<char>, int)> {
    if char_at(s, i) == Some(qt) {
        scan_quoted(s, qt, i + 1, false, Seq::empty())
    } else {
        None
    }
}

// ---------------------------------------------------------------------------
// Regular expression literals

/// Scans the body of a regular expression literal from `j`, like [`scan_quoted`], with
/// `in_class` telling whether a character class is open.
pub open spec fn scan_regex(s: Seq<char>, j: int, escaped: bool, in_class: bool, acc: Seq<char>) -> Option<
    (Seq<char>, int),
>
    decreases s.len() - j,
{
    if j < 0 || j >= s.len() {
        None
    } else {
        let ch = s[j];
        if ch == '/' && !escaped && !in_class {
            Some((acc, j + 1))
        } else if ch == '\\' && !escaped {
            scan_regex(s, j + 1, true, in_class, acc)
        } else if ch == '[' && !escaped && !in_class {
            scan_regex(s, j + 1, false, true, acc.push('['))
        } else if ch == ']' && !escaped && in_class {
            scan_regex(s, j + 1, false, false, acc.push(']'))
        } else if spec_is_line_terminator(ch) {
            None
        } else if escaped {
            scan_regex(s, j + 1, false, in_class, acc.push(spec_into_escaped(ch)))
        } else {
            scan_regex(s, j + 1, false, in_class, acc.push(ch))
        }
    }
}

/// A regular expression literal starting at `i`: its body, its flags and the index after it.
pub open spec fn regex_at(s: Seq<char>, i: int) -> Option<(Seq<char>, Seq<char>, int)> {
    if char_at(s, i) != Some('/') || char_at(s, i + 1) == Some('*') || char_at(s, i + 1) == Some(
        '/',
    ) {
        None
    } else {
        match scan_regex(s, i + 1, false, false, Seq::empty()) {
            Some((content, e)) => {
                let f = run_end(s, e, identifier_start_class());
                Some((content, s.subrange(e, f), f))
            },
            None => None,
        }
    }
}

// ---------------------------------------------------------------------------
// Punctuators, keywords and comments

/// The first punctuator, from position `k` of the lexical order on, which occurs at `i`.
pub open spec fn punctuator_from(s: Seq<char>, i: int, k: int) -> Option<Punctuator>
    decreases punctuators_in_lexical_order().len() - k,
{
    if k < 0 || k >= punctuators_in_lexical_order().len() {
        None
    } else if matches_at(s, i, punctuator_chars(punctuators_in_lexical_order()[k])) {
        Some(punctuators_in_lexical_order()[k])
    } else {
        punctuator_from(s, i, k + 1)
    }
}

pub open spec fn punctuator_at(s: Seq<char>, i: int) -> Option<Punctuator> {
    punctuator_from(s, i, 0)
}

/// Keyword `i` is the first in declaration order whose name is `t`.
pub open spec fn is_first_keyword_named(t: Seq<char>, i: int) -> bool {
    &&& 0 <= i < all_keywords().len()
    &&& keyword_chars(all_keywords()[i]) == t
    &&& forall|j: int| 0 <= j < i ==> keyword_chars(#[trigger] all_keywords()[j]) != t
}

/// The keyword whose name is `t`, if any.
pub open spec fn keyword_named(t: Seq<char>) -> Option<Keyword> {
    if exists|i: int| is_first_keyword_named(t, i) {
        Some(all_keywords()[choose|i: int| is_first_keyword_named(t, i)])
    } else {
        None
    }
}

/// The index of the first `*/` at or after `j`.
pub open spec fn comment_end(s: Seq<char>, j: int) -> Option<int>
    decreases s.len() - j,
{
    if j < 0 || j >= s.len() {
        None
    } else if s[j] == '*' && char_at(s, j + 1) == Some('/') {
        Some(j)
    } else {
        comment_end(s, j + 1)
    }
}

pub open spec fn seq_null() -> Seq<char> {
    seq!['n', 'u', 'l', 'l']
}

pub open spec fn seq_true() -> Seq<char> {
    seq!['t', 'r', 'u', 'e']
}

pub open spec fn seq_false() -> Seq<char> {
    seq!['f', 'a', 'l', 's', 'e']
}

// ---------------------------------------------------------------------------
// Elements

/// What follows a numeric literal must be neither part of an identifier nor a digit.
pub open spec fn check_after_number(s: Seq<char>, lit: NumericLiteral, e: int) -> LexOutcome {
    if 0 <= e < s.len() && spec_is_identifier_part(s[e]) {
        LexOutcome::Failure(ErrorKind::IdentifierFollowingNumericLiteral, e)
    } else if 0 <= e < s.len() && spec_is_ascii_digit(s[e]) {
        LexOutcome::Failure(ErrorKind::DigitFollowingNumericLiteral, e)
    } else {
        LexOutcome::Element(Lexeme::Numeric(lit), e)
    }
}

/// A keyword or an identifier starting at `i`.
pub open spec fn word_at(s: Seq<char>, i: int) -> LexOutcome {
    if 0 <= i < s.len() && spec_is_identifier_start(s[i]) {
        let e = run_end(s, i + 1, identifier_part_class());
        let t = s.subrange(i, e);
        match keyword_named(t) {
            Some(k) => LexOutcome::Element(Lexeme::Keyword(k), e),
            None => LexOutcome::Element(Lexeme::Identifier(t), e),
        }
    } else {
        LexOutcome::Failure(ErrorKind::InvalidCharacter, i)
    }
}

/// A token starting at `i` which is not a literal: punctuators, then templates, and finally
/// keywords and identifiers.
pub open spec fn non_literal_token_at(s: Seq<char>, i: int) -> LexOutcome {
    match punctuator_at(s, i) {
        Some(p) => LexOutcome::Element(Lexeme::Punctuator(p), i + punctuator_chars(p).len()),
        None => match quoted_at(s, i, '`') {
            Some((content, e)) => LexOutcome::Element(Lexeme::Template(content), e),
            None => word_at(s, i),
        },
    }
}

/// A string or regular expression literal starting at `i`, or else any later kind of token.
pub open spec fn quoted_token_at(s: Seq<char>, i: int) -> LexOutcome {
    match quoted_at(s, i, '\'') {
        Some((content, e)) => LexOutcome::Element(
            Lexeme::String(StringLiteralKind::SingleQuoted, content),
            e,
        ),
        None => match quoted_at(s, i, '"') {
            Some((content, e)) => LexOutcome::Element(
                Lexeme::String(StringLiteralKind::DoubleQuoted, content),
                e,
            ),
            None => match regex_at(s, i) {
                Some((content, flags, e)) => LexOutcome::Element(Lexeme::RegEx(content, flags), e),
                None => non_literal_token_at(s, i),
            },
        },
    }
}

/// A token starting at `i`: literals first, then punctuators, templates, and finally keywords
/// and identifiers.
pub open spec fn token_at(s: Seq<char>, i: int) -> LexOutcome {
    if matches_at(s, i, seq_null()) {
        LexOutcome::Element(Lexeme::Null, i + 4)
    } else if matches_at(s, i, seq_true()) {
        LexOutcome::Element(Lexeme::Boolean(true), i + 4)
    } else if matches_at(s, i, seq_false()) {
        LexOutcome::Element(Lexeme::Boolean(false), i + 5)
    } else {
        match numeric_at(s, i) {
            Some((lit, e)) => check_after_number(s, lit, e),
            None => quoted_token_at(s, i),
        }
    }
}

/// The line terminator starting at `i`, which must be one.
pub open spec fn line_terminator_at(s: Seq<char>, i: int) -> (LineTerminator, int) {
    if s[i] == CR && char_at(s, i + 1) == Some(LF) {
        (LineTerminator::Crlf, i + 2)
    } else if s[i] == CR {
        (LineTerminator::Cr, i + 1)
    } else if s[i] == LF {
        (LineTerminator::Lf, i + 1)
    } else if s[i] == LS {
        (LineTerminator::Ls, i + 1)
    } else {
        (LineTerminator::Ps, i + 1)
    }
}

/// The element starting at index `i` of the source: whitespace, then line terminators, then
/// comments, then tokens.
pub open spec fn lex_at(s: Seq<char>, i: int) -> LexOutcome {
    if i < 0 || i >= s.len() {
        LexOutcome::End
    } else if spec_is_whitespace(s[i]) {
        let e = run_end(s, i, whitespace_class());
        LexOutcome::Element(Lexeme::Whitespace(s.subrange(i, e)), e)
    } else if spec_is_line_terminator(s[i]) {
        LexOutcome::Element(
            Lexeme::LineTerminator(line_terminator_at(s, i).0),
            line_terminator_at(s, i).1,
        )
    } else if matches_at(s, i, seq!['/', '/']) {
        let e = run_end(s, i + 2, not_line_terminator());
        LexOutcome::Element(Lexeme::Comment(CommentKind::SingleLine, s.subrange(i + 2, e)), e)
    } else if matches_at(s, i, seq!['/', '*']) {
        match comment_end(s, i + 2) {
            Some(k) => LexOutcome::Element(
                Lexeme::Comment(CommentKind::MultiLine, s.subrange(i + 2, k)),
                k + 2,
            ),
            None => LexOutcome::Failure(ErrorKind::UnclosedComment, i),
        }
    } else {
        token_at(s, i)
    }
}

/// The lexemes read from index `i` of the source on, in order, up to the end of the source
/// or the first failure, together with that failure and the index where it is reported.
pub open spec fn lex_from(s: Seq<char>, i: int) -> (Seq<Lexeme>, Option<(ErrorKind, int)>)
    decreases s.len() - i,
{
    match lex_at(s, i) {
        LexOutcome::End => (Seq::empty(), None),
        LexOutcome::Element(lexeme, e) => if i < e <= s.len() {
            let rest = lex_from(s, e);
            (seq![lexeme] + rest.0, rest.1)
        } else {
            (seq![lexeme], None)
        },
        LexOutcome::Failure(kind, at) => (Seq::empty(), Some((kind, at))),
    }
}

} // verus!
