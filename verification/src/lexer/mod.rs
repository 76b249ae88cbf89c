//! The lexer: turns source characters into lexical elements.
pub mod scan;
pub mod spec;

use crate::enumerate::EnumerateStr;
use crate::str::NonEmptyString;
use crate::token::element::{
    Comment, CommentKind, DecimalLiteral, Element, ElementKind, Lexeme, LineTerminator, Literal,
    NumericLiteral,
    RegExLiteral, StringLiteral, StringLiteralKind, Template, Token, Whitespace,
};
use crate::token::location::{SourceLocation, SourcePosition};
use crate::token::punctuator::punctuator_chars;
use crate::token::symbol::{
    is_ascii_digit, is_identifier_part, is_identifier_start, is_line_terminator, is_whitespace,
    spec_is_line_terminator, CR, LF, LS, PS,
};
use crate::util::{str_to_chars, string_from_chars};
use scan::{
    copy_range, digits_value_exec, find_comment_end, lookup_keyword, matches_str_at, scan_punctuator,
    scan_quoted_exec, scan_regex_exec, scan_run, all_digits, CharClass, lemma_run_end,
};
pub use spec::ErrorKind;
use spec::{
    char_at, check_after_number, digit_class, identifier_part_class, lex_at, line_terminator_at,
    matches_at, non_literal_token_at, numeric_at, position_after, quoted_token_at, radix_prefix,
    radix_literal, run_end, seq_false, seq_null, seq_true, token_at, whitespace_class, word_at,
    LexOutcome, not_line_terminator, is_radix_digit, decimal_at, decimal_digit_at,
    decimal_has_dot, decimal_int_end, exponent_at,
};
use vstd::prelude::*;

verus! {

/// A lexical error, with the location at which it was found.
#[derive(Debug)]
pub struct Error {
    pub kind: ErrorKind,
    pub loc: SourceLocation,
}

impl Clone for Error {
    fn clone(&self) -> (r: Self)
        ensures
            r == *self,
    {
        Error { kind: self.kind, loc: self.loc.clone() }
    }
}

impl Error {
    pub fn new(kind: ErrorKind, loc: SourceLocation) -> (r: Self)
        ensures
            r.kind == kind,
            r.loc == loc,
    {
        Error { kind, loc }
    }

    pub fn kind(&self) -> (r: &ErrorKind)
        ensures
            *r == self.kind,
    {
        &self.kind
    }

    pub fn into_kind(self) -> (r: ErrorKind)
        ensures
            r == self.kind,
    {
        self.kind
    }

    pub fn source_location(&self) -> (r: &SourceLocation)
        ensures
            *r == self.loc,
    {
        &self.loc
    }
}

/// Positions never run further from the start than the number of characters read.
pub proof fn lemma_position_bounds(start: SourcePosition, s: Seq<char>, n: int)
    requires
        0 <= n <= s.len(),
    ensures
        position_after(start, s, n).line <= start.line + n,
        position_after(start, s, n).column <= start.column + n,
    decreases n,
{
    if n > 0 {
        lemma_position_bounds(start, s, n - 1);
    }
}

// ---------------------------------------------------------------------------
// Elements

fn scan_radix_prefix(ch: char) -> (r: Option<u32>)
    ensures
        r == radix_prefix(ch),
{
    if ch == 'b' || ch == 'B' {
        Some(2)
    } else if ch == 'o' || ch == 'O' {
        Some(8)
    } else if ch == 'x' || ch == 'X' {
        Some(16)
    } else {
        None
    }
}

/// The numeric literal starting at `i`, and the index after it.
fn scan_numeric(s: &Vec<char>, i: usize) -> (r: Option<(NumericLiteral, usize)>)
    requires
        i < s@.len(),
    ensures
        match r {
            Some((lit, e)) => numeric_at(s@, i as int) == Some((lit, e as int)) && i < e <= s@.len(),
            None => numeric_at(s@, i as int) is None,
        },
{
    let len = s.len();
    if s[i] == '0' && len - i > 2 {
        if let Some(radix) = scan_radix_prefix(s[i + 1]) {
            if scan::is_radix_digit_exec(s[i + 2], radix) {
                let e = scan_run(s, i + 2, CharClass::Digit(radix));
                proof {
                    lemma_run_end(s@, i + 2, digit_class(radix));
                }
                let value = digits_value_exec(s, i + 2, e, radix);
                let lit = if radix == 2 {
                    NumericLiteral::BinInt(value)
                } else if radix == 8 {
                    NumericLiteral::OctInt(value)
                } else {
                    NumericLiteral::HexInt(value)
                };
                return Some((lit, e));
            }
        }
    }
    if scan::is_radix_digit_exec(s[i], 10) || (s[i] == '.' && i + 1 < len
        && scan::is_radix_digit_exec(s[i + 1], 10)) {
        Some(scan_decimal(s, i))
    } else {
        None
    }
}

/// The exponent part at `j`, if there is one: whether its sign is `-`, and where its digits
/// start and end.
fn scan_exponent(s: &Vec<char>, j: usize) -> (r: Option<(bool, usize, usize)>)
    requires
        j <= s@.len(),
    ensures
        match r {
            Some((negative, ds, de)) => exponent_at(s@, j as int) == Some(
                (negative, ds as int, de as int),
            ) && j < ds < de <= s@.len() && all_digits(s@, ds as int, de as int, 10),
            None => exponent_at(s@, j as int) is None,
        },
{
    let len = s.len();
    if j < len && (s[j] == 'e' || s[j] == 'E') {
        let negative = j + 1 < len && s[j + 1] == '-';
        let ds = if j + 1 < len && (s[j + 1] == '+' || s[j + 1] == '-') {
            j + 2
        } else {
            j + 1
        };
        if ds < len && scan::is_radix_digit_exec(s[ds], 10) {
            let de = scan_run(s, ds, CharClass::Digit(10));
            proof {
                lemma_run_end(s@, ds as int, digit_class(10));
            }
            return Some((negative, ds, de));
        }
    }
    None
}

/// The decimal literal starting at `i`, which starts with a digit or with a `.` followed by
/// a digit, and the index after it.
fn scan_decimal(s: &Vec<char>, i: usize) -> (r: (NumericLiteral, usize))
    requires
        i < s@.len(),
        is_radix_digit(s@[i as int], 10) || (s@[i as int] == '.' && decimal_digit_at(
            s@,
            i + 1,
        )),
    ensures
        decimal_at(s@, i as int) == (r.0, r.1 as int),
        i < r.1 <= s@.len(),
{
    let len = s.len();
    let int_end = if s[i] == '0' {
        i + 1
    } else if s[i] == '.' {
        i
    } else {
        let e = scan_run(s, i, CharClass::Digit(10));
        proof {
            lemma_run_end(s@, i as int, digit_class(10));
        }
        e
    };
    assert(int_end == decimal_int_end(s@, i as int));
    assert(all_digits(s@, i as int, int_end as int, 10));
    let has_dot = int_end < len && s[int_end] == '.' && (int_end > i || (int_end + 1 < len
        && scan::is_radix_digit_exec(s[int_end + 1], 10)));
    assert(has_dot == decimal_has_dot(s@, i as int));
    let frac_start = if has_dot {
        int_end + 1
    } else {
        int_end
    };
    let frac_end = if has_dot {
        let e = scan_run(s, frac_start, CharClass::Digit(10));
        proof {
            lemma_run_end(s@, frac_start as int, digit_class(10));
        }
        e
    } else {
        int_end
    };
    assert(all_digits(s@, frac_start as int, frac_end as int, 10));
    let exponent = scan_exponent(s, frac_end);
    if !has_dot && exponent.is_none() {
        let value = digits_value_exec(s, i, int_end, 10);
        return (NumericLiteral::DecInt(value), int_end);
    }
    let mut digits = copy_range(s, i, int_end);
    let mut fraction = copy_range(s, frac_start, frac_end);
    let ghost int_digits = digits@;
    let ghost frac_digits = fraction@;
    digits.append(&mut fraction);
    assert(digits@ == s@.subrange(i as int, int_end as int) + s@.subrange(
        frac_start as int,
        frac_end as int,
    ));
    assert forall|k: int| 0 <= k < digits@.len() implies is_radix_digit(#[trigger] digits@[k], 10) by {
        if k < int_digits.len() {
            assert(digits@[k] == s@[i + k]);
        } else {
            assert(digits@[k] == s@[frac_start + k - int_digits.len()]);
        }
    }
    let n = digits.len();
    let significand = digits_value_exec(&digits, 0, n, 10);
    let (negative, value, end) = match exponent {
        Some((negative, ds, de)) => (negative, digits_value_exec(s, ds, de, 10), de),
        None => (false, 0, frac_end),
    };
    let lit = NumericLiteral::Decimal(
        DecimalLiteral {
            significand,
            scale: (frac_end - frac_start) as u64,
            exponent_negative: negative,
            exponent: value,
        },
    );
    (lit, end)
}

/// A keyword or an identifier starting at `i`.
fn scan_word(s: &Vec<char>, i: usize) -> (r: Result<(ElementKind, usize), (ErrorKind, usize)>)
    requires
        i < s@.len(),
    ensures
        match r {
            Ok((k, e)) => word_at(s@, i as int) == LexOutcome::Element(k.lexeme(), e as int)
                && i < e <= s@.len(),
            Err((ek, at)) => word_at(s@, i as int) == LexOutcome::Failure(ek, at as int) && i <= at <= s@.len(),
        },
{
    let len = s.len();
    if is_identifier_start(s[i]) {
        let e = scan_run(s, i + 1, CharClass::IdentifierPart);
        let t = copy_range(s, i, e);
        match lookup_keyword(&t) {
            Some(k) => Ok((ElementKind::Token(Token::Keyword(k)), e)),
            None => Ok((ElementKind::Token(Token::Identifier(NonEmptyString::from_chars(&t))), e)),
        }
    } else {
        Err((ErrorKind::InvalidCharacter, i))
    }
}

/// A punctuator, template, keyword or identifier starting at `i`.
fn scan_non_literal_token(s: &Vec<char>, i: usize) -> (r: Result<(ElementKind, usize), (ErrorKind, usize)>)
    requires
        i < s@.len(),
    ensures
        match r {
            Ok((k, e)) => non_literal_token_at(s@, i as int) == LexOutcome::Element(
                k.lexeme(),
                e as int,
            ) && i < e <= s@.len(),
            Err((ek, at)) => non_literal_token_at(s@, i as int) == LexOutcome::Failure(
                ek,
                at as int,
            ) && i <= at <= s@.len(),
        },
{
    let len = s.len();
    match scan_punctuator(s, i) {
        Some(p) => {
            let n = p.as_str().unicode_len();
            proof {
                scan::lemma_punctuator_from_matches(s@, i as int, 0);
            }
            return Ok((ElementKind::Token(Token::Punctuator(p)), i + n));
        },
        None => {},
    }
    if s[i] == '`' {
        if let Some((content, e)) = scan_quoted_exec(s, i, '`') {
            return Ok((ElementKind::Token(Token::Template(Template { value: string_from_chars(&content) })), e));
        }
    }
    scan_word(s, i)
}

/// A string or regular expression literal starting at `i`, or else any later kind of token.
fn scan_quoted_token(s: &Vec<char>, i: usize) -> (r: Result<(ElementKind, usize), (ErrorKind, usize)>)
    requires
        i < s@.len(),
    ensures
        match r {
            Ok((k, e)) => quoted_token_at(s@, i as int) == LexOutcome::Element(k.lexeme(), e as int)
                && i < e <= s@.len(),
            Err((ek, at)) => quoted_token_at(s@, i as int) == LexOutcome::Failure(ek, at as int)
                && i <= at <= s@.len(),
        },
{
    if s[i] == '\'' {
        if let Some((content, e)) = scan_quoted_exec(s, i, '\'') {
            let value = string_from_chars(&content);
            return Ok((
                ElementKind::Token(
                    Token::Literal(
                        Literal::String(
                            StringLiteral { kind: StringLiteralKind::SingleQuoted, value },
                        ),
                    ),
                ),
                e,
            ));
        }
    }
    if s[i] == '"' {
        if let Some((content, e)) = scan_quoted_exec(s, i, '"') {
            let value = string_from_chars(&content);
            return Ok((
                ElementKind::Token(
                    Token::Literal(
                        Literal::String(
                            StringLiteral { kind: StringLiteralKind::DoubleQuoted, value },
                        ),
                    ),
                ),
                e,
            ));
        }
    }
    if let Some((content, flags, e)) = scan_regex_exec(s, i) {
        let content = NonEmptyString::from_chars(&content);
        return Ok((ElementKind::Token(Token::Literal(Literal::RegEx(RegExLiteral { content, flags }))), e));
    }
    scan_non_literal_token(s, i)
}

/// The token starting at `i`.
fn scan_token(s: &Vec<char>, i: usize) -> (r: Result<(ElementKind, usize), (ErrorKind, usize)>)
    requires
        i < s@.len(),
    ensures
        match r {
            Ok((k, e)) => token_at(s@, i as int) == LexOutcome::Element(k.lexeme(), e as int) && i < e <= s@.len(),
            Err((ek, at)) => token_at(s@, i as int) == LexOutcome::Failure(ek, at as int) && i <= at <= s@.len(),
        },
{
    let len = s.len();
    proof {
        reveal_strlit("null");
        reveal_strlit("true");
        reveal_strlit("false");
        assert("null"@ =~= seq_null());
        assert("true"@ =~= seq_true());
        assert("false"@ =~= seq_false());
    }
    if matches_str_at(s, i, "null") {
        return Ok((ElementKind::Token(Token::Literal(Literal::Null)), i + 4));
    }
    if matches_str_at(s, i, "true") {
        return Ok((ElementKind::Token(Token::Literal(Literal::Boolean(true))), i + 4));
    }
    if matches_str_at(s, i, "false") {
        return Ok((ElementKind::Token(Token::Literal(Literal::Boolean(false))), i + 5));
    }
    match scan_numeric(s, i) {
        Some((lit, e)) => {
            if e < s.len() && is_identifier_part(s[e]) {
                Err((ErrorKind::IdentifierFollowingNumericLiteral, e))
            } else if e < s.len() && is_ascii_digit(s[e]) {
                Err((ErrorKind::DigitFollowingNumericLiteral, e))
            } else {
                Ok((ElementKind::Token(Token::Literal(Literal::Numeric(lit))), e))
            }
        },
        None => scan_quoted_token(s, i),
    }
}

/// The element starting at `i`, or the failure found there.
pub fn scan_element(s: &Vec<char>, i: usize) -> (r: Result<(ElementKind, usize), (ErrorKind, usize)>)
    requires
        i < s@.len(),
    ensures
        match r {
            Ok((k, e)) => lex_at(s@, i as int) == LexOutcome::Element(k.lexeme(), e as int) && i
                < e <= s@.len(),
            Err((ek, at)) => lex_at(s@, i as int) == LexOutcome::Failure(ek, at as int) && i <= at <= s@.len(),
        },
{
    let len = s.len();
    let ch = s[i];
    if is_whitespace(ch) {
        let e = scan_run(s, i, CharClass::Whitespace);
        proof {
            lemma_run_end(s@, i as int, whitespace_class());
        }
        let content = copy_range(s, i, e);
        let value = NonEmptyString::from_chars(&content);
        return Ok((ElementKind::Whitespace(Whitespace { value }), e));
    }
    if is_line_terminator(ch) {
        let (lt, e) = if ch == CR && i + 1 < len && s[i + 1] == LF {
            (LineTerminator::Crlf, i + 2)
        } else if ch == CR {
            (LineTerminator::Cr, i + 1)
        } else if ch == LF {
            (LineTerminator::Lf, i + 1)
        } else if ch == LS {
            (LineTerminator::Ls, i + 1)
        } else {
            (LineTerminator::Ps, i + 1)
        };
        return Ok((ElementKind::LineTerminator(lt), e));
    }
    proof {
        reveal_strlit("//");
        reveal_strlit("/*");
        assert("//"@ =~= seq!['/', '/']);
        assert("/*"@ =~= seq!['/', '*']);
    }
    if matches_str_at(s, i, "//") {
        let e = scan_run(s, i + 2, CharClass::NotLineTerminator);
        let content = copy_range(s, i + 2, e);
        let value = string_from_chars(&content);
        return Ok((ElementKind::Comment(Comment { kind: CommentKind::SingleLine, value }), e));
    }
    if matches_str_at(s, i, "/*") {
        return match find_comment_end(s, i + 2) {
            Some(k) => {
                let content = copy_range(s, i + 2, k);
                let value = string_from_chars(&content);
                Ok((ElementKind::Comment(Comment { kind: CommentKind::MultiLine, value }), k + 2))
            },
            None => Err((ErrorKind::UnclosedComment, i)),
        };
    }
    scan_token(s, i)
}

// ---------------------------------------------------------------------------
// The lexer

/// Reads lexical elements, one at a time, from source characters.
pub struct Lexer {
    chars: Vec<char>,
    cursor: Cursor,
    file: String,
    start: SourcePosition,
}

/// An index into the source, with the position of the character there.
#[derive(Copy, Clone)]
struct Cursor {
    pos: usize,
    position: SourcePosition,
}

impl Lexer {
    #[verifier::type_invariant]
    spec fn inv(&self) -> bool {
        &&& self.cursor.pos <= self.chars@.len()
        &&& self.start.line + self.chars@.len() <= usize::MAX
        &&& self.start.column + self.chars@.len() <= usize::MAX
        &&& self.cursor.position == position_after(self.start, self.chars@, self.cursor.pos as int)
    }

    /// The whole source.
    pub closed spec fn source(&self) -> Seq<char> {
        self.chars@
    }

    /// The index of the next character to read.
    pub closed spec fn offset(&self) -> int {
        self.cursor.pos as int
    }

    /// The name of the source file.
    pub closed spec fn file_name(&self) -> Seq<char> {
        self.file@
    }

    /// The position of the first character of the source.
    pub closed spec fn start(&self) -> SourcePosition {
        self.start
    }

    /// The position of the character at index `n` of the source.
    pub open spec fn position_of(&self, n: int) -> SourcePosition {
        position_after(self.start(), self.source(), n)
    }

    /// Which positions the source can hold without overflowing a counter.
    pub open spec fn fits(chars: Seq<char>, start: SourcePosition) -> bool {
        &&& start.line + chars.len() <= usize::MAX
        &&& start.column + chars.len() <= usize::MAX
    }

    /// A lexer for the given characters, whose first one is at `start_loc`.
    pub fn for_chars(chars: Vec<char>, start_loc: SourceLocation) -> (r: Self)
        requires
            Self::fits(chars@, start_loc.position),
        ensures
            r.source() == chars@,
            r.offset() == 0,
            r.file_name() == start_loc.file@,
            r.start() == start_loc.position,
    {
        Lexer {
            chars,
            cursor: Cursor { pos: 0, position: start_loc.position },
            file: start_loc.file,
            start: start_loc.position,
        }
    }

    /// A lexer for the characters of `source`, whose first one is at `start_loc`.
    pub fn for_str(source: &str, start_loc: SourceLocation) -> (r: Self)
        requires
            Self::fits(source@, start_loc.position),
        ensures
            r.source() == source@,
            r.offset() == 0,
            r.file_name() == start_loc.file@,
            r.start() == start_loc.position,
    {
        Self::for_chars(str_to_chars(source), start_loc)
    }

    /// The location of the next character to read.
    pub fn source_location(&self) -> (r: SourceLocation)
        ensures
            r.file@ == self.file_name(),
            r.position == self.position_of(self.offset()),
    {
        proof {
            use_type_invariant(self);
        }
        SourceLocation { file: self.file.clone(), position: self.cursor.position }
    }

    /// Moves the read position forward to `e`, keeping track of lines and columns.
    fn advance_to(&mut self, e: usize)
        requires
            old(self).cursor.pos <= e <= old(self).chars@.len(),
        ensures
            final(self).chars == old(self).chars,
            final(self).file == old(self).file,
            final(self).start == old(self).start,
            final(self).cursor.pos == e,
    {
        proof {
            use_type_invariant(&*self);
        }
        let ghost chars = self.chars@;
        let ghost start = self.start;
        let mut pos = self.cursor.pos;
        let mut position = self.cursor.position;
        while pos < e
            invariant
                self.cursor.pos <= pos <= e <= chars.len(),
                chars == self.chars@,
                start == self.start,
                start.line + chars.len() <= usize::MAX,
                start.column + chars.len() <= usize::MAX,
                position == position_after(start, chars, pos as int),
            decreases e - pos,
        {
            proof {
                lemma_position_bounds(start, chars, pos as int);
            }
            let ch = self.chars[pos];
            if ch == LF && pos >= 1 && self.chars[pos - 1] == CR {
            } else if is_line_terminator(ch) {
                position = SourcePosition { line: position.line + 1, column: 0 };
            } else {
                position = SourcePosition { line: position.line, column: position.column + 1 };
            }
            pos = pos + 1;
        }
        self.cursor = Cursor { pos, position };
    }

    /// The lexer never reads past the end of its source.
    pub fn check_bounds(&self)
        ensures
            0 <= self.offset() <= self.source().len(),
    {
        proof {
            use_type_invariant(self);
        }
    }

    /// Reads the next element. At the end of the source this gives `Ok(None)`; after a failure
    /// the lexer stays where the failure was reported.
    pub fn next(&mut self) -> (r: Result<Option<Element>, Error>)
        ensures
            final(self).source() == old(self).source(),
            final(self).file_name() == old(self).file_name(),
            final(self).start() == old(self).start(),
            0 <= final(self).offset() <= final(self).source().len(),
            r matches Ok(Some(_)) ==> old(self).offset() < final(self).offset(),
            match lex_at(old(self).source(), old(self).offset()) {
                LexOutcome::End => r == Ok::<Option<Element>, Error>(None) && final(self).offset()
                    == old(self).offset(),
                LexOutcome::Element(lexeme, e) => r matches Ok(Some(el)) && el.lexeme() == lexeme
                    && el.loc.file@ == old(self).file_name() && el.loc.position == old(
                    self,
                ).position_of(old(self).offset()) && final(self).offset() == e,
                LexOutcome::Failure(kind, at) => r matches Err(err) && err.kind == kind
                    && err.loc.file@ == old(self).file_name() && err.loc.position == old(
                    self,
                ).position_of(at) && final(self).offset() == at,
            },
    {
        proof {
            use_type_invariant(&*self);
        }
        if self.cursor.pos >= self.chars.len() {
            return Ok(None);
        }
        let loc = SourceLocation { file: self.file.clone(), position: self.cursor.position };
        match scan_element(&self.chars, self.cursor.pos) {
            Ok((kind, e)) => {
                self.advance_to(e);
                proof {
                    use_type_invariant(&*self);
                }
                Ok(Some(Element { kind, loc }))
            },
            Err((kind, at)) => {
                if at > self.cursor.pos {
                    self.advance_to(at);
                }
                proof {
                    use_type_invariant(&*self);
                }
                let err_loc = SourceLocation { file: self.file.clone(), position: self.cursor.position };
                Err(Error { kind, loc: err_loc })
            },
        }
    }
}

} // verus!
