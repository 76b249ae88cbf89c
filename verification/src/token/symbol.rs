use vstd::prelude::*;

verus! {

/// NULL
pub const NUL: char = '\u{0000}';

/// BACKSPACE
pub const BS: char = '\u{0008}';

/// CHARACTER TABULATION
pub const HT: char = '\u{0009}';

/// LINE FEED (LF)
pub const LF: char = '\u{000A}';

/// LINE TABULATION
pub const VT: char = '\u{000B}';

/// FORM FEED (FF)
pub const FF: char = '\u{000C}';

/// CARRIAGE RETURN (CR)
pub const CR: char = '\u{000D}';

/// SPACE
pub const SP: char = '\u{0020}';

/// NO-BREAK SPACE
pub const NBSP: char = '\u{00A0}';

/// ZERO WIDTH NON-JOINER
pub const ZWNJ: char = '\u{200C}';

/// ZERO WIDTH JOINER
pub const ZWJ: char = '\u{200D}';

/// LINE SEPARATOR
pub const LS: char = '\u{2028}';

/// PARAGRAPH SEPARATOR
pub const PS: char = '\u{2029}';

/// ZERO WIDTH NO-BREAK SPACE
pub const ZWNBSP: char = '\u{FEFF}';

pub open spec fn spec_is_whitespace(ch: char) -> bool {
    ch == HT || ch == VT || ch == FF || ch == SP || ch == NBSP || ch == ZWNBSP
}

pub open spec fn spec_is_line_terminator(ch: char) -> bool {
    ch == LF || ch == CR || ch == LS || ch == PS
}

pub open spec fn spec_is_ascii_alphabetic(ch: char) -> bool {
    ('a' <= ch && ch <= 'z') || ('A' <= ch && ch <= 'Z')
}

pub open spec fn spec_is_ascii_digit(ch: char) -> bool {
    '0' <= ch && ch <= '9'
}

pub open spec fn spec_is_unicode_start(ch: char) -> bool {
    spec_is_ascii_alphabetic(ch)
}

pub open spec fn spec_is_unicode_continue(ch: char) -> bool {
    spec_is_ascii_alphabetic(ch) || spec_is_ascii_digit(ch) || ch == '_'
}

pub open spec fn spec_is_identifier_start(ch: char) -> bool {
    spec_is_unicode_start(ch) || ch == '$' || ch == '_'
}

pub open spec fn spec_is_identifier_part(ch: char) -> bool {
    spec_is_unicode_continue(ch) || ch == '$' || ch == ZWNJ || ch == ZWJ
}

/// The character that a backslash followed by `ch` stands for.
pub open spec fn spec_into_escaped(ch: char) -> char {
    if ch == '0' {
        NUL
    } else if ch == 'b' {
        BS
    } else if ch == 't' {
        HT
    } else if ch == 'n' {
        LF
    } else if ch == 'v' {
        VT
    } else if ch == 'f' {
        FF
    } else if ch == 'r' {
        CR
    } else {
        ch
    }
}

pub fn is_whitespace(ch: char) -> (r: bool)
    ensures
        r == spec_is_whitespace(ch),
{
    ch == HT || ch == VT || ch == FF || ch == SP || ch == NBSP || ch == ZWNBSP
}

pub fn is_line_terminator(ch: char) -> (r: bool)
    ensures
        r == spec_is_line_terminator(ch),
{
    ch == LF || ch == CR || ch == LS || ch == PS
}

pub fn is_identifier_start(ch: char) -> (r: bool)
    ensures
        r == spec_is_identifier_start(ch),
{
    is_unicode_start(ch) || ch == '$' || ch == '_'
}

pub fn is_identifier_part(ch: char) -> (r: bool)
    ensures
        r == spec_is_identifier_part(ch),
{
    is_unicode_continue(ch) || ch == '$' || ch == ZWNJ || ch == ZWJ
}

pub fn is_unicode_start(ch: char) -> (r: bool)
    ensures
        r == spec_is_unicode_start(ch),
{
    is_ascii_alphabetic(ch)
}

pub fn is_unicode_continue(ch: char) -> (r: bool)
    ensures
        r == spec_is_unicode_continue(ch),
{
    is_ascii_alphabetic(ch) || is_ascii_digit(ch) || ch == '_'
}

pub fn is_ascii_alphabetic(ch: char) -> (r: bool)
    ensures
        r == spec_is_ascii_alphabetic(ch),
{
    ('a' <= ch && ch <= 'z') || ('A' <= ch && ch <= 'Z')
}

pub fn is_ascii_digit(ch: char) -> (r: bool)
    ensures
        r == spec_is_ascii_digit(ch),
{
    '0' <= ch && ch <= '9'
}

pub fn into_escaped(ch: char) -> (r: char)
    ensures
        r == spec_into_escaped(ch),
{
    match ch {
        '0' => NUL,
        'b' => BS,
        't' => HT,
        'n' => LF,
        'v' => VT,
        'f' => FF,
        'r' => CR,
        ch => ch,
    }
}

/// Whitespace, line terminators and the first character of an identifier never overlap, so a
/// lexer may test for them in any order.
pub proof fn lemma_character_classes_disjoint(ch: char)
    ensures
        !(spec_is_whitespace(ch) && spec_is_line_terminator(ch)),
        !(spec_is_whitespace(ch) && spec_is_identifier_part(ch)),
        !(spec_is_line_terminator(ch) && spec_is_identifier_part(ch)),
        spec_is_identifier_start(ch) ==> spec_is_identifier_part(ch),
{
}

/// An identifier starts with a letter, `$` or `_`, and never with a digit; a digit may
/// follow the first character. So `_count` and `$x` are names and `1x` is not.
pub proof fn lemma_identifier_start_chars(ch: char)
    ensures
        spec_is_identifier_start(ch) <==> ('a' <= ch && ch <= 'z') || ('A' <= ch && ch <= 'Z') || ch == '$'
            || ch == '_',
        '0' <= ch && ch <= '9' ==> !spec_is_identifier_start(ch) && spec_is_identifier_part(ch),
        spec_is_identifier_start(ch) ==> spec_is_identifier_part(ch),
{
}

/// The character classes by code point: whitespace is tab, line tabulation, form feed,
/// space, no-break space and the byte order mark; a line ends at line feed, carriage return,
/// line separator or paragraph separator; a name goes on with letters, digits, `_`, `$` and
/// the zero width (non-)joiners.
pub proof fn lemma_character_classes_by_code_point(ch: char)
    ensures
        spec_is_whitespace(ch) <==> (ch as u32 == 0x09 || ch as u32 == 0x0B || ch as u32 == 0x0C || ch as u32
            == 0x20 || ch as u32 == 0xA0 || ch as u32 == 0xFEFF),
        spec_is_line_terminator(ch) <==> (ch as u32 == 0x0A || ch as u32 == 0x0D || ch as u32 == 0x2028
            || ch as u32 == 0x2029),
        spec_is_identifier_part(ch) <==> ('a' <= ch && ch <= 'z') || ('A' <= ch && ch <= 'Z') || ('0' <= ch
            && ch <= '9') || ch == '_' || ch == '$' || ch as u32 == 0x200C || ch as u32 == 0x200D,
{
}

/// A backslash before `0`, `b`, `t`, `n`, `v`, `f` or `r` stands for the control character of
/// that name (by code point), and before any other character for that character itself, so
/// `\\`, `\'` and `\"` stand for the backslash and the quotes.
pub proof fn lemma_escapes_by_code_point(ch: char)
    ensures
        ch == '0' ==> spec_into_escaped(ch) as u32 == 0x00,
        ch == 'b' ==> spec_into_escaped(ch) as u32 == 0x08,
        ch == 't' ==> spec_into_escaped(ch) as u32 == 0x09,
        ch == 'n' ==> spec_into_escaped(ch) as u32 == 0x0A,
        ch == 'v' ==> spec_into_escaped(ch) as u32 == 0x0B,
        ch == 'f' ==> spec_into_escaped(ch) as u32 == 0x0C,
        ch == 'r' ==> spec_into_escaped(ch) as u32 == 0x0D,
        !(ch == '0' || ch == 'b' || ch == 't' || ch == 'n' || ch == 'v' || ch == 'f' || ch == 'r')
            ==> spec_into_escaped(ch) == ch,
{
}

} // verus!
