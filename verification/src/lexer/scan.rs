//! Scanning functions over the source characters, each proved against the lexical grammar.
use super::spec::{
    comment_end, is_first_keyword_named, keyword_named, punctuator_at, punctuator_from, quoted_at, regex_at, scan_quoted, scan_regex,
    char_at, digit_class, digit_value, digits_value, identifier_part_class, identifier_start_class, is_radix_digit, matches_at, not_line_terminator, run_end, whitespace_class, wrap64,
};
use crate::token::symbol::{
    into_escaped, is_ascii_digit, is_identifier_part, is_identifier_start, is_line_terminator,
    is_whitespace, spec_into_escaped, spec_is_identifier_part, spec_is_identifier_start,
    spec_is_line_terminator, spec_is_whitespace, CR, LF, LS, PS,
};
use vstd::arithmetic::div_mod::{lemma_add_mod_noop, lemma_mul_mod_noop_left};
use crate::enumerate::{variant_from_str, Enumerate, EnumerateStr};
use crate::token::keyword::{all_keywords, keyword_chars, Keyword};
use crate::token::punctuator::{punctuator_chars, punctuators_in_lexical_order, Punctuator};
use crate::util::string_from_chars;
use vstd::prelude::*;

verus! {

/// A class of characters which a run can consist of.
#[derive(Copy, Clone, Debug, PartialEq, Eq, Structural)]
pub enum CharClass {
    Whitespace,
    IdentifierStart,
    IdentifierPart,
    NotLineTerminator,
    Digit(u32),
}

pub open spec fn class_fn(c: CharClass) -> spec_fn(char) -> bool {
    match c {
        CharClass::Whitespace => whitespace_class(),
        CharClass::IdentifierStart => identifier_start_class(),
        CharClass::IdentifierPart => identifier_part_class(),
        CharClass::NotLineTerminator => not_line_terminator(),
        CharClass::Digit(radix) => digit_class(radix),
    }
}

pub fn is_radix_digit_exec(ch: char, radix: u32) -> (r: bool)
    ensures
        r == is_radix_digit(ch, radix),
{
    if radix == 16 {
        ('0' <= ch && ch <= '9') || ('a' <= ch && ch <= 'f') || ('A' <= ch && ch <= 'F')
    } else {
        '0' <= ch && (ch as u32 as u64) < ('0' as u32 as u64) + (radix as u64)
    }
}

pub fn in_class(c: CharClass, ch: char) -> (r: bool)
    ensures
        r == (class_fn(c))(ch),
{
    match c {
        CharClass::Whitespace => is_whitespace(ch),
        CharClass::IdentifierStart => is_identifier_start(ch),
        CharClass::IdentifierPart => is_identifier_part(ch),
        CharClass::NotLineTerminator => !is_line_terminator(ch),
        CharClass::Digit(radix) => is_radix_digit_exec(ch, radix),
    }
}

/// What every run satisfies: it stays within the source, every character in it belongs to the
/// class, and the character after it (if any) does not.
pub proof fn lemma_run_end(s: Seq<char>, i: int, p: spec_fn(char) -> bool)
    requires
        0 <= i <= s.len(),
    ensures
        i <= run_end(s, i, p) <= s.len(),
        forall|k: int| i <= k < run_end(s, i, p) ==> p(#[trigger] s[k]),
        run_end(s, i, p) == s.len() || !p(s[run_end(s, i, p)]),
    decreases s.len() - i,
{
    if i < s.len() && p(s[i]) {
        lemma_run_end(s, i + 1, p);
    }
}

/// The end of the run of characters of class `c` which starts at `i`.
pub fn scan_run(s: &Vec<char>, i: usize, c: CharClass) -> (e: usize)
    requires
        i <= s@.len(),
    ensures
        e == run_end(s@, i as int, class_fn(c)),
        i <= e <= s@.len(),
{
    let mut j = i;
    while j < s.len() && in_class(c, s[j])
        invariant
            i <= j <= s@.len(),
            run_end(s@, i as int, class_fn(c)) == run_end(s@, j as int, class_fn(c)),
        decreases s@.len() - j,
    {
        j = j + 1;
    }
    proof {
        lemma_run_end(s@, i as int, class_fn(c));
    }
    j
}

/// Whether `t` occurs in `s` at `i`.
pub fn matches_str_at(s: &Vec<char>, i: usize, t: &str) -> (r: bool)
    ensures
        r == matches_at(s@, i as int, t@),
{
    let n = t.unicode_len();
    if i > s.len() || n > s.len() - i {
        return false;
    }
    let mut k: usize = 0;
    while k < n
        invariant
            n == t@.len(),
            i + n <= s.len(),
            s.len() == s@.len(),
            k <= n,
            forall|m: int| 0 <= m < k ==> s@[i + m] == t@[m],
        decreases n - k,
    {
        if s[i + k] != t.get_char(k) {
            assert(s@.subrange(i as int, i + n)[k as int] != t@[k as int]);
            return false;
        }
        k = k + 1;
    }
    assert(s@.subrange(i as int, i + n) =~= t@);
    true
}

/// The characters `s[i..e]`.
pub fn copy_range(s: &Vec<char>, i: usize, e: usize) -> (r: Vec<char>)
    requires
        i <= e <= s@.len(),
    ensures
        r@ == s@.subrange(i as int, e as int),
{
    let mut r: Vec<char> = Vec::new();
    let mut k = i;
    while k < e
        invariant
            i <= k <= e <= s@.len(),
            r@ == s@.subrange(i as int, k as int),
        decreases e - k,
    {
        r.push(s[k]);
        k = k + 1;
        assert(r@ =~= s@.subrange(i as int, k as int));
    }
    r
}

// ---------------------------------------------------------------------------
// Numbers

pub fn digit_value_exec(ch: char) -> (r: u64)
    requires
        is_radix_digit(ch, 16),
    ensures
        r == digit_value(ch),
        r < 16,
{
    if '0' <= ch && ch <= '9' {
        (ch as u32 - '0' as u32) as u64
    } else if 'a' <= ch && ch <= 'f' {
        (ch as u32 - 'a' as u32 + 10) as u64
    } else {
        (ch as u32 - 'A' as u32 + 10) as u64
    }
}

proof fn lemma_wrap_step(v: nat, r: nat, d: nat)
    requires
        r <= 16,
        d < 16,
    ensures
        wrap64(v * r + d) == vstd::wrapping::u64_specs::wrapping_add(
            vstd::wrapping::u64_specs::wrapping_mul(wrap64(v), r as u64),
            d as u64,
        ),
{
    let m: int = 0x1_0000_0000_0000_0000;
    lemma_mul_mod_noop_left(v as int, r as int, m);
    lemma_add_mod_noop((v * r) as int, d as int, m);
    lemma_add_mod_noop(((wrap64(v) as nat * r) % (m as nat)) as int, d as int, m);
    assert((d as int) % m == d);
    let a = ((wrap64(v) as nat * r) % (m as nat)) as int;
    assert(0 <= a < m);
    assert((a % m) == a);
}

proof fn lemma_radix_digit_is_hex_digit(ch: char, radix: u32)
    requires
        radix == 2 || radix == 8 || radix == 10 || radix == 16,
        is_radix_digit(ch, radix),
    ensures
        is_radix_digit(ch, 16),
{
    if radix != 16 {
        assert((ch as u32) <= ('9' as u32));
    }
}

/// Whether digits of this radix may occur at `s[k]` for all `k` in `i..j`.
pub open spec fn all_digits(s: Seq<char>, i: int, j: int, radix: u32) -> bool {
    forall|k: int| i <= k < j ==> is_radix_digit(#[trigger] s[k], radix)
}

/// The value of the digits `s[i..e]`, wrapped to 64 bits.
pub fn digits_value_exec(s: &Vec<char>, i: usize, e: usize, radix: u32) -> (r: u64)
    requires
        i <= e <= s@.len(),
        radix == 2 || radix == 8 || radix == 10 || radix == 16,
        all_digits(s@, i as int, e as int, radix),
    ensures
        r == wrap64(digits_value(s@, i as int, e as int, radix)),
{
    let mut value: u64 = 0;
    let mut k = i;
    while k < e
        invariant
            i <= k <= e <= s@.len(),
            radix == 2 || radix == 8 || radix == 10 || radix == 16,
            all_digits(s@, i as int, e as int, radix),
            value == wrap64(digits_value(s@, i as int, k as int, radix)),
        decreases e - k,
    {
        assert(is_radix_digit(s@[k as int], radix));
        proof {
            lemma_radix_digit_is_hex_digit(s@[k as int], radix);
        }
        let d = digit_value_exec(s[k]);
        proof {
            lemma_wrap_step(digits_value(s@, i as int, k as int, radix), radix as nat, d as nat);
        }
        value = value.wrapping_mul(radix as u64).wrapping_add(d);
        k = k + 1;
    }
    value
}

// ---------------------------------------------------------------------------
// Quoted literals

/// The literal quoted by `qt` which starts at `i`: its decoded content and the index after it.
pub fn scan_quoted_exec(s: &Vec<char>, i: usize, qt: char) -> (r: Option<(Vec<char>, usize)>)
    requires
        i < s@.len(),
        s@[i as int] == qt,
    ensures
        match r {
            Some((c, e)) => quoted_at(s@, i as int, qt) == Some((c@, e as int)) && i < e <= s@.len(),
            None => quoted_at(s@, i as int, qt) is None,
        },
{
    let len = s.len();
    if i + 1 < len && s[i + 1] == qt {
        let ghost empty: Seq<char> = Seq::empty();
        assert(scan_quoted(s@, qt, i + 1, false, empty) == Some((empty, i + 2)));
        return Some((Vec::new(), i + 2));
    }
    let mut j = i + 1;
    let mut escaped = false;
    let mut content: Vec<char> = Vec::new();
    loop
        invariant
            len == s@.len(),
            i < j <= len,
            s@[i as int] == qt,
            quoted_at(s@, i as int, qt) == scan_quoted(s@, qt, j as int, escaped, content@),
        decreases len - j,
    {
        if j >= len {
            return None;
        }
        let ch = s[j];
        if !escaped && ch == qt {
            return Some((content, j + 1));
        } else if !escaped && ch == '\\' {
            escaped = true;
            j = j + 1;
        } else if !escaped && (ch == LS || ch == PS) {
            content.push(ch);
            j = j + 1;
        } else if !escaped && is_line_terminator(ch) {
            return None;
        } else if escaped && is_line_terminator(ch) {
            escaped = false;
            if ch == CR && j + 1 < len && s[j + 1] == LF {
                j = j + 2;
            } else {
                j = j + 1;
            }
        } else if escaped {
            escaped = false;
            content.push(into_escaped(ch));
            j = j + 1;
        } else {
            content.push(ch);
            j = j + 1;
        }
    }
}

// ---------------------------------------------------------------------------
// Regular expression literals

/// A regular expression body which reaches its closing slash holds at least one character
/// unless it closes at once.
pub proof fn lemma_scan_regex_non_empty(
    s: Seq<char>,
    j: int,
    escaped: bool,
    in_class: bool,
    acc: Seq<char>,
)
    requires
        acc.len() > 0 || escaped || in_class || (0 <= j < s.len() && s[j] != '/'),
    ensures
        scan_regex(s, j, escaped, in_class, acc) matches Some((c, _)) ==> c.len() > 0,
    decreases s.len() - j,
{
    if 0 <= j < s.len() {
        let ch = s[j];
        if ch == '/' && !escaped && !in_class {
        } else if ch == '\\' && !escaped {
            lemma_scan_regex_non_empty(s, j + 1, true, in_class, acc);
        } else if ch == '[' && !escaped && !in_class {
            lemma_scan_regex_non_empty(s, j + 1, false, true, acc.push('['));
        } else if ch == ']' && !escaped && in_class {
            lemma_scan_regex_non_empty(s, j + 1, false, false, acc.push(']'));
        } else if spec_is_line_terminator(ch) {
        } else if escaped {
            lemma_scan_regex_non_empty(s, j + 1, false, in_class, acc.push(spec_into_escaped(ch)));
        } else {
            lemma_scan_regex_non_empty(s, j + 1, false, in_class, acc.push(ch));
        }
    }
}

/// The regular expression literal which starts at `i`: its body, its flags and the index
/// after it.
pub fn scan_regex_exec(s: &Vec<char>, i: usize) -> (r: Option<(Vec<char>, Vec<char>, usize)>)
    requires
        i < s@.len(),
    ensures
        match r {
            Some((c, f, e)) => regex_at(s@, i as int) == Some((c@, f@, e as int)) && c@.len() > 0
                && i < e <= s@.len(),
            None => regex_at(s@, i as int) is None,
        },
{
    let len = s.len();
    if s[i] != '/' || (i + 1 < len && (s[i + 1] == '*' || s[i + 1] == '/')) {
        return None;
    }
    let mut j = i + 1;
    let mut escaped = false;
    let mut in_class = false;
    let mut content: Vec<char> = Vec::new();
    proof {
        if i + 1 < len {
            lemma_scan_regex_non_empty(s@, i + 1, false, false, Seq::empty());
        }
    }
    loop
        invariant
            len == s@.len(),
            i < j <= len,
            s@[i as int] == '/',
            !(char_at(s@, i + 1) == Some('*') || char_at(s@, i + 1) == Some('/')),
            scan_regex(s@, i + 1, false, false, Seq::empty()) == scan_regex(
                s@,
                j as int,
                escaped,
                in_class,
                content@,
            ),
            scan_regex(s@, i + 1, false, false, Seq::empty()) matches Some((c, _)) ==> c.len()
                > 0,
        decreases len - j,
    {
        if j >= len {
            return None;
        }
        let ch = s[j];
        if ch == '/' && !escaped && !in_class {
            let f = scan_run(s, j + 1, CharClass::IdentifierStart);
            let flags = copy_range(s, j + 1, f);
            return Some((content, flags, f));
        } else if ch == '\\' && !escaped {
            escaped = true;
        } else if ch == '[' && !escaped && !in_class {
            in_class = true;
            content.push('[');
        } else if ch == ']' && !escaped && in_class {
            in_class = false;
            content.push(']');
        } else if is_line_terminator(ch) {
            return None;
        } else if escaped {
            escaped = false;
            content.push(into_escaped(ch));
        } else {
            content.push(ch);
        }
        j = j + 1;
    }
}

// ---------------------------------------------------------------------------
// Comments, punctuators and keywords

/// The index of the first `*/` at or after `j`.
pub fn find_comment_end(s: &Vec<char>, j: usize) -> (r: Option<usize>)
    requires
        j <= s@.len(),
    ensures
        match r {
            Some(k) => comment_end(s@, j as int) == Some(k as int) && j <= k && k + 2 <= s@.len(),
            None => comment_end(s@, j as int) is None,
        },
{
    let len = s.len();
    let mut k = j;
    while k < len
        invariant
            len == s@.len(),
            j <= k <= len,
            comment_end(s@, j as int) == comment_end(s@, k as int),
        decreases len - k,
    {
        if s[k] == '*' && k + 1 < len && s[k + 1] == '/' {
            return Some(k);
        }
        k = k + 1;
    }
    None
}

/// The first punctuator, in lexical order, which occurs at `i`.
pub fn scan_punctuator(s: &Vec<char>, i: usize) -> (r: Option<Punctuator>)
    ensures
        r == punctuator_at(s@, i as int),
        r matches Some(p) ==> punctuator_chars(p).len() > 0,
{
    let order = Punctuator::enumerate_in_lexical_order();
    let mut k: usize = 0;
    while k < order.len()
        invariant
            order@ == punctuators_in_lexical_order(),
            k <= order@.len(),
            punctuator_at(s@, i as int) == punctuator_from(s@, i as int, k as int),
        decreases order@.len() - k,
    {
        let p = order[k];
        assert(punctuator_chars(p).len() > 0);
        if matches_str_at(s, i, p.as_str()) {
            return Some(p);
        }
        k = k + 1;
    }
    None
}

/// A punctuator found at `i` occurs there.
pub proof fn lemma_punctuator_from_matches(s: Seq<char>, i: int, k: int)
    ensures
        punctuator_from(s, i, k) matches Some(p) ==> matches_at(s, i, punctuator_chars(p)),
    decreases punctuators_in_lexical_order().len() - k,
{
    if 0 <= k < punctuators_in_lexical_order().len() && !matches_at(
        s,
        i,
        punctuator_chars(punctuators_in_lexical_order()[k]),
    ) {
        lemma_punctuator_from_matches(s, i, k + 1);
    }
}

/// The keyword whose name is `t`, if any.
pub fn lookup_keyword(t: &Vec<char>) -> (r: Option<Keyword>)
    ensures
        r == keyword_named(t@),
{
    let name = string_from_chars(t);
    match variant_from_str::<Keyword>(name.as_str()) {
        Ok(k) => {
            proof {
                let i = choose|i: int|
                    #![trigger all_keywords()[i]]
                    0 <= i < all_keywords().len() && all_keywords()[i] == k
                        && k.spec_as_str() == t@ && forall|j: int|
                        0 <= j < i ==> (#[trigger] all_keywords()[j]).spec_as_str() != t@;
                assert(is_first_keyword_named(t@, i));
                let i2 = choose|i: int| is_first_keyword_named(t@, i);
                if i2 < i {
                    assert(keyword_chars(all_keywords()[i2]) != t@);
                } else if i < i2 {
                    assert(keyword_chars(all_keywords()[i]) != t@);
                }
            }
            Some(k)
        },
        Err(_) => {
            proof {
                if exists|i: int| is_first_keyword_named(t@, i) {
                    let i = choose|i: int| is_first_keyword_named(t@, i);
                    assert(all_keywords()[i].spec_as_str() == t@);
                }
            }
            None
        },
    }
}

} // verus!
