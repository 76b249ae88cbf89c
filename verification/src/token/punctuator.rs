use crate::enumerate::{Enumerate, EnumerateStr, NoSuchVariantError};
use crate::util::str_eq;
use vstd::prelude::*;

verus! {

/// A punctuation token.
#[derive(Copy, Clone, Debug, PartialEq, Eq, Structural)]
pub enum Punctuator {
    Ampersand,
    AmpersandEqual,
    Asterisk,
    AsteriskEqual,
    Bang,
    BangDoubleEqual,
    BangEqual,
    Caret,
    CaretEqual,
    CloseBrace,
    CloseBracket,
    CloseParen,
    Colon,
    Comma,
    Dot,
    DoubleAmpersand,
    DoubleAsterisk,
    DoubleAsteriskEqual,
    DoubleEqual,
    DoubleLessThan,
    DoubleLessThanEqual,
    DoubleMoreThan,
    DoubleMoreThanEqual,
    DoubleMinus,
    DoublePipe,
    DoublePlus,
    DoubleQuestion,
    Equal,
    EqualMoreThan,
    LessThan,
    LessThanEqual,
    Minus,
    MinusEqual,
    MoreThan,
    MoreThanEqual,
    OpenBrace,
    OpenBracket,
    OpenParen,
    Percent,
    PercentEqual,
    Pipe,
    PipeEqual,
    Plus,
    PlusEqual,
    Question,
    Semicolon,
    Slash,
    SlashEqual,
    Tilde,
    TripleDot,
    TripleEqual,
    TripleMoreThan,
    TripleMoreThanEqual,
}

/// The source text of a punctuator.
pub open spec fn punctuator_chars(p: Punctuator) -> Seq<char> {
    match p {
        Punctuator::Ampersand => seq!['&'],
        Punctuator::AmpersandEqual => seq!['&', '='],
        Punctuator::Asterisk => seq!['*'],
        Punctuator::AsteriskEqual => seq!['*', '='],
        Punctuator::Bang => seq!['!'],
        Punctuator::BangDoubleEqual => seq!['!', '=', '='],
        Punctuator::BangEqual => seq!['!', '='],
        Punctuator::Caret => seq!['^'],
        Punctuator::CaretEqual => seq!['^', '='],
        Punctuator::CloseBrace => seq!['}'],
        Punctuator::CloseBracket => seq![']'],
        Punctuator::CloseParen => seq![')'],
        Punctuator::Colon => seq![':'],
        Punctuator::Comma => seq![','],
        Punctuator::Dot => seq!['.'],
        Punctuator::DoubleAmpersand => seq!['&', '&'],
        Punctuator::DoubleAsterisk => seq!['*', '*'],
        Punctuator::DoubleAsteriskEqual => seq!['*', '*', '='],
        Punctuator::DoubleEqual => seq!['=', '='],
        Punctuator::DoubleLessThan => seq!['<', '<'],
        Punctuator::DoubleLessThanEqual => seq!['<', '<', '='],
        Punctuator::DoubleMoreThan => seq!['>', '>'],
        Punctuator::DoubleMoreThanEqual => seq!['>', '>', '='],
        Punctuator::DoubleMinus => seq!['-', '-'],
        Punctuator::DoublePipe => seq!['|', '|'],
        Punctuator::DoublePlus => seq!['+', '+'],
        Punctuator::DoubleQuestion => seq!['?', '?'],
        Punctuator::Equal => seq!['='],
        Punctuator::EqualMoreThan => seq!['=', '>'],
        Punctuator::LessThan => seq!['<'],
        Punctuator::LessThanEqual => seq!['<', '='],
        Punctuator::Minus => seq!['-'],
        Punctuator::MinusEqual => seq!['-', '='],
        Punctuator::MoreThan => seq!['>'],
        Punctuator::MoreThanEqual => seq!['>', '='],
        Punctuator::OpenBrace => seq!['{'],
        Punctuator::OpenBracket => seq!['['],
        Punctuator::OpenParen => seq!['('],
        Punctuator::Percent => seq!['%'],
        Punctuator::PercentEqual => seq!['%', '='],
        Punctuator::Pipe => seq!['|'],
        Punctuator::PipeEqual => seq!['|', '='],
        Punctuator::Plus => seq!['+'],
        Punctuator::PlusEqual => seq!['+', '='],
        Punctuator::Question => seq!['?'],
        Punctuator::Semicolon => seq![';'],
        Punctuator::Slash => seq!['/'],
        Punctuator::SlashEqual => seq!['/', '='],
        Punctuator::Tilde => seq!['~'],
        Punctuator::TripleDot => seq!['.', '.', '.'],
        Punctuator::TripleEqual => seq!['=', '=', '='],
        Punctuator::TripleMoreThan => seq!['>', '>', '>'],
        Punctuator::TripleMoreThanEqual => seq!['>', '>', '>', '='],
    }
}

/// Every punctuator, in declaration order.
pub open spec fn all_punctuators() -> Seq<Punctuator> {
    seq![Punctuator::Ampersand, Punctuator::AmpersandEqual, Punctuator::Asterisk, Punctuator::AsteriskEqual, Punctuator::Bang, Punctuator::BangDoubleEqual, Punctuator::BangEqual, Punctuator::Caret, Punctuator::CaretEqual, Punctuator::CloseBrace, Punctuator::CloseBracket, Punctuator::CloseParen, Punctuator::Colon, Punctuator::Comma, Punctuator::Dot, Punctuator::DoubleAmpersand, Punctuator::DoubleAsterisk, Punctuator::DoubleAsteriskEqual, Punctuator::DoubleEqual, Punctuator::DoubleLessThan, Punctuator::DoubleLessThanEqual, Punctuator::DoubleMoreThan, Punctuator::DoubleMoreThanEqual, Punctuator::DoubleMinus, Punctuator::DoublePipe, Punctuator::DoublePlus, Punctuator::DoubleQuestion, Punctuator::Equal, Punctuator::EqualMoreThan, Punctuator::LessThan, Punctuator::LessThanEqual, Punctuator::Minus, Punctuator::MinusEqual, Punctuator::MoreThan, Punctuator::MoreThanEqual, Punctuator::OpenBrace, Punctuator::OpenBracket, Punctuator::OpenParen, Punctuator::Percent, Punctuator::PercentEqual, Punctuator::Pipe, Punctuator::PipeEqual, Punctuator::Plus, Punctuator::PlusEqual, Punctuator::Question, Punctuator::Semicolon, Punctuator::Slash, Punctuator::SlashEqual, Punctuator::Tilde, Punctuator::TripleDot, Punctuator::TripleEqual, Punctuator::TripleMoreThan, Punctuator::TripleMoreThanEqual]
}

/// Every punctuator, ordered so that a punctuator comes before every shorter one that is a
/// prefix of it.
pub open spec fn punctuators_in_lexical_order() -> Seq<Punctuator> {
    seq![Punctuator::DoubleAmpersand, Punctuator::AmpersandEqual, Punctuator::Ampersand, Punctuator::DoubleAsteriskEqual, Punctuator::DoubleAsterisk, Punctuator::AsteriskEqual, Punctuator::Asterisk, Punctuator::BangDoubleEqual, Punctuator::BangEqual, Punctuator::Bang, Punctuator::CaretEqual, Punctuator::Caret, Punctuator::CloseBrace, Punctuator::CloseBracket, Punctuator::CloseParen, Punctuator::Colon, Punctuator::Comma, Punctuator::TripleDot, Punctuator::Dot, Punctuator::TripleEqual, Punctuator::DoubleEqual, Punctuator::EqualMoreThan, Punctuator::Equal, Punctuator::DoubleLessThanEqual, Punctuator::DoubleLessThan, Punctuator::LessThanEqual, Punctuator::LessThan, Punctuator::DoubleMinus, Punctuator::MinusEqual, Punctuator::Minus, Punctuator::TripleMoreThanEqual, Punctuator::TripleMoreThan, Punctuator::DoubleMoreThanEqual, Punctuator::DoubleMoreThan, Punctuator::MoreThanEqual, Punctuator::MoreThan, Punctuator::OpenBrace, Punctuator::OpenBracket, Punctuator::OpenParen, Punctuator::PercentEqual, Punctuator::Percent, Punctuator::DoublePipe, Punctuator::PipeEqual, Punctuator::Pipe, Punctuator::DoublePlus, Punctuator::PlusEqual, Punctuator::Plus, Punctuator::DoubleQuestion, Punctuator::Question, Punctuator::Semicolon, Punctuator::SlashEqual, Punctuator::Slash, Punctuator::Tilde]
}

/// Where a first character stands among the first characters of the punctuators, in the
/// order in which the lexer tries them.
spec fn first_char_rank(c: char) -> int {
    if c == '&' { 0 } else if c == '*' { 1 } else if c == '!' { 2 } else if c == '^' { 3 } else if c == '}' {
        4
    } else if c == ']' { 5 } else if c == ')' { 6 } else if c == ':' { 7 } else if c == ',' { 8 } else if c == '.' {
        9
    } else if c == '=' { 10 } else if c == '<' { 11 } else if c == '-' { 12 } else if c == '>' { 13 } else if c
        == '{' {
        14
    } else if c == '[' { 15 } else if c == '(' { 16 } else if c == '%' { 17 } else if c == '|' { 18 } else if c == '+' {
        19
    } else if c == '?' { 20 } else if c == ';' { 21 } else if c == '/' { 22 } else { 23 }
}

/// Orders punctuators by first character, as the lexer tries them, and then longest first.
spec fn lexical_key(p: Punctuator) -> int {
    first_char_rank(punctuator_chars(p)[0]) * 8 + 7 - punctuator_chars(p).len()
}

/// `a` is a proper prefix of `b`: shorter, and `b` starts with it.
pub open spec fn is_proper_prefix(a: Seq<char>, b: Seq<char>) -> bool {
    a.len() < b.len() && b.subrange(0, a.len() as int) == a
}

proof fn lemma_lexical_keys_ascend(k: int)
    requires
        0 <= k < punctuators_in_lexical_order().len() - 1,
    ensures
        lexical_key(punctuators_in_lexical_order()[k]) <= lexical_key(
            punctuators_in_lexical_order()[k + 1],
        ),
{
    let l = punctuators_in_lexical_order();
        if k == 0 {
            assert(lexical_key(l[0]) <= lexical_key(l[1]));
        } else if k == 1 {
            assert(lexical_key(l[1]) <= lexical_key(l[2]));
        } else if k == 2 {
            assert(lexical_key(l[2]) <= lexical_key(l[3]));
        } else if k == 3 {
            assert(lexical_key(l[3]) <= lexical_key(l[4]));
        } else if k == 4 {
            assert(lexical_key(l[4]) <= lexical_key(l[5]));
        } else if k == 5 {
            assert(lexical_key(l[5]) <= lexical_key(l[6]));
        } else if k == 6 {
            assert(lexical_key(l[6]) <= lexical_key(l[7]));
        } else if k == 7 {
            assert(lexical_key(l[7]) <= lexical_key(l[8]));
        } else if k == 8 {
            assert(lexical_key(l[8]) <= lexical_key(l[9]));
        } else if k == 9 {
            assert(lexical_key(l[9]) <= lexical_key(l[10]));
        } else if k == 10 {
            assert(lexical_key(l[10]) <= lexical_key(l[11]));
        } else if k == 11 {
            assert(lexical_key(l[11]) <= lexical_key(l[12]));
        } else if k == 12 {
            assert(lexical_key(l[12]) <= lexical_key(l[13]));
        } else if k == 13 {
            assert(lexical_key(l[13]) <= lexical_key(l[14]));
        } else if k == 14 {
            assert(lexical_key(l[14]) <= lexical_key(l[15]));
        } else if k == 15 {
            assert(lexical_key(l[15]) <= lexical_key(l[16]));
        } else if k == 16 {
            assert(lexical_key(l[16]) <= lexical_key(l[17]));
        } else if k == 17 {
            assert(lexical_key(l[17]) <= lexical_key(l[18]));
        } else if k == 18 {
            assert(lexical_key(l[18]) <= lexical_key(l[19]));
        } else if k == 19 {
            assert(lexical_key(l[19]) <= lexical_key(l[20]));
        } else if k == 20 {
            assert(lexical_key(l[20]) <= lexical_key(l[21]));
        } else if k == 21 {
            assert(lexical_key(l[21]) <= lexical_key(l[22]));
        } else if k == 22 {
            assert(lexical_key(l[22]) <= lexical_key(l[23]));
        } else if k == 23 {
            assert(lexical_key(l[23]) <= lexical_key(l[24]));
        } else if k == 24 {
            assert(lexical_key(l[24]) <= lexical_key(l[25]));
        } else if k == 25 {
            assert(lexical_key(l[25]) <= lexical_key(l[26]));
        } else if k == 26 {
            assert(lexical_key(l[26]) <= lexical_key(l[27]));
        } else if k == 27 {
            assert(lexical_key(l[27]) <= lexical_key(l[28]));
        } else if k == 28 {
            assert(lexical_key(l[28]) <= lexical_key(l[29]));
        } else if k == 29 {
            assert(lexical_key(l[29]) <= lexical_key(l[30]));
        } else if k == 30 {
            assert(lexical_key(l[30]) <= lexical_key(l[31]));
        } else if k == 31 {
            assert(lexical_key(l[31]) <= lexical_key(l[32]));
        } else if k == 32 {
            assert(lexical_key(l[32]) <= lexical_key(l[33]));
        } else if k == 33 {
            assert(lexical_key(l[33]) <= lexical_key(l[34]));
        } else if k == 34 {
            assert(lexical_key(l[34]) <= lexical_key(l[35]));
        } else if k == 35 {
            assert(lexical_key(l[35]) <= lexical_key(l[36]));
        } else if k == 36 {
            assert(lexical_key(l[36]) <= lexical_key(l[37]));
        } else if k == 37 {
            assert(lexical_key(l[37]) <= lexical_key(l[38]));
        } else if k == 38 {
            assert(lexical_key(l[38]) <= lexical_key(l[39]));
        } else if k == 39 {
            assert(lexical_key(l[39]) <= lexical_key(l[40]));
        } else if k == 40 {
            assert(lexical_key(l[40]) <= lexical_key(l[41]));
        } else if k == 41 {
            assert(lexical_key(l[41]) <= lexical_key(l[42]));
        } else if k == 42 {
            assert(lexical_key(l[42]) <= lexical_key(l[43]));
        } else if k == 43 {
            assert(lexical_key(l[43]) <= lexical_key(l[44]));
        } else if k == 44 {
            assert(lexical_key(l[44]) <= lexical_key(l[45]));
        } else if k == 45 {
            assert(lexical_key(l[45]) <= lexical_key(l[46]));
        } else if k == 46 {
            assert(lexical_key(l[46]) <= lexical_key(l[47]));
        } else if k == 47 {
            assert(lexical_key(l[47]) <= lexical_key(l[48]));
        } else if k == 48 {
            assert(lexical_key(l[48]) <= lexical_key(l[49]));
        } else if k == 49 {
            assert(lexical_key(l[49]) <= lexical_key(l[50]));
        } else if k == 50 {
            assert(lexical_key(l[50]) <= lexical_key(l[51]));
        } else if k == 51 {
            assert(lexical_key(l[51]) <= lexical_key(l[52]));
        }
}

proof fn lemma_lexical_keys_sorted(i: int, j: int)
    requires
        0 <= i <= j < punctuators_in_lexical_order().len(),
    ensures
        lexical_key(punctuators_in_lexical_order()[i]) <= lexical_key(
            punctuators_in_lexical_order()[j],
        ),
    decreases j - i,
{
    if i < j {
        lemma_lexical_keys_sorted(i, j - 1);
        lemma_lexical_keys_ascend(j - 1);
    }
}

/// In the order in which the lexer tries punctuators, none comes before a longer one that it
/// is a prefix of: the first that matches the source is the longest that does.
pub proof fn lemma_lexical_order_longest_first(i: int, j: int)
    requires
        0 <= i < j < punctuators_in_lexical_order().len(),
    ensures
        !is_proper_prefix(
            punctuator_chars(punctuators_in_lexical_order()[i]),
            punctuator_chars(punctuators_in_lexical_order()[j]),
        ),
{
    let l = punctuators_in_lexical_order();
    let a = punctuator_chars(l[i]);
    let b = punctuator_chars(l[j]);
    lemma_lexical_keys_sorted(i, j);
    assert(a.len() >= 1);
    if is_proper_prefix(a, b) {
        assert(b[0] == b.subrange(0, a.len() as int)[0]);
        assert(a[0] == b[0]);
    }
}

impl Enumerate for Punctuator {
    open spec fn spec_enumerate() -> Seq<Punctuator> {
        all_punctuators()
    }

    fn enumerate() -> (r: Vec<Punctuator>) {
        let r = vec![Punctuator::Ampersand, Punctuator::AmpersandEqual, Punctuator::Asterisk, Punctuator::AsteriskEqual, Punctuator::Bang, Punctuator::BangDoubleEqual, Punctuator::BangEqual, Punctuator::Caret, Punctuator::CaretEqual, Punctuator::CloseBrace, Punctuator::CloseBracket, Punctuator::CloseParen, Punctuator::Colon, Punctuator::Comma, Punctuator::Dot, Punctuator::DoubleAmpersand, Punctuator::DoubleAsterisk, Punctuator::DoubleAsteriskEqual, Punctuator::DoubleEqual, Punctuator::DoubleLessThan, Punctuator::DoubleLessThanEqual, Punctuator::DoubleMoreThan, Punctuator::DoubleMoreThanEqual, Punctuator::DoubleMinus, Punctuator::DoublePipe, Punctuator::DoublePlus, Punctuator::DoubleQuestion, Punctuator::Equal, Punctuator::EqualMoreThan, Punctuator::LessThan, Punctuator::LessThanEqual, Punctuator::Minus, Punctuator::MinusEqual, Punctuator::MoreThan, Punctuator::MoreThanEqual, Punctuator::OpenBrace, Punctuator::OpenBracket, Punctuator::OpenParen, Punctuator::Percent, Punctuator::PercentEqual, Punctuator::Pipe, Punctuator::PipeEqual, Punctuator::Plus, Punctuator::PlusEqual, Punctuator::Question, Punctuator::Semicolon, Punctuator::Slash, Punctuator::SlashEqual, Punctuator::Tilde, Punctuator::TripleDot, Punctuator::TripleEqual, Punctuator::TripleMoreThan, Punctuator::TripleMoreThanEqual];
        assert(r@ =~= all_punctuators());
        r
    }
}

impl EnumerateStr for Punctuator {
    open spec fn spec_as_str(&self) -> Seq<char> {
        punctuator_chars(*self)
    }

    fn as_str(&self) -> (r: &'static str) {
        match self {
            Punctuator::Ampersand => {
                proof {
                    reveal_strlit("&");
                }
                "&"
            },
            Punctuator::AmpersandEqual => {
                proof {
                    reveal_strlit("&=");
                }
                "&="
            },
            Punctuator::Asterisk => {
                proof {
                    reveal_strlit("*");
                }
                "*"
            },
            Punctuator::AsteriskEqual => {
                proof {
                    reveal_strlit("*=");
                }
                "*="
            },
            Punctuator::Bang => {
                proof {
                    reveal_strlit("!");
                }
                "!"
            },
            Punctuator::BangDoubleEqual => {
                proof {
                    reveal_strlit("!==");
                }
                "!=="
            },
            Punctuator::BangEqual => {
                proof {
                    reveal_strlit("!=");
                }
                "!="
            },
            Punctuator::Caret => {
                proof {
                    reveal_strlit("^");
                }
                "^"
            },
            Punctuator::CaretEqual => {
                proof {
                    reveal_strlit("^=");
                }
                "^="
            },
            Punctuator::CloseBrace => {
                proof {
                    reveal_strlit("}");
                }
                "}"
            },
            Punctuator::CloseBracket => {
                proof {
                    reveal_strlit("]");
                }
                "]"
            },
            Punctuator::CloseParen => {
                proof {
                    reveal_strlit(")");
                }
                ")"
            },
            Punctuator::Colon => {
                proof {
                    reveal_strlit(":");
                }
                ":"
            },
            Punctuator::Comma => {
                proof {
                    reveal_strlit(",");
                }
                ","
            },
            Punctuator::Dot => {
                proof {
                    reveal_strlit(".");
                }
                "."
            },
            Punctuator::DoubleAmpersand => {
                proof {
                    reveal_strlit("&&");
                }
                "&&"
            },
            Punctuator::DoubleAsterisk => {
                proof {
                    reveal_strlit("**");
                }
                "**"
            },
            Punctuator::DoubleAsteriskEqual => {
                proof {
                    reveal_strlit("**=");
                }
                "**="
            },
            Punctuator::DoubleEqual => {
                proof {
                    reveal_strlit("==");
                }
                "=="
            },
            Punctuator::DoubleLessThan => {
                proof {
                    reveal_strlit("<<");
                }
                "<<"
            },
            Punctuator::DoubleLessThanEqual => {
                proof {
                    reveal_strlit("<<=");
                }
                "<<="
            },
            Punctuator::DoubleMoreThan => {
                proof {
                    reveal_strlit(">>");
                }
                ">>"
            },
            Punctuator::DoubleMoreThanEqual => {
                proof {
                    reveal_strlit(">>=");
                }
                ">>="
            },
            Punctuator::DoubleMinus => {
                proof {
                    reveal_strlit("--");
                }
                "--"
            },
            Punctuator::DoublePipe => {
                proof {
                    reveal_strlit("||");
                }
                "||"
            },
            Punctuator::DoublePlus => {
                proof {
                    reveal_strlit("++");
                }
                "++"
            },
            Punctuator::DoubleQuestion => {
                proof {
                    reveal_strlit("??");
                }
                "??"
            },
            Punctuator::Equal => {
                proof {
                    reveal_strlit("=");
                }
                "="
            },
            Punctuator::EqualMoreThan => {
                proof {
                    reveal_strlit("=>");
                }
                "=>"
            },
            Punctuator::LessThan => {
                proof {
                    reveal_strlit("<");
                }
                "<"
            },
            Punctuator::LessThanEqual => {
                proof {
                    reveal_strlit("<=");
                }
                "<="
            },
            Punctuator::Minus => {
                proof {
                    reveal_strlit("-");
                }
                "-"
            },
            Punctuator::MinusEqual => {
                proof {
                    reveal_strlit("-=");
                }
                "-="
            },
            Punctuator::MoreThan => {
                proof {
                    reveal_strlit(">");
                }
                ">"
            },
            Punctuator::MoreThanEqual => {
                proof {
                    reveal_strlit(">=");
                }
                ">="
            },
            Punctuator::OpenBrace => {
                proof {
                    reveal_strlit("{");
                }
                "{"
            },
            Punctuator::OpenBracket => {
                proof {
                    reveal_strlit("[");
                }
                "["
            },
            Punctuator::OpenParen => {
                proof {
                    reveal_strlit("(");
                }
                "("
            },
            Punctuator::Percent => {
                proof {
                    reveal_strlit("%");
                }
                "%"
            },
            Punctuator::PercentEqual => {
                proof {
                    reveal_strlit("%=");
                }
                "%="
            },
            Punctuator::Pipe => {
                proof {
                    reveal_strlit("|");
                }
                "|"
            },
            Punctuator::PipeEqual => {
                proof {
                    reveal_strlit("|=");
                }
                "|="
            },
            Punctuator::Plus => {
                proof {
                    reveal_strlit("+");
                }
                "+"
            },
            Punctuator::PlusEqual => {
                proof {
                    reveal_strlit("+=");
                }
                "+="
            },
            Punctuator::Question => {
                proof {
                    reveal_strlit("?");
                }
                "?"
            },
            Punctuator::Semicolon => {
                proof {
                    reveal_strlit(";");
                }
                ";"
            },
            Punctuator::Slash => {
                proof {
                    reveal_strlit("/");
                }
                "/"
            },
            Punctuator::SlashEqual => {
                proof {
                    reveal_strlit("/=");
                }
                "/="
            },
            Punctuator::Tilde => {
                proof {
                    reveal_strlit("~");
                }
                "~"
            },
            Punctuator::TripleDot => {
                proof {
                    reveal_strlit("...");
                }
                "..."
            },
            Punctuator::TripleEqual => {
                proof {
                    reveal_strlit("===");
                }
                "==="
            },
            Punctuator::TripleMoreThan => {
                proof {
                    reveal_strlit(">>>");
                }
                ">>>"
            },
            Punctuator::TripleMoreThanEqual => {
                proof {
                    reveal_strlit(">>>=");
                }
                ">>>="
            },
        }
    }
}

impl Punctuator {
    /// Unlike for [`Enumerate::enumerate`], **order is important**. For multiple punctuators
    /// which start with the same substring, the longest comes first. The lexer relies on this.
    pub fn enumerate_in_lexical_order() -> (r: Vec<Punctuator>)
        ensures
            r@ == punctuators_in_lexical_order(),
    {
        let r = vec![Punctuator::DoubleAmpersand, Punctuator::AmpersandEqual, Punctuator::Ampersand, Punctuator::DoubleAsteriskEqual, Punctuator::DoubleAsterisk, Punctuator::AsteriskEqual, Punctuator::Asterisk, Punctuator::BangDoubleEqual, Punctuator::BangEqual, Punctuator::Bang, Punctuator::CaretEqual, Punctuator::Caret, Punctuator::CloseBrace, Punctuator::CloseBracket, Punctuator::CloseParen, Punctuator::Colon, Punctuator::Comma, Punctuator::TripleDot, Punctuator::Dot, Punctuator::TripleEqual, Punctuator::DoubleEqual, Punctuator::EqualMoreThan, Punctuator::Equal, Punctuator::DoubleLessThanEqual, Punctuator::DoubleLessThan, Punctuator::LessThanEqual, Punctuator::LessThan, Punctuator::DoubleMinus, Punctuator::MinusEqual, Punctuator::Minus, Punctuator::TripleMoreThanEqual, Punctuator::TripleMoreThan, Punctuator::DoubleMoreThanEqual, Punctuator::DoubleMoreThan, Punctuator::MoreThanEqual, Punctuator::MoreThan, Punctuator::OpenBrace, Punctuator::OpenBracket, Punctuator::OpenParen, Punctuator::PercentEqual, Punctuator::Percent, Punctuator::DoublePipe, Punctuator::PipeEqual, Punctuator::Pipe, Punctuator::DoublePlus, Punctuator::PlusEqual, Punctuator::Plus, Punctuator::DoubleQuestion, Punctuator::Question, Punctuator::Semicolon, Punctuator::SlashEqual, Punctuator::Slash, Punctuator::Tilde];
        assert(r@ =~= punctuators_in_lexical_order());
        r
    }
}

} // verus!
