use crate::enumerate::{Enumerate, EnumerateStr, NoSuchVariantError};
use crate::util::str_eq;
use vstd::prelude::*;

verus! {

/// A reserved word of the language. Some of these are only reserved in certain contexts.
#[derive(Copy, Clone, Debug, PartialEq, Eq, Structural)]
pub enum Keyword {
    As,
    Async,
    Await,
    Break,
    Case,
    Catch,
    Class,
    Const,
    Continue,
    Debugger,
    Default,
    Delete,
    Do,
    Else,
    Enum,
    Export,
    Extends,
    Finally,
    For,
    From,
    Function,
    Get,
    If,
    Implements,
    Import,
    In,
    Instanceof,
    Interface,
    Let,
    New,
    Of,
    Package,
    Private,
    Protected,
    Public,
    Return,
    SetKeyword,
    Static,
    Super,
    Switch,
    Target,
    This,
    Throw,
    Try,
    Typeof,
    Var,
    Void,
    While,
    With,
    Yield,
}

/// The source text of a keyword: its variant name in lower case.
pub open spec fn keyword_chars(kw: Keyword) -> Seq<char> {
    match kw {
        Keyword::As => seq!['a', 's'],
        Keyword::Async => seq!['a', 's', 'y', 'n', 'c'],
        Keyword::Await => seq!['a', 'w', 'a', 'i', 't'],
        Keyword::Break => seq!['b', 'r', 'e', 'a', 'k'],
        Keyword::Case => seq!['c', 'a', 's', 'e'],
        Keyword::Catch => seq!['c', 'a', 't', 'c', 'h'],
        Keyword::Class => seq!['c', 'l', 'a', 's', 's'],
        Keyword::Const => seq!['c', 'o', 'n', 's', 't'],
        Keyword::Continue => seq!['c', 'o', 'n', 't', 'i', 'n', 'u', 'e'],
        Keyword::Debugger => seq!['d', 'e', 'b', 'u', 'g', 'g', 'e', 'r'],
        Keyword::Default => seq!['d', 'e', 'f', 'a', 'u', 'l', 't'],
        Keyword::Delete => seq!['d', 'e', 'l', 'e', 't', 'e'],
        Keyword::Do => seq!['d', 'o'],
        Keyword::Else => seq!['e', 'l', 's', 'e'],
        Keyword::Enum => seq!['e', 'n', 'u', 'm'],
        Keyword::Export => seq!['e', 'x', 'p', 'o', 'r', 't'],
        Keyword::Extends => seq!['e', 'x', 't', 'e', 'n', 'd', 's'],
        Keyword::Finally => seq!['f', 'i', 'n', 'a', 'l', 'l', 'y'],
        Keyword::For => seq!['f', 'o', 'r'],
        Keyword::From => seq!['f', 'r', 'o', 'm'],
        Keyword::Function => seq!['f', 'u', 'n', 'c', 't', 'i', 'o', 'n'],
        Keyword::Get => seq!['g', 'e', 't'],
        Keyword::If => seq!['i', 'f'],
        Keyword::Implements => seq!['i', 'm', 'p', 'l', 'e', 'm', 'e', 'n', 't', 's'],
        Keyword::Import => seq!['i', 'm', 'p', 'o', 'r', 't'],
        Keyword::In => seq!['i', 'n'],
        Keyword::Instanceof => seq!['i', 'n', 's', 't', 'a', 'n', 'c', 'e', 'o', 'f'],
        Keyword::Interface => seq!['i', 'n', 't', 'e', 'r', 'f', 'a', 'c', 'e'],
        Keyword::Let => seq!['l', 'e', 't'],
        Keyword::New => seq!['n', 'e', 'w'],
        Keyword::Of => seq!['o', 'f'],
        Keyword::Package => seq!['p', 'a', 'c', 'k', 'a', 'g', 'e'],
        Keyword::Private => seq!['p', 'r', 'i', 'v', 'a', 't', 'e'],
        Keyword::Protected => seq!['p', 'r', 'o', 't', 'e', 'c', 't', 'e', 'd'],
        Keyword::Public => seq!['p', 'u', 'b', 'l', 'i', 'c'],
        Keyword::Return => seq!['r', 'e', 't', 'u', 'r', 'n'],
        Keyword::SetKeyword => seq!['s', 'e', 't'],
        Keyword::Static => seq!['s', 't', 'a', 't', 'i', 'c'],
        Keyword::Super => seq!['s', 'u', 'p', 'e', 'r'],
        Keyword::Switch => seq!['s', 'w', 'i', 't', 'c', 'h'],
        Keyword::Target => seq!['t', 'a', 'r', 'g', 'e', 't'],
        Keyword::This => seq!['t', 'h', 'i', 's'],
        Keyword::Throw => seq!['t', 'h', 'r', 'o', 'w'],
        Keyword::Try => seq!['t', 'r', 'y'],
        Keyword::Typeof => seq!['t', 'y', 'p', 'e', 'o', 'f'],
        Keyword::Var => seq!['v', 'a', 'r'],
        Keyword::Void => seq!['v', 'o', 'i', 'd'],
        Keyword::While => seq!['w', 'h', 'i', 'l', 'e'],
        Keyword::With => seq!['w', 'i', 't', 'h'],
        Keyword::Yield => seq!['y', 'i', 'e', 'l', 'd'],
    }
}

/// Every keyword, in declaration order.
pub open spec fn all_keywords() -> Seq<Keyword> {
    seq![Keyword::As, Keyword::Async, Keyword::Await, Keyword::Break, Keyword::Case, Keyword::Catch, Keyword::Class, Keyword::Const, Keyword::Continue, Keyword::Debugger, Keyword::Default, Keyword::Delete, Keyword::Do, Keyword::Else, Keyword::Enum, Keyword::Export, Keyword::Extends, Keyword::Finally, Keyword::For, Keyword::From, Keyword::Function, Keyword::Get, Keyword::If, Keyword::Implements, Keyword::Import, Keyword::In, Keyword::Instanceof, Keyword::Interface, Keyword::Let, Keyword::New, Keyword::Of, Keyword::Package, Keyword::Private, Keyword::Protected, Keyword::Public, Keyword::Return, Keyword::SetKeyword, Keyword::Static, Keyword::Super, Keyword::Switch, Keyword::Target, Keyword::This, Keyword::Throw, Keyword::Try, Keyword::Typeof, Keyword::Var, Keyword::Void, Keyword::While, Keyword::With, Keyword::Yield]
}

impl Enumerate for Keyword {
    open spec fn spec_enumerate() -> Seq<Keyword> {
        all_keywords()
    }

    fn enumerate() -> (r: Vec<Keyword>) {
        let r = vec![Keyword::As, Keyword::Async, Keyword::Await, Keyword::Break, Keyword::Case, Keyword::Catch, Keyword::Class, Keyword::Const, Keyword::Continue, Keyword::Debugger, Keyword::Default, Keyword::Delete, Keyword::Do, Keyword::Else, Keyword::Enum, Keyword::Export, Keyword::Extends, Keyword::Finally, Keyword::For, Keyword::From, Keyword::Function, Keyword::Get, Keyword::If, Keyword::Implements, Keyword::Import, Keyword::In, Keyword::Instanceof, Keyword::Interface, Keyword::Let, Keyword::New, Keyword::Of, Keyword::Package, Keyword::Private, Keyword::Protected, Keyword::Public, Keyword::Return, Keyword::SetKeyword, Keyword::Static, Keyword::Super, Keyword::Switch, Keyword::Target, Keyword::This, Keyword::Throw, Keyword::Try, Keyword::Typeof, Keyword::Var, Keyword::Void, Keyword::While, Keyword::With, Keyword::Yield];
        assert(r@ =~= all_keywords());
        r
    }
}

impl EnumerateStr for Keyword {
    open spec fn spec_as_str(&self) -> Seq<char> {
        keyword_chars(*self)
    }

    fn as_str(&self) -> (r: &'static str) {
        match self {
            Keyword::As => {
                proof {
                    reveal_strlit("as");
                }
                "as"
            },
            Keyword::Async => {
                proof {
                    reveal_strlit("async");
                }
                "async"
            },
            Keyword::Await => {
                proof {
                    reveal_strlit("await");
                }
                "await"
            },
            Keyword::Break => {
                proof {
                    reveal_strlit("break");
                }
                "break"
            },
            Keyword::Case => {
                proof {
                    reveal_strlit("case");
                }
                "case"
            },
            Keyword::Catch => {
                proof {
                    reveal_strlit("catch");
                }
                "catch"
            },
            Keyword::Class => {
                proof {
                    reveal_strlit("class");
                }
                "class"
            },
            Keyword::Const => {
                proof {
                    reveal_strlit("const");
                }
                "const"
            },
            Keyword::Continue => {
                proof {
                    reveal_strlit("continue");
                }
                "continue"
            },
            Keyword::Debugger => {
                proof {
                    reveal_strlit("debugger");
                }
                "debugger"
            },
            Keyword::Default => {
                proof {
                    reveal_strlit("default");
                }
                "default"
            },
            Keyword::Delete => {
                proof {
                    reveal_strlit("delete");
                }
                "delete"
            },
            Keyword::Do => {
                proof {
                    reveal_strlit("do");
                }
                "do"
            },
            Keyword::Else => {
                proof {
                    reveal_strlit("else");
                }
                "else"
            },
            Keyword::Enum => {
                proof {
                    reveal_strlit("enum");
                }
                "enum"
            },
            Keyword::Export => {
                proof {
                    reveal_strlit("export");
                }
                "export"
            },
            Keyword::Extends => {
                proof {
                    reveal_strlit("extends");
                }
                "extends"
            },
            Keyword::Finally => {
                proof {
                    reveal_strlit("finally");
                }
                "finally"
            },
            Keyword::For => {
                proof {
                    reveal_strlit("for");
                }
                "for"
            },
            Keyword::From => {
                proof {
                    reveal_strlit("from");
                }
                "from"
            },
            Keyword::Function => {
                proof {
                    reveal_strlit("function");
                }
                "function"
            },
            Keyword::Get => {
                proof {
                    reveal_strlit("get");
                }
                "get"
            },
            Keyword::If => {
                proof {
                    reveal_strlit("if");
                }
                "if"
            },
            Keyword::Implements => {
                proof {
                    reveal_strlit("implements");
                }
                "implements"
            },
            Keyword::Import => {
                proof {
                    reveal_strlit("import");
                }
                "import"
            },
            Keyword::In => {
                proof {
                    reveal_strlit("in");
                }
                "in"
            },
            Keyword::Instanceof => {
                proof {
                    reveal_strlit("instanceof");
                }
                "instanceof"
            },
            Keyword::Interface => {
                proof {
                    reveal_strlit("interface");
                }
                "interface"
            },
            Keyword::Let => {
                proof {
                    reveal_strlit("let");
                }
                "let"
            },
            Keyword::New => {
                proof {
                    reveal_strlit("new");
                }
                "new"
            },
            Keyword::Of => {
                proof {
                    reveal_strlit("of");
                }
                "of"
            },
            Keyword::Package => {
                proof {
                    reveal_strlit("package");
                }
                "package"
            },
            Keyword::Private => {
                proof {
                    reveal_strlit("private");
                }
                "private"
            },
            Keyword::Protected => {
                proof {
                    reveal_strlit("protected");
                }
                "protected"
            },
            Keyword::Public => {
                proof {
                    reveal_strlit("public");
                }
                "public"
            },
            Keyword::Return => {
                proof {
                    reveal_strlit("return");
                }
                "return"
            },
            Keyword::SetKeyword => {
                proof {
                    reveal_strlit("set");
                }
                "set"
            },
            Keyword::Static => {
                proof {
                    reveal_strlit("static");
                }
                "static"
            },
            Keyword::Super => {
                proof {
                    reveal_strlit("super");
                }
                "super"
            },
            Keyword::Switch => {
                proof {
                    reveal_strlit("switch");
                }
                "switch"
            },
            Keyword::Target => {
                proof {
                    reveal_strlit("target");
                }
                "target"
            },
            Keyword::This => {
                proof {
                    reveal_strlit("this");
                }
                "this"
            },
            Keyword::Throw => {
                proof {
                    reveal_strlit("throw");
                }
                "throw"
            },
            Keyword::Try => {
                proof {
                    reveal_strlit("try");
                }
                "try"
            },
            Keyword::Typeof => {
                proof {
                    reveal_strlit("typeof");
                }
                "typeof"
            },
            Keyword::Var => {
                proof {
                    reveal_strlit("var");
                }
                "var"
            },
            Keyword::Void => {
                proof {
                    reveal_strlit("void");
                }
                "void"
            },
            Keyword::While => {
                proof {
                    reveal_strlit("while");
                }
                "while"
            },
            Keyword::With => {
                proof {
                    reveal_strlit("with");
                }
                "with"
            },
            Keyword::Yield => {
                proof {
                    reveal_strlit("yield");
                }
                "yield"
            },
        }
    }
}

} // verus!
