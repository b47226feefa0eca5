//! Tokens of the language: base types, keywords, literals, operators and
//! punctuation, plus an end-of-input marker.

use vstd::prelude::*;

verus! {

/// A lexical token.  Literal tokens carry their decoded payload; all other
/// tokens are bare tags.
#[derive(Debug, PartialEq)]
pub enum Token {
    // base types
    Int,
    Float,
    Double,
    Char,
    Void,
    Long,
    Short,
    // keywords
    While,
    For,
    If,
    Else,
    Do,
    Break,
    Continue,
    Return,
    Switch,
    Case,
    Default,
    Import,
    Struct,
    // operators
    Add,
    Sub,
    Div,
    Mod,
    Inc,
    Dec,
    Or,
    Bitor,
    Bitxor,
    And,
    Bitand,
    Mul,
    Equal,
    Greater,
    Less,
    Greaterequal,
    Lessequal,
    Rightshift,
    Leftshift,
    Assgin,
    Not,
    Notequal,
    Pointer,
    PointerRef,
    Dot,
    // literals
    Number(i64),
    String(String),
    Character(char),
    Name(String),
    // separators
    LParentheses,
    RParentheses,
    LBrace,
    RBrace,
    LBrackets,
    RBrackets,
    Quotes,
    Semi,
    Comma,
    Eof,
}

/// Token equality at the specification level: same tag, and for literal
/// tokens the same payload (string payloads are compared by their character
/// sequences).
pub open spec fn tok_eq(a: Token, b: Token) -> bool {
    match a {
        Token::Int => b is Int,
        Token::Float => b is Float,
        Token::Double => b is Double,
        Token::Char => b is Char,
        Token::Void => b is Void,
        Token::Long => b is Long,
        Token::Short => b is Short,
        Token::While => b is While,
        Token::For => b is For,
        Token::If => b is If,
        Token::Else => b is Else,
        Token::Do => b is Do,
        Token::Break => b is Break,
        Token::Continue => b is Continue,
        Token::Return => b is Return,
        Token::Switch => b is Switch,
        Token::Case => b is Case,
        Token::Default => b is Default,
        Token::Import => b is Import,
        Token::Struct => b is Struct,
        Token::Add => b is Add,
        Token::Sub => b is Sub,
        Token::Div => b is Div,
        Token::Mod => b is Mod,
        Token::Inc => b is Inc,
        Token::Dec => b is Dec,
        Token::Or => b is Or,
        Token::Bitor => b is Bitor,
        Token::Bitxor => b is Bitxor,
        Token::And => b is And,
        Token::Bitand => b is Bitand,
        Token::Mul => b is Mul,
        Token::Equal => b is Equal,
        Token::Greater => b is Greater,
        Token::Less => b is Less,
        Token::Greaterequal => b is Greaterequal,
        Token::Lessequal => b is Lessequal,
        Token::Rightshift => b is Rightshift,
        Token::Leftshift => b is Leftshift,
        Token::Assgin => b is Assgin,
        Token::Not => b is Not,
        Token::Notequal => b is Notequal,
        Token::Pointer => b is Pointer,
        Token::PointerRef => b is PointerRef,
        Token::Dot => b is Dot,
        Token::Number(x) => b matches Token::Number(y) && x == y,
        Token::String(x) => b matches Token::String(y) && x@ == y@,
        Token::Character(x) => b matches Token::Character(y) && x == y,
        Token::Name(x) => b matches Token::Name(y) && x@ == y@,
        Token::LParentheses => b is LParentheses,
        Token::RParentheses => b is RParentheses,
        Token::LBrace => b is LBrace,
        Token::RBrace => b is RBrace,
        Token::LBrackets => b is LBrackets,
        Token::RBrackets => b is RBrackets,
        Token::Quotes => b is Quotes,
        Token::Semi => b is Semi,
        Token::Comma => b is Comma,
        Token::Eof => b is Eof,
    }
}

/// Decides `tok_eq` for two tokens.
pub fn token_eq(a: &Token, b: &Token) -> (r: bool)
    ensures
        r == tok_eq(*a, *b),
{
    match a {
        Token::Int => matches!(b, Token::Int),
        Token::Float => matches!(b, Token::Float),
        Token::Double => matches!(b, Token::Double),
        Token::Char => matches!(b, Token::Char),
        Token::Void => matches!(b, Token::Void),
        Token::Long => matches!(b, Token::Long),
        Token::Short => matches!(b, Token::Short),
        Token::While => matches!(b, Token::While),
        Token::For => matches!(b, Token::For),
        Token::If => matches!(b, Token::If),
        Token::Else => matches!(b, Token::Else),
        Token::Do => matches!(b, Token::Do),
        Token::Break => matches!(b, Token::Break),
        Token::Continue => matches!(b, Token::Continue),
        Token::Return => matches!(b, Token::Return),
        Token::Switch => matches!(b, Token::Switch),
        Token::Case => matches!(b, Token::Case),
        Token::Default => matches!(b, Token::Default),
        Token::Import => matches!(b, Token::Import),
        Token::Struct => matches!(b, Token::Struct),
        Token::Add => matches!(b, Token::Add),
        Token::Sub => matches!(b, Token::Sub),
        Token::Div => matches!(b, Token::Div),
        Token::Mod => matches!(b, Token::Mod),
        Token::Inc => matches!(b, Token::Inc),
        Token::Dec => matches!(b, Token::Dec),
        Token::Or => matches!(b, Token::Or),
        Token::Bitor => matches!(b, Token::Bitor),
        Token::Bitxor => matches!(b, Token::Bitxor),
        Token::And => matches!(b, Token::And),
        Token::Bitand => matches!(b, Token::Bitand),
        Token::Mul => matches!(b, Token::Mul),
        Token::Equal => matches!(b, Token::Equal),
        Token::Greater => matches!(b, Token::Greater),
        Token::Less => matches!(b, Token::Less),
        Token::Greaterequal => matches!(b, Token::Greaterequal),
        Token::Lessequal => matches!(b, Token::Lessequal),
        Token::Rightshift => matches!(b, Token::Rightshift),
        Token::Leftshift => matches!(b, Token::Leftshift),
        Token::Assgin => matches!(b, Token::Assgin),
        Token::Not => matches!(b, Token::Not),
        Token::Notequal => matches!(b, Token::Notequal),
        Token::Pointer => matches!(b, Token::Pointer),
        Token::PointerRef => matches!(b, Token::PointerRef),
        Token::Dot => matches!(b, Token::Dot),
        Token::Number(x) => match b {
            Token::Number(y) => *x == *y,
            _ => false,
        },
        Token::String(x) => match b {
            Token::String(y) => *x == *y,
            _ => false,
        },
        Token::Character(x) => match b {
            Token::Character(y) => *x == *y,
            _ => false,
        },
        Token::Name(x) => match b {
            Token::Name(y) => *x == *y,
            _ => false,
        },
        Token::LParentheses => matches!(b, Token::LParentheses),
        Token::RParentheses => matches!(b, Token::RParentheses),
        Token::LBrace => matches!(b, Token::LBrace),
        Token::RBrace => matches!(b, Token::RBrace),
        Token::LBrackets => matches!(b, Token::LBrackets),
        Token::RBrackets => matches!(b, Token::RBrackets),
        Token::Quotes => matches!(b, Token::Quotes),
        Token::Semi => matches!(b, Token::Semi),
        Token::Comma => matches!(b, Token::Comma),
        Token::Eof => matches!(b, Token::Eof),
    }
}

impl Clone for Token {
    /// Clones preserve the token exactly, including literal payloads.
    fn clone(&self) -> (r: Token)
        ensures
            r == *self,
    {
        match self {
            Token::Int => Token::Int,
            Token::Float => Token::Float,
            Token::Double => Token::Double,
            Token::Char => Token::Char,
            Token::Void => Token::Void,
            Token::Long => Token::Long,
            Token::Short => Token::Short,
            Token::While => Token::While,
            Token::For => Token::For,
            Token::If => Token::If,
            Token::Else => Token::Else,
            Token::Do => Token::Do,
            Token::Break => Token::Break,
            Token::Continue => Token::Continue,
            Token::Return => Token::Return,
            Token::Switch => Token::Switch,
            Token::Case => Token::Case,
            Token::Default => Token::Default,
            Token::Import => Token::Import,
            Token::Struct => Token::Struct,
            Token::Add => Token::Add,
            Token::Sub => Token::Sub,
            Token::Div => Token::Div,
            Token::Mod => Token::Mod,
            Token::Inc => Token::Inc,
            Token::Dec => Token::Dec,
            Token::Or => Token::Or,
            Token::Bitor => Token::Bitor,
            Token::Bitxor => Token::Bitxor,
            Token::And => Token::And,
            Token::Bitand => Token::Bitand,
            Token::Mul => Token::Mul,
            Token::Equal => Token::Equal,
            Token::Greater => Token::Greater,
            Token::Less => Token::Less,
            Token::Greaterequal => Token::Greaterequal,
            Token::Lessequal => Token::Lessequal,
            Token::Rightshift => Token::Rightshift,
            Token::Leftshift => Token::Leftshift,
            Token::Assgin => Token::Assgin,
            Token::Not => Token::Not,
            Token::Notequal => Token::Notequal,
            Token::Pointer => Token::Pointer,
            Token::PointerRef => Token::PointerRef,
            Token::Dot => Token::Dot,
            Token::Number(x) => Token::Number(*x),
            Token::String(x) => Token::String(x.clone()),
            Token::Character(x) => Token::Character(*x),
            Token::Name(x) => Token::Name(x.clone()),
            Token::LParentheses => Token::LParentheses,
            Token::RParentheses => Token::RParentheses,
            Token::LBrace => Token::LBrace,
            Token::RBrace => Token::RBrace,
            Token::LBrackets => Token::LBrackets,
            Token::RBrackets => Token::RBrackets,
            Token::Quotes => Token::Quotes,
            Token::Semi => Token::Semi,
            Token::Comma => Token::Comma,
            Token::Eof => Token::Eof,
        }
    }
}

/// The keyword of a maximal identifier-shaped character run, if it is one.
pub open spec fn keyword_of(s: Seq<char>) -> Option<Token> {
    if s == "int"@ {
        Some(Token::Int)
    } else if s == "float"@ {
        Some(Token::Float)
    } else if s == "double"@ {
        Some(Token::Double)
    } else if s == "char"@ {
        Some(Token::Char)
    } else if s == "void"@ {
        Some(Token::Void)
    } else if s == "long"@ {
        Some(Token::Long)
    } else if s == "short"@ {
        Some(Token::Short)
    } else if s == "while"@ {
        Some(Token::While)
    } else if s == "for"@ {
        Some(Token::For)
    } else if s == "if"@ {
        Some(Token::If)
    } else if s == "else"@ {
        Some(Token::Else)
    } else if s == "do"@ {
        Some(Token::Do)
    } else if s == "break"@ {
        Some(Token::Break)
    } else if s == "continue"@ {
        Some(Token::Continue)
    } else if s == "return"@ {
        Some(Token::Return)
    } else if s == "switch"@ {
        Some(Token::Switch)
    } else if s == "case"@ {
        Some(Token::Case)
    } else if s == "default"@ {
        Some(Token::Default)
    } else if s == "import"@ {
        Some(Token::Import)
    } else if s == "struct"@ {
        Some(Token::Struct)
    } else {
        None
    }
}

/// The static keyword table, as ordered (spelling, token) pairs: exactly
/// the twenty keywords, each at a fixed index with its spelling and token.
pub fn get_keywords() -> (r: Vec<(String, Token)>)
    ensures
        r@.len() == 20,
        forall|i: int|
            0 <= i < r@.len() ==> #[trigger] keyword_of(r@[i].0@) == Some(r@[i].1),
        r@[0].0@ == "int"@ && r@[0].1 == Token::Int,
        r@[1].0@ == "float"@ && r@[1].1 == Token::Float,
        r@[2].0@ == "double"@ && r@[2].1 == Token::Double,
        r@[3].0@ == "char"@ && r@[3].1 == Token::Char,
        r@[4].0@ == "void"@ && r@[4].1 == Token::Void,
        r@[5].0@ == "long"@ && r@[5].1 == Token::Long,
        r@[6].0@ == "short"@ && r@[6].1 == Token::Short,
        r@[7].0@ == "while"@ && r@[7].1 == Token::While,
        r@[8].0@ == "for"@ && r@[8].1 == Token::For,
        r@[9].0@ == "if"@ && r@[9].1 == Token::If,
        r@[10].0@ == "else"@ && r@[10].1 == Token::Else,
        r@[11].0@ == "do"@ && r@[11].1 == Token::Do,
        r@[12].0@ == "break"@ && r@[12].1 == Token::Break,
        r@[13].0@ == "continue"@ && r@[13].1 == Token::Continue,
        r@[14].0@ == "return"@ && r@[14].1 == Token::Return,
        r@[15].0@ == "switch"@ && r@[15].1 == Token::Switch,
        r@[16].0@ == "case"@ && r@[16].1 == Token::Case,
        r@[17].0@ == "default"@ && r@[17].1 == Token::Default,
        r@[18].0@ == "import"@ && r@[18].1 == Token::Import,
        r@[19].0@ == "struct"@ && r@[19].1 == Token::Struct,
{
    let mut map: Vec<(String, Token)> = Vec::new();
    map.push((String::from_str("int"), Token::Int));
    map.push((String::from_str("float"), Token::Float));
    map.push((String::from_str("double"), Token::Double));
    map.push((String::from_str("char"), Token::Char));
    map.push((String::from_str("void"), Token::Void));
    map.push((String::from_str("long"), Token::Long));
    map.push((String::from_str("short"), Token::Short));
    map.push((String::from_str("while"), Token::While));
    map.push((String::from_str("for"), Token::For));
    map.push((String::from_str("if"), Token::If));
    map.push((String::from_str("else"), Token::Else));
    map.push((String::from_str("do"), Token::Do));
    map.push((String::from_str("break"), Token::Break));
    map.push((String::from_str("continue"), Token::Continue));
    map.push((String::from_str("return"), Token::Return));
    map.push((String::from_str("switch"), Token::Switch));
    map.push((String::from_str("case"), Token::Case));
    map.push((String::from_str("default"), Token::Default));
    map.push((String::from_str("import"), Token::Import));
    map.push((String::from_str("struct"), Token::Struct));
    proof {
        assert forall|i: int| 0 <= i < map@.len() implies #[trigger] keyword_of(map@[i].0@)
            == Some(map@[i].1) by {
            lemma_keywords_distinct();
        }
    }
    map
}

/// The twenty keyword spellings are pairwise distinct character sequences.
proof fn lemma_keywords_distinct()
    ensures
        keyword_of("int"@) == Some(Token::Int),
        keyword_of("float"@) == Some(Token::Float),
        keyword_of("double"@) == Some(Token::Double),
        keyword_of("char"@) == Some(Token::Char),
        keyword_of("void"@) == Some(Token::Void),
        keyword_of("long"@) == Some(Token::Long),
        keyword_of("short"@) == Some(Token::Short),
        keyword_of("while"@) == Some(Token::While),
        keyword_of("for"@) == Some(Token::For),
        keyword_of("if"@) == Some(Token::If),
        keyword_of("else"@) == Some(Token::Else),
        keyword_of("do"@) == Some(Token::Do),
        keyword_of("break"@) == Some(Token::Break),
        keyword_of("continue"@) == Some(Token::Continue),
        keyword_of("return"@) == Some(Token::Return),
        keyword_of("switch"@) == Some(Token::Switch),
        keyword_of("case"@) == Some(Token::Case),
        keyword_of("default"@) == Some(Token::Default),
        keyword_of("import"@) == Some(Token::Import),
        keyword_of("struct"@) == Some(Token::Struct),
{
    reveal_strlit("int");
    reveal_strlit("float");
    reveal_strlit("double");
    reveal_strlit("char");
    reveal_strlit("void");
    reveal_strlit("long");
    reveal_strlit("short");
    reveal_strlit("while");
    reveal_strlit("for");
    reveal_strlit("if");
    reveal_strlit("else");
    reveal_strlit("do");
    reveal_strlit("break");
    reveal_strlit("continue");
    reveal_strlit("return");
    reveal_strlit("switch");
    reveal_strlit("case");
    reveal_strlit("default");
    reveal_strlit("import");
    reveal_strlit("struct");
    assert("int"@.len() == 3 && ("int"@)[0] == 'i');
    assert("float"@.len() == 5 && ("float"@)[0] == 'f');
    assert("double"@.len() == 6 && ("double"@)[0] == 'd');
    assert("char"@.len() == 4 && ("char"@)[0] == 'c' && ("char"@)[1] == 'h');
    assert("void"@.len() == 4 && ("void"@)[0] == 'v');
    assert("long"@.len() == 4 && ("long"@)[0] == 'l');
    assert("short"@.len() == 5 && ("short"@)[0] == 's');
    assert("while"@.len() == 5 && ("while"@)[0] == 'w');
    assert("for"@.len() == 3 && ("for"@)[0] == 'f');
    assert("if"@.len() == 2 && ("if"@)[0] == 'i');
    assert("else"@.len() == 4 && ("else"@)[0] == 'e');
    assert("do"@.len() == 2 && ("do"@)[0] == 'd');
    assert("break"@.len() == 5 && ("break"@)[0] == 'b');
    assert("continue"@.len() == 8 && ("continue"@)[0] == 'c');
    assert("return"@.len() == 6 && ("return"@)[0] == 'r');
    assert("switch"@.len() == 6 && ("switch"@)[0] == 's' && ("switch"@)[1] == 'w');
    assert("case"@.len() == 4 && ("case"@)[0] == 'c' && ("case"@)[1] == 'a');
    assert("default"@.len() == 7 && ("default"@)[0] == 'd');
    assert("import"@.len() == 6 && ("import"@)[0] == 'i');
    assert("struct"@.len() == 6 && ("struct"@)[0] == 's' && ("struct"@)[1] == 't');
}

/// Whether a token can begin a type reference.
pub open spec fn spec_is_base_type(token: Token) -> bool {
    ||| token is Char
    ||| token is Int
    ||| token is Double
    ||| token is Float
    ||| token is Long
    ||| token is Short
    ||| token is Void
    ||| token is Struct
}

pub fn is_base_type(token: &Token) -> (r: bool)
    ensures
        r == spec_is_base_type(*token),
{
    matches!(
        token,
        Token::Char
        | Token::Int
        | Token::Double
        | Token::Float
        | Token::Long
        | Token::Short
        | Token::Void
        | Token::Struct
    )
}

/// Whether a token is accepted as a unary prefix operator: `++ -- + - *
/// ! &` (the `&` of an address-of expression arrives as `Bitand`).
pub open spec fn spec_is_prefix_op(token: Token) -> bool {
    ||| token is Inc
    ||| token is Dec
    ||| token is Add
    ||| token is Sub
    ||| token is Mul
    ||| token is Not
    ||| token is Bitand
}

pub fn is_prefix_op(token: &Token) -> (r: bool)
    ensures
        r == spec_is_prefix_op(*token),
{
    matches!(
        token,
        Token::Inc | Token::Dec | Token::Add | Token::Sub | Token::Mul | Token::Not
        | Token::Bitand
    )
}

/// Whether a token can begin a unary postfix form.
pub open spec fn spec_is_postfix_op(token: Token) -> bool {
    ||| token is Inc
    ||| token is Dec
    ||| token is LBrackets
    ||| token is Dot
    ||| token is PointerRef
    ||| token is LParentheses
}

pub fn is_postfix_op(token: &Token) -> (r: bool)
    ensures
        r == spec_is_postfix_op(*token),
{
    matches!(
        token,
        Token::Inc | Token::Dec | Token::LBrackets | Token::Dot | Token::PointerRef
        | Token::LParentheses
    )
}

} // verus!
