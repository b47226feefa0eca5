//! The lexer: turns a character sequence into a token stream served through
//! a pull interface (`advance`, `lookahead`, `matcher`).
//!
//! Scanning is specified at the character level: `scan_ok` says which token
//! a position yields and where the token ends, and `scan_err` says which
//! scanning failure a position yields.  The whole input's tokenization is
//! the chain `lexed_span`, which `Lexer::new` establishes and the pull
//! interface then serves unchanged.

use vstd::prelude::*;
use crate::error::CompileError;
use crate::error::LexErrorKind;
use crate::error::LexicalError;
use crate::error::SyntaxError;
use crate::location::Location;
use crate::token::Token;
use crate::token::keyword_of;
use crate::token::tok_eq;

verus! {

// ---------------------------------------------------------------------------
// Character classes and character-level scanning helpers.
// ---------------------------------------------------------------------------
/// Whitespace: space, line feed, carriage return.
pub open spec fn is_ws(c: char) -> bool {
    c == ' ' || c == '\n' || c == '\r'
}

pub open spec fn is_digit_char(c: char) -> bool {
    48 <= c as u32 && c as u32 <= 57
}

pub open spec fn is_alpha_char(c: char) -> bool {
    (65 <= c as u32 && c as u32 <= 90) || (97 <= c as u32 && c as u32 <= 122)
}

/// Characters that may begin an identifier or keyword.
pub open spec fn is_ident_start(c: char) -> bool {
    is_alpha_char(c) || c == '_'
}

/// Characters that may continue an identifier or keyword.
pub open spec fn is_ident_char(c: char) -> bool {
    is_alpha_char(c) || is_digit_char(c) || c == '_'
}

/// The first non-whitespace position at or after `pos`.
pub open spec fn skip_ws(cs: Seq<char>, pos: int) -> int
    decreases cs.len() - pos,
    when 0 <= pos <= cs.len()
{
    if pos >= cs.len() {
        pos
    } else if is_ws(cs[pos]) {
        skip_ws(cs, pos + 1)
    } else {
        pos
    }
}

/// The end of the maximal identifier run starting at `pos`.
pub open spec fn ident_end(cs: Seq<char>, pos: int) -> int
    decreases cs.len() - pos,
    when 0 <= pos <= cs.len()
{
    if pos >= cs.len() {
        pos
    } else if is_ident_char(cs[pos]) {
        ident_end(cs, pos + 1)
    } else {
        pos
    }
}

/// The end of the maximal digit run starting at `pos`.
pub open spec fn digits_end(cs: Seq<char>, pos: int) -> int
    decreases cs.len() - pos,
    when 0 <= pos <= cs.len()
{
    if pos >= cs.len() {
        pos
    } else if is_digit_char(cs[pos]) {
        digits_end(cs, pos + 1)
    } else {
        pos
    }
}

pub open spec fn digit_of(c: char) -> int {
    (c as u32) as int - 48
}

/// The decimal value of a digit run.
pub open spec fn digits_val(s: Seq<char>) -> int
    decreases s.len(),
{
    if s.len() == 0 {
        0
    } else {
        10 * digits_val(s.drop_last()) + digit_of(s.last())
    }
}

/// The position of the closing quote of a string literal whose body starts
/// at `pos`, or `None` if a line break or the end of input intervenes.  A
/// backslash makes the following character part of the body.
pub open spec fn str_close(cs: Seq<char>, pos: int) -> Option<int>
    decreases cs.len() - pos,
    when 0 <= pos <= cs.len()
{
    if pos >= cs.len() {
        None
    } else if cs[pos] == '"' {
        Some(pos)
    } else if cs[pos] == '\n' {
        None
    } else if cs[pos] == '\\' {
        if pos + 1 < cs.len() {
            str_close(cs, pos + 2)
        } else {
            None
        }
    } else {
        str_close(cs, pos + 1)
    }
}

/// Number of line breaks before `pos`.
pub open spec fn loc_row(cs: Seq<char>, pos: int) -> int
    decreases pos,
    when 0 <= pos <= cs.len()
{
    if pos <= 0 {
        0
    } else if cs[pos - 1] == '\n' {
        loc_row(cs, pos - 1) + 1
    } else {
        loc_row(cs, pos - 1)
    }
}

/// Characters since the last line break before `pos`.
pub open spec fn loc_col(cs: Seq<char>, pos: int) -> int
    decreases pos,
    when 0 <= pos <= cs.len()
{
    if pos <= 0 {
        0
    } else if cs[pos - 1] == '\n' {
        0
    } else {
        loc_col(cs, pos - 1) + 1
    }
}

/// `l` is the row/column position of character index `pos`.
pub open spec fn loc_ok(cs: Seq<char>, pos: int, l: Location) -> bool {
    l.row as int == loc_row(cs, pos) && l.column as int == loc_col(cs, pos)
}

/// Characters that can begin a token.
pub open spec fn can_start_token(c: char) -> bool {
    ||| c == '(' || c == ')' || c == '[' || c == ']' || c == '{' || c == '}'
    ||| c == ';' || c == '/' || c == '%' || c == '*' || c == '.' || c == ','
    ||| c == '^' || c == '|' || c == '>' || c == '<' || c == '!' || c == '+'
    ||| c == '-' || c == '&' || c == '=' || c == '"' || c == '\''
    ||| is_digit_char(c)
    ||| is_ident_start(c)
}

/// Whitespace skipping stays inside the input and never moves backwards.
pub proof fn lemma_skip_ws_bounds(cs: Seq<char>, p: int)
    requires
        0 <= p <= cs.len(),
    ensures
        p <= skip_ws(cs, p) <= cs.len(),
    decreases cs.len() - p,
{
    if p < cs.len() && is_ws(cs[p]) {
        lemma_skip_ws_bounds(cs, p + 1);
    }
}

/// Decides `is_ws`.
pub fn ws_char(c: char) -> (r: bool)
    ensures
        r == is_ws(c),
{
    c == ' ' || c == '\n' || c == '\r'
}

/// Decides `is_digit_char`.
pub fn digit_char(c: char) -> (r: bool)
    ensures
        r == is_digit_char(c),
{
    let u = c as u32;
    48 <= u && u <= 57
}

/// Decides `is_alpha_char`.
pub fn alpha_char(c: char) -> (r: bool)
    ensures
        r == is_alpha_char(c),
{
    let u = c as u32;
    (65 <= u && u <= 90) || (97 <= u && u <= 122)
}

/// Decides `is_ident_char`.
pub fn ident_char(c: char) -> (r: bool)
    ensures
        r == is_ident_char(c),
{
    alpha_char(c) || digit_char(c) || c == '_'
}

// ---------------------------------------------------------------------------
// What a scan at a position yields.
// ---------------------------------------------------------------------------
/// A keyword token: an identifier run whose spelling is in the keyword table.
pub open spec fn kw_ok(cs: Seq<char>, pos: int, end: int, t: Token) -> bool {
    &&& pos < cs.len()
    &&& is_ident_start(cs[pos])
    &&& end == ident_end(cs, pos)
    &&& keyword_of(cs.subrange(pos, end)) == Some(t)
}

/// Scanning at non-whitespace position `pos` yields token `t` and stops at
/// `end`.  Two-character operators take priority over their one-character
/// prefixes (maximal munch).
pub open spec fn scan_ok(cs: Seq<char>, pos: int, t: Token, end: int) -> bool {
    let n = cs.len() as int;
    match t {
        Token::Eof => pos >= n && end == pos,
        Token::LParentheses => pos < n && cs[pos] == '(' && end == pos + 1,
        Token::RParentheses => pos < n && cs[pos] == ')' && end == pos + 1,
        Token::LBrackets => pos < n && cs[pos] == '[' && end == pos + 1,
        Token::RBrackets => pos < n && cs[pos] == ']' && end == pos + 1,
        Token::LBrace => pos < n && cs[pos] == '{' && end == pos + 1,
        Token::RBrace => pos < n && cs[pos] == '}' && end == pos + 1,
        Token::Semi => pos < n && cs[pos] == ';' && end == pos + 1,
        Token::Div => pos < n && cs[pos] == '/' && end == pos + 1,
        Token::Mod => pos < n && cs[pos] == '%' && end == pos + 1,
        Token::Mul => pos < n && cs[pos] == '*' && end == pos + 1,
        Token::Dot => pos < n && cs[pos] == '.' && end == pos + 1,
        Token::Comma => pos < n && cs[pos] == ',' && end == pos + 1,
        Token::Bitxor => pos < n && cs[pos] == '^' && end == pos + 1,
        Token::Or => pos + 1 < n && cs[pos] == '|' && cs[pos + 1] == '|' && end == pos + 2,
        Token::Bitor => pos < n && cs[pos] == '|' && !(pos + 1 < n && cs[pos + 1] == '|') && end
            == pos + 1,
        Token::Rightshift => pos + 1 < n && cs[pos] == '>' && cs[pos + 1] == '>' && end == pos
            + 2,
        Token::Greaterequal => pos + 1 < n && cs[pos] == '>' && cs[pos + 1] == '=' && end == pos
            + 2,
        Token::Greater => pos < n && cs[pos] == '>' && !(pos + 1 < n && (cs[pos + 1] == '>' || cs[
            pos + 1
        ] == '=')) && end == pos + 1,
        Token::Leftshift => pos + 1 < n && cs[pos] == '<' && cs[pos + 1] == '<' && end == pos + 2,
        Token::Lessequal => pos + 1 < n && cs[pos] == '<' && cs[pos + 1] == '=' && end == pos + 2,
        Token::Less => pos < n && cs[pos] == '<' && !(pos + 1 < n && (cs[pos + 1] == '<' || cs[pos
            + 1] == '=')) && end == pos + 1,
        Token::Notequal => pos + 1 < n && cs[pos] == '!' && cs[pos + 1] == '=' && end == pos + 2,
        Token::Not => pos < n && cs[pos] == '!' && !(pos + 1 < n && cs[pos + 1] == '=') && end
            == pos + 1,
        Token::Inc => pos + 1 < n && cs[pos] == '+' && cs[pos + 1] == '+' && end == pos + 2,
        Token::Add => pos < n && cs[pos] == '+' && !(pos + 1 < n && cs[pos + 1] == '+') && end
            == pos + 1,
        Token::Dec => pos + 1 < n && cs[pos] == '-' && cs[pos + 1] == '-' && end == pos + 2,
        Token::PointerRef => pos + 1 < n && cs[pos] == '-' && cs[pos + 1] == '>' && end == pos
            + 2,
        Token::Sub => pos < n && cs[pos] == '-' && !(pos + 1 < n && (cs[pos + 1] == '-' || cs[pos
            + 1] == '>')) && end == pos + 1,
        Token::And => pos + 1 < n && cs[pos] == '&' && cs[pos + 1] == '&' && end == pos + 2,
        Token::Bitand => pos < n && cs[pos] == '&' && !(pos + 1 < n && cs[pos + 1] == '&') && end
            == pos + 1,
        Token::Equal => pos + 1 < n && cs[pos] == '=' && cs[pos + 1] == '=' && end == pos + 2,
        Token::Assgin => pos < n && cs[pos] == '=' && !(pos + 1 < n && cs[pos + 1] == '=') && end
            == pos + 1,
        Token::String(s) => pos < n && cs[pos] == '"' && {
            &&& str_close(cs, pos + 1) matches Some(c)
            &&& end == c + 1
            &&& s@ == cs.subrange(pos + 1, c)
        },
        Token::Character(ch) => pos + 2 < n && cs[pos] == '\'' && cs[pos + 2] == '\'' && ch == cs[
            pos + 1
        ] && end == pos + 3,
        Token::Number(v) => pos < n && is_digit_char(cs[pos]) && {
            let e = digits_end(cs, pos);
            &&& end == e
            &&& !(e < n && is_alpha_char(cs[e]))
            &&& 0 <= v <= u32::MAX
            &&& v as int == digits_val(cs.subrange(pos, e))
        },
        Token::Name(s) => pos < n && is_ident_start(cs[pos]) && {
            let e = ident_end(cs, pos);
            &&& end == e
            &&& s@ == cs.subrange(pos, e)
            &&& keyword_of(s@) is None
        },
        Token::Int => kw_ok(cs, pos, end, Token::Int),
        Token::Float => kw_ok(cs, pos, end, Token::Float),
        Token::Double => kw_ok(cs, pos, end, Token::Double),
        Token::Char => kw_ok(cs, pos, end, Token::Char),
        Token::Void => kw_ok(cs, pos, end, Token::Void),
        Token::Long => kw_ok(cs, pos, end, Token::Long),
        Token::Short => kw_ok(cs, pos, end, Token::Short),
        Token::While => kw_ok(cs, pos, end, Token::While),
        Token::For => kw_ok(cs, pos, end, Token::For),
        Token::If => kw_ok(cs, pos, end, Token::If),
        Token::Else => kw_ok(cs, pos, end, Token::Else),
        Token::Do => kw_ok(cs, pos, end, Token::Do),
        Token::Break => kw_ok(cs, pos, end, Token::Break),
        Token::Continue => kw_ok(cs, pos, end, Token::Continue),
        Token::Return => kw_ok(cs, pos, end, Token::Return),
        Token::Switch => kw_ok(cs, pos, end, Token::Switch),
        Token::Case => kw_ok(cs, pos, end, Token::Case),
        Token::Default => kw_ok(cs, pos, end, Token::Default),
        Token::Import => kw_ok(cs, pos, end, Token::Import),
        Token::Struct => kw_ok(cs, pos, end, Token::Struct),
        Token::Pointer => false,
        Token::Quotes => false,
    }
}

/// Scanning at non-whitespace position `pos` fails with `e`.
pub open spec fn scan_err(cs: Seq<char>, pos: int, e: LexicalError) -> bool {
    let n = cs.len() as int;
    &&& loc_ok(cs, pos, e.location)
    &&& pos < n
    &&& match e.kind {
        LexErrorKind::UnterminatedString => cs[pos] == '"' && str_close(cs, pos + 1) is None,
        LexErrorKind::MalformedChar => cs[pos] == '\'' && (pos + 2 >= n || cs[pos + 2] != '\''),
        LexErrorKind::MalformedNumber => is_digit_char(cs[pos]) && {
            let d = digits_end(cs, pos);
            (d < n && is_alpha_char(cs[d])) || digits_val(cs.subrange(pos, d)) > u32::MAX
        },
        LexErrorKind::UnknownChar(c) => cs[pos] == c && !can_start_token(c) && !is_ws(c),
    }
}

/// The token list `ts`, scanned in order starting at `pos`, ends exactly at
/// position `end` (whitespace is skipped before each token).
pub open spec fn lexed_span(cs: Seq<char>, pos: int, ts: Seq<Token>, end: int) -> bool
    decreases ts.len(),
{
    if ts.len() == 0 {
        end == pos
    } else {
        exists|m: int|
            #[trigger] scan_ok(cs, skip_ws(cs, pos), ts[0], m) && lexed_span(
                cs,
                m,
                ts.drop_first(),
                end,
            )
    }
}

/// Appending one more scanned token to a lexed span keeps it a lexed span.
pub proof fn lemma_lexed_span_snoc(cs: Seq<char>, pos: int, ts: Seq<Token>, mid: int, t: Token, end: int)
    requires
        lexed_span(cs, pos, ts, mid),
        scan_ok(cs, skip_ws(cs, mid), t, end),
    ensures
        lexed_span(cs, pos, ts.push(t), end),
    decreases ts.len(),
{
    if ts.len() == 0 {
        assert(ts.push(t)[0] == t);
        assert(ts.push(t).drop_first() =~= Seq::<Token>::empty());
        assert(lexed_span(cs, end, ts.push(t).drop_first(), end));
    } else {
        let m = choose|m: int|
            #[trigger] scan_ok(cs, skip_ws(cs, pos), ts[0], m) && lexed_span(
                cs,
                m,
                ts.drop_first(),
                mid,
            );
        lemma_lexed_span_snoc(cs, m, ts.drop_first(), mid, t, end);
        assert(ts.push(t).drop_first() =~= ts.drop_first().push(t));
        assert(ts.push(t)[0] == ts[0]);
        assert(scan_ok(cs, skip_ws(cs, pos), ts.push(t)[0], m));
    }
}

// ---------------------------------------------------------------------------
// The specification view of the token stream, shared with the parser.
// ---------------------------------------------------------------------------
/// The stream a parser consumes: the token list and the scanning failure
/// that ends it, if any.
pub struct StreamV {
    pub toks: Seq<Token>,
    pub err: Option<LexicalError>,
}

/// The result of a specification-level parsing step: a value or a
/// diagnostic, plus the position where parsing stopped.
pub struct PRes<A> {
    pub res: Result<A, CompileError>,
    pub end: int,
}

/// What looking at stream position `i` yields: a buffered token, the
/// recorded scanning failure once the tokens are exhausted, or end-of-input.
pub open spec fn spec_la(s: StreamV, i: int) -> Result<Token, CompileError> {
    if 0 <= i < s.toks.len() {
        Ok(s.toks[i])
    } else {
        match s.err {
            Some(e) => Err(CompileError::Lexical(e)),
            None => Ok(Token::Eof),
        }
    }
}

/// Position after consuming one token (the end-of-input marker is never
/// consumed).
pub open spec fn advance1(s: StreamV, pos: int) -> int {
    if 0 <= pos < s.toks.len() {
        pos + 1
    } else {
        pos
    }
}

/// Clamps a parsing position into `[lo, end of stream]`.  The grammar
/// specification applies it to sub-result positions so that its recursion
/// is well-founded by construction; parsing never actually leaves the
/// clamped range, so the clamp never changes a reachable value.
pub open spec fn cl(s: StreamV, lo: int, e: int) -> int {
    if e < lo {
        lo
    } else if e > s.toks.len() {
        s.toks.len() as int
    } else {
        e
    }
}

/// The framing every parsing step preserves: the stream itself is
/// untouched, and the serving position only moves forward, staying inside
/// the token list.
pub open spec fn parse_frame(a: Lexer, b: Lexer) -> bool {
    &&& a.same_stream(b)
    &&& b.pos <= b.toks@.len()
    &&& a.pos <= b.pos
}

/// What `matcher` yields: the looked-at token when it equals `t`, consumed;
/// otherwise a syntax error naming the unexpected token.
pub open spec fn spec_matcher(s: StreamV, pos: int, t: Token) -> PRes<Token> {
    match spec_la(s, pos) {
        Err(e) => PRes { res: Err(e), end: pos },
        Ok(l) => if tok_eq(l, t) {
            PRes { res: Ok(l), end: advance1(s, pos) }
        } else {
            PRes { res: Err(CompileError::Syntax(SyntaxError { found: l })), end: pos }
        },
    }
}

// ---------------------------------------------------------------------------
// The lexer.
// ---------------------------------------------------------------------------
/// The lexer scans the whole input when it is built, then serves the tokens
/// through `advance` / `lookahead` / `matcher`.  A scanning failure is
/// recorded and surfaces when the consumer reaches it.
pub struct Lexer {
    /// The source text.
    pub src: String,
    /// The source text as characters; mirrors `src`.
    pub chars: Vec<char>,
    /// How far scanning got.
    pub read_pos: usize,
    /// The scanned tokens.
    pub toks: Vec<Token>,
    /// The next token to serve.
    pub pos: usize,
    /// The failure that stopped scanning, if any.
    pub lex_err: Option<LexicalError>,
}

impl Lexer {
    /// The character-level fields are consistent.
    pub open spec fn chars_wf(self) -> bool {
        self.src@ == self.chars@ && self.read_pos <= self.chars@.len()
    }

    /// The serving position is within the token list.
    pub open spec fn swf(self) -> bool {
        self.pos <= self.toks@.len()
    }

    /// The token list is exactly what scanning the input yields, ending at
    /// the end of input or at the recorded failure.
    pub open spec fn lexed(self) -> bool {
        &&& lexed_span(self.chars@, 0, self.toks@, self.read_pos as int)
        &&& match self.lex_err {
            None => skip_ws(self.chars@, self.read_pos as int) == self.chars@.len(),
            Some(e) => scan_err(self.chars@, skip_ws(self.chars@, self.read_pos as int), e),
        }
    }

    pub open spec fn wf(self) -> bool {
        self.chars_wf() && self.swf() && self.lexed()
    }

    /// The stream the parser sees.
    pub open spec fn sv(self) -> StreamV {
        StreamV { toks: self.toks@, err: self.lex_err }
    }

    /// Everything except the serving position is unchanged.
    pub open spec fn same_stream(self, other: Lexer) -> bool {
        &&& self.src == other.src
        &&& self.chars == other.chars
        &&& self.read_pos == other.read_pos
        &&& self.toks == other.toks
        &&& self.lex_err == other.lex_err
    }

    /// Scans the whole of `input` into a token stream positioned at its
    /// first token.
    pub fn new(input: String) -> (r: Lexer)
        ensures
            r.wf(),
            r.pos == 0,
            r.chars@ == input@,
    {
        let n: usize = input.as_str().unicode_len();
        let mut chars: Vec<char> = Vec::new();
        let mut i: usize = 0;
        while i < n
            invariant
                i <= n,
                n == input@.len(),
                chars@ =~= input@.subrange(0, i as int),
            decreases n - i,
        {
            chars.push(input.as_str().get_char(i));
            proof {
                assert(input@.subrange(0, i + 1) =~= input@.subrange(0, i as int).push(
                    input@[i as int],
                ));
            }
            i = i + 1;
        }
        proof {
            assert(chars@ =~= input@);
        }
        let mut lx = Lexer {
            src: input,
            chars,
            read_pos: 0,
            toks: Vec::new(),
            pos: 0,
            lex_err: None,
        };
        loop
            invariant_except_break
                lx.lex_err is None,
            invariant
                lx.chars_wf(),
                lx.pos == 0,
                lx.chars@ == input@,
                lx.toks@.len() <= lx.read_pos,
                lexed_span(lx.chars@, 0, lx.toks@, lx.read_pos as int),
            ensures
                lx.chars_wf(),
                lx.pos == 0,
                lx.chars@ == input@,
                lexed_span(lx.chars@, 0, lx.toks@, lx.read_pos as int),
                match lx.lex_err {
                    None => skip_ws(lx.chars@, lx.read_pos as int) == lx.chars@.len(),
                    Some(e) => scan_err(lx.chars@, skip_ws(lx.chars@, lx.read_pos as int), e),
                },
            decreases lx.chars@.len() - lx.read_pos,
        {
            let ghost pre = lx;
            let save: usize = lx.read_pos;
            let stepped = lx.lex();
            proof {
                lemma_skip_ws_bounds(lx.chars@, pre.read_pos as int);
            }
            match stepped {
                Ok(t) => {
                    if matches!(t, Token::Eof) {
                        proof {
                            assert(skip_ws(lx.chars@, save as int) == lx.chars@.len());
                        }
                        lx.read_pos = save;
                        break;
                    }
                    proof {
                        lemma_lexed_span_snoc(
                            lx.chars@,
                            0,
                            lx.toks@,
                            pre.read_pos as int,
                            t,
                            lx.read_pos as int,
                        );
                    }
                    lx.toks.push(t);
                },
                Err(e) => {
                    lx.read_pos = save;
                    lx.lex_err = Some(e);
                    break;
                },
            }
        }
        lx
    }

    /// Scans one token starting at `read_pos`, skipping whitespace first.
    /// On failure the position is left at the offending token's start.
    #[verifier::loop_isolation(false)]
    fn lex(&mut self) -> (r: Result<Token, LexicalError>)
        requires
            old(self).chars_wf(),
        ensures
            final(self).src == old(self).src,
            final(self).chars == old(self).chars,
            final(self).toks == old(self).toks,
            final(self).pos == old(self).pos,
            final(self).lex_err == old(self).lex_err,
            final(self).chars_wf(),
            old(self).read_pos <= final(self).read_pos,
            match r {
                Ok(t) => scan_ok(
                    final(self).chars@,
                    skip_ws(final(self).chars@, old(self).read_pos as int),
                    t,
                    final(self).read_pos as int,
                ),
                Err(e) => final(self).read_pos as int == skip_ws(
                    final(self).chars@,
                    old(self).read_pos as int,
                ) && scan_err(final(self).chars@, final(self).read_pos as int, e),
            },
            r matches Ok(t) ==> (t is Eof ==> final(self).read_pos as int == skip_ws(
                final(self).chars@,
                old(self).read_pos as int,
            )) && (!(t is Eof) ==> final(self).read_pos as int > skip_ws(
                final(self).chars@,
                old(self).read_pos as int,
            )),
    {
        let ghost cs = self.chars@;
        let ghost start0 = self.read_pos as int;
        // Skip whitespace.
        while self.read_pos < self.chars.len() && ws_char(self.chars[self.read_pos])
            invariant
                self.chars_wf(),
                self.chars@ == cs,
                self.chars == old(self).chars,
                self.src == old(self).src,
                self.toks == old(self).toks,
                self.pos == old(self).pos,
                self.lex_err == old(self).lex_err,
                start0 <= self.read_pos as int,
                skip_ws(cs, start0) == skip_ws(cs, self.read_pos as int),
            decreases self.chars@.len() - self.read_pos,
        {
            self.read_pos = self.read_pos + 1;
        }
        proof {
            assert(skip_ws(cs, self.read_pos as int) == self.read_pos as int);
            assert(skip_ws(cs, start0) == self.read_pos as int);
        }
        if self.read_pos == self.chars.len() {
            return Ok(Token::Eof);
        }
        let start: usize = self.read_pos;
        let c = self.chars[start];
        if ident_char(c) && !digit_char(c) {
            return Ok(self.keywords_or_name());
        }
        self.read_pos = self.read_pos + 1;
        let t = self.handle_valid_char(c);
        if t.is_err() {
            self.read_pos = start;
        }
        t
    }

    /// Scans the token that starts with `ch`, which has just been consumed:
    /// punctuation, an operator (one more character of lookahead decides
    /// the two-character forms), or a literal.  A character that cannot
    /// begin a token is a scanning failure.
    fn handle_valid_char(&mut self, ch: char) -> (r: Result<Token, LexicalError>)
        requires
            old(self).chars_wf(),
            0 < old(self).read_pos,
            old(self).chars@[old(self).read_pos - 1] == ch,
            !is_ident_start(ch),
            !is_ws(ch),
        ensures
            *final(self) == (Lexer { read_pos: final(self).read_pos, ..*old(self) }),
            final(self).chars_wf(),
            old(self).read_pos <= final(self).read_pos,
            match r {
                Ok(t) => scan_ok(
                    final(self).chars@,
                    old(self).read_pos - 1,
                    t,
                    final(self).read_pos as int,
                ),
                Err(e) => scan_err(final(self).chars@, old(self).read_pos - 1, e),
            },
    {
        match ch {
            '(' => Ok(Token::LParentheses),
            ')' => Ok(Token::RParentheses),
            '[' => Ok(Token::LBrackets),
            ']' => Ok(Token::RBrackets),
            '{' => Ok(Token::LBrace),
            '}' => Ok(Token::RBrace),
            ';' => Ok(Token::Semi),
            '/' => Ok(Token::Div),
            '%' => Ok(Token::Mod),
            '*' => Ok(Token::Mul),
            '.' => Ok(Token::Dot),
            ',' => Ok(Token::Comma),
            '^' => Ok(Token::Bitxor),
            '|' => Ok(self.or_or_bitor_token()),
            '>' => Ok(self.greater_or_shift_token()),
            '<' => Ok(self.less_or_shift_token()),
            '!' => Ok(self.not_or_equal_token()),
            '+' => Ok(self.add_or_inc_token()),
            '-' => Ok(self.sub_or_dec_token()),
            '&' => Ok(self.and_or_bitand_token()),
            '=' => Ok(self.assgin_or_equal_tokean()),
            '"' => self.string_token(),
            '\'' => self.char_token(),
            _ => {
                if digit_char(ch) {
                    self.number_token()
                } else {
                    let location = self.location_at(self.read_pos - 1);
                    Err(LexicalError { location, kind: LexErrorKind::UnknownChar(ch) })
                }
            },
        }
    }

    /// Serves the next token and consumes it; the end-of-input marker is
    /// served without being consumed, and a recorded scanning failure is
    /// surfaced once the tokens before it are exhausted.
    pub fn advance(&mut self) -> (r: Result<Token, CompileError>)
        ensures
            old(self).same_stream(*final(self)),
            r == spec_la(old(self).sv(), old(self).pos as int),
            final(self).pos as int == advance1(old(self).sv(), old(self).pos as int),
    {
        if self.pos < self.toks.len() {
            let t = (&self.toks[self.pos]).clone();
            self.pos = self.pos + 1;
            Ok(t)
        } else {
            match self.lex_err {
                Some(e) => Err(CompileError::Lexical(e)),
                None => Ok(Token::Eof),
            }
        }
    }

    /// Peeks `number` tokens ahead (1 peeks at the next token) without
    /// consuming anything.
    pub fn lookahead(&mut self, number: usize) -> (r: Result<Token, CompileError>)
        requires
            number >= 1,
        ensures
            old(self).same_stream(*final(self)),
            final(self).pos == old(self).pos,
            r == spec_la(old(self).sv(), old(self).pos as int + number as int - 1),
    {
        let tl = self.toks.len();
        let within = match self.pos.checked_add(number - 1) {
            Some(i) => i < tl,
            None => false,
        };
        if within {
            Ok((&self.toks[self.pos + (number - 1)]).clone())
        } else {
            match self.lex_err {
                Some(e) => Err(CompileError::Lexical(e)),
                None => Ok(Token::Eof),
            }
        }
    }

    /// Consumes and returns the next token only if it equals `token`;
    /// otherwise fails with a syntax error naming the unexpected token.
    pub fn matcher(&mut self, token: Token) -> (r: Result<Token, CompileError>)
        ensures
            old(self).same_stream(*final(self)),
            ({
                let m = spec_matcher(old(self).sv(), old(self).pos as int, token);
                r == m.res && final(self).pos as int == m.end
            }),
    {
        let la = self.lookahead(1);
        match la {
            Err(e) => Err(e),
            Ok(l) => {
                if crate::token::token_eq(&l, &token) {
                    self.advance()
                } else {
                    Err(CompileError::Syntax(SyntaxError { found: l }))
                }
            },
        }
    }

    /// Whitespace is space, line feed or carriage return.
    pub fn whitespace_char(ch: char) -> (r: bool)
        ensures
            r == is_ws(ch),
    {
        ch == ' ' || ch == '\n' || ch == '\r'
    }

    /// `||` or `|`; the `|` has been consumed.
    fn or_or_bitor_token(&mut self) -> (t: Token)
        requires
            old(self).chars_wf(),
            0 < old(self).read_pos,
            old(self).chars@[old(self).read_pos - 1] == '|',
        ensures
            *final(self) == (Lexer { read_pos: final(self).read_pos, ..*old(self) }),
            final(self).chars_wf(),
            old(self).read_pos <= final(self).read_pos,
            scan_ok(final(self).chars@, old(self).read_pos - 1, t, final(self).read_pos as int),
    {
        if self.read_pos < self.chars.len() && self.chars[self.read_pos] == '|' {
            self.read_pos = self.read_pos + 1;
            Token::Or
        } else {
            Token::Bitor
        }
    }

    /// `>>`, `>=` or `>`; the `>` has been consumed.
    fn greater_or_shift_token(&mut self) -> (t: Token)
        requires
            old(self).chars_wf(),
            0 < old(self).read_pos,
            old(self).chars@[old(self).read_pos - 1] == '>',
        ensures
            *final(self) == (Lexer { read_pos: final(self).read_pos, ..*old(self) }),
            final(self).chars_wf(),
            old(self).read_pos <= final(self).read_pos,
            scan_ok(final(self).chars@, old(self).read_pos - 1, t, final(self).read_pos as int),
    {
        if self.read_pos < self.chars.len() && self.chars[self.read_pos] == '>' {
            self.read_pos = self.read_pos + 1;
            Token::Rightshift
        } else if self.read_pos < self.chars.len() && self.chars[self.read_pos] == '=' {
            self.read_pos = self.read_pos + 1;
            Token::Greaterequal
        } else {
            Token::Greater
        }
    }

    /// `<<`, `<=` or `<`; the `<` has been consumed.
    fn less_or_shift_token(&mut self) -> (t: Token)
        requires
            old(self).chars_wf(),
            0 < old(self).read_pos,
            old(self).chars@[old(self).read_pos - 1] == '<',
        ensures
            *final(self) == (Lexer { read_pos: final(self).read_pos, ..*old(self) }),
            final(self).chars_wf(),
            old(self).read_pos <= final(self).read_pos,
            scan_ok(final(self).chars@, old(self).read_pos - 1, t, final(self).read_pos as int),
    {
        if self.read_pos < self.chars.len() && self.chars[self.read_pos] == '<' {
            self.read_pos = self.read_pos + 1;
            Token::Leftshift
        } else if self.read_pos < self.chars.len() && self.chars[self.read_pos] == '=' {
            self.read_pos = self.read_pos + 1;
            Token::Lessequal
        } else {
            Token::Less
        }
    }

    /// `!=` or `!`; the `!` has been consumed.
    fn not_or_equal_token(&mut self) -> (t: Token)
        requires
            old(self).chars_wf(),
            0 < old(self).read_pos,
            old(self).chars@[old(self).read_pos - 1] == '!',
        ensures
            *final(self) == (Lexer { read_pos: final(self).read_pos, ..*old(self) }),
            final(self).chars_wf(),
            old(self).read_pos <= final(self).read_pos,
            scan_ok(final(self).chars@, old(self).read_pos - 1, t, final(self).read_pos as int),
    {
        if self.read_pos < self.chars.len() && self.chars[self.read_pos] == '=' {
            self.read_pos = self.read_pos + 1;
            Token::Notequal
        } else {
            Token::Not
        }
    }

    /// `++` or `+`; the `+` has been consumed.
    fn add_or_inc_token(&mut self) -> (t: Token)
        requires
            old(self).chars_wf(),
            0 < old(self).read_pos,
            old(self).chars@[old(self).read_pos - 1] == '+',
        ensures
            *final(self) == (Lexer { read_pos: final(self).read_pos, ..*old(self) }),
            final(self).chars_wf(),
            old(self).read_pos <= final(self).read_pos,
            scan_ok(final(self).chars@, old(self).read_pos - 1, t, final(self).read_pos as int),
    {
        if self.read_pos < self.chars.len() && self.chars[self.read_pos] == '+' {
            self.read_pos = self.read_pos + 1;
            Token::Inc
        } else {
            Token::Add
        }
    }

    /// `--`, `->` or `-`; the `-` has been consumed.
    fn sub_or_dec_token(&mut self) -> (t: Token)
        requires
            old(self).chars_wf(),
            0 < old(self).read_pos,
            old(self).chars@[old(self).read_pos - 1] == '-',
        ensures
            *final(self) == (Lexer { read_pos: final(self).read_pos, ..*old(self) }),
            final(self).chars_wf(),
            old(self).read_pos <= final(self).read_pos,
            scan_ok(final(self).chars@, old(self).read_pos - 1, t, final(self).read_pos as int),
    {
        if self.read_pos < self.chars.len() && self.chars[self.read_pos] == '-' {
            self.read_pos = self.read_pos + 1;
            Token::Dec
        } else if self.read_pos < self.chars.len() && self.chars[self.read_pos] == '>' {
            self.read_pos = self.read_pos + 1;
            Token::PointerRef
        } else {
            Token::Sub
        }
    }

    /// `&&` or `&`; the `&` has been consumed.
    fn and_or_bitand_token(&mut self) -> (t: Token)
        requires
            old(self).chars_wf(),
            0 < old(self).read_pos,
            old(self).chars@[old(self).read_pos - 1] == '&',
        ensures
            *final(self) == (Lexer { read_pos: final(self).read_pos, ..*old(self) }),
            final(self).chars_wf(),
            old(self).read_pos <= final(self).read_pos,
            scan_ok(final(self).chars@, old(self).read_pos - 1, t, final(self).read_pos as int),
    {
        if self.read_pos < self.chars.len() && self.chars[self.read_pos] == '&' {
            self.read_pos = self.read_pos + 1;
            Token::And
        } else {
            Token::Bitand
        }
    }

    /// `==` or `=`; the `=` has been consumed.
    fn assgin_or_equal_tokean(&mut self) -> (t: Token)
        requires
            old(self).chars_wf(),
            0 < old(self).read_pos,
            old(self).chars@[old(self).read_pos - 1] == '=',
        ensures
            *final(self) == (Lexer { read_pos: final(self).read_pos, ..*old(self) }),
            final(self).chars_wf(),
            old(self).read_pos <= final(self).read_pos,
            scan_ok(final(self).chars@, old(self).read_pos - 1, t, final(self).read_pos as int),
    {
        if self.read_pos < self.chars.len() && self.chars[self.read_pos] == '=' {
            self.read_pos = self.read_pos + 1;
            Token::Equal
        } else {
            Token::Assgin
        }
    }

    /// A `"`-delimited literal; the opening quote has been consumed.  The
    /// body runs to the next unescaped quote; a line break or the end of
    /// input before it is a failure.
    #[verifier::loop_isolation(false)]
    fn string_token(&mut self) -> (r: Result<Token, LexicalError>)
        requires
            old(self).chars_wf(),
            0 < old(self).read_pos,
            old(self).chars@[old(self).read_pos - 1] == '"',
        ensures
            *final(self) == (Lexer { read_pos: final(self).read_pos, ..*old(self) }),
            final(self).chars_wf(),
            old(self).read_pos <= final(self).read_pos,
            match r {
                Ok(t) => scan_ok(
                    final(self).chars@,
                    old(self).read_pos - 1,
                    t,
                    final(self).read_pos as int,
                ),
                Err(e) => scan_err(final(self).chars@, old(self).read_pos - 1, e),
            },
    {
        let ghost cs = self.chars@;
        let start: usize = self.read_pos;
        let mut i: usize = self.read_pos;
        loop
            invariant
                self.chars_wf(),
                *self == (Lexer { read_pos: self.read_pos, ..*old(self) }),
                self.read_pos == start,
                start <= i <= self.chars@.len(),
                self.chars@ == cs,
                str_close(cs, start as int) == str_close(cs, i as int),
            decreases self.chars@.len() - i,
        {
            if i == self.chars.len() {
                let location = self.location_at(start - 1);
                return Err(
                    LexicalError { location, kind: LexErrorKind::UnterminatedString },
                );
            }
            let c = self.chars[i];
            if c == '"' {
                break;
            } else if c == '\n' {
                let location = self.location_at(start - 1);
                return Err(
                    LexicalError { location, kind: LexErrorKind::UnterminatedString },
                );
            } else if c == '\\' {
                if i + 1 < self.chars.len() {
                    i = i + 2;
                } else {
                    let location = self.location_at(start - 1);
                    return Err(
                        LexicalError { location, kind: LexErrorKind::UnterminatedString },
                    );
                }
            } else {
                i = i + 1;
            }
        }
        let s = self.src.as_str().substring_char(start, i).to_owned();
        self.read_pos = i + 1;
        Ok(Token::String(s))
    }

    /// A `'`-delimited literal; the opening quote has been consumed.  It
    /// must hold exactly one character before the closing quote.
    fn char_token(&mut self) -> (r: Result<Token, LexicalError>)
        requires
            old(self).chars_wf(),
            0 < old(self).read_pos,
            old(self).chars@[old(self).read_pos - 1] == '\'',
        ensures
            *final(self) == (Lexer { read_pos: final(self).read_pos, ..*old(self) }),
            final(self).chars_wf(),
            old(self).read_pos <= final(self).read_pos,
            match r {
                Ok(t) => scan_ok(
                    final(self).chars@,
                    old(self).read_pos - 1,
                    t,
                    final(self).read_pos as int,
                ),
                Err(e) => scan_err(final(self).chars@, old(self).read_pos - 1, e),
            },
    {
        let start: usize = self.read_pos;
        if start < self.chars.len() && start + 1 < self.chars.len() && self.chars[start + 1]
            == '\'' {
            let ch = self.chars[start];
            self.read_pos = start + 2;
            Ok(Token::Character(ch))
        } else {
            let location = self.location_at(start - 1);
            Err(LexicalError { location, kind: LexErrorKind::MalformedChar })
        }
    }

    /// An integer literal; the first digit has been consumed.  The digit
    /// run must not be immediately followed by an alphabetic character and
    /// its value must fit the literal range.
    #[verifier::loop_isolation(false)]
    fn number_token(&mut self) -> (r: Result<Token, LexicalError>)
        requires
            old(self).chars_wf(),
            0 < old(self).read_pos,
            is_digit_char(old(self).chars@[old(self).read_pos - 1]),
        ensures
            *final(self) == (Lexer { read_pos: final(self).read_pos, ..*old(self) }),
            final(self).chars_wf(),
            old(self).read_pos <= final(self).read_pos,
            match r {
                Ok(t) => scan_ok(
                    final(self).chars@,
                    old(self).read_pos - 1,
                    t,
                    final(self).read_pos as int,
                ),
                Err(e) => scan_err(final(self).chars@, old(self).read_pos - 1, e),
            },
    {
        let ghost cs = self.chars@;
        let start: usize = self.read_pos - 1;
        let mut v: Vec<char> = Vec::new();
        v.push(self.chars[start]);
        let mut e: usize = self.read_pos;
        while e < self.chars.len() && digit_char(self.chars[e])
            invariant
                self.chars_wf(),
                *self == (Lexer { read_pos: self.read_pos, ..*old(self) }),
                self.chars@ == cs,
                start < e <= self.chars@.len(),
                v@ =~= cs.subrange(start as int, e as int),
                digits_end(cs, start as int) == digits_end(cs, e as int),
                forall|j: int| 0 <= j < v@.len() ==> is_digit_char(#[trigger] v@[j]),
            decreases self.chars@.len() - e,
        {
            v.push(self.chars[e]);
            e = e + 1;
        }
        proof {
            assert(digits_end(cs, e as int) == e as int);
        }
        if e < self.chars.len() && alpha_char(self.chars[e]) {
            let location = self.location_at(start);
            return Err(LexicalError { location, kind: LexErrorKind::MalformedNumber });
        }
        match Lexer::digit_from_vec(&v) {
            Some(num) => {
                self.read_pos = e;
                Ok(Token::Number(num as i64))
            },
            None => {
                let location = self.location_at(start);
                Err(LexicalError { location, kind: LexErrorKind::MalformedNumber })
            },
        }
    }

    /// The decimal value of a digit vector, if it fits the integer literal
    /// range.
    #[verifier::loop_isolation(false)]
    fn digit_from_vec(v: &Vec<char>) -> (r: Option<u32>)
        requires
            forall|j: int| 0 <= j < v@.len() ==> is_digit_char(#[trigger] v@[j]),
        ensures
            match r {
                Some(u) => u as int == digits_val(v@),
                None => digits_val(v@) > u32::MAX,
            },
    {
        let mut acc: u64 = 0;
        let mut i: usize = 0;
        while i < v.len()
            invariant
                i <= v@.len(),
                forall|j: int| 0 <= j < v@.len() ==> is_digit_char(#[trigger] v@[j]),
                acc as int == digits_val(v@.subrange(0, i as int)),
                acc <= u32::MAX,
            decreases v@.len() - i,
        {
            let d: u32 = (v[i] as u32) - 48;
            let next: u64 = acc * 10 + (d as u64);
            proof {
                assert(v@.subrange(0, i + 1).drop_last() =~= v@.subrange(0, i as int));
                assert(v@.subrange(0, i + 1).last() == v@[i as int]);
            }
            if next > 0xffff_ffff {
                proof {
                    lemma_digits_val_prefix(v@, i + 1);
                }
                return None;
            }
            acc = next;
            i = i + 1;
        }
        proof {
            assert(v@.subrange(0, v@.len() as int) =~= v@);
        }
        Some(acc as u32)
    }

    /// A keyword or identifier: the maximal identifier run at `read_pos`,
    /// looked up in the keyword table.
    #[verifier::loop_isolation(false)]
    fn keywords_or_name(&mut self) -> (t: Token)
        requires
            old(self).chars_wf(),
            old(self).read_pos < old(self).chars@.len(),
            is_ident_start(old(self).chars@[old(self).read_pos as int]),
        ensures
            *final(self) == (Lexer { read_pos: final(self).read_pos, ..*old(self) }),
            final(self).chars_wf(),
            old(self).read_pos < final(self).read_pos,
            scan_ok(
                final(self).chars@,
                old(self).read_pos as int,
                t,
                final(self).read_pos as int,
            ),
    {
        let ghost cs = self.chars@;
        let start: usize = self.read_pos;
        let mut e: usize = start;
        while e < self.chars.len() && ident_char(self.chars[e])
            invariant
                self.chars_wf(),
                *self == (Lexer { read_pos: self.read_pos, ..*old(self) }),
                self.chars@ == cs,
                start <= e <= self.chars@.len(),
                ident_end(cs, start as int) == ident_end(cs, e as int),
            decreases self.chars@.len() - e,
        {
            e = e + 1;
        }
        proof {
            assert(ident_end(cs, e as int) == e as int);
            assert(is_ident_char(cs[start as int]));
            assert(e > start);
        }
        let s = self.src.as_str().substring_char(start, e).to_owned();
        self.read_pos = e;
        if s == String::from_str("int") {
            Token::Int
        } else if s == String::from_str("float") {
            Token::Float
        } else if s == String::from_str("double") {
            Token::Double
        } else if s == String::from_str("char") {
            Token::Char
        } else if s == String::from_str("void") {
            Token::Void
        } else if s == String::from_str("long") {
            Token::Long
        } else if s == String::from_str("short") {
            Token::Short
        } else if s == String::from_str("while") {
            Token::While
        } else if s == String::from_str("for") {
            Token::For
        } else if s == String::from_str("if") {
            Token::If
        } else if s == String::from_str("else") {
            Token::Else
        } else if s == String::from_str("do") {
            Token::Do
        } else if s == String::from_str("break") {
            Token::Break
        } else if s == String::from_str("continue") {
            Token::Continue
        } else if s == String::from_str("return") {
            Token::Return
        } else if s == String::from_str("switch") {
            Token::Switch
        } else if s == String::from_str("case") {
            Token::Case
        } else if s == String::from_str("default") {
            Token::Default
        } else if s == String::from_str("import") {
            Token::Import
        } else if s == String::from_str("struct") {
            Token::Struct
        } else {
            Token::Name(s)
        }
    }

    /// The row/column position of character index `p`.
    #[verifier::loop_isolation(false)]
    fn location_at(&self, p: usize) -> (l: Location)
        requires
            p <= self.chars@.len(),
        ensures
            loc_ok(self.chars@, p as int, l),
    {
        let mut row: usize = 0;
        let mut column: usize = 0;
        let mut i: usize = 0;
        while i < p
            invariant
                i <= p <= self.chars@.len(),
                row as int == loc_row(self.chars@, i as int),
                column as int == loc_col(self.chars@, i as int),
                row <= i,
                column <= i,
            decreases p - i,
        {
            if self.chars[i] == '\n' {
                row = row + 1;
                column = 0;
            } else {
                column = column + 1;
            }
            i = i + 1;
        }
        Location { row, column }
    }
}

/// A digit string's value is at least the value of any of its prefixes.
proof fn lemma_digits_val_prefix(s: Seq<char>, k: int)
    requires
        0 <= k <= s.len(),
        forall|j: int| 0 <= j < s.len() ==> is_digit_char(#[trigger] s[j]),
    ensures
        digits_val(s.subrange(0, k)) <= digits_val(s),
    decreases s.len() - k,
{
    lemma_digits_val_nonneg(s.subrange(0, k));
    if k < s.len() {
        lemma_digits_val_prefix(s, k + 1);
        assert(s.subrange(0, k + 1).drop_last() =~= s.subrange(0, k));
        assert(digit_of(s.subrange(0, k + 1).last()) >= 0);
        lemma_digits_val_nonneg(s.subrange(0, k + 1));
    } else {
        assert(s.subrange(0, k) =~= s);
    }
}

/// A digit string's value is non-negative.
proof fn lemma_digits_val_nonneg(s: Seq<char>)
    requires
        forall|j: int| 0 <= j < s.len() ==> is_digit_char(#[trigger] s[j]),
    ensures
        digits_val(s) >= 0,
    decreases s.len(),
{
    if s.len() > 0 {
        lemma_digits_val_nonneg(s.drop_last());
    }
}

} // verus!
