//! The expression parser: a precedence ladder from assignment (lowest) down
//! to primaries, specified by `spec_expr0` / `spec_tier` / `spec_term` /
//! `spec_unary` / `spec_primary` over the token stream.
//!
//! Each binary tier is left-associative; assignment is right-associative.
//! The executable functions mirror the original layout (one function per
//! tier plus one step helper per operator family) and each is proved to
//! return exactly what the grammar specification yields.

use vstd::prelude::*;
use crate::ast::ArithmeticOpNodeV;
use crate::ast::AssginmentNodeV;
use crate::ast::ArrayUnaryNodeV;
use crate::ast::ConstV;
use crate::ast::ExprNodeV;
use crate::ast::FuncCallNodeV;
use crate::ast::PointerRefUnaryNodeV;
use crate::ast::PrimaryNodeV;
use crate::ast::RefUnaryNodeV;
use crate::ast::SelfOpUnaryNodeV;
use crate::ast::SingeUnaryNodeV;
use crate::ast::TermNodeV;
use crate::ast::UnaryNodeV;
use crate::ast::lemma_view_exprs_push;
use crate::ast::view_expr;
use crate::ast::view_exprs;
use crate::ast::view_primary;
use crate::ast::view_unary;
use crate::ast_expr::ArithmeticOpNode;
use crate::ast_expr::ArrayUnaryNode;
use crate::ast_expr::AssginmentNode;
use crate::ast_expr::Const;
use crate::ast_expr::ExprNode;
use crate::ast_expr::FuncCallNode;
use crate::ast_expr::PointerRefUnaryNode;
use crate::ast_expr::PrimaryNode;
use crate::ast_expr::RefUnaryNode;
use crate::ast_expr::SelfOpUnaryNode;
use crate::ast_expr::SingeUnaryNode;
use crate::ast_expr::TermNode;
use crate::ast_expr::UnaryNode;
use crate::error::CompileError;
use crate::error::SyntaxError;
use crate::lexer::Lexer;
use crate::lexer::PRes;
use crate::lexer::StreamV;
use crate::lexer::advance1;
use crate::lexer::cl;
use crate::lexer::spec_la;
use crate::lexer::parse_frame;
use crate::lexer::spec_matcher;
use crate::parse_def::spec_typeref;
use crate::token::Token;
use crate::token::is_base_type;
use crate::token::is_prefix_op;
use crate::token::spec_is_base_type;
use crate::token::spec_is_prefix_op;

verus! {

// ---------------------------------------------------------------------------
// Agreement between executable results and specification results.
// ---------------------------------------------------------------------------
pub open spec fn expr_agree(
    r: Result<ExprNode, CompileError>,
    sp: Result<ExprNodeV, CompileError>,
) -> bool {
    match (r, sp) {
        (Ok(n), Ok(v)) => view_expr(n) == v,
        (Err(a), Err(b)) => a == b,
        _ => false,
    }
}

pub open spec fn unary_agree(
    r: Result<UnaryNode, CompileError>,
    sp: Result<UnaryNodeV, CompileError>,
) -> bool {
    match (r, sp) {
        (Ok(n), Ok(v)) => view_unary(n) == v,
        (Err(a), Err(b)) => a == b,
        _ => false,
    }
}

pub open spec fn primary_agree(
    r: Result<PrimaryNode, CompileError>,
    sp: Result<PrimaryNodeV, CompileError>,
) -> bool {
    match (r, sp) {
        (Ok(n), Ok(v)) => view_primary(n) == v,
        (Err(a), Err(b)) => a == b,
        _ => false,
    }
}

pub open spec fn args_agree(
    r: Result<Option<Vec<ExprNode>>, CompileError>,
    sp: Result<Option<Seq<ExprNodeV>>, CompileError>,
) -> bool {
    match (r, sp) {
        (Ok(n), Ok(v)) => match (n, v) {
            (None, None) => true,
            (Some(a), Some(b)) => view_exprs(a@) == b,
            _ => false,
        },
        (Err(a), Err(b)) => a == b,
        _ => false,
    }
}

// ---------------------------------------------------------------------------
// The grammar, lowest precedence first.
// ---------------------------------------------------------------------------
/// The binary operators of precedence tier `k` (1 lowest .. 9 highest).
pub open spec fn tier_op(k: int, t: Token) -> bool {
    if k == 1 {
        t is Or
    } else if k == 2 {
        t is And
    } else if k == 3 {
        ||| t is Greater
        ||| t is Greaterequal
        ||| t is Less
        ||| t is Lessequal
        ||| t is Equal
        ||| t is Notequal
    } else if k == 4 {
        t is Bitor
    } else if k == 5 {
        t is Bitxor
    } else if k == 6 {
        t is Bitand
    } else if k == 7 {
        t is Rightshift || t is Leftshift
    } else if k == 8 {
        t is Add || t is Sub
    } else if k == 9 {
        t is Mul || t is Div || t is Mod
    } else {
        false
    }
}

/// `expr0 ::= expr1 [ '=' expr0 ]` — assignment, right-associative.
pub open spec fn spec_expr0(s: StreamV, pos: int) -> PRes<ExprNodeV>
    decreases s.toks.len() - pos, 110int,
    when 0 <= pos <= s.toks.len()
{
    let l = spec_tier(s, pos, 1);
    match l.res {
        Err(e) => PRes { res: Err(e), end: l.end },
        Ok(lv) => match spec_la(s, l.end) {
            Err(e) => PRes { res: Err(e), end: l.end },
            Ok(t) => if t is Assgin && pos < s.toks.len() {
                let r = spec_expr0(s, cl(s, pos + 1, l.end + 1));
                match r.res {
                    Err(e) => PRes { res: Err(e), end: r.end },
                    Ok(rv) => PRes {
                        res: Ok(
                            ExprNodeV::Assign(
                                AssginmentNodeV {
                                    left_value: Box::new(lv),
                                    right_value: Box::new(rv),
                                },
                            ),
                        ),
                        end: r.end,
                    },
                }
            } else {
                PRes { res: Ok(lv), end: l.end }
            },
        },
    }
}

/// `tier(k) ::= operand(k) ( op(k) operand(k) )*` where `operand(k)` is
/// `tier(k+1)` for `k < 9` and a term for `k == 9`; left-associative.
pub open spec fn spec_tier(s: StreamV, pos: int, k: int) -> PRes<ExprNodeV>
    decreases s.toks.len() - pos, 100 - 2 * k,
    when 0 <= pos <= s.toks.len() && 1 <= k <= 9
{
    let l = if k < 9 {
        spec_tier(s, pos, k + 1)
    } else {
        spec_term(s, pos)
    };
    match l.res {
        Err(e) => PRes { res: Err(e), end: l.end },
        Ok(lv) => spec_tier_rest(s, cl(s, pos, l.end), k, lv),
    }
}

/// The left-fold over further `op(k) operand(k)` steps.
pub open spec fn spec_tier_rest(s: StreamV, pos: int, k: int, lv: ExprNodeV) -> PRes<ExprNodeV>
    decreases s.toks.len() - pos, 99 - 2 * k,
    when 0 <= pos <= s.toks.len() && 1 <= k <= 9
{
    match spec_la(s, pos) {
        Err(e) => PRes { res: Err(e), end: pos },
        Ok(t) => if tier_op(k, t) {
            let r = if k < 9 {
                spec_tier(s, pos + 1, k + 1)
            } else {
                spec_term(s, pos + 1)
            };
            match r.res {
                Err(e) => PRes { res: Err(e), end: r.end },
                Ok(rv) => spec_tier_rest(
                    s,
                    cl(s, pos + 1, r.end),
                    k,
                    ExprNodeV::Arith(
                        ArithmeticOpNodeV {
                            operator: t,
                            left_value: Box::new(lv),
                            right_value: Box::new(rv),
                        },
                    ),
                ),
            }
        } else {
            PRes { res: Ok(lv), end: pos }
        },
    }
}

/// `term ::= [ '(' typeref ')' ] unary` — the cast is taken only when a
/// base type follows the parenthesis.
pub open spec fn spec_term(s: StreamV, pos: int) -> PRes<ExprNodeV>
    decreases s.toks.len() - pos, 80int,
    when 0 <= pos <= s.toks.len()
{
    match spec_la(s, pos) {
        Err(e) => PRes { res: Err(e), end: pos },
        Ok(t1) => if t1 is LParentheses {
            match spec_la(s, pos + 1) {
                Err(e) => PRes { res: Err(e), end: pos },
                Ok(t2) => if spec_is_base_type(t2) {
                    let ty = spec_typeref(s, pos + 1);
                    match ty.res {
                        Err(e) => PRes { res: Err(e), end: ty.end },
                        Ok(tv) => {
                            let m = spec_matcher(s, ty.end, Token::RParentheses);
                            match m.res {
                                Err(e) => PRes { res: Err(e), end: m.end },
                                Ok(_) => {
                                    let u = spec_unary(s, cl(s, pos + 1, m.end));
                                    match u.res {
                                        Err(e) => PRes { res: Err(e), end: u.end },
                                        Ok(uv) => PRes {
                                            res: Ok(
                                                ExprNodeV::Term(
                                                    TermNodeV {
                                                        case_type: Some(tv),
                                                        unary: Box::new(uv),
                                                    },
                                                ),
                                            ),
                                            end: u.end,
                                        },
                                    }
                                },
                            }
                        },
                    }
                } else {
                    spec_term_plain(s, pos)
                },
            }
        } else {
            spec_term_plain(s, pos)
        },
    }
}

/// A term without a cast.
pub open spec fn spec_term_plain(s: StreamV, pos: int) -> PRes<ExprNodeV>
    decreases s.toks.len() - pos, 78int,
    when 0 <= pos <= s.toks.len()
{
    let u = spec_unary(s, pos);
    match u.res {
        Err(e) => PRes { res: Err(e), end: u.end },
        Ok(uv) => PRes {
            res: Ok(ExprNodeV::Term(TermNodeV { case_type: None, unary: Box::new(uv) })),
            end: u.end,
        },
    }
}

/// `unary ::= [prefix] primary postfix?` with postfix one of: a `.` or `->`
/// member hop (recursing into a chained unary), `++`/`--`, a single
/// bracketed index, or a parenthesized argument list.
pub open spec fn spec_unary(s: StreamV, pos: int) -> PRes<UnaryNodeV>
    decreases s.toks.len() - pos, 75int,
    when 0 <= pos <= s.toks.len()
{
    match spec_la(s, pos) {
        Err(e) => PRes { res: Err(e), end: pos },
        Ok(la1) => {
            let pfx = if spec_is_prefix_op(la1) {
                Some(la1)
            } else {
                None
            };
            let p1 = if spec_is_prefix_op(la1) {
                advance1(s, pos)
            } else {
                pos
            };
            let pr = spec_primary(s, p1);
            match pr.res {
                Err(e) => PRes { res: Err(e), end: pr.end },
                Ok(pv) => match spec_la(s, pr.end) {
                    Err(e) => PRes { res: Err(e), end: pr.end },
                    Ok(t) => if t is Dot && pos < s.toks.len() {
                        let u = spec_unary(s, cl(s, pos + 1, pr.end + 1));
                        match u.res {
                            Err(e) => PRes { res: Err(e), end: u.end },
                            Ok(uv) => PRes {
                                res: Ok(
                                    UnaryNodeV::MemberRef(
                                        RefUnaryNodeV {
                                            prefix: pfx,
                                            operator: t,
                                            primary: pv,
                                            postfix: Some(Box::new(uv)),
                                        },
                                    ),
                                ),
                                end: u.end,
                            },
                        }
                    } else if t is PointerRef && pos < s.toks.len() {
                        let u = spec_unary(s, cl(s, pos + 1, pr.end + 1));
                        match u.res {
                            Err(e) => PRes { res: Err(e), end: u.end },
                            Ok(uv) => PRes {
                                res: Ok(
                                    UnaryNodeV::PointerMemberRef(
                                        PointerRefUnaryNodeV {
                                            prefix: pfx,
                                            primary: pv,
                                            postfix: Some(Box::new(uv)),
                                        },
                                    ),
                                ),
                                end: u.end,
                            },
                        }
                    } else if t is Inc || t is Dec {
                        PRes {
                            res: Ok(
                                UnaryNodeV::SelfOp(
                                    SelfOpUnaryNodeV { prefix: pfx, primary: pv, postfix: t },
                                ),
                            ),
                            end: advance1(s, pr.end),
                        }
                    } else if t is LBrackets && pos < s.toks.len() {
                        let ix = spec_expr0(s, cl(s, pos + 1, pr.end + 1));
                        match ix.res {
                            Err(e) => PRes { res: Err(e), end: ix.end },
                            Ok(iv) => {
                                let m = spec_matcher(s, ix.end, Token::RBrackets);
                                match m.res {
                                    Err(e) => PRes { res: Err(e), end: m.end },
                                    Ok(_) => PRes {
                                        res: Ok(
                                            UnaryNodeV::Index(
                                                ArrayUnaryNodeV {
                                                    prefix: pfx,
                                                    primary: pv,
                                                    postfix: Box::new(iv),
                                                },
                                            ),
                                        ),
                                        end: m.end,
                                    },
                                }
                            },
                        }
                    } else if t is LParentheses {
                        let ps = spec_func_call_params(s, cl(s, pos, pr.end));
                        match ps.res {
                            Err(e) => PRes { res: Err(e), end: ps.end },
                            Ok(args) => PRes {
                                res: Ok(
                                    UnaryNodeV::Call(
                                        FuncCallNodeV { prefix: pfx, primary: pv, params: args },
                                    ),
                                ),
                                end: ps.end,
                            },
                        }
                    } else {
                        PRes {
                            res: Ok(
                                UnaryNodeV::Single(SingeUnaryNodeV { prefix: pfx, primary: pv }),
                            ),
                            end: pr.end,
                        }
                    },
                },
            }
        },
    }
}

/// `( [ expr0 (',' expr0)* ] )` — `None` for an empty argument list.
pub open spec fn spec_func_call_params(s: StreamV, pos: int) -> PRes<Option<Seq<ExprNodeV>>>
    decreases s.toks.len() - pos, 74int,
    when 0 <= pos <= s.toks.len()
{
    let m = spec_matcher(s, pos, Token::LParentheses);
    match m.res {
        Err(e) => PRes { res: Err(e), end: m.end },
        Ok(_) => match spec_la(s, m.end) {
            Err(e) => PRes { res: Err(e), end: m.end },
            Ok(t) => if t is RParentheses {
                PRes { res: Ok(None), end: advance1(s, m.end) }
            } else {
                let a0 = spec_expr0(s, cl(s, pos + 1, m.end));
                match a0.res {
                    Err(e) => PRes { res: Err(e), end: a0.end },
                    Ok(av) => {
                        let rest = spec_call_args_rest(s, cl(s, pos + 1, a0.end), seq![av]);
                        match rest.res {
                            Err(e) => PRes { res: Err(e), end: rest.end },
                            Ok(all) => PRes { res: Ok(Some(all)), end: rest.end },
                        }
                    },
                }
            },
        },
    }
}

/// Further `',' expr0` steps, then the closing parenthesis.
pub open spec fn spec_call_args_rest(s: StreamV, pos: int, acc: Seq<ExprNodeV>) -> PRes<
    Seq<ExprNodeV>,
>
    decreases s.toks.len() - pos, 73int,
    when 0 <= pos <= s.toks.len()
{
    match spec_la(s, pos) {
        Err(e) => PRes { res: Err(e), end: pos },
        Ok(t) => if t is Comma {
            let a = spec_expr0(s, pos + 1);
            match a.res {
                Err(e) => PRes { res: Err(e), end: a.end },
                Ok(av) => spec_call_args_rest(s, cl(s, pos + 1, a.end), acc.push(av)),
            }
        } else {
            let m = spec_matcher(s, pos, Token::RParentheses);
            match m.res {
                Err(e) => PRes { res: Err(e), end: m.end },
                Ok(_) => PRes { res: Ok(acc), end: m.end },
            }
        },
    }
}

/// A literal, an identifier, or `( expr0 )`.  The dispatching token is
/// consumed even when it fits no case.
pub open spec fn spec_primary(s: StreamV, pos: int) -> PRes<PrimaryNodeV>
    decreases s.toks.len() - pos, 70int,
    when 0 <= pos <= s.toks.len()
{
    match spec_la(s, pos) {
        Err(e) => PRes { res: Err(e), end: pos },
        Ok(t) => match t {
            Token::Number(i) => PRes {
                res: Ok(PrimaryNodeV { name: None, value: ConstV::Integer(i) }),
                end: advance1(s, pos),
            },
            Token::Character(c) => PRes {
                res: Ok(PrimaryNodeV { name: None, value: ConstV::Char(c) }),
                end: advance1(s, pos),
            },
            Token::String(st) => PRes {
                res: Ok(PrimaryNodeV { name: None, value: ConstV::String(st@) }),
                end: advance1(s, pos),
            },
            Token::Name(nm) => PRes {
                res: Ok(PrimaryNodeV { name: Some(nm@), value: ConstV::Identifier }),
                end: advance1(s, pos),
            },
            Token::LParentheses => {
                let e0 = spec_expr0(s, pos + 1);
                match e0.res {
                    Err(e) => PRes { res: Err(e), end: e0.end },
                    Ok(ev) => {
                        let m = spec_matcher(s, e0.end, Token::RParentheses);
                        match m.res {
                            Err(e) => PRes { res: Err(e), end: m.end },
                            Ok(_) => PRes {
                                res: Ok(
                                    PrimaryNodeV {
                                        name: None,
                                        value: ConstV::ParenthesesExpr(Box::new(ev)),
                                    },
                                ),
                                end: m.end,
                            },
                        }
                    },
                }
            },
            _ => PRes {
                res: Err(CompileError::Syntax(SyntaxError { found: t })),
                end: advance1(s, pos),
            },
        },
    }
}


// ---------------------------------------------------------------------------
// Executable parsing functions.
// ---------------------------------------------------------------------------
/// Parses a whole expression: an assignment or a lower tier.
pub fn expr0(lexer: &mut Lexer) -> (r: Result<ExprNode, CompileError>)
    requires
        old(lexer).swf(),
    ensures
        parse_frame(*old(lexer), *final(lexer)),
        ({
            let sp = spec_expr0(old(lexer).sv(), old(lexer).pos as int);
            sp.end == final(lexer).pos as int && expr_agree(r, sp.res)
        }),
        r is Ok ==> old(lexer).pos < final(lexer).pos,
    decreases lexer.toks@.len() - lexer.pos, 110int,
{
    let ghost s0 = old(lexer).sv();
    let ghost p0 = old(lexer).pos as int;
    let left = expr1(lexer)?;
    let t = lexer.lookahead(1)?;
    if matches!(t, Token::Assgin) {
        proof {
            assert(cl(s0, p0 + 1, lexer.pos as int + 1) == lexer.pos as int + 1);
        }
        let ghost lv = view_expr(left);
        assignment_expr(lexer, left)
    } else {
        Ok(left)
    }
}

/// One `'=' expr0` step, folded onto `node` (right-associatively).
pub fn assignment_expr(lexer: &mut Lexer, node: ExprNode) -> (r: Result<ExprNode, CompileError>)
    requires
        old(lexer).swf(),
        spec_la(old(lexer).sv(), old(lexer).pos as int) matches Ok(t) && t is Assgin,
    ensures
        parse_frame(*old(lexer), *final(lexer)),
        old(lexer).pos < final(lexer).pos,
        ({
            let s = old(lexer).sv();
            let p = old(lexer).pos as int;
            let rr = spec_expr0(s, p + 1);
            final(lexer).pos as int == rr.end && match (r, rr.res) {
                (Ok(n), Ok(rv)) => view_expr(n) == ExprNodeV::Assign(
                    AssginmentNodeV {
                        left_value: Box::new(view_expr(node)),
                        right_value: Box::new(rv),
                    },
                ),
                (Err(a), Err(b)) => a == b,
                _ => false,
            }
        }),
    decreases lexer.toks@.len() - lexer.pos, 111int,
{
    let _op = lexer.advance()?;
    let rhs = expr0(lexer)?;
    Ok(
        ExprNode::Assign(
            AssginmentNode { left_value: Box::new(node), right_value: Box::new(rhs) },
        ),
    )
}

/// Parses precedence tier 1.
#[verifier::loop_isolation(false)]
pub fn expr1(lexer: &mut Lexer) -> (r: Result<ExprNode, CompileError>)
    requires
        old(lexer).swf(),
    ensures
        parse_frame(*old(lexer), *final(lexer)),
        ({
            let sp = spec_tier(old(lexer).sv(), old(lexer).pos as int, 1);
            sp.end == final(lexer).pos as int && expr_agree(r, sp.res)
        }),
        r is Ok ==> old(lexer).pos < final(lexer).pos,
    decreases lexer.toks@.len() - lexer.pos, 98int,
{
    let ghost s0 = old(lexer).sv();
    let ghost p0 = old(lexer).pos as int;
    let mut left = expr2(lexer)?;
    proof {
        assert(cl(s0, p0, lexer.pos as int) == lexer.pos as int);
    }
    loop
        invariant
            old(lexer).same_stream(*lexer),
            lexer.pos <= lexer.toks@.len(),
            p0 < lexer.pos as int,
            spec_tier(s0, p0, 1) == spec_tier_rest(
                s0,
                lexer.pos as int,
                1,
                view_expr(left),
            ),
        decreases lexer.toks@.len() - lexer.pos,
    {
        let t = lexer.lookahead(1)?;
        match t {
            Token::Or => {
                let ghost cur = lexer.pos as int;
                left = or_expr(lexer, left)?;
                proof {
                    assert(cl(s0, cur + 1, lexer.pos as int) == lexer.pos as int);
                }
            },
            _ => {
                return Ok(left);
            },
        }
    }
}

/// One operator step of tier 1, folded onto `node`.
pub fn or_expr(lexer: &mut Lexer, node: ExprNode) -> (r: Result<ExprNode, CompileError>)
    requires
        old(lexer).swf(),
        spec_la(old(lexer).sv(), old(lexer).pos as int) matches Ok(t) && tier_op(1, t),
    ensures
        parse_frame(*old(lexer), *final(lexer)),
        old(lexer).pos < final(lexer).pos,
        ({
            let s = old(lexer).sv();
            let p = old(lexer).pos as int;
            let rr = spec_tier(s, p + 1, 2);
            final(lexer).pos as int == rr.end && match (r, rr.res) {
                (Ok(n), Ok(rv)) => spec_la(s, p) matches Ok(op) && view_expr(n)
                    == ExprNodeV::Arith(
                    ArithmeticOpNodeV {
                        operator: op,
                        left_value: Box::new(view_expr(node)),
                        right_value: Box::new(rv),
                    },
                ),
                (Err(a), Err(b)) => a == b,
                _ => false,
            }
        }),
    decreases lexer.toks@.len() - lexer.pos, 97int,
{
    let op = lexer.advance()?;
    let rhs = expr2(lexer)?;
    Ok(
        ExprNode::Arith(
            ArithmeticOpNode {
                operator: op,
                left_value: Box::new(node),
                right_value: Box::new(rhs),
            },
        ),
    )
}

/// Parses precedence tier 2.
#[verifier::loop_isolation(false)]
pub fn expr2(lexer: &mut Lexer) -> (r: Result<ExprNode, CompileError>)
    requires
        old(lexer).swf(),
    ensures
        parse_frame(*old(lexer), *final(lexer)),
        ({
            let sp = spec_tier(old(lexer).sv(), old(lexer).pos as int, 2);
            sp.end == final(lexer).pos as int && expr_agree(r, sp.res)
        }),
        r is Ok ==> old(lexer).pos < final(lexer).pos,
    decreases lexer.toks@.len() - lexer.pos, 96int,
{
    let ghost s0 = old(lexer).sv();
    let ghost p0 = old(lexer).pos as int;
    let mut left = expr3(lexer)?;
    proof {
        assert(cl(s0, p0, lexer.pos as int) == lexer.pos as int);
    }
    loop
        invariant
            old(lexer).same_stream(*lexer),
            lexer.pos <= lexer.toks@.len(),
            p0 < lexer.pos as int,
            spec_tier(s0, p0, 2) == spec_tier_rest(
                s0,
                lexer.pos as int,
                2,
                view_expr(left),
            ),
        decreases lexer.toks@.len() - lexer.pos,
    {
        let t = lexer.lookahead(1)?;
        match t {
            Token::And => {
                let ghost cur = lexer.pos as int;
                left = and_expr(lexer, left)?;
                proof {
                    assert(cl(s0, cur + 1, lexer.pos as int) == lexer.pos as int);
                }
            },
            _ => {
                return Ok(left);
            },
        }
    }
}

/// One operator step of tier 2, folded onto `node`.
pub fn and_expr(lexer: &mut Lexer, node: ExprNode) -> (r: Result<ExprNode, CompileError>)
    requires
        old(lexer).swf(),
        spec_la(old(lexer).sv(), old(lexer).pos as int) matches Ok(t) && tier_op(2, t),
    ensures
        parse_frame(*old(lexer), *final(lexer)),
        old(lexer).pos < final(lexer).pos,
        ({
            let s = old(lexer).sv();
            let p = old(lexer).pos as int;
            let rr = spec_tier(s, p + 1, 3);
            final(lexer).pos as int == rr.end && match (r, rr.res) {
                (Ok(n), Ok(rv)) => spec_la(s, p) matches Ok(op) && view_expr(n)
                    == ExprNodeV::Arith(
                    ArithmeticOpNodeV {
                        operator: op,
                        left_value: Box::new(view_expr(node)),
                        right_value: Box::new(rv),
                    },
                ),
                (Err(a), Err(b)) => a == b,
                _ => false,
            }
        }),
    decreases lexer.toks@.len() - lexer.pos, 95int,
{
    let op = lexer.advance()?;
    let rhs = expr3(lexer)?;
    Ok(
        ExprNode::Arith(
            ArithmeticOpNode {
                operator: op,
                left_value: Box::new(node),
                right_value: Box::new(rhs),
            },
        ),
    )
}

/// Parses precedence tier 3.
#[verifier::loop_isolation(false)]
pub fn expr3(lexer: &mut Lexer) -> (r: Result<ExprNode, CompileError>)
    requires
        old(lexer).swf(),
    ensures
        parse_frame(*old(lexer), *final(lexer)),
        ({
            let sp = spec_tier(old(lexer).sv(), old(lexer).pos as int, 3);
            sp.end == final(lexer).pos as int && expr_agree(r, sp.res)
        }),
        r is Ok ==> old(lexer).pos < final(lexer).pos,
    decreases lexer.toks@.len() - lexer.pos, 94int,
{
    let ghost s0 = old(lexer).sv();
    let ghost p0 = old(lexer).pos as int;
    let mut left = expr4(lexer)?;
    proof {
        assert(cl(s0, p0, lexer.pos as int) == lexer.pos as int);
    }
    loop
        invariant
            old(lexer).same_stream(*lexer),
            lexer.pos <= lexer.toks@.len(),
            p0 < lexer.pos as int,
            spec_tier(s0, p0, 3) == spec_tier_rest(
                s0,
                lexer.pos as int,
                3,
                view_expr(left),
            ),
        decreases lexer.toks@.len() - lexer.pos,
    {
        let t = lexer.lookahead(1)?;
        match t {
            Token::Greater | Token::Greaterequal | Token::Less | Token::Lessequal | Token::Equal | Token::Notequal => {
                let ghost cur = lexer.pos as int;
                left = arithmetic3_expr(lexer, left)?;
                proof {
                    assert(cl(s0, cur + 1, lexer.pos as int) == lexer.pos as int);
                }
            },
            _ => {
                return Ok(left);
            },
        }
    }
}

/// One operator step of tier 3, folded onto `node`.
pub fn arithmetic3_expr(lexer: &mut Lexer, node: ExprNode) -> (r: Result<ExprNode, CompileError>)
    requires
        old(lexer).swf(),
        spec_la(old(lexer).sv(), old(lexer).pos as int) matches Ok(t) && tier_op(3, t),
    ensures
        parse_frame(*old(lexer), *final(lexer)),
        old(lexer).pos < final(lexer).pos,
        ({
            let s = old(lexer).sv();
            let p = old(lexer).pos as int;
            let rr = spec_tier(s, p + 1, 4);
            final(lexer).pos as int == rr.end && match (r, rr.res) {
                (Ok(n), Ok(rv)) => spec_la(s, p) matches Ok(op) && view_expr(n)
                    == ExprNodeV::Arith(
                    ArithmeticOpNodeV {
                        operator: op,
                        left_value: Box::new(view_expr(node)),
                        right_value: Box::new(rv),
                    },
                ),
                (Err(a), Err(b)) => a == b,
                _ => false,
            }
        }),
    decreases lexer.toks@.len() - lexer.pos, 93int,
{
    let op = lexer.advance()?;
    let rhs = expr4(lexer)?;
    Ok(
        ExprNode::Arith(
            ArithmeticOpNode {
                operator: op,
                left_value: Box::new(node),
                right_value: Box::new(rhs),
            },
        ),
    )
}

/// Parses precedence tier 4.
#[verifier::loop_isolation(false)]
pub fn expr4(lexer: &mut Lexer) -> (r: Result<ExprNode, CompileError>)
    requires
        old(lexer).swf(),
    ensures
        parse_frame(*old(lexer), *final(lexer)),
        ({
            let sp = spec_tier(old(lexer).sv(), old(lexer).pos as int, 4);
            sp.end == final(lexer).pos as int && expr_agree(r, sp.res)
        }),
        r is Ok ==> old(lexer).pos < final(lexer).pos,
    decreases lexer.toks@.len() - lexer.pos, 92int,
{
    let ghost s0 = old(lexer).sv();
    let ghost p0 = old(lexer).pos as int;
    let mut left = expr5(lexer)?;
    proof {
        assert(cl(s0, p0, lexer.pos as int) == lexer.pos as int);
    }
    loop
        invariant
            old(lexer).same_stream(*lexer),
            lexer.pos <= lexer.toks@.len(),
            p0 < lexer.pos as int,
            spec_tier(s0, p0, 4) == spec_tier_rest(
                s0,
                lexer.pos as int,
                4,
                view_expr(left),
            ),
        decreases lexer.toks@.len() - lexer.pos,
    {
        let t = lexer.lookahead(1)?;
        match t {
            Token::Bitor => {
                let ghost cur = lexer.pos as int;
                left = bit_or_expr(lexer, left)?;
                proof {
                    assert(cl(s0, cur + 1, lexer.pos as int) == lexer.pos as int);
                }
            },
            _ => {
                return Ok(left);
            },
        }
    }
}

/// One operator step of tier 4, folded onto `node`.
pub fn bit_or_expr(lexer: &mut Lexer, node: ExprNode) -> (r: Result<ExprNode, CompileError>)
    requires
        old(lexer).swf(),
        spec_la(old(lexer).sv(), old(lexer).pos as int) matches Ok(t) && tier_op(4, t),
    ensures
        parse_frame(*old(lexer), *final(lexer)),
        old(lexer).pos < final(lexer).pos,
        ({
            let s = old(lexer).sv();
            let p = old(lexer).pos as int;
            let rr = spec_tier(s, p + 1, 5);
            final(lexer).pos as int == rr.end && match (r, rr.res) {
                (Ok(n), Ok(rv)) => spec_la(s, p) matches Ok(op) && view_expr(n)
                    == ExprNodeV::Arith(
                    ArithmeticOpNodeV {
                        operator: op,
                        left_value: Box::new(view_expr(node)),
                        right_value: Box::new(rv),
                    },
                ),
                (Err(a), Err(b)) => a == b,
                _ => false,
            }
        }),
    decreases lexer.toks@.len() - lexer.pos, 91int,
{
    let op = lexer.advance()?;
    let rhs = expr5(lexer)?;
    Ok(
        ExprNode::Arith(
            ArithmeticOpNode {
                operator: op,
                left_value: Box::new(node),
                right_value: Box::new(rhs),
            },
        ),
    )
}

/// Parses precedence tier 5.
#[verifier::loop_isolation(false)]
pub fn expr5(lexer: &mut Lexer) -> (r: Result<ExprNode, CompileError>)
    requires
        old(lexer).swf(),
    ensures
        parse_frame(*old(lexer), *final(lexer)),
        ({
            let sp = spec_tier(old(lexer).sv(), old(lexer).pos as int, 5);
            sp.end == final(lexer).pos as int && expr_agree(r, sp.res)
        }),
        r is Ok ==> old(lexer).pos < final(lexer).pos,
    decreases lexer.toks@.len() - lexer.pos, 90int,
{
    let ghost s0 = old(lexer).sv();
    let ghost p0 = old(lexer).pos as int;
    let mut left = expr6(lexer)?;
    proof {
        assert(cl(s0, p0, lexer.pos as int) == lexer.pos as int);
    }
    loop
        invariant
            old(lexer).same_stream(*lexer),
            lexer.pos <= lexer.toks@.len(),
            p0 < lexer.pos as int,
            spec_tier(s0, p0, 5) == spec_tier_rest(
                s0,
                lexer.pos as int,
                5,
                view_expr(left),
            ),
        decreases lexer.toks@.len() - lexer.pos,
    {
        let t = lexer.lookahead(1)?;
        match t {
            Token::Bitxor => {
                let ghost cur = lexer.pos as int;
                left = bit_xor_expr(lexer, left)?;
                proof {
                    assert(cl(s0, cur + 1, lexer.pos as int) == lexer.pos as int);
                }
            },
            _ => {
                return Ok(left);
            },
        }
    }
}

/// One operator step of tier 5, folded onto `node`.
pub fn bit_xor_expr(lexer: &mut Lexer, node: ExprNode) -> (r: Result<ExprNode, CompileError>)
    requires
        old(lexer).swf(),
        spec_la(old(lexer).sv(), old(lexer).pos as int) matches Ok(t) && tier_op(5, t),
    ensures
        parse_frame(*old(lexer), *final(lexer)),
        old(lexer).pos < final(lexer).pos,
        ({
            let s = old(lexer).sv();
            let p = old(lexer).pos as int;
            let rr = spec_tier(s, p + 1, 6);
            final(lexer).pos as int == rr.end && match (r, rr.res) {
                (Ok(n), Ok(rv)) => spec_la(s, p) matches Ok(op) && view_expr(n)
                    == ExprNodeV::Arith(
                    ArithmeticOpNodeV {
                        operator: op,
                        left_value: Box::new(view_expr(node)),
                        right_value: Box::new(rv),
                    },
                ),
                (Err(a), Err(b)) => a == b,
                _ => false,
            }
        }),
    decreases lexer.toks@.len() - lexer.pos, 89int,
{
    let op = lexer.advance()?;
    let rhs = expr6(lexer)?;
    Ok(
        ExprNode::Arith(
            ArithmeticOpNode {
                operator: op,
                left_value: Box::new(node),
                right_value: Box::new(rhs),
            },
        ),
    )
}

/// Parses precedence tier 6.
#[verifier::loop_isolation(false)]
pub fn expr6(lexer: &mut Lexer) -> (r: Result<ExprNode, CompileError>)
    requires
        old(lexer).swf(),
    ensures
        parse_frame(*old(lexer), *final(lexer)),
        ({
            let sp = spec_tier(old(lexer).sv(), old(lexer).pos as int, 6);
            sp.end == final(lexer).pos as int && expr_agree(r, sp.res)
        }),
        r is Ok ==> old(lexer).pos < final(lexer).pos,
    decreases lexer.toks@.len() - lexer.pos, 88int,
{
    let ghost s0 = old(lexer).sv();
    let ghost p0 = old(lexer).pos as int;
    let mut left = expr7(lexer)?;
    proof {
        assert(cl(s0, p0, lexer.pos as int) == lexer.pos as int);
    }
    loop
        invariant
            old(lexer).same_stream(*lexer),
            lexer.pos <= lexer.toks@.len(),
            p0 < lexer.pos as int,
            spec_tier(s0, p0, 6) == spec_tier_rest(
                s0,
                lexer.pos as int,
                6,
                view_expr(left),
            ),
        decreases lexer.toks@.len() - lexer.pos,
    {
        let t = lexer.lookahead(1)?;
        match t {
            Token::Bitand => {
                let ghost cur = lexer.pos as int;
                left = bit_and_expr(lexer, left)?;
                proof {
                    assert(cl(s0, cur + 1, lexer.pos as int) == lexer.pos as int);
                }
            },
            _ => {
                return Ok(left);
            },
        }
    }
}

/// One operator step of tier 6, folded onto `node`.
pub fn bit_and_expr(lexer: &mut Lexer, node: ExprNode) -> (r: Result<ExprNode, CompileError>)
    requires
        old(lexer).swf(),
        spec_la(old(lexer).sv(), old(lexer).pos as int) matches Ok(t) && tier_op(6, t),
    ensures
        parse_frame(*old(lexer), *final(lexer)),
        old(lexer).pos < final(lexer).pos,
        ({
            let s = old(lexer).sv();
            let p = old(lexer).pos as int;
            let rr = spec_tier(s, p + 1, 7);
            final(lexer).pos as int == rr.end && match (r, rr.res) {
                (Ok(n), Ok(rv)) => spec_la(s, p) matches Ok(op) && view_expr(n)
                    == ExprNodeV::Arith(
                    ArithmeticOpNodeV {
                        operator: op,
                        left_value: Box::new(view_expr(node)),
                        right_value: Box::new(rv),
                    },
                ),
                (Err(a), Err(b)) => a == b,
                _ => false,
            }
        }),
    decreases lexer.toks@.len() - lexer.pos, 87int,
{
    let op = lexer.advance()?;
    let rhs = expr7(lexer)?;
    Ok(
        ExprNode::Arith(
            ArithmeticOpNode {
                operator: op,
                left_value: Box::new(node),
                right_value: Box::new(rhs),
            },
        ),
    )
}

/// Parses precedence tier 7.
#[verifier::loop_isolation(false)]
pub fn expr7(lexer: &mut Lexer) -> (r: Result<ExprNode, CompileError>)
    requires
        old(lexer).swf(),
    ensures
        parse_frame(*old(lexer), *final(lexer)),
        ({
            let sp = spec_tier(old(lexer).sv(), old(lexer).pos as int, 7);
            sp.end == final(lexer).pos as int && expr_agree(r, sp.res)
        }),
        r is Ok ==> old(lexer).pos < final(lexer).pos,
    decreases lexer.toks@.len() - lexer.pos, 86int,
{
    let ghost s0 = old(lexer).sv();
    let ghost p0 = old(lexer).pos as int;
    let mut left = expr8(lexer)?;
    proof {
        assert(cl(s0, p0, lexer.pos as int) == lexer.pos as int);
    }
    loop
        invariant
            old(lexer).same_stream(*lexer),
            lexer.pos <= lexer.toks@.len(),
            p0 < lexer.pos as int,
            spec_tier(s0, p0, 7) == spec_tier_rest(
                s0,
                lexer.pos as int,
                7,
                view_expr(left),
            ),
        decreases lexer.toks@.len() - lexer.pos,
    {
        let t = lexer.lookahead(1)?;
        match t {
            Token::Rightshift | Token::Leftshift => {
                let ghost cur = lexer.pos as int;
                left = arithmetic2_expr(lexer, left)?;
                proof {
                    assert(cl(s0, cur + 1, lexer.pos as int) == lexer.pos as int);
                }
            },
            _ => {
                return Ok(left);
            },
        }
    }
}

/// One operator step of tier 7, folded onto `node`.
pub fn arithmetic2_expr(lexer: &mut Lexer, node: ExprNode) -> (r: Result<ExprNode, CompileError>)
    requires
        old(lexer).swf(),
        spec_la(old(lexer).sv(), old(lexer).pos as int) matches Ok(t) && tier_op(7, t),
    ensures
        parse_frame(*old(lexer), *final(lexer)),
        old(lexer).pos < final(lexer).pos,
        ({
            let s = old(lexer).sv();
            let p = old(lexer).pos as int;
            let rr = spec_tier(s, p + 1, 8);
            final(lexer).pos as int == rr.end && match (r, rr.res) {
                (Ok(n), Ok(rv)) => spec_la(s, p) matches Ok(op) && view_expr(n)
                    == ExprNodeV::Arith(
                    ArithmeticOpNodeV {
                        operator: op,
                        left_value: Box::new(view_expr(node)),
                        right_value: Box::new(rv),
                    },
                ),
                (Err(a), Err(b)) => a == b,
                _ => false,
            }
        }),
    decreases lexer.toks@.len() - lexer.pos, 85int,
{
    let op = lexer.advance()?;
    let rhs = expr8(lexer)?;
    Ok(
        ExprNode::Arith(
            ArithmeticOpNode {
                operator: op,
                left_value: Box::new(node),
                right_value: Box::new(rhs),
            },
        ),
    )
}

/// Parses precedence tier 8.
#[verifier::loop_isolation(false)]
pub fn expr8(lexer: &mut Lexer) -> (r: Result<ExprNode, CompileError>)
    requires
        old(lexer).swf(),
    ensures
        parse_frame(*old(lexer), *final(lexer)),
        ({
            let sp = spec_tier(old(lexer).sv(), old(lexer).pos as int, 8);
            sp.end == final(lexer).pos as int && expr_agree(r, sp.res)
        }),
        r is Ok ==> old(lexer).pos < final(lexer).pos,
    decreases lexer.toks@.len() - lexer.pos, 84int,
{
    let ghost s0 = old(lexer).sv();
    let ghost p0 = old(lexer).pos as int;
    let mut left = expr9(lexer)?;
    proof {
        assert(cl(s0, p0, lexer.pos as int) == lexer.pos as int);
    }
    loop
        invariant
            old(lexer).same_stream(*lexer),
            lexer.pos <= lexer.toks@.len(),
            p0 < lexer.pos as int,
            spec_tier(s0, p0, 8) == spec_tier_rest(
                s0,
                lexer.pos as int,
                8,
                view_expr(left),
            ),
        decreases lexer.toks@.len() - lexer.pos,
    {
        let t = lexer.lookahead(1)?;
        match t {
            Token::Add | Token::Sub => {
                let ghost cur = lexer.pos as int;
                left = arithmetic1_expr(lexer, left)?;
                proof {
                    assert(cl(s0, cur + 1, lexer.pos as int) == lexer.pos as int);
                }
            },
            _ => {
                return Ok(left);
            },
        }
    }
}

/// One operator step of tier 8, folded onto `node`.
pub fn arithmetic1_expr(lexer: &mut Lexer, node: ExprNode) -> (r: Result<ExprNode, CompileError>)
    requires
        old(lexer).swf(),
        spec_la(old(lexer).sv(), old(lexer).pos as int) matches Ok(t) && tier_op(8, t),
    ensures
        parse_frame(*old(lexer), *final(lexer)),
        old(lexer).pos < final(lexer).pos,
        ({
            let s = old(lexer).sv();
            let p = old(lexer).pos as int;
            let rr = spec_tier(s, p + 1, 9);
            final(lexer).pos as int == rr.end && match (r, rr.res) {
                (Ok(n), Ok(rv)) => spec_la(s, p) matches Ok(op) && view_expr(n)
                    == ExprNodeV::Arith(
                    ArithmeticOpNodeV {
                        operator: op,
                        left_value: Box::new(view_expr(node)),
                        right_value: Box::new(rv),
                    },
                ),
                (Err(a), Err(b)) => a == b,
                _ => false,
            }
        }),
    decreases lexer.toks@.len() - lexer.pos, 83int,
{
    let op = lexer.advance()?;
    let rhs = expr9(lexer)?;
    Ok(
        ExprNode::Arith(
            ArithmeticOpNode {
                operator: op,
                left_value: Box::new(node),
                right_value: Box::new(rhs),
            },
        ),
    )
}

/// Parses precedence tier 9.
#[verifier::loop_isolation(false)]
pub fn expr9(lexer: &mut Lexer) -> (r: Result<ExprNode, CompileError>)
    requires
        old(lexer).swf(),
    ensures
        parse_frame(*old(lexer), *final(lexer)),
        ({
            let sp = spec_tier(old(lexer).sv(), old(lexer).pos as int, 9);
            sp.end == final(lexer).pos as int && expr_agree(r, sp.res)
        }),
        r is Ok ==> old(lexer).pos < final(lexer).pos,
    decreases lexer.toks@.len() - lexer.pos, 82int,
{
    let ghost s0 = old(lexer).sv();
    let ghost p0 = old(lexer).pos as int;
    let mut left = term(lexer)?;
    proof {
        assert(cl(s0, p0, lexer.pos as int) == lexer.pos as int);
    }
    loop
        invariant
            old(lexer).same_stream(*lexer),
            lexer.pos <= lexer.toks@.len(),
            p0 < lexer.pos as int,
            spec_tier(s0, p0, 9) == spec_tier_rest(
                s0,
                lexer.pos as int,
                9,
                view_expr(left),
            ),
        decreases lexer.toks@.len() - lexer.pos,
    {
        let t = lexer.lookahead(1)?;
        match t {
            Token::Mul | Token::Div | Token::Mod => {
                let ghost cur = lexer.pos as int;
                left = arithmetic0_expr(lexer, left)?;
                proof {
                    assert(cl(s0, cur + 1, lexer.pos as int) == lexer.pos as int);
                }
            },
            _ => {
                return Ok(left);
            },
        }
    }
}

/// One operator step of tier 9, folded onto `node`.
pub fn arithmetic0_expr(lexer: &mut Lexer, node: ExprNode) -> (r: Result<ExprNode, CompileError>)
    requires
        old(lexer).swf(),
        spec_la(old(lexer).sv(), old(lexer).pos as int) matches Ok(t) && tier_op(9, t),
    ensures
        parse_frame(*old(lexer), *final(lexer)),
        old(lexer).pos < final(lexer).pos,
        ({
            let s = old(lexer).sv();
            let p = old(lexer).pos as int;
            let rr = spec_term(s, p + 1);
            final(lexer).pos as int == rr.end && match (r, rr.res) {
                (Ok(n), Ok(rv)) => spec_la(s, p) matches Ok(op) && view_expr(n)
                    == ExprNodeV::Arith(
                    ArithmeticOpNodeV {
                        operator: op,
                        left_value: Box::new(view_expr(node)),
                        right_value: Box::new(rv),
                    },
                ),
                (Err(a), Err(b)) => a == b,
                _ => false,
            }
        }),
    decreases lexer.toks@.len() - lexer.pos, 81int,
{
    let op = lexer.advance()?;
    let rhs = term(lexer)?;
    Ok(
        ExprNode::Arith(
            ArithmeticOpNode {
                operator: op,
                left_value: Box::new(node),
                right_value: Box::new(rhs),
            },
        ),
    )
}

/// `term ::= [ '(' typeref ')' ] unary`
pub fn term(lexer: &mut Lexer) -> (r: Result<ExprNode, CompileError>)
    requires
        old(lexer).swf(),
    ensures
        parse_frame(*old(lexer), *final(lexer)),
        ({
            let sp = spec_term(old(lexer).sv(), old(lexer).pos as int);
            sp.end == final(lexer).pos as int && expr_agree(r, sp.res)
        }),
        r is Ok ==> old(lexer).pos < final(lexer).pos,
    decreases lexer.toks@.len() - lexer.pos, 80int,
{
    let ghost s0 = old(lexer).sv();
    let ghost p0 = old(lexer).pos as int;
    let t1 = lexer.lookahead(1)?;
    if matches!(t1, Token::LParentheses) {
        let t2 = lexer.lookahead(2)?;
        if is_base_type(&t2) {
            let _lp = lexer.advance()?;
            let ty = crate::parse_def::typeref(lexer)?;
            let _rp = lexer.matcher(Token::RParentheses)?;
            proof {
                assert(cl(s0, p0 + 1, lexer.pos as int) == lexer.pos as int);
            }
            let u = unary(lexer)?;
            return Ok(ExprNode::Term(TermNode { case_type: Some(ty), unary: Box::new(u) }));
        }
    }
    let u = unary(lexer)?;
    Ok(ExprNode::Term(TermNode { case_type: None, unary: Box::new(u) }))
}

/// `unary ::= [prefix] primary postfix?`
pub fn unary(lexer: &mut Lexer) -> (r: Result<UnaryNode, CompileError>)
    requires
        old(lexer).swf(),
    ensures
        parse_frame(*old(lexer), *final(lexer)),
        ({
            let sp = spec_unary(old(lexer).sv(), old(lexer).pos as int);
            sp.end == final(lexer).pos as int && unary_agree(r, sp.res)
        }),
        r is Ok ==> old(lexer).pos < final(lexer).pos,
    decreases lexer.toks@.len() - lexer.pos, 75int,
{
    let ghost s0 = old(lexer).sv();
    let ghost p0 = old(lexer).pos as int;
    let la1 = lexer.lookahead(1)?;
    let mut prefix: Option<Token> = None;
    if is_prefix_op(&la1) {
        let _p = lexer.advance()?;
        prefix = Some(la1);
    }
    let pn = primary(lexer)?;
    let t = lexer.lookahead(1)?;
    match t {
        Token::Dot => {
            let opr = lexer.advance()?;
            proof {
                assert(cl(s0, p0 + 1, lexer.pos as int) == lexer.pos as int);
            }
            let u = unary(lexer)?;
            Ok(
                UnaryNode::MemberRef(
                    RefUnaryNode {
                        prefix,
                        operator: opr,
                        primary: pn,
                        postfix: Some(Box::new(u)),
                    },
                ),
            )
        },
        Token::PointerRef => {
            let _a = lexer.advance()?;
            proof {
                assert(cl(s0, p0 + 1, lexer.pos as int) == lexer.pos as int);
            }
            let u = unary(lexer)?;
            Ok(
                UnaryNode::PointerMemberRef(
                    PointerRefUnaryNode { prefix, primary: pn, postfix: Some(Box::new(u)) },
                ),
            )
        },
        Token::Inc | Token::Dec => {
            let p2 = lexer.advance()?;
            Ok(UnaryNode::SelfOp(SelfOpUnaryNode { prefix, primary: pn, postfix: p2 }))
        },
        Token::LBrackets => {
            let _a = lexer.advance()?;
            proof {
                assert(cl(s0, p0 + 1, lexer.pos as int) == lexer.pos as int);
            }
            let ix = expr0(lexer)?;
            let _rb = lexer.matcher(Token::RBrackets)?;
            Ok(UnaryNode::Index(ArrayUnaryNode { prefix, primary: pn, postfix: Box::new(ix) }))
        },
        Token::LParentheses => {
            proof {
                assert(cl(s0, p0, lexer.pos as int) == lexer.pos as int);
            }
            let ps = func_call_params_expr(lexer)?;
            Ok(UnaryNode::Call(FuncCallNode { prefix, primary: pn, params: ps }))
        },
        _ => Ok(UnaryNode::Single(SingeUnaryNode { prefix, primary: pn })),
    }
}

/// `( [ expr0 (',' expr0)* ] )` — `None` when the parentheses are empty.
#[verifier::loop_isolation(false)]
pub fn func_call_params_expr(lexer: &mut Lexer) -> (r: Result<
    Option<Vec<ExprNode>>,
    CompileError,
>)
    requires
        old(lexer).swf(),
    ensures
        parse_frame(*old(lexer), *final(lexer)),
        ({
            let sp = spec_func_call_params(old(lexer).sv(), old(lexer).pos as int);
            sp.end == final(lexer).pos as int && args_agree(r, sp.res)
        }),
    decreases lexer.toks@.len() - lexer.pos, 74int,
{
    let ghost s0 = old(lexer).sv();
    let ghost p0 = old(lexer).pos as int;
    let _lp = lexer.matcher(Token::LParentheses)?;
    let t0 = lexer.lookahead(1)?;
    if matches!(t0, Token::RParentheses) {
        let _rp = lexer.advance()?;
        return Ok(None);
    }
    proof {
        assert(cl(s0, p0 + 1, lexer.pos as int) == lexer.pos as int);
    }
    let first = expr0(lexer)?;
    let ghost a0end = lexer.pos as int;
    let ghost acc0 = seq![view_expr(first)];
    let mut params: Vec<ExprNode> = Vec::new();
    proof {
        assert(view_exprs(params@) =~= Seq::<ExprNodeV>::empty());
        lemma_view_exprs_push(params@, first);
    }
    params.push(first);
    proof {
        assert(view_exprs(params@) =~= acc0);
        assert(cl(s0, p0 + 1, a0end) == a0end);
    }
    loop
        invariant
            old(lexer).same_stream(*lexer),
            lexer.pos <= lexer.toks@.len(),
            p0 + 1 <= lexer.pos as int,
            spec_call_args_rest(s0, lexer.pos as int, view_exprs(params@))
                == spec_call_args_rest(s0, a0end, acc0),
            spec_func_call_params(s0, p0) == ({
                let rest = spec_call_args_rest(s0, a0end, acc0);
                match rest.res {
                    Err(e) => PRes::<Option<Seq<ExprNodeV>>> { res: Err(e), end: rest.end },
                    Ok(all) => PRes::<Option<Seq<ExprNodeV>>> {
                        res: Ok(Some(all)),
                        end: rest.end,
                    },
                }
            }),
        decreases lexer.toks@.len() - lexer.pos,
    {
        let ghost cur0 = lexer.pos as int;
        let t = lexer.lookahead(1)?;
        if matches!(t, Token::Comma) {
            let _c = lexer.advance()?;
            let e = expr0(lexer)?;
            proof {
                lemma_view_exprs_push(params@, e);
                assert(cl(s0, cur0 + 1, lexer.pos as int) == lexer.pos as int);
            }
            params.push(e);
        } else {
            let _rp = lexer.matcher(Token::RParentheses)?;
            return Ok(Some(params));
        }
    }
}

/// A literal, an identifier, or `( expr0 )`.
pub fn primary(lexer: &mut Lexer) -> (r: Result<PrimaryNode, CompileError>)
    requires
        old(lexer).swf(),
    ensures
        parse_frame(*old(lexer), *final(lexer)),
        ({
            let sp = spec_primary(old(lexer).sv(), old(lexer).pos as int);
            sp.end == final(lexer).pos as int && primary_agree(r, sp.res)
        }),
        r is Ok ==> old(lexer).pos < final(lexer).pos,
    decreases lexer.toks@.len() - lexer.pos, 70int,
{
    let t = lexer.advance()?;
    match t {
        Token::Number(i) => Ok(PrimaryNode { name: None, value: Const::Integer(i) }),
        Token::Character(c) => Ok(PrimaryNode { name: None, value: Const::Char(c) }),
        Token::String(st) => Ok(PrimaryNode { name: None, value: Const::String(st) }),
        Token::Name(nm) => Ok(PrimaryNode { name: Some(nm), value: Const::Identifier }),
        Token::LParentheses => {
            let e0 = expr0(lexer)?;
            let _rp = lexer.matcher(Token::RParentheses)?;
            Ok(PrimaryNode { name: None, value: Const::ParenthesesExpr(Box::new(e0)) })
        },
        other => Err(CompileError::Syntax(SyntaxError { found: other })),
    }
}


/// A failing look at `pos` (a recorded scanning failure) surfaces as the
/// parse result of any expression tier at `pos`.
pub proof fn lemma_tier_la_err(s: StreamV, pos: int, k: int)
    requires
        0 <= pos <= s.toks.len(),
        1 <= k <= 9,
        spec_la(s, pos) is Err,
    ensures
        spec_tier(s, pos, k) == (PRes::<ExprNodeV> {
            res: Err(spec_la(s, pos)->Err_0),
            end: pos,
        }),
    decreases 9 - k,
{
    if k < 9 {
        lemma_tier_la_err(s, pos, k + 1);
    } else {
        assert(spec_term(s, pos) == (PRes::<ExprNodeV> {
            res: Err(spec_la(s, pos)->Err_0),
            end: pos,
        }));
    }
    assert(cl(s, pos, pos) == pos);
}

/// A failing look at `pos` surfaces as the parse result of `expr0` at `pos`.
pub proof fn lemma_expr0_la_err(s: StreamV, pos: int)
    requires
        0 <= pos <= s.toks.len(),
        spec_la(s, pos) is Err,
    ensures
        spec_expr0(s, pos) == (PRes::<ExprNodeV> {
            res: Err(spec_la(s, pos)->Err_0),
            end: pos,
        }),
{
    lemma_tier_la_err(s, pos, 1);
}

} // verus!
