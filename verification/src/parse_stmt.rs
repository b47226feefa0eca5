//! The statement parser: blocks, control flow, and expression statements,
//! specified over the token stream.

use vstd::prelude::*;
use crate::ast::BlockNodeV;
use crate::ast::DefVarNodeV;
use crate::ast::DoWhileStmtNodeV;
use crate::ast::ExprStmtNodeV;
use crate::ast::ForStmtNodeV;
use crate::ast::IfStmtNodeV;
use crate::ast::ReturnStmtNodeV;
use crate::ast::StmtNodeV;
use crate::ast::WhileStmtNodeV;
use crate::ast::view_block;
use crate::ast::view_stmt;
use crate::ast_stmt::BlockNode;
use crate::ast_stmt::BreakStmtNode;
use crate::ast_stmt::ContinueStmtNode;
use crate::ast_stmt::DoWhileStmtNode;
use crate::ast_stmt::ExprStmtNode;
use crate::ast_stmt::ForStmtNode;
use crate::ast_stmt::IfStmtNode;
use crate::ast_stmt::ReturnStmtNode;
use crate::ast_stmt::StmtNode;
use crate::ast_stmt::WhileStmtNode;
use crate::error::CompileError;
use crate::lexer::Lexer;
use crate::lexer::PRes;
use crate::lexer::StreamV;
use crate::lexer::advance1;
use crate::lexer::cl;
use crate::lexer::spec_la;
use crate::lexer::parse_frame;
use crate::lexer::spec_matcher;
use crate::ast::DefVarNode;
use crate::ast::lemma_view_defvars_push;
use crate::ast::lemma_view_stmts_push;
use crate::ast::view_defvars;
use crate::ast::view_stmts;
use crate::error::SyntaxError;
use crate::parse_def::defvar;
use crate::parse_def::spec_defvar;
use crate::parse_def::typeref;
use crate::parse_def::spec_typeref;
use crate::parse_expr::expr0;
use crate::parse_expr::spec_expr0;
use crate::token::is_base_type;
use crate::token::Token;
use crate::token::spec_is_base_type;

verus! {

/// Statement dispatch on the leading token.
pub open spec fn spec_statement(s: StreamV, pos: int) -> PRes<StmtNodeV>
    decreases s.toks.len() - pos, 133int,
    when 0 <= pos <= s.toks.len()
{
    match spec_la(s, pos) {
        Err(e) => PRes { res: Err(e), end: pos },
        Ok(t) => match t {
            Token::LBrace => {
                let b = spec_block(s, pos);
                match b.res {
                    Err(e) => PRes { res: Err(e), end: b.end },
                    Ok(bv) => PRes { res: Ok(StmtNodeV::Block(bv)), end: b.end },
                }
            },
            Token::If => spec_if_stmt(s, pos),
            Token::While => spec_while_stmt(s, pos),
            Token::Do => spec_do_while_stmt(s, pos),
            Token::For => spec_for_stmt(s, pos),
            Token::Break => spec_break_stmt(s, pos),
            Token::Continue => spec_continue_stmt(s, pos),
            Token::Return => spec_return_stmt(s, pos),
            _ => spec_expr_stmt(s, pos),
        },
    }
}

/// `block ::= '{' ( ';' | defvar-after-typeref | statement )* '}'` — stray
/// semicolons are skipped; a leading base type starts a local variable
/// definition.
pub open spec fn spec_block(s: StreamV, pos: int) -> PRes<BlockNodeV>
    decreases s.toks.len() - pos, 130int,
    when 0 <= pos <= s.toks.len()
{
    let m = spec_matcher(s, pos, Token::LBrace);
    match m.res {
        Err(e) => PRes { res: Err(e), end: m.end },
        Ok(_) => spec_block_rest(s, cl(s, pos + 1, m.end), Seq::empty(), Seq::empty()),
    }
}

/// The items of a block, up to and including the closing brace.
pub open spec fn spec_block_rest(
    s: StreamV,
    pos: int,
    dvs: Seq<DefVarNodeV>,
    sts: Seq<StmtNodeV>,
) -> PRes<BlockNodeV>
    decreases s.toks.len() - pos, 135int,
    when 0 <= pos <= s.toks.len()
{
    match spec_la(s, pos) {
        Err(e) => PRes { res: Err(e), end: pos },
        Ok(t) => if t is RBrace {
            PRes { res: Ok(BlockNodeV { defvars: dvs, stmts: sts }), end: advance1(s, pos) }
        } else if t is Semi {
            spec_block_rest(s, cl(s, pos + 1, pos + 1), dvs, sts)
        } else if spec_is_base_type(t) {
            let ty = spec_typeref(s, pos);
            match ty.res {
                Err(e) => PRes { res: Err(e), end: ty.end },
                Ok(tv) => {
                    let dv = spec_defvar(s, ty.end, tv);
                    match dv.res {
                        Err(e) => PRes { res: Err(e), end: dv.end },
                        Ok(dvv) => spec_block_rest(s, cl(s, pos + 1, dv.end), dvs.push(dvv), sts),
                    }
                },
            }
        } else if pos < s.toks.len() {
            let st = spec_statement(s, pos);
            match st.res {
                Err(e) => PRes { res: Err(e), end: st.end },
                Ok(sv) => spec_block_rest(s, cl(s, pos + 1, st.end), dvs, sts.push(sv)),
            }
        } else {
            let st = spec_statement(s, pos);
            PRes { res: Err(match st.res {
                Err(e) => e,
                Ok(_) => CompileError::Syntax(crate::error::SyntaxError { found: t }),
            }), end: st.end }
        },
    }
}

/// `if_stmt ::= 'if' '(' expr0 ')' statement [ 'else' statement ]`
pub open spec fn spec_if_stmt(s: StreamV, pos: int) -> PRes<StmtNodeV>
    decreases s.toks.len() - pos, 132int,
    when 0 <= pos <= s.toks.len()
{
    let m = spec_matcher(s, advance1(s, pos), Token::LParentheses);
    match m.res {
        Err(e) => PRes { res: Err(e), end: m.end },
        Ok(_) => {
            let c = spec_expr0(s, m.end);
            match c.res {
                Err(e) => PRes { res: Err(e), end: c.end },
                Ok(cv) => {
                    let m2 = spec_matcher(s, c.end, Token::RParentheses);
                    match m2.res {
                        Err(e) => PRes { res: Err(e), end: m2.end },
                        Ok(_) => {
                            let st = spec_statement(s, cl(s, pos + 1, m2.end));
                            match st.res {
                                Err(e) => PRes { res: Err(e), end: st.end },
                                Ok(sv) => match spec_la(s, st.end) {
                                    Err(e) => PRes { res: Err(e), end: st.end },
                                    Ok(t2) => if t2 is Else {
                                        let st2 = spec_statement(s, cl(s, pos + 1, st.end + 1));
                                        match st2.res {
                                            Err(e) => PRes { res: Err(e), end: st2.end },
                                            Ok(ev) => PRes {
                                                res: Ok(
                                                    StmtNodeV::If(
                                                        IfStmtNodeV {
                                                            condition: cv,
                                                            if_stmt: Box::new(sv),
                                                            else_stmt: Some(Box::new(ev)),
                                                        },
                                                    ),
                                                ),
                                                end: st2.end,
                                            },
                                        }
                                    } else {
                                        PRes {
                                            res: Ok(
                                                StmtNodeV::If(
                                                    IfStmtNodeV {
                                                        condition: cv,
                                                        if_stmt: Box::new(sv),
                                                        else_stmt: None,
                                                    },
                                                ),
                                            ),
                                            end: st.end,
                                        }
                                    },
                                },
                            }
                        },
                    }
                },
            }
        },
    }
}

/// `while_stmt ::= 'while' '(' expr0 ')' statement`
pub open spec fn spec_while_stmt(s: StreamV, pos: int) -> PRes<StmtNodeV>
    decreases s.toks.len() - pos, 132int,
    when 0 <= pos <= s.toks.len()
{
    let m = spec_matcher(s, advance1(s, pos), Token::LParentheses);
    match m.res {
        Err(e) => PRes { res: Err(e), end: m.end },
        Ok(_) => {
            let c = spec_expr0(s, m.end);
            match c.res {
                Err(e) => PRes { res: Err(e), end: c.end },
                Ok(cv) => {
                    let m2 = spec_matcher(s, c.end, Token::RParentheses);
                    match m2.res {
                        Err(e) => PRes { res: Err(e), end: m2.end },
                        Ok(_) => {
                            let st = spec_statement(s, cl(s, pos + 1, m2.end));
                            match st.res {
                                Err(e) => PRes { res: Err(e), end: st.end },
                                Ok(sv) => PRes {
                                    res: Ok(
                                        StmtNodeV::While(
                                            WhileStmtNodeV {
                                                condition: cv,
                                                stmts: Box::new(sv),
                                            },
                                        ),
                                    ),
                                    end: st.end,
                                },
                            }
                        },
                    }
                },
            }
        },
    }
}

/// `do_while_stmt ::= 'do' block 'while' '(' expr0 ')'`
pub open spec fn spec_do_while_stmt(s: StreamV, pos: int) -> PRes<StmtNodeV>
    decreases s.toks.len() - pos, 132int,
    when 0 <= pos <= s.toks.len()
{
    let b = spec_block(s, advance1(s, pos));
    match b.res {
        Err(e) => PRes { res: Err(e), end: b.end },
        Ok(bv) => {
            let m = spec_matcher(s, b.end, Token::While);
            match m.res {
                Err(e) => PRes { res: Err(e), end: m.end },
                Ok(_) => {
                    let m2 = spec_matcher(s, m.end, Token::LParentheses);
                    match m2.res {
                        Err(e) => PRes { res: Err(e), end: m2.end },
                        Ok(_) => {
                            let c = spec_expr0(s, m2.end);
                            match c.res {
                                Err(e) => PRes { res: Err(e), end: c.end },
                                Ok(cv) => {
                                    let m3 = spec_matcher(s, c.end, Token::RParentheses);
                                    match m3.res {
                                        Err(e) => PRes { res: Err(e), end: m3.end },
                                        Ok(_) => PRes {
                                            res: Ok(
                                                StmtNodeV::DoWhile(
                                                    DoWhileStmtNodeV {
                                                        condition: cv,
                                                        stmts: Box::new(StmtNodeV::Block(bv)),
                                                    },
                                                ),
                                            ),
                                            end: m3.end,
                                        },
                                    }
                                },
                            }
                        },
                    }
                },
            }
        },
    }
}

/// `for_stmt ::= 'for' '(' expr0 ';' expr0 ';' expr0 ')' statement`
pub open spec fn spec_for_stmt(s: StreamV, pos: int) -> PRes<StmtNodeV>
    decreases s.toks.len() - pos, 132int,
    when 0 <= pos <= s.toks.len()
{
    let m = spec_matcher(s, advance1(s, pos), Token::LParentheses);
    match m.res {
        Err(e) => PRes { res: Err(e), end: m.end },
        Ok(_) => {
            let e1 = spec_expr0(s, m.end);
            match e1.res {
                Err(e) => PRes { res: Err(e), end: e1.end },
                Ok(v1) => {
                    let m2 = spec_matcher(s, e1.end, Token::Semi);
                    match m2.res {
                        Err(e) => PRes { res: Err(e), end: m2.end },
                        Ok(_) => {
                            let e2 = spec_expr0(s, m2.end);
                            match e2.res {
                                Err(e) => PRes { res: Err(e), end: e2.end },
                                Ok(v2) => {
                                    let m3 = spec_matcher(s, e2.end, Token::Semi);
                                    match m3.res {
                                        Err(e) => PRes { res: Err(e), end: m3.end },
                                        Ok(_) => {
                                            let e3 = spec_expr0(s, m3.end);
                                            match e3.res {
                                                Err(e) => PRes { res: Err(e), end: e3.end },
                                                Ok(v3) => {
                                                    let m4 = spec_matcher(
                                                        s,
                                                        e3.end,
                                                        Token::RParentheses,
                                                    );
                                                    match m4.res {
                                                        Err(e) => PRes {
                                                            res: Err(e),
                                                            end: m4.end,
                                                        },
                                                        Ok(_) => {
                                                            let st = spec_statement(
                                                                s,
                                                                cl(s, pos + 1, m4.end),
                                                            );
                                                            match st.res {
                                                                Err(e) => PRes {
                                                                    res: Err(e),
                                                                    end: st.end,
                                                                },
                                                                Ok(sv) => PRes {
                                                                    res: Ok(
                                                                        StmtNodeV::For(
                                                                            ForStmtNodeV {
                                                                                initial_expr: v1,
                                                                                condition: v2,
                                                                                end_expr: v3,
                                                                                stmts: Box::new(sv),
                                                                            },
                                                                        ),
                                                                    ),
                                                                    end: st.end,
                                                                },
                                                            }
                                                        },
                                                    }
                                                },
                                            }
                                        },
                                    }
                                },
                            }
                        },
                    }
                },
            }
        },
    }
}

/// `break_stmt ::= 'break' ';'`
pub open spec fn spec_break_stmt(s: StreamV, pos: int) -> PRes<StmtNodeV> {
    let m = spec_matcher(s, advance1(s, pos), Token::Semi);
    match m.res {
        Err(e) => PRes { res: Err(e), end: m.end },
        Ok(_) => PRes { res: Ok(StmtNodeV::Break), end: m.end },
    }
}

/// `continue_stmt ::= 'continue' ';'`
pub open spec fn spec_continue_stmt(s: StreamV, pos: int) -> PRes<StmtNodeV> {
    let m = spec_matcher(s, advance1(s, pos), Token::Semi);
    match m.res {
        Err(e) => PRes { res: Err(e), end: m.end },
        Ok(_) => PRes { res: Ok(StmtNodeV::Continue), end: m.end },
    }
}

/// `return_stmt ::= 'return' expr0 ';'`
pub open spec fn spec_return_stmt(s: StreamV, pos: int) -> PRes<StmtNodeV> {
    let v = spec_expr0(s, advance1(s, pos));
    match v.res {
        Err(e) => PRes { res: Err(e), end: v.end },
        Ok(vv) => {
            let m = spec_matcher(s, v.end, Token::Semi);
            match m.res {
                Err(e) => PRes { res: Err(e), end: m.end },
                Ok(_) => PRes {
                    res: Ok(StmtNodeV::Return(ReturnStmtNodeV { value: vv })),
                    end: m.end,
                },
            }
        },
    }
}

/// `expr_stmt ::= expr0 ';'`
pub open spec fn spec_expr_stmt(s: StreamV, pos: int) -> PRes<StmtNodeV> {
    let v = spec_expr0(s, pos);
    match v.res {
        Err(e) => PRes { res: Err(e), end: v.end },
        Ok(vv) => {
            let m = spec_matcher(s, v.end, Token::Semi);
            match m.res {
                Err(e) => PRes { res: Err(e), end: m.end },
                Ok(_) => PRes {
                    res: Ok(StmtNodeV::Expr(ExprStmtNodeV { expr: vv })),
                    end: m.end,
                },
            }
        },
    }
}


// ---------------------------------------------------------------------------
// Agreement between executable results and specification results.
// ---------------------------------------------------------------------------
pub open spec fn stmt_agree(
    r: Result<StmtNode, CompileError>,
    sp: Result<StmtNodeV, CompileError>,
) -> bool {
    match (r, sp) {
        (Ok(n), Ok(v)) => view_stmt(n) == v,
        (Err(a), Err(b)) => a == b,
        _ => false,
    }
}

pub open spec fn block_agree(
    r: Result<BlockNode, CompileError>,
    sp: Result<BlockNodeV, CompileError>,
) -> bool {
    match (r, sp) {
        (Ok(n), Ok(v)) => view_block(n) == v,
        (Err(a), Err(b)) => a == b,
        _ => false,
    }
}

// ---------------------------------------------------------------------------
// Executable parsing functions.
// ---------------------------------------------------------------------------
/// Statement dispatch on the leading token.
pub fn statement(lexer: &mut Lexer) -> (r: Result<StmtNode, CompileError>)
    requires
        old(lexer).swf(),
    ensures
        parse_frame(*old(lexer), *final(lexer)),
        ({
            let sp = spec_statement(old(lexer).sv(), old(lexer).pos as int);
            sp.end == final(lexer).pos as int && stmt_agree(r, sp.res)
        }),
        r is Ok ==> old(lexer).pos < final(lexer).pos,
    decreases lexer.toks@.len() - lexer.pos, 133int,
{
    let t = lexer.lookahead(1)?;
    match t {
        Token::LBrace => {
            let b = block(lexer)?;
            Ok(StmtNode::Block(b))
        },
        Token::If => if_stmt(lexer),
        Token::While => while_stmt(lexer),
        Token::Do => do_while_stmt(lexer),
        Token::For => for_stmt(lexer),
        Token::Break => break_stmt(lexer),
        Token::Continue => continue_stmt(lexer),
        Token::Return => return_stmt(lexer),
        _ => expr(lexer),
    }
}

/// `block ::= '{' ( ';' | defvar | statement )* '}'`
#[verifier::loop_isolation(false)]
pub fn block(lexer: &mut Lexer) -> (r: Result<BlockNode, CompileError>)
    requires
        old(lexer).swf(),
    ensures
        parse_frame(*old(lexer), *final(lexer)),
        ({
            let sp = spec_block(old(lexer).sv(), old(lexer).pos as int);
            sp.end == final(lexer).pos as int && block_agree(r, sp.res)
        }),
        r is Ok ==> old(lexer).pos < final(lexer).pos,
    decreases lexer.toks@.len() - lexer.pos, 130int,
{
    let ghost s0 = old(lexer).sv();
    let ghost p0 = old(lexer).pos as int;
    let _lb = lexer.matcher(Token::LBrace)?;
    proof {
        assert(cl(s0, p0 + 1, lexer.pos as int) == lexer.pos as int);
    }
    let ghost bstart = lexer.pos as int;
    let mut defvars: Vec<DefVarNode> = Vec::new();
    let mut stmts: Vec<StmtNode> = Vec::new();
    proof {
        assert(view_defvars(defvars@) =~= Seq::<DefVarNodeV>::empty());
        assert(view_stmts(stmts@) =~= Seq::<StmtNodeV>::empty());
    }
    loop
        invariant
            old(lexer).same_stream(*lexer),
            lexer.pos <= lexer.toks@.len(),
            p0 < lexer.pos as int,
            spec_block_rest(s0, lexer.pos as int, view_defvars(defvars@), view_stmts(stmts@))
                == spec_block_rest(s0, bstart, Seq::empty(), Seq::empty()),
        decreases lexer.toks@.len() - lexer.pos,
    {
        let ghost cur = lexer.pos as int;
        let t = lexer.lookahead(1)?;
        if matches!(t, Token::RBrace) {
            let _rb = lexer.advance()?;
            return Ok(BlockNode { defvars, stmts });
        } else if matches!(t, Token::Semi) {
            let _s = lexer.advance()?;
            proof {
                assert(cl(s0, cur + 1, lexer.pos as int) == lexer.pos as int);
            }
        } else if is_base_type(&t) {
            let ty = typeref(lexer)?;
            let dv = defvar(lexer, ty)?;
            proof {
                lemma_view_defvars_push(defvars@, dv);
                assert(cl(s0, cur + 1, lexer.pos as int) == lexer.pos as int);
            }
            defvars.push(dv);
        } else {
            let st = statement(lexer)?;
            proof {
                lemma_view_stmts_push(stmts@, st);
                assert(cur < s0.toks.len());
                assert(cl(s0, cur + 1, lexer.pos as int) == lexer.pos as int);
            }
            stmts.push(st);
        }
    }
}

/// `if_stmt ::= 'if' '(' expr0 ')' statement [ 'else' statement ]`
pub fn if_stmt(lexer: &mut Lexer) -> (r: Result<StmtNode, CompileError>)
    requires
        old(lexer).swf(),
    ensures
        parse_frame(*old(lexer), *final(lexer)),
        ({
            let sp = spec_if_stmt(old(lexer).sv(), old(lexer).pos as int);
            sp.end == final(lexer).pos as int && stmt_agree(r, sp.res)
        }),
        r is Ok ==> old(lexer).pos < final(lexer).pos,
    decreases lexer.toks@.len() - lexer.pos, 132int,
{
    let ghost s0 = old(lexer).sv();
    let ghost p0 = old(lexer).pos as int;
    let _kw = lexer.advance()?;
    let _lp = lexer.matcher(Token::LParentheses)?;
    let c = expr0(lexer)?;
    let _rp = lexer.matcher(Token::RParentheses)?;
    proof {
        assert(cl(s0, p0 + 1, lexer.pos as int) == lexer.pos as int);
    }
    let st = statement(lexer)?;
    let t2 = lexer.lookahead(1)?;
    if matches!(t2, Token::Else) {
        let _e = lexer.advance()?;
        proof {
            assert(cl(s0, p0 + 1, lexer.pos as int) == lexer.pos as int);
        }
        let st2 = statement(lexer)?;
        Ok(
            StmtNode::If(
                IfStmtNode {
                    condition: c,
                    if_stmt: Box::new(st),
                    else_stmt: Some(Box::new(st2)),
                },
            ),
        )
    } else {
        Ok(StmtNode::If(IfStmtNode { condition: c, if_stmt: Box::new(st), else_stmt: None }))
    }
}

/// `expr_stmt ::= expr0 ';'`
pub fn expr(lexer: &mut Lexer) -> (r: Result<StmtNode, CompileError>)
    requires
        old(lexer).swf(),
    ensures
        parse_frame(*old(lexer), *final(lexer)),
        ({
            let sp = spec_expr_stmt(old(lexer).sv(), old(lexer).pos as int);
            sp.end == final(lexer).pos as int && stmt_agree(r, sp.res)
        }),
        r is Ok ==> old(lexer).pos < final(lexer).pos,
{
    let e = expr0(lexer)?;
    let _sc = lexer.matcher(Token::Semi)?;
    Ok(StmtNode::Expr(ExprStmtNode { expr: e }))
}

/// `while_stmt ::= 'while' '(' expr0 ')' statement`
pub fn while_stmt(lexer: &mut Lexer) -> (r: Result<StmtNode, CompileError>)
    requires
        old(lexer).swf(),
    ensures
        parse_frame(*old(lexer), *final(lexer)),
        ({
            let sp = spec_while_stmt(old(lexer).sv(), old(lexer).pos as int);
            sp.end == final(lexer).pos as int && stmt_agree(r, sp.res)
        }),
        r is Ok ==> old(lexer).pos < final(lexer).pos,
    decreases lexer.toks@.len() - lexer.pos, 132int,
{
    let ghost s0 = old(lexer).sv();
    let ghost p0 = old(lexer).pos as int;
    let _kw = lexer.advance()?;
    let _lp = lexer.matcher(Token::LParentheses)?;
    let c = expr0(lexer)?;
    let _rp = lexer.matcher(Token::RParentheses)?;
    proof {
        assert(cl(s0, p0 + 1, lexer.pos as int) == lexer.pos as int);
    }
    let st = statement(lexer)?;
    Ok(StmtNode::While(WhileStmtNode { condition: c, stmts: Box::new(st) }))
}

/// `do_while_stmt ::= 'do' block 'while' '(' expr0 ')'`
pub fn do_while_stmt(lexer: &mut Lexer) -> (r: Result<StmtNode, CompileError>)
    requires
        old(lexer).swf(),
    ensures
        parse_frame(*old(lexer), *final(lexer)),
        ({
            let sp = spec_do_while_stmt(old(lexer).sv(), old(lexer).pos as int);
            sp.end == final(lexer).pos as int && stmt_agree(r, sp.res)
        }),
        r is Ok ==> old(lexer).pos < final(lexer).pos,
    decreases lexer.toks@.len() - lexer.pos, 132int,
{
    let _kw = lexer.advance()?;
    let b = block(lexer)?;
    let _w = lexer.matcher(Token::While)?;
    let _lp = lexer.matcher(Token::LParentheses)?;
    let c = expr0(lexer)?;
    let _rp = lexer.matcher(Token::RParentheses)?;
    let inner: StmtNode = StmtNode::Block(b);
    proof {
        assert(view_stmt(inner) is Block);
    }
    Ok(StmtNode::DoWhile(DoWhileStmtNode { condition: c, stmts: Box::new(inner) }))
}

/// `for_stmt ::= 'for' '(' expr0 ';' expr0 ';' expr0 ')' statement`
pub fn for_stmt(lexer: &mut Lexer) -> (r: Result<StmtNode, CompileError>)
    requires
        old(lexer).swf(),
    ensures
        parse_frame(*old(lexer), *final(lexer)),
        ({
            let sp = spec_for_stmt(old(lexer).sv(), old(lexer).pos as int);
            sp.end == final(lexer).pos as int && stmt_agree(r, sp.res)
        }),
        r is Ok ==> old(lexer).pos < final(lexer).pos,
    decreases lexer.toks@.len() - lexer.pos, 132int,
{
    let ghost s0 = old(lexer).sv();
    let ghost p0 = old(lexer).pos as int;
    let _kw = lexer.advance()?;
    let _lp = lexer.matcher(Token::LParentheses)?;
    let e1 = expr0(lexer)?;
    let _s1 = lexer.matcher(Token::Semi)?;
    let e2 = expr0(lexer)?;
    let _s2 = lexer.matcher(Token::Semi)?;
    let e3 = expr0(lexer)?;
    let _rp = lexer.matcher(Token::RParentheses)?;
    proof {
        assert(cl(s0, p0 + 1, lexer.pos as int) == lexer.pos as int);
    }
    let st = statement(lexer)?;
    Ok(
        StmtNode::For(
            ForStmtNode {
                initial_expr: e1,
                condition: e2,
                end_expr: e3,
                stmts: Box::new(st),
            },
        ),
    )
}

/// `break_stmt ::= 'break' ';'`
pub fn break_stmt(lexer: &mut Lexer) -> (r: Result<StmtNode, CompileError>)
    requires
        old(lexer).swf(),
    ensures
        parse_frame(*old(lexer), *final(lexer)),
        ({
            let sp = spec_break_stmt(old(lexer).sv(), old(lexer).pos as int);
            sp.end == final(lexer).pos as int && stmt_agree(r, sp.res)
        }),
        r is Ok ==> old(lexer).pos < final(lexer).pos,
{
    let _kw = lexer.advance()?;
    let _sc = lexer.matcher(Token::Semi)?;
    Ok(StmtNode::Break(BreakStmtNode {  }))
}

/// `continue_stmt ::= 'continue' ';'`
pub fn continue_stmt(lexer: &mut Lexer) -> (r: Result<StmtNode, CompileError>)
    requires
        old(lexer).swf(),
    ensures
        parse_frame(*old(lexer), *final(lexer)),
        ({
            let sp = spec_continue_stmt(old(lexer).sv(), old(lexer).pos as int);
            sp.end == final(lexer).pos as int && stmt_agree(r, sp.res)
        }),
        r is Ok ==> old(lexer).pos < final(lexer).pos,
{
    let _kw = lexer.advance()?;
    let _sc = lexer.matcher(Token::Semi)?;
    Ok(StmtNode::Continue(ContinueStmtNode {  }))
}

/// `return_stmt ::= 'return' expr0 ';'`
pub fn return_stmt(lexer: &mut Lexer) -> (r: Result<StmtNode, CompileError>)
    requires
        old(lexer).swf(),
    ensures
        parse_frame(*old(lexer), *final(lexer)),
        ({
            let sp = spec_return_stmt(old(lexer).sv(), old(lexer).pos as int);
            sp.end == final(lexer).pos as int && stmt_agree(r, sp.res)
        }),
        r is Ok ==> old(lexer).pos < final(lexer).pos,
{
    let ghost s0 = old(lexer).sv();
    let ghost p0 = old(lexer).pos as int;
    proof {
        if spec_la(s0, p0) is Err {
            crate::parse_expr::lemma_expr0_la_err(s0, p0);
        }
    }
    let _kw = lexer.advance()?;
    let v = expr0(lexer)?;
    let _sc = lexer.matcher(Token::Semi)?;
    Ok(StmtNode::Return(ReturnStmtNode { value: v }))
}

} // verus!
