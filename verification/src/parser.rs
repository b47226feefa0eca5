//! The parser entry point: a whole compilation unit.

use vstd::prelude::*;
use crate::ast::ProgramNode;
use crate::ast::ProgramNodeV;
use crate::ast::view_program;
use crate::error::CompileError;
use crate::lexer::Lexer;
use crate::lexer::PRes;
use crate::lexer::StreamV;
use crate::lexer::parse_frame;
use crate::lexer::spec_matcher;
use crate::parse_def::import_statements;
use crate::parse_def::spec_import_statements;
use crate::parse_def::spec_top_defs;
use crate::parse_def::top_defs;
use crate::token::Token;

verus! {

/// `compilation_unit ::= import_statements top_defs end-of-input`
pub open spec fn spec_compilation_unit(s: StreamV, pos: int) -> PRes<ProgramNodeV> {
    let im = spec_import_statements(s, pos, Seq::empty());
    match im.res {
        Err(e) => PRes { res: Err(e), end: im.end },
        Ok(iv) => {
            let td = spec_top_defs(s, im.end, Seq::empty(), Seq::empty());
            match td.res {
                Err(e) => PRes { res: Err(e), end: td.end },
                Ok(tv) => {
                    let m = spec_matcher(s, td.end, Token::Eof);
                    match m.res {
                        Err(e) => PRes { res: Err(e), end: m.end },
                        Ok(_) => PRes {
                            res: Ok(ProgramNodeV { import_stmts: iv, defs: tv }),
                            end: m.end,
                        },
                    }
                },
            }
        },
    }
}

pub open spec fn program_agree(
    r: Result<ProgramNode, CompileError>,
    sp: Result<ProgramNodeV, CompileError>,
) -> bool {
    match (r, sp) {
        (Ok(n), Ok(v)) => view_program(n) == v,
        (Err(a), Err(b)) => a == b,
        _ => false,
    }
}

/// Parses a whole compilation unit from the token stream.
pub fn parse(lexer: &mut Lexer) -> (r: Result<ProgramNode, CompileError>)
    requires
        old(lexer).swf(),
    ensures
        parse_frame(*old(lexer), *final(lexer)),
        ({
            let sp = spec_compilation_unit(old(lexer).sv(), old(lexer).pos as int);
            sp.end == final(lexer).pos as int && program_agree(r, sp.res)
        }),
{
    compilation_unit(lexer)
}

/// `import_stmts top_defs EOF`
pub fn compilation_unit(lexer: &mut Lexer) -> (r: Result<ProgramNode, CompileError>)
    requires
        old(lexer).swf(),
    ensures
        parse_frame(*old(lexer), *final(lexer)),
        ({
            let sp = spec_compilation_unit(old(lexer).sv(), old(lexer).pos as int);
            sp.end == final(lexer).pos as int && program_agree(r, sp.res)
        }),
{
    let import_stmts = import_statements(lexer)?;
    let defs = top_defs(lexer)?;
    let _eof = lexer.matcher(Token::Eof)?;
    Ok(ProgramNode { import_stmts, defs })
}

} // verus!
