//! The definition parser: imports, struct definitions, type references,
//! function definitions and variable definitions, specified over the token
//! stream.

use vstd::prelude::*;
use crate::ast::DefFuncNode;
use crate::ast::DefNode;
use crate::ast::DefFuncNodeV;
use crate::ast::DefNodeV;
use crate::ast::DefStructNode;
use crate::ast::DefStructNodeV;
use crate::ast::DefVarNode;
use crate::ast::DefVarNodeV;
use crate::ast::ImportStmtNode;
use crate::ast::ImportStmtNodeV;
use crate::ast::ParamsNode;
use crate::ast::ParamsNodeV;
use crate::ast::SlotNode;
use crate::ast::SlotNodeV;
use crate::ast::TopDefNode;
use crate::ast::TopDefNodeV;
use crate::ast::TypeBase;
use crate::ast::TypeBaseV;
use crate::ast::TypeDef;
use crate::ast::TypeNode;
use crate::ast::TypeNodeV;
use crate::ast::VarInit;
use crate::ast::VarInitV;
use crate::ast::lemma_view_defs_push;
use crate::ast::lemma_view_imports_push;
use crate::ast::lemma_view_slots_push;
use crate::ast::lemma_view_strings_push;
use crate::ast::lemma_view_varinits_push;
use crate::ast::view_defs;
use crate::ast::view_defvar;
use crate::ast::view_func;
use crate::ast::view_import;
use crate::ast::view_imports;
use crate::ast::view_strings;
use crate::ast::view_varinits;
use crate::ast::view_params;
use crate::ast::view_slot;
use crate::ast::view_slots;
use crate::ast::view_struct;
use crate::ast::view_topdef;
use crate::ast::view_typebase;
use crate::ast::view_typeref;
use crate::error::CompileError;
use crate::error::SyntaxError;
use crate::lexer::Lexer;
use crate::lexer::PRes;
use crate::lexer::StreamV;
use crate::lexer::advance1;
use crate::lexer::cl;
use crate::lexer::spec_la;
use crate::lexer::parse_frame;
use crate::lexer::spec_matcher;
use crate::parse_expr::expr0;
use crate::parse_expr::spec_expr0;
use crate::parse_stmt::spec_block;
use crate::token::Token;
use crate::token::is_base_type;
use crate::token::spec_is_base_type;

verus! {

// ---------------------------------------------------------------------------
// Type references.
// ---------------------------------------------------------------------------
/// `typebase ::= int | float | double | char | void | long | short
///             | struct name`
pub open spec fn spec_typebase(s: StreamV, pos: int) -> PRes<TypeBaseV> {
    match spec_la(s, pos) {
        Err(e) => PRes { res: Err(e), end: pos },
        Ok(t) => if !spec_is_base_type(t) {
            PRes { res: Err(CompileError::Syntax(SyntaxError { found: t })), end: pos }
        } else if t is Struct {
            match spec_la(s, pos + 1) {
                Err(e) => PRes { res: Err(e), end: advance1(s, pos) },
                Ok(t2) => match t2 {
                    Token::Name(nm) => PRes {
                        res: Ok(TypeBaseV { base: t, name: Some(nm@) }),
                        end: advance1(s, advance1(s, pos)),
                    },
                    _ => PRes {
                        res: Err(CompileError::Syntax(SyntaxError { found: t2 })),
                        end: advance1(s, pos),
                    },
                },
            }
        } else {
            PRes { res: Ok(TypeBaseV { base: t, name: None }), end: advance1(s, pos) }
        },
    }
}

/// The trailing type modifiers: `[]`, `[N]` or `*`, consumed greedily.
pub open spec fn spec_typeref_rest(s: StreamV, pos: int, acc: Seq<TypeDef>) -> PRes<Seq<TypeDef>>
    decreases s.toks.len() - pos,
    when 0 <= pos <= s.toks.len()
{
    match spec_la(s, pos) {
        Err(e) => PRes { res: Err(e), end: pos },
        Ok(t) => match t {
            Token::LBrackets => match spec_la(s, pos + 1) {
                Err(e) => PRes { res: Err(e), end: advance1(s, pos) },
                Ok(t2) => match t2 {
                    Token::RBrackets => spec_typeref_rest(
                        s,
                        cl(s, pos + 1, pos + 2),
                        acc.push(TypeDef::Array),
                    ),
                    Token::Number(n) => if 0 <= n && n <= u32::MAX as i64 {
                        let m = spec_matcher(s, pos + 2, Token::RBrackets);
                        match m.res {
                            Err(e) => PRes { res: Err(e), end: m.end },
                            Ok(_) => spec_typeref_rest(
                                s,
                                cl(s, pos + 1, m.end),
                                acc.push(TypeDef::FixedArray(n as usize)),
                            ),
                        }
                    } else {
                        PRes {
                            res: Err(CompileError::Syntax(SyntaxError { found: t2 })),
                            end: advance1(s, pos),
                        }
                    },
                    _ => PRes {
                        res: Err(CompileError::Syntax(SyntaxError { found: t2 })),
                        end: advance1(s, pos),
                    },
                },
            },
            Token::Mul => spec_typeref_rest(s, cl(s, pos + 1, pos + 1), acc.push(TypeDef::Pointer)),
            _ => PRes { res: Ok(acc), end: pos },
        },
    }
}

/// `typeref ::= typebase ( '[]' | '[' N ']' | '*' )*`
pub open spec fn spec_typeref(s: StreamV, pos: int) -> PRes<TypeNodeV> {
    let tb = spec_typebase(s, pos);
    match tb.res {
        Err(e) => PRes { res: Err(e), end: tb.end },
        Ok(tbv) => {
            let mods = spec_typeref_rest(s, cl(s, pos, tb.end), Seq::empty());
            match mods.res {
                Err(e) => PRes { res: Err(e), end: mods.end },
                Ok(ms) => PRes {
                    res: Ok(TypeNodeV { type_base: tbv, nested_def: ms }),
                    end: mods.end,
                },
            }
        },
    }
}

/// `slot ::= typeref name`
pub open spec fn spec_slot(s: StreamV, pos: int) -> PRes<SlotNodeV> {
    let ty = spec_typeref(s, pos);
    match ty.res {
        Err(e) => PRes { res: Err(e), end: ty.end },
        Ok(tv) => match spec_la(s, ty.end) {
            Err(e) => PRes { res: Err(e), end: ty.end },
            Ok(t) => match t {
                Token::Name(nm) => PRes {
                    res: Ok(SlotNodeV { typeref: tv, name: nm@ }),
                    end: advance1(s, ty.end),
                },
                _ => PRes {
                    res: Err(CompileError::Syntax(SyntaxError { found: t })),
                    end: ty.end,
                },
            },
        },
    }
}

// ---------------------------------------------------------------------------
// Struct definitions.
// ---------------------------------------------------------------------------
/// `(slot ';')*` while a base type is ahead.
pub open spec fn spec_struct_members(s: StreamV, pos: int, acc: Seq<SlotNodeV>) -> PRes<
    Seq<SlotNodeV>,
>
    decreases s.toks.len() - pos,
    when 0 <= pos <= s.toks.len()
{
    match spec_la(s, pos) {
        Err(e) => PRes { res: Err(e), end: pos },
        Ok(t) => if spec_is_base_type(t) {
            let sl = spec_slot(s, pos);
            match sl.res {
                Err(e) => PRes { res: Err(e), end: sl.end },
                Ok(sv) => {
                    let m = spec_matcher(s, sl.end, Token::Semi);
                    match m.res {
                        Err(e) => PRes { res: Err(e), end: m.end },
                        Ok(_) => spec_struct_members(s, cl(s, pos + 1, m.end), acc.push(sv)),
                    }
                },
            }
        } else {
            PRes { res: Ok(acc), end: pos }
        },
    }
}

/// `defstruct ::= 'struct' name '{' (slot ';')* '}' ';'`
pub open spec fn spec_defstruct(s: StreamV, pos: int) -> PRes<DefStructNodeV> {
    let p1 = advance1(s, pos);
    match spec_la(s, p1) {
        Err(e) => PRes { res: Err(e), end: p1 },
        Ok(t) => match t {
            Token::Name(nm) => {
                let m = spec_matcher(s, advance1(s, p1), Token::LBrace);
                match m.res {
                    Err(e) => PRes { res: Err(e), end: m.end },
                    Ok(_) => {
                        let mems = spec_struct_members(s, cl(s, pos, m.end), Seq::empty());
                        match mems.res {
                            Err(e) => PRes { res: Err(e), end: mems.end },
                            Ok(ms) => {
                                let m2 = spec_matcher(s, mems.end, Token::RBrace);
                                match m2.res {
                                    Err(e) => PRes { res: Err(e), end: m2.end },
                                    Ok(_) => {
                                        let m3 = spec_matcher(s, m2.end, Token::Semi);
                                        match m3.res {
                                            Err(e) => PRes { res: Err(e), end: m3.end },
                                            Ok(_) => PRes {
                                                res: Ok(
                                                    DefStructNodeV { name: nm@, member_list: ms },
                                                ),
                                                end: m3.end,
                                            },
                                        }
                                    },
                                }
                            },
                        }
                    },
                }
            },
            _ => PRes { res: Err(CompileError::Syntax(SyntaxError { found: t })), end: p1 },
        },
    }
}

// ---------------------------------------------------------------------------
// Parameter lists.
// ---------------------------------------------------------------------------
/// The slots of a parameter list after the opening parenthesis, up to and
/// including the closing parenthesis.
pub open spec fn spec_params_rest(s: StreamV, pos: int, acc: Seq<SlotNodeV>) -> PRes<
    Seq<SlotNodeV>,
>
    decreases s.toks.len() - pos,
    when 0 <= pos <= s.toks.len()
{
    match spec_la(s, pos) {
        Err(e) => PRes { res: Err(e), end: pos },
        Ok(t) => if t is RParentheses {
            PRes { res: Ok(acc), end: advance1(s, pos) }
        } else {
            let sl = spec_slot(s, pos);
            match sl.res {
                Err(e) => PRes { res: Err(e), end: sl.end },
                Ok(sv) => match spec_la(s, sl.end) {
                    Err(e) => PRes { res: Err(e), end: sl.end },
                    Ok(t2) => if t2 is RParentheses {
                        PRes { res: Ok(acc.push(sv)), end: advance1(s, sl.end) }
                    } else if t2 is Comma {
                        spec_params_rest(s, cl(s, pos + 1, sl.end + 1), acc.push(sv))
                    } else {
                        PRes {
                            res: Err(CompileError::Syntax(SyntaxError { found: t2 })),
                            end: sl.end,
                        }
                    },
                },
            }
        },
    }
}

/// `params ::= '(' [ slot (',' slot)* ] ')'`
pub open spec fn spec_params(s: StreamV, pos: int) -> PRes<ParamsNodeV> {
    let m = spec_matcher(s, pos, Token::LParentheses);
    match m.res {
        Err(e) => PRes { res: Err(e), end: m.end },
        Ok(_) => {
            let ps = spec_params_rest(s, cl(s, pos, m.end), Seq::empty());
            match ps.res {
                Err(e) => PRes { res: Err(e), end: ps.end },
                Ok(pv) => PRes { res: Ok(ParamsNodeV { params: pv }), end: ps.end },
            }
        },
    }
}

// ---------------------------------------------------------------------------
// Function and variable definitions.
// ---------------------------------------------------------------------------
/// `deffunc ::= name params block` — the return type has already been
/// parsed and is passed in.
pub open spec fn spec_deffunc(s: StreamV, pos: int, tyv: TypeNodeV) -> PRes<DefFuncNodeV> {
    match spec_la(s, pos) {
        Err(e) => PRes { res: Err(e), end: pos },
        Ok(t) => match t {
            Token::Name(nm) => {
                let ps = spec_params(s, advance1(s, pos));
                match ps.res {
                    Err(e) => PRes { res: Err(e), end: ps.end },
                    Ok(psv) => {
                        let b = spec_block(s, cl(s, pos, ps.end));
                        match b.res {
                            Err(e) => PRes { res: Err(e), end: b.end },
                            Ok(bv) => PRes {
                                res: Ok(
                                    DefFuncNodeV {
                                        typeref: tyv,
                                        name: nm@,
                                        params: psv,
                                        block: bv,
                                    },
                                ),
                                end: b.end,
                            },
                        }
                    },
                }
            },
            _ => PRes { res: Err(CompileError::Syntax(SyntaxError { found: t })), end: pos },
        },
    }
}

/// The comma-separated `name [= expr]` bindings of a variable definition.
pub open spec fn spec_var_stmt(s: StreamV, pos: int, acc: Seq<VarInitV>) -> PRes<Seq<VarInitV>>
    decreases s.toks.len() - pos,
    when 0 <= pos <= s.toks.len()
{
    match spec_la(s, pos) {
        Err(e) => PRes { res: Err(e), end: pos },
        Ok(t) => match t {
            Token::Name(nm) => {
                let p1 = advance1(s, pos);
                match spec_la(s, p1) {
                    Err(e) => PRes { res: Err(e), end: p1 },
                    Ok(t2) => if t2 is Assgin {
                        let e0 = spec_expr0(s, p1 + 1);
                        match e0.res {
                            Err(e) => PRes { res: Err(e), end: e0.end },
                            Ok(ev) => match spec_la(s, e0.end) {
                                Err(e) => PRes { res: Err(e), end: e0.end },
                                Ok(t3) => if t3 is Comma {
                                    spec_var_stmt(
                                        s,
                                        cl(s, pos + 1, e0.end + 1),
                                        acc.push(VarInitV { name: nm@, init: Some(ev) }),
                                    )
                                } else {
                                    PRes {
                                        res: Ok(acc.push(VarInitV { name: nm@, init: Some(ev) })),
                                        end: e0.end,
                                    }
                                },
                            },
                        }
                    } else if t2 is Comma {
                        spec_var_stmt(
                            s,
                            cl(s, pos + 1, p1 + 1),
                            acc.push(VarInitV { name: nm@, init: None }),
                        )
                    } else {
                        PRes {
                            res: Ok(acc.push(VarInitV { name: nm@, init: None })),
                            end: p1,
                        }
                    },
                }
            },
            _ => PRes { res: Err(CompileError::Syntax(SyntaxError { found: t })), end: pos },
        },
    }
}

/// `defvar ::= name [= expr] (',' name [= expr])* ';'` — the shared type
/// has already been parsed and is passed in.
pub open spec fn spec_defvar(s: StreamV, pos: int, tyv: TypeNodeV) -> PRes<DefVarNodeV> {
    let vs = spec_var_stmt(s, pos, Seq::empty());
    match vs.res {
        Err(e) => PRes { res: Err(e), end: vs.end },
        Ok(bs) => {
            let m = spec_matcher(s, vs.end, Token::Semi);
            match m.res {
                Err(e) => PRes { res: Err(e), end: m.end },
                Ok(_) => PRes {
                    res: Ok(DefVarNodeV { typeref: tyv, name_map: bs }),
                    end: m.end,
                },
            }
        },
    }
}

// ---------------------------------------------------------------------------
// Imports and the top-level definition loop.
// ---------------------------------------------------------------------------
/// The dotted path of one import statement, up to and including the
/// terminating semicolon.
pub open spec fn spec_import_paths(s: StreamV, pos: int, acc: Seq<Seq<char>>) -> PRes<
    Seq<Seq<char>>,
>
    decreases s.toks.len() - pos,
    when 0 <= pos <= s.toks.len()
{
    match spec_la(s, pos) {
        Err(e) => PRes { res: Err(e), end: pos },
        Ok(t) => match t {
            Token::Name(nm) => spec_import_paths(s, pos + 1, acc.push(nm@)),
            Token::Dot => spec_import_paths(s, pos + 1, acc),
            _ => {
                let m = spec_matcher(s, pos, Token::Semi);
                match m.res {
                    Err(e) => PRes { res: Err(e), end: m.end },
                    Ok(_) => PRes { res: Ok(acc), end: m.end },
                }
            },
        },
    }
}

/// One import statement after its `import` keyword.
pub open spec fn spec_import_statement(s: StreamV, pos: int) -> PRes<ImportStmtNodeV> {
    let ps = spec_import_paths(s, pos, Seq::empty());
    match ps.res {
        Err(e) => PRes { res: Err(e), end: ps.end },
        Ok(pv) => PRes { res: Ok(ImportStmtNodeV { paths: pv }), end: ps.end },
    }
}

/// `import_statements ::= ('import' import_statement)*`
pub open spec fn spec_import_statements(s: StreamV, pos: int, acc: Seq<ImportStmtNodeV>) -> PRes<
    Seq<ImportStmtNodeV>,
>
    decreases s.toks.len() - pos,
    when 0 <= pos <= s.toks.len()
{
    match spec_la(s, pos) {
        Err(e) => PRes { res: Err(e), end: pos },
        Ok(t) => if t is Import {
            let one = spec_import_statement(s, pos + 1);
            match one.res {
                Err(e) => PRes { res: Err(e), end: one.end },
                Ok(iv) => spec_import_statements(s, cl(s, pos + 1, one.end), acc.push(iv)),
            }
        } else {
            PRes { res: Ok(acc), end: pos }
        },
    }
}

/// The top-level loop: `struct` begins a struct definition; a base type
/// begins a type reference, after which the token after the name decides
/// function versus variable; anything else ends the loop.
pub open spec fn spec_top_defs(
    s: StreamV,
    pos: int,
    vds: Seq<DefNodeV>,
    fds: Seq<DefNodeV>,
) -> PRes<TopDefNodeV>
    decreases s.toks.len() - pos,
    when 0 <= pos <= s.toks.len()
{
    match spec_la(s, pos) {
        Err(e) => PRes { res: Err(e), end: pos },
        Ok(t) => if t is Struct {
            let d = spec_defstruct(s, pos);
            match d.res {
                Err(e) => PRes { res: Err(e), end: d.end },
                Ok(dv) => spec_top_defs(
                    s,
                    cl(s, pos + 1, d.end),
                    vds.push(DefNodeV::Struct(dv)),
                    fds,
                ),
            }
        } else if spec_is_base_type(t) {
            let ty = spec_typeref(s, pos);
            match ty.res {
                Err(e) => PRes { res: Err(e), end: ty.end },
                Ok(tv) => match spec_la(s, ty.end + 1) {
                    Err(e) => PRes { res: Err(e), end: ty.end },
                    Ok(t2) => if t2 is LParentheses {
                        let f = spec_deffunc(s, ty.end, tv);
                        match f.res {
                            Err(e) => PRes { res: Err(e), end: f.end },
                            Ok(fv) => spec_top_defs(
                                s,
                                cl(s, pos + 1, f.end),
                                vds,
                                fds.push(DefNodeV::Func(fv)),
                            ),
                        }
                    } else {
                        let dv = spec_defvar(s, ty.end, tv);
                        match dv.res {
                            Err(e) => PRes { res: Err(e), end: dv.end },
                            Ok(dvv) => spec_top_defs(
                                s,
                                cl(s, pos + 1, dv.end),
                                vds.push(DefNodeV::Var(dvv)),
                                fds,
                            ),
                        }
                    },
                },
            }
        } else {
            PRes { res: Ok(TopDefNodeV { var_defs: vds, func_defs: fds }), end: pos }
        },
    }
}


// ---------------------------------------------------------------------------
// Agreement between executable results and specification results.
// ---------------------------------------------------------------------------
pub open spec fn typebase_agree(
    r: Result<TypeBase, CompileError>,
    sp: Result<TypeBaseV, CompileError>,
) -> bool {
    match (r, sp) {
        (Ok(n), Ok(v)) => view_typebase(n) == v,
        (Err(a), Err(b)) => a == b,
        _ => false,
    }
}

pub open spec fn typeref_agree(
    r: Result<TypeNode, CompileError>,
    sp: Result<TypeNodeV, CompileError>,
) -> bool {
    match (r, sp) {
        (Ok(n), Ok(v)) => view_typeref(n) == v,
        (Err(a), Err(b)) => a == b,
        _ => false,
    }
}

pub open spec fn slot_agree(
    r: Result<SlotNode, CompileError>,
    sp: Result<SlotNodeV, CompileError>,
) -> bool {
    match (r, sp) {
        (Ok(n), Ok(v)) => view_slot(n) == v,
        (Err(a), Err(b)) => a == b,
        _ => false,
    }
}

pub open spec fn struct_agree(
    r: Result<DefStructNode, CompileError>,
    sp: Result<DefStructNodeV, CompileError>,
) -> bool {
    match (r, sp) {
        (Ok(n), Ok(v)) => view_struct(n) == v,
        (Err(a), Err(b)) => a == b,
        _ => false,
    }
}

pub open spec fn params_node_agree(
    r: Result<ParamsNode, CompileError>,
    sp: Result<ParamsNodeV, CompileError>,
) -> bool {
    match (r, sp) {
        (Ok(n), Ok(v)) => view_params(n) == v,
        (Err(a), Err(b)) => a == b,
        _ => false,
    }
}

pub open spec fn func_agree(
    r: Result<DefFuncNode, CompileError>,
    sp: Result<DefFuncNodeV, CompileError>,
) -> bool {
    match (r, sp) {
        (Ok(n), Ok(v)) => view_func(n) == v,
        (Err(a), Err(b)) => a == b,
        _ => false,
    }
}

pub open spec fn defvar_agree(
    r: Result<DefVarNode, CompileError>,
    sp: Result<DefVarNodeV, CompileError>,
) -> bool {
    match (r, sp) {
        (Ok(n), Ok(v)) => view_defvar(n) == v,
        (Err(a), Err(b)) => a == b,
        _ => false,
    }
}

pub open spec fn import_agree(
    r: Result<ImportStmtNode, CompileError>,
    sp: Result<ImportStmtNodeV, CompileError>,
) -> bool {
    match (r, sp) {
        (Ok(n), Ok(v)) => view_import(n) == v,
        (Err(a), Err(b)) => a == b,
        _ => false,
    }
}

pub open spec fn imports_agree(
    r: Result<Vec<ImportStmtNode>, CompileError>,
    sp: Result<Seq<ImportStmtNodeV>, CompileError>,
) -> bool {
    match (r, sp) {
        (Ok(n), Ok(v)) => view_imports(n@) == v,
        (Err(a), Err(b)) => a == b,
        _ => false,
    }
}

pub open spec fn topdef_agree(
    r: Result<TopDefNode, CompileError>,
    sp: Result<TopDefNodeV, CompileError>,
) -> bool {
    match (r, sp) {
        (Ok(n), Ok(v)) => view_topdef(n) == v,
        (Err(a), Err(b)) => a == b,
        _ => false,
    }
}

// ---------------------------------------------------------------------------
// Executable parsing functions.
// ---------------------------------------------------------------------------
/// One base-type token, with the struct name where the base is `struct`.
pub fn typebase(lexer: &mut Lexer) -> (r: Result<TypeBase, CompileError>)
    requires
        old(lexer).swf(),
    ensures
        parse_frame(*old(lexer), *final(lexer)),
        ({
            let sp = spec_typebase(old(lexer).sv(), old(lexer).pos as int);
            sp.end == final(lexer).pos as int && typebase_agree(r, sp.res)
        }),
        r is Ok ==> old(lexer).pos < final(lexer).pos,
{
    let t = lexer.lookahead(1)?;
    if !is_base_type(&t) {
        return Err(CompileError::Syntax(SyntaxError { found: t }));
    }
    let tt = lexer.advance()?;
    if matches!(tt, Token::Struct) {
        let t2 = lexer.lookahead(1)?;
        match t2 {
            Token::Name(x) => {
                let _n = lexer.advance()?;
                Ok(TypeBase { base: tt, name: Some(x) })
            },
            other => Err(CompileError::Syntax(SyntaxError { found: other })),
        }
    } else {
        Ok(TypeBase { base: tt, name: None })
    }
}

/// `typeref ::= typebase ( '[]' | '[' N ']' | '*' )*`
#[verifier::loop_isolation(false)]
pub fn typeref(lexer: &mut Lexer) -> (r: Result<TypeNode, CompileError>)
    requires
        old(lexer).swf(),
    ensures
        parse_frame(*old(lexer), *final(lexer)),
        ({
            let sp = spec_typeref(old(lexer).sv(), old(lexer).pos as int);
            sp.end == final(lexer).pos as int && typeref_agree(r, sp.res)
        }),
        r is Ok ==> old(lexer).pos < final(lexer).pos,
{
    let ghost s0 = old(lexer).sv();
    let ghost p0 = old(lexer).pos as int;
    let tb = typebase(lexer)?;
    proof {
        assert(cl(s0, p0, lexer.pos as int) == lexer.pos as int);
    }
    let mut nested: Vec<TypeDef> = Vec::new();
    loop
        invariant
            old(lexer).same_stream(*lexer),
            lexer.pos <= lexer.toks@.len(),
            p0 < lexer.pos as int,
            spec_typeref_rest(s0, lexer.pos as int, nested@) == spec_typeref_rest(
                s0,
                cl(s0, p0, spec_typebase(s0, p0).end),
                Seq::empty(),
            ),
        decreases lexer.toks@.len() - lexer.pos,
    {
        let ghost cur = lexer.pos as int;
        let t = lexer.lookahead(1)?;
        match t {
            Token::LBrackets => {
                let _lb = lexer.advance()?;
                let t2 = lexer.lookahead(1)?;
                match t2 {
                    Token::RBrackets => {
                        let _rb = lexer.advance()?;
                        proof {
                            assert(cl(s0, cur + 1, lexer.pos as int) == lexer.pos as int);
                        }
                        nested.push(TypeDef::Array);
                    },
                    Token::Number(n) => {
                        if 0 <= n && n <= 4294967295i64 {
                            let _num = lexer.advance()?;
                            let _rb = lexer.matcher(Token::RBrackets)?;
                            proof {
                                assert(cl(s0, cur + 1, lexer.pos as int) == lexer.pos as int);
                            }
                            nested.push(TypeDef::FixedArray(n as usize));
                        } else {
                            return Err(CompileError::Syntax(SyntaxError { found: t2 }));
                        }
                    },
                    other => {
                        return Err(CompileError::Syntax(SyntaxError { found: other }));
                    },
                }
            },
            Token::Mul => {
                let _m = lexer.advance()?;
                proof {
                    assert(cl(s0, cur + 1, lexer.pos as int) == lexer.pos as int);
                }
                nested.push(TypeDef::Pointer);
            },
            _ => {
                return Ok(TypeNode { type_base: tb, nested_def: nested });
            },
        }
    }
}

/// `slot ::= typeref name`
pub fn slot(lexer: &mut Lexer) -> (r: Result<SlotNode, CompileError>)
    requires
        old(lexer).swf(),
    ensures
        parse_frame(*old(lexer), *final(lexer)),
        ({
            let sp = spec_slot(old(lexer).sv(), old(lexer).pos as int);
            sp.end == final(lexer).pos as int && slot_agree(r, sp.res)
        }),
        r is Ok ==> old(lexer).pos < final(lexer).pos,
{
    let ty = typeref(lexer)?;
    let t = lexer.lookahead(1)?;
    match t {
        Token::Name(x) => {
            let _n = lexer.advance()?;
            Ok(SlotNode { typeref: ty, name: x })
        },
        other => Err(CompileError::Syntax(SyntaxError { found: other })),
    }
}

/// `defstruct ::= 'struct' name '{' (slot ';')* '}' ';'`
#[verifier::loop_isolation(false)]
pub fn defstruct(lexer: &mut Lexer) -> (r: Result<DefStructNode, CompileError>)
    requires
        old(lexer).swf(),
    ensures
        parse_frame(*old(lexer), *final(lexer)),
        ({
            let sp = spec_defstruct(old(lexer).sv(), old(lexer).pos as int);
            sp.end == final(lexer).pos as int && struct_agree(r, sp.res)
        }),
        r is Ok ==> old(lexer).pos < final(lexer).pos,
{
    let ghost s0 = old(lexer).sv();
    let ghost p0 = old(lexer).pos as int;
    let _st = lexer.advance()?;
    let t = lexer.lookahead(1)?;
    let name = match t {
        Token::Name(x) => x,
        other => {
            return Err(CompileError::Syntax(SyntaxError { found: other }));
        },
    };
    let _n = lexer.advance()?;
    let _lb = lexer.matcher(Token::LBrace)?;
    proof {
        assert(cl(s0, p0, lexer.pos as int) == lexer.pos as int);
    }
    let ghost mstart = lexer.pos as int;
    let mut member_list: Vec<SlotNode> = Vec::new();
    loop
        invariant
            old(lexer).same_stream(*lexer),
            lexer.pos <= lexer.toks@.len(),
            p0 <= lexer.pos as int,
            spec_struct_members(s0, lexer.pos as int, view_slots(member_list@))
                == spec_struct_members(s0, mstart, Seq::empty()),
        decreases lexer.toks@.len() - lexer.pos,
    {
        let ghost cur = lexer.pos as int;
        let t2 = lexer.lookahead(1)?;
        if is_base_type(&t2) {
            let sl = slot(lexer)?;
            let _sc = lexer.matcher(Token::Semi)?;
            proof {
                lemma_view_slots_push(member_list@, sl);
                assert(cl(s0, cur + 1, lexer.pos as int) == lexer.pos as int);
            }
            member_list.push(sl);
        } else {
            let _rb = lexer.matcher(Token::RBrace)?;
            let _sc2 = lexer.matcher(Token::Semi)?;
            return Ok(DefStructNode { name, member_list });
        }
    }
}

/// `params ::= '(' [ slot (',' slot)* ] ')'`
#[verifier::loop_isolation(false)]
pub fn params(lexer: &mut Lexer) -> (r: Result<ParamsNode, CompileError>)
    requires
        old(lexer).swf(),
    ensures
        parse_frame(*old(lexer), *final(lexer)),
        ({
            let sp = spec_params(old(lexer).sv(), old(lexer).pos as int);
            sp.end == final(lexer).pos as int && params_node_agree(r, sp.res)
        }),
        r is Ok ==> old(lexer).pos < final(lexer).pos,
{
    let ghost s0 = old(lexer).sv();
    let ghost p0 = old(lexer).pos as int;
    let _lp = lexer.matcher(Token::LParentheses)?;
    proof {
        assert(cl(s0, p0, lexer.pos as int) == lexer.pos as int);
    }
    let ghost mstart = lexer.pos as int;
    let mut ps: Vec<SlotNode> = Vec::new();
    loop
        invariant
            old(lexer).same_stream(*lexer),
            lexer.pos <= lexer.toks@.len(),
            p0 < lexer.pos as int,
            spec_params_rest(s0, lexer.pos as int, view_slots(ps@)) == spec_params_rest(
                s0,
                mstart,
                Seq::empty(),
            ),
        decreases lexer.toks@.len() - lexer.pos,
    {
        let ghost cur = lexer.pos as int;
        let t = lexer.lookahead(1)?;
        if matches!(t, Token::RParentheses) {
            let _rp = lexer.advance()?;
            return Ok(ParamsNode { params: ps });
        }
        let sl = slot(lexer)?;
        let t2 = lexer.lookahead(1)?;
        proof {
            lemma_view_slots_push(ps@, sl);
        }
        if matches!(t2, Token::RParentheses) {
            ps.push(sl);
            let _rp = lexer.advance()?;
            return Ok(ParamsNode { params: ps });
        } else if matches!(t2, Token::Comma) {
            ps.push(sl);
            let _c = lexer.advance()?;
            proof {
                assert(cl(s0, cur + 1, lexer.pos as int) == lexer.pos as int);
            }
        } else {
            return Err(CompileError::Syntax(SyntaxError { found: t2 }));
        }
    }
}

/// `deffunc ::= name params block` — the return type is passed in.
pub fn deffunc(lexer: &mut Lexer, typeref: TypeNode) -> (r: Result<DefFuncNode, CompileError>)
    requires
        old(lexer).swf(),
    ensures
        parse_frame(*old(lexer), *final(lexer)),
        ({
            let sp = spec_deffunc(old(lexer).sv(), old(lexer).pos as int, view_typeref(typeref));
            sp.end == final(lexer).pos as int && func_agree(r, sp.res)
        }),
        r is Ok ==> old(lexer).pos < final(lexer).pos,
{
    let ghost s0 = old(lexer).sv();
    let ghost p0 = old(lexer).pos as int;
    let t = lexer.lookahead(1)?;
    let name = match t {
        Token::Name(x) => x,
        other => {
            return Err(CompileError::Syntax(SyntaxError { found: other }));
        },
    };
    let _n = lexer.advance()?;
    let ps = params(lexer)?;
    proof {
        assert(cl(s0, p0, lexer.pos as int) == lexer.pos as int);
    }
    let blk = crate::parse_stmt::block(lexer)?;
    Ok(DefFuncNode { typeref, name, params: ps, block: blk })
}

/// The comma-separated `name [= expr]` bindings of one variable
/// definition, appended to `name_map`.
#[verifier::loop_isolation(false)]
pub fn var_stmt(lexer: &mut Lexer, name_map: &mut Vec<VarInit>) -> (r: Result<(), CompileError>)
    requires
        old(lexer).swf(),
    ensures
        parse_frame(*old(lexer), *final(lexer)),
        ({
            let sp = spec_var_stmt(
                old(lexer).sv(),
                old(lexer).pos as int,
                view_varinits(old(name_map)@),
            );
            sp.end == final(lexer).pos as int && match r {
                Ok(_) => sp.res == Ok::<Seq<VarInitV>, CompileError>(view_varinits(final(name_map)@)),
                Err(e) => sp.res == Err::<Seq<VarInitV>, CompileError>(e),
            }
        }),
        r is Ok ==> old(lexer).pos < final(lexer).pos,
{
    let ghost s0 = old(lexer).sv();
    let ghost p0 = old(lexer).pos as int;
    loop
        invariant
            old(lexer).same_stream(*lexer),
            lexer.pos <= lexer.toks@.len(),
            p0 <= lexer.pos as int,
            spec_var_stmt(s0, lexer.pos as int, view_varinits(name_map@)) == spec_var_stmt(
                s0,
                p0,
                view_varinits(old(name_map)@),
            ),
        decreases lexer.toks@.len() - lexer.pos,
    {
        let ghost cur = lexer.pos as int;
        let t = lexer.lookahead(1)?;
        let nm = match t {
            Token::Name(x) => x,
            other => {
                return Err(CompileError::Syntax(SyntaxError { found: other }));
            },
        };
        let _n = lexer.advance()?;
        let t2 = lexer.lookahead(1)?;
        match t2 {
            Token::Assgin => {
                let _a = lexer.advance()?;
                let e = expr0(lexer)?;
                let t3 = lexer.lookahead(1)?;
                proof {
                    lemma_view_varinits_push(
                        name_map@,
                        VarInit { name: nm, init: Some(e) },
                    );
                }
                if matches!(t3, Token::Comma) {
                    name_map.push(VarInit { name: nm, init: Some(e) });
                    let _c = lexer.advance()?;
                    proof {
                        assert(cl(s0, cur + 1, lexer.pos as int) == lexer.pos as int);
                    }
                } else {
                    name_map.push(VarInit { name: nm, init: Some(e) });
                    return Ok(());
                }
            },
            Token::Comma => {
                proof {
                    lemma_view_varinits_push(name_map@, VarInit { name: nm, init: None });
                }
                name_map.push(VarInit { name: nm, init: None });
                let _c = lexer.advance()?;
                proof {
                    assert(cl(s0, cur + 1, lexer.pos as int) == lexer.pos as int);
                }
            },
            _ => {
                proof {
                    lemma_view_varinits_push(name_map@, VarInit { name: nm, init: None });
                }
                name_map.push(VarInit { name: nm, init: None });
                return Ok(());
            },
        }
    }
}

/// `defvar ::= name [= expr] (',' name [= expr])* ';'` — the shared type
/// is passed in.
pub fn defvar(lexer: &mut Lexer, typeref: TypeNode) -> (r: Result<DefVarNode, CompileError>)
    requires
        old(lexer).swf(),
    ensures
        parse_frame(*old(lexer), *final(lexer)),
        ({
            let sp = spec_defvar(old(lexer).sv(), old(lexer).pos as int, view_typeref(typeref));
            sp.end == final(lexer).pos as int && defvar_agree(r, sp.res)
        }),
        r is Ok ==> old(lexer).pos < final(lexer).pos,
{
    let mut name_map: Vec<VarInit> = Vec::new();
    proof {
        assert(view_varinits(name_map@) =~= Seq::<VarInitV>::empty());
    }
    var_stmt(lexer, &mut name_map)?;
    let _sc = lexer.matcher(Token::Semi)?;
    Ok(DefVarNode { typeref, name_map })
}

/// One import statement after its `import` keyword: a dotted path up to
/// and including the terminating semicolon.
#[verifier::loop_isolation(false)]
pub fn import_statement(lexer: &mut Lexer) -> (r: Result<ImportStmtNode, CompileError>)
    requires
        old(lexer).swf(),
    ensures
        parse_frame(*old(lexer), *final(lexer)),
        ({
            let sp = spec_import_statement(old(lexer).sv(), old(lexer).pos as int);
            sp.end == final(lexer).pos as int && import_agree(r, sp.res)
        }),
{
    let ghost s0 = old(lexer).sv();
    let ghost p0 = old(lexer).pos as int;
    let mut paths: Vec<String> = Vec::new();
    proof {
        assert(view_strings(paths@) =~= Seq::<Seq<char>>::empty());
    }
    loop
        invariant
            old(lexer).same_stream(*lexer),
            lexer.pos <= lexer.toks@.len(),
            p0 <= lexer.pos as int,
            spec_import_paths(s0, lexer.pos as int, view_strings(paths@)) == spec_import_paths(
                s0,
                p0,
                Seq::empty(),
            ),
        decreases lexer.toks@.len() - lexer.pos,
    {
        let t = lexer.lookahead(1)?;
        match t {
            Token::Name(x) => {
                let _n = lexer.advance()?;
                proof {
                    lemma_view_strings_push(paths@, x);
                }
                paths.push(x);
            },
            Token::Dot => {
                let _d = lexer.advance()?;
            },
            _ => {
                let _sc = lexer.matcher(Token::Semi)?;
                return Ok(ImportStmtNode { paths });
            },
        }
    }
}

/// `import_statements ::= ('import' import_statement)*`
#[verifier::loop_isolation(false)]
pub fn import_statements(lexer: &mut Lexer) -> (r: Result<Vec<ImportStmtNode>, CompileError>)
    requires
        old(lexer).swf(),
    ensures
        parse_frame(*old(lexer), *final(lexer)),
        ({
            let sp = spec_import_statements(old(lexer).sv(), old(lexer).pos as int, Seq::empty());
            sp.end == final(lexer).pos as int && imports_agree(r, sp.res)
        }),
{
    let ghost s0 = old(lexer).sv();
    let ghost p0 = old(lexer).pos as int;
    let mut nodes: Vec<ImportStmtNode> = Vec::new();
    proof {
        assert(view_imports(nodes@) =~= Seq::<ImportStmtNodeV>::empty());
    }
    loop
        invariant
            old(lexer).same_stream(*lexer),
            lexer.pos <= lexer.toks@.len(),
            p0 <= lexer.pos as int,
            spec_import_statements(s0, lexer.pos as int, view_imports(nodes@))
                == spec_import_statements(s0, p0, Seq::empty()),
        decreases lexer.toks@.len() - lexer.pos,
    {
        let ghost cur = lexer.pos as int;
        let t = lexer.lookahead(1)?;
        if matches!(t, Token::Import) {
            let _i = lexer.advance()?;
            let one = import_statement(lexer)?;
            proof {
                lemma_view_imports_push(nodes@, one);
                assert(cl(s0, cur + 1, lexer.pos as int) == lexer.pos as int);
            }
            nodes.push(one);
        } else {
            return Ok(nodes);
        }
    }
}

/// The top-level definition loop.
#[verifier::loop_isolation(false)]
pub fn top_defs(lexer: &mut Lexer) -> (r: Result<TopDefNode, CompileError>)
    requires
        old(lexer).swf(),
    ensures
        parse_frame(*old(lexer), *final(lexer)),
        ({
            let sp = spec_top_defs(
                old(lexer).sv(),
                old(lexer).pos as int,
                Seq::empty(),
                Seq::empty(),
            );
            sp.end == final(lexer).pos as int && topdef_agree(r, sp.res)
        }),
{
    let ghost s0 = old(lexer).sv();
    let ghost p0 = old(lexer).pos as int;
    let mut var_defs: Vec<DefNode> = Vec::new();
    let mut func_defs: Vec<DefNode> = Vec::new();
    proof {
        assert(view_defs(var_defs@) =~= Seq::<DefNodeV>::empty());
        assert(view_defs(func_defs@) =~= Seq::<DefNodeV>::empty());
    }
    loop
        invariant
            old(lexer).same_stream(*lexer),
            lexer.pos <= lexer.toks@.len(),
            p0 <= lexer.pos as int,
            spec_top_defs(s0, lexer.pos as int, view_defs(var_defs@), view_defs(func_defs@))
                == spec_top_defs(s0, p0, Seq::empty(), Seq::empty()),
        decreases lexer.toks@.len() - lexer.pos,
    {
        let ghost cur = lexer.pos as int;
        let t = lexer.lookahead(1)?;
        if matches!(t, Token::Struct) {
            let d = defstruct(lexer)?;
            proof {
                lemma_view_defs_push(var_defs@, DefNode::Struct(d));
                assert(cl(s0, cur + 1, lexer.pos as int) == lexer.pos as int);
            }
            var_defs.push(DefNode::Struct(d));
        } else if is_base_type(&t) {
            let ty = typeref(lexer)?;
            let t2 = lexer.lookahead(2)?;
            if matches!(t2, Token::LParentheses) {
                let f = deffunc(lexer, ty)?;
                proof {
                    lemma_view_defs_push(func_defs@, DefNode::Func(f));
                    assert(cl(s0, cur + 1, lexer.pos as int) == lexer.pos as int);
                }
                func_defs.push(DefNode::Func(f));
            } else {
                let dv = defvar(lexer, ty)?;
                proof {
                    lemma_view_defs_push(var_defs@, DefNode::Var(dv));
                    assert(cl(s0, cur + 1, lexer.pos as int) == lexer.pos as int);
                }
                var_defs.push(DefNode::Var(dv));
            }
        } else {
            return Ok(TopDefNode { var_defs, func_defs });
        }
    }
}

} // verus!
