//! Behavior tests for the checked properties: struct-cycle detection,
//! assignment compatibility, shadowing, precedence, member-operator
//! enforcement, and the diagnostic for each failure class.

use cfront::ast_expr::ExprNode;
use cfront::error::CompileError;
use cfront::error::LexErrorKind;
use cfront::error::TypeError;
use cfront::expr_check::check_expr;
use cfront::lexer::Lexer;
use cfront::local_resolver::local_resolver;
use cfront::parse_expr::expr0;
use cfront::parser::parse;
use cfront::token::Token;
use cfront::token::get_keywords;
use cfront::token::is_base_type;
use cfront::type_check::check_circle_def;

fn full_check(src: &str) -> Result<(), CompileError> {
    let mut lx = Lexer::new(String::from(src));
    let ast = parse(&mut lx)?;
    let mut table = local_resolver(&ast);
    check_circle_def(&table.global_define_map)?;
    check_expr(&ast, &mut table)?;
    Ok(())
}

#[test]
fn scenario_struct_member_assignment_checks() {
    let r = full_check("struct S { int x; }; int main(){ struct S a; a.x = 1; return 0; }");
    assert!(r.is_ok());
}

#[test]
fn scenario_two_struct_value_cycle_fails() {
    let r = full_check("struct A { struct B b; }; struct B { struct A a; };");
    assert!(matches!(r, Err(CompileError::Definition(_))));
}

#[test]
fn three_struct_value_cycle_fails() {
    let r = full_check(
        "struct A { struct B b; }; struct B { struct C c; }; struct C { struct A a; };",
    );
    assert!(matches!(r, Err(CompileError::Definition(_))));
}

#[test]
fn three_struct_pointer_cycle_is_accepted() {
    let r = full_check(
        "struct A { struct B *b; }; struct B { struct C *c; }; struct C { struct A *a; };",
    );
    assert!(r.is_ok());
}

#[test]
fn scenario_index_of_scalar_fails() {
    let r = full_check("int main(){ int a; a[0] = 1; }");
    match r {
        Err(CompileError::Type(TypeError::NotIndexable { name })) => assert_eq!(name, "a"),
        other => panic!("expected the not-indexable diagnostic, got {:?}", other),
    }
}

#[test]
fn index_of_array_is_accepted() {
    let r = full_check("int main(){ int[] a; a[0] = 1; return 0; }");
    assert!(r.is_ok());
}

#[test]
fn scenario_literal_assignment_target_fails() {
    let r = full_check("int main(){ 1 = 2; }");
    assert!(matches!(r, Err(CompileError::Type(TypeError::NotLeftValue))));
}

#[test]
fn scenario_call_in_additive_initializer() {
    let r = full_check(
        "int calc(int a){ return a; } int main(){ int b = calc(2) + 3; return 0; }",
    );
    assert!(r.is_ok());
}

#[test]
fn same_scalar_assignment_is_compatible() {
    assert!(full_check("int main(){ int a; int b; a = b; return 0; }").is_ok());
}

#[test]
fn differing_base_types_are_incompatible() {
    let r = full_check("int main(){ int a; char c; a = c; return 0; }");
    assert!(matches!(r, Err(CompileError::Type(TypeError::Incompatible { .. }))));
}

#[test]
fn array_and_pointer_shapes_are_compatible() {
    assert!(full_check("int main(){ int[] x; int* y; x = y; return 0; }").is_ok());
}

#[test]
fn scalar_and_array_shapes_are_incompatible() {
    let r = full_check("int main(){ int a; int[] x; a = x; return 0; }");
    assert!(matches!(r, Err(CompileError::Type(TypeError::Incompatible { .. }))));
}

#[test]
fn inner_declaration_shadows_and_unshadows() {
    let mut lx = Lexer::new(String::from("int a; int main(){ int a; a = 1; return 0; }"));
    let ast = parse(&mut lx).unwrap();
    let mut table = local_resolver(&ast);
    table.push_func(&String::from("main")).unwrap();
    // Enter the body block: its local declaration hides the global one.
    table.push_block().unwrap();
    let inner = table.get_type(&String::from("a")).unwrap();
    let inner_home = inner.origin_base.unwrap();
    // Leave the block: the same lookup resolves to the global again.
    table.pop_block().unwrap();
    let outer = table.get_type(&String::from("a")).unwrap();
    let outer_home = outer.origin_base.unwrap();
    assert_ne!(inner_home.0, outer_home.0);
    assert_eq!(outer_home.0, 0);
}

#[test]
fn multiplication_binds_tighter_than_addition() {
    let mut lx = Lexer::new(String::from("1 + 2 * 3"));
    let e = expr0(&mut lx).unwrap();
    match e {
        ExprNode::Arith(a) => {
            assert_eq!(a.operator, Token::Add);
            match *a.right_value {
                ExprNode::Arith(m) => assert_eq!(m.operator, Token::Mul),
                other => panic!("expected a product on the right, got {:?}", other),
            }
        },
        other => panic!("expected a sum at the top, got {:?}", other),
    }
}

#[test]
fn assignment_is_right_associative() {
    let mut lx = Lexer::new(String::from("a = b = c"));
    let e = expr0(&mut lx).unwrap();
    match e {
        ExprNode::Assign(a) => {
            assert!(matches!(*a.right_value, ExprNode::Assign(_)));
            assert!(matches!(*a.left_value, ExprNode::Term(_)));
        },
        other => panic!("expected an assignment at the top, got {:?}", other),
    }
}

#[test]
fn pointer_member_through_dot_fails() {
    let r = full_check(
        "struct T { int v; }; struct S { int v; struct T *p; }; int main(){ struct S s; s.p; return 0; }",
    );
    match r {
        Err(CompileError::Type(TypeError::WrongAccessOp { member, expected })) => {
            assert_eq!(member, "p");
            assert_eq!(expected, Token::PointerRef);
        },
        other => panic!("expected the wrong-operator diagnostic, got {:?}", other),
    }
}

#[test]
fn pointer_member_through_arrow_succeeds() {
    let r = full_check(
        "struct T { int v; }; struct S { int v; struct T *p; }; int main(){ struct S s; s->p; return 0; }",
    );
    assert!(r.is_ok());
}

#[test]
fn scalar_member_through_arrow_fails() {
    let r = full_check(
        "struct S { int v; }; int main(){ struct S s; s->v; return 0; }",
    );
    match r {
        Err(CompileError::Type(TypeError::WrongAccessOp { member, expected })) => {
            assert_eq!(member, "v");
            assert_eq!(expected, Token::Dot);
        },
        other => panic!("expected the wrong-operator diagnostic, got {:?}", other),
    }
}

#[test]
fn scalar_member_through_dot_succeeds() {
    let r = full_check("struct S { int v; }; int main(){ struct S s; s.v; return 0; }");
    assert!(r.is_ok());
}

#[test]
fn member_chain_resolves_through_structs() {
    let r = full_check(
        "struct Inner { int v; }; struct Outer { struct Inner i; }; int main(){ struct Outer o; o.i.v = 3; return 0; }",
    );
    assert!(r.is_ok());
}

#[test]
fn unknown_member_is_a_resolution_error() {
    let r = full_check("struct S { int v; }; int main(){ struct S s; s.w; return 0; }");
    match r {
        Err(CompileError::Resolution(e)) => assert_eq!(e.name, "w"),
        other => panic!("expected a resolution diagnostic, got {:?}", other),
    }
}

#[test]
fn unknown_identifier_is_a_resolution_error() {
    let r = full_check("int main(){ b = 1; }");
    match r {
        Err(CompileError::Resolution(e)) => assert_eq!(e.name, "b"),
        other => panic!("expected a resolution diagnostic, got {:?}", other),
    }
}

#[test]
fn integer_literals_carry_their_value() {
    let mut lx = Lexer::new(String::from("42 123425435"));
    assert_eq!(lx.advance().unwrap(), Token::Number(42));
    assert_eq!(lx.advance().unwrap(), Token::Number(123425435));
    assert_eq!(lx.advance().unwrap(), Token::Eof);
}

#[test]
fn two_character_operators_take_priority() {
    let mut lx = Lexer::new(String::from("<<=>>=->--&&&|||!=!"));
    let expected = vec![
        Token::Leftshift,
        Token::Assgin,
        Token::Rightshift,
        Token::Assgin,
        Token::PointerRef,
        Token::Dec,
        Token::And,
        Token::Bitand,
        Token::Or,
        Token::Bitor,
        Token::Notequal,
        Token::Not,
        Token::Eof,
    ];
    for t in expected {
        assert_eq!(lx.advance().unwrap(), t);
    }
}

#[test]
fn unterminated_string_is_a_lexical_error() {
    let r = full_check("int main(){ \"abc");
    match r {
        Err(CompileError::Lexical(e)) => {
            assert!(matches!(e.kind, LexErrorKind::UnterminatedString))
        },
        other => panic!("expected a lexical diagnostic, got {:?}", other),
    }
}

#[test]
fn number_followed_by_letter_is_a_lexical_error() {
    let r = full_check("int main(){ int a; a = 12ab; }");
    match r {
        Err(CompileError::Lexical(e)) => {
            assert!(matches!(e.kind, LexErrorKind::MalformedNumber))
        },
        other => panic!("expected a lexical diagnostic, got {:?}", other),
    }
}

#[test]
fn oversized_number_is_a_lexical_error() {
    let r = full_check("int main(){ int a; a = 5000000000; }");
    match r {
        Err(CompileError::Lexical(e)) => {
            assert!(matches!(e.kind, LexErrorKind::MalformedNumber))
        },
        other => panic!("expected a lexical diagnostic, got {:?}", other),
    }
}

#[test]
fn multi_character_char_literal_is_a_lexical_error() {
    let r = full_check("int main(){ char c; c = 'ab'; }");
    match r {
        Err(CompileError::Lexical(e)) => {
            assert!(matches!(e.kind, LexErrorKind::MalformedChar))
        },
        other => panic!("expected a lexical diagnostic, got {:?}", other),
    }
}

#[test]
fn stray_character_is_a_lexical_error_with_its_position() {
    let mut lx = Lexer::new(String::from("int x\n  #"));
    let mut last = lx.advance();
    for _i in 0..4 {
        if last.is_err() {
            break;
        }
        last = lx.advance();
    }
    match last {
        Err(CompileError::Lexical(e)) => {
            assert!(matches!(e.kind, LexErrorKind::UnknownChar('#')));
            assert_eq!(e.location.row, 1);
            assert_eq!(e.location.column, 2);
        },
        other => panic!("expected a lexical diagnostic, got {:?}", other),
    }
}

#[test]
fn missing_semicolon_is_a_syntax_error() {
    let r = full_check("int main(){ int a; a = 1 }");
    assert!(matches!(r, Err(CompileError::Syntax(_))));
}

#[test]
fn trailing_tokens_are_a_syntax_error() {
    let r = full_check("int main(){ return 0; } }");
    assert!(matches!(r, Err(CompileError::Syntax(_))));
}

#[test]
fn empty_source_parses_to_an_empty_program() {
    let mut lx = Lexer::new(String::from(""));
    let ast = parse(&mut lx).unwrap();
    assert_eq!(ast.import_stmts.len(), 0);
    assert_eq!(ast.defs.var_defs.len(), 0);
    assert_eq!(ast.defs.func_defs.len(), 0);
}

#[test]
fn keyword_table_has_every_keyword() {
    let kws = get_keywords();
    assert_eq!(kws.len(), 20);
    assert!(is_base_type(&Token::Int));
    assert!(is_base_type(&Token::Struct));
    assert!(!is_base_type(&Token::If));
}

#[test]
fn incompatible_initializer_is_reported() {
    let r = full_check("int main(){ int[] aa; int b = aa; return 0; }");
    assert!(matches!(r, Err(CompileError::Type(TypeError::Incompatible { .. }))));
}

#[test]
fn array_member_through_dot_succeeds() {
    let r = full_check(
        "struct S { char[] name; }; int main(){ struct S s; s.name; return 0; }",
    );
    assert!(r.is_ok());
}

#[test]
fn array_member_through_arrow_fails() {
    let r = full_check(
        "struct S { char[] name; }; int main(){ struct S s; s->name; return 0; }",
    );
    match r {
        Err(CompileError::Type(TypeError::WrongAccessOp { member, expected })) => {
            assert_eq!(member, "name");
            assert_eq!(expected, Token::Dot);
        },
        other => panic!("expected the wrong-operator diagnostic, got {:?}", other),
    }
}

#[test]
fn address_of_prefix_parses_and_checks() {
    assert!(full_check("int main(){ int a; &a; return 0; }").is_ok());
    let mut lx = Lexer::new(String::from("&a"));
    let e = expr0(&mut lx).unwrap();
    match e {
        ExprNode::Term(t) => match *t.unary {
            cfront::ast_expr::UnaryNode::Single(n) => {
                assert_eq!(n.prefix, Some(Token::Bitand));
            },
            other => panic!("expected a plain unary, got {:?}", other),
        },
        other => panic!("expected a term, got {:?}", other),
    }
}

#[test]
fn address_of_literal_is_rejected() {
    let r = full_check("int main(){ &1; return 0; }");
    assert!(matches!(r, Err(CompileError::Type(TypeError::NotAName))));
}

#[test]
fn keyword_table_entries_are_in_order() {
    let kws = get_keywords();
    assert_eq!(kws[0].0, "int");
    assert_eq!(kws[0].1, Token::Int);
    assert_eq!(kws[7].0, "while");
    assert_eq!(kws[7].1, Token::While);
    assert_eq!(kws[19].0, "struct");
    assert_eq!(kws[19].1, Token::Struct);
}

#[test]
fn fixed_size_array_declaration_parses() {
    let r = full_check("int main(){ int[2] d; return 0; }");
    assert!(r.is_ok());
}
