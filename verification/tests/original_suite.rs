//! The front end's test suite, exercised through the public interface.

use cfront::expr_check::check_expr;
use cfront::lexer::Lexer;
use cfront::local_resolver::local_resolver;
use cfront::parse_def::defstruct;
use cfront::parse_def::import_statements;
use cfront::parse_def::top_defs;
use cfront::parse_expr::expr0;
use cfront::parse_expr::expr1;
use cfront::parse_expr::expr2;
use cfront::parse_expr::expr3;
use cfront::parse_expr::expr4;
use cfront::parse_expr::expr5;
use cfront::parse_expr::expr6;
use cfront::parse_expr::expr7;
use cfront::parse_expr::expr8;
use cfront::parse_expr::expr9;
use cfront::parse_stmt::statement;
use cfront::parser::compilation_unit;
use cfront::parser::parse;
use cfront::token_str::TokenStr;
use cfront::type_check::build_type_graph;
use cfront::type_check::check_circle_def;
use cfront::commandline::Config;

#[test]
fn test_whitespace_char() {
    assert!(Lexer::whitespace_char(' '));
    assert!(Lexer::whitespace_char('\n'));
    assert!(Lexer::whitespace_char('\r'));
}

#[test]
fn test_lexer() {
    let content = String::from("int main() {
            struct st {
                int a;
                double b;
                float c;
            }
        
            if (1 == 1) {
                int a.v = 123425435;
                char b = 'a';
            }
        
            [ ] \"asd asd \" () && & -- ++ + -
        }");

    let mut lexer = Lexer::new(content);

    println!("lookahead 4 {:?}", lexer.lookahead(4));
    println!("lookahead 6 {:?}", lexer.lookahead(6));
    println!("lookahead 8 {:?}", lexer.lookahead(8));

    for _i in 0..40 {
        println!("{:?}", lexer.advance());
    }
}

#[test]
fn test_streq() {
    let v1: Vec<char> = vec!['a', 'b', 'c'];
    let v2: Vec<char> = vec!['a', 'b', 'c'];

    let t1 = TokenStr::new(v1);
    let t2 = TokenStr::new(v2);

    assert!(t1 == t2);
}

#[test]
fn test_import_stmt() {
    let mut lxr = Lexer::new(String::from("import a.b.c;
        import z.x.c;"));
    println!("{:?}", import_statements(&mut lxr));
}

#[test]
fn test_struct() {
    let mut lxr = Lexer::new(String::from("struct st {
            int[][] *a;
            struct stu b;
            float* c;
            int[2] d;
        };"));
    println!("{:?}", defstruct(&mut lxr));
}

#[test]
fn test_deffunc() {
    let _lxr = Lexer::new(String::from("float test(int[] *a, struct na b) { if(1 == 2) { for(a = 1; a < 3; a++) { b = 10 + 20; } } else { a = 6; return a; } }"));
}

#[test]
fn test_defvars() {
    let _lxr = Lexer::new(String::from("struct stu *[] a = a + 32, b = 234, c;"));
}

#[test]
fn test_defs() {
    let mut lxr = Lexer::new(String::from("
            int abc = 1;
            struct student {
                char[] name;
                int age;
                int sex;
            }

            struct class {
                struct student[] *ss;
            }

            int main(int argc,char **argv) {
                int a = 1;
                int i;
                for(i = 0; i < 10; i++) {
                    a = 1 * 2 << 3 && 4 + 5 / 6 + calc(a);
                    if (a == 2) {
                        break;
                    } else {
                        continue;
                    }
                }

                return 0;
            }

            int calc(int a) {
                return a;
            }
        "));
    println!("{:?}", top_defs(&mut lxr));
}

#[test]
fn test_expr9() {
    let mut lxr = Lexer::new(String::from("6 * 5 % 4 * 3 * 2 / 1"));
    let node = expr9(&mut lxr);
    println!("{:?}", node);
}

#[test]
fn test_expr8() {
    let mut lxr = Lexer::new(String::from("7 / 6 % 5 + 4 * 3 + 2 / 1"));
    let node = expr8(&mut lxr);
    println!("{:?}", node);
}

#[test]
fn test_expr7() {
    let mut lxr = Lexer::new(String::from("8 / 7 >> 6 % 5 + 4 * 3 + 2 / 1"));
    let node = expr7(&mut lxr);
    println!("{:?}", node);
}

#[test]
fn test_expr6() {
    let mut lxr = Lexer::new(String::from("8 / 7 >> 6 & 4 * 3 + 2 / 1"));
    let node = expr6(&mut lxr);
    println!("{:?}", node);
}

#[test]
fn test_expr5() {
    let mut lxr = Lexer::new(String::from("8 / 7 >> 6 & 4 * 3 ^ 2 / 1"));
    let node = expr5(&mut lxr);
    println!("{:?}", node);
}

#[test]
fn test_expr4() {
    let mut lxr = Lexer::new(String::from("8 / 7 >> 6 & 4 | 3 ^ 2 * 1"));
    let node = expr4(&mut lxr);
    println!("{:?}", node);
}

#[test]
fn test_expr3() {
    let mut lxr = Lexer::new(String::from("8 / 7 >> 6 & 4 >= 3 ^ 2 * 1"));
    let node = expr3(&mut lxr);
    println!("{:?}", node);
}

#[test]
fn test_expr2() {
    let mut lxr = Lexer::new(String::from("8 / 7 >> 6 & 4 >= 3 ^ 2 && 1"));
    let node = expr2(&mut lxr);
    println!("{:?}", node);
}

#[test]
fn test_expr1() {
    let mut lxr = Lexer::new(String::from("8 / 7 >> 6 & 4 || 3 ^ 2 && 1"));
    let node = expr1(&mut lxr);
    println!("{:?}", node);
}

#[test]
fn test_expr0() {
    let mut lxr = Lexer::new(String::from("(int *[]) a++ = 7++ >> 6 & (4 || 3) ^ 2 && 1 + func(2, 3) * 9"));
    let node = expr0(&mut lxr);
    println!("{:?}", node);
}

#[test]
fn test_if_stmt() {
    let mut lxr = Lexer::new(String::from("if(1 == 2) { a = 3 + 5; } else { a = 6; }"));
    let node = statement(&mut lxr);
    println!("{:?}", node);
}

#[test]
fn test_block() {
    let mut lxr = Lexer::new(String::from("if(1 == 2) { int *[] a = 1; if (3 == 4) { a = 1; } } else { a = 6; }"));
    let node = statement(&mut lxr);
    println!("{:?}", node);
}

#[test]
fn test_while_stmt() {
    let mut lxr = Lexer::new(String::from("if(1 == 2) { while(3 == 4) { a++; } } else { a = 6; }"));
    let node = statement(&mut lxr);
    println!("{:?}", node);
}

#[test]
fn test_do_while_stmt() {
    let mut lxr = Lexer::new(String::from("if(1 == 2) { do { a = 1 + 2; } while(a < 3) } else { a = 6; }"));
    let node = statement(&mut lxr);
    println!("{:?}", node);
}

#[test]
fn test_for_stmt() {
    let mut lxr = Lexer::new(String::from("if(1 == 2) { for(a = 1; a < 3; a++) { b = 10 + 20; } } else { a = 6; return a; }"));
    let node = statement(&mut lxr);
    println!("{:?}", node);
}

#[test]
fn test_break_continue_stmt() {
    let mut lxr = Lexer::new(String::from("if(1 == 2) { for(a = 1; a < 3; a++) { b = 10 + 20; } } else { a = 6; break; continue; return a; }"));
    let node = statement(&mut lxr);
    println!("{:?}", node);
}

#[test]
fn test_parse() {
    let mut lxr = Lexer::new(String::from("
            import a.b.c;
            import z.x.c;

            int abc = 1;
            struct student {
                char[] *name;
                int age;
                int sex;
            };

            struct class {
                struct student[] *ss;
            };

            int main(int argc,char **argv) {
                struct class a;
                int a1 = 1;
                calc();
                for(i = 0; i < 10; i++) {
                    a = 1 * 2 << 3 && 4 + 5 / 6 + calc(a);
                    if (a == 2) {
                        break;
                    } else {
                        continue;
                    }
                }
                int i;

                return 0;
            }

            int calc(int a) {
                return a;
            }
        "));
    println!("{:?}", compilation_unit(&mut lxr));
}

#[test]
fn test_local_resolver() {
    let mut lxr = Lexer::new(String::from("
            import a.b.c;
            import z.x.c;

            int aa = 1;
            int ab = 2;
            struct student {
                char[] name;
                int age;
                int sex;
            };

            struct class {
                struct student[] *ss;
            };

            int main(int argc,char **argv) {
                struct class a;
                int ba1 = 1;
                int bb = 2;
                for(i = 0; i < 10; i++) {
                    int ca = 1;
                    a = 1 * 2 << 3 && 4 + 5 / 6 + calc(a);
                    if (a == 2) {
                        int da = 12;
                        break;
                    } else {
                        continue;
                    }
                }

                while(1 == 2) {
                    int cb = 1;
                }

                return 0;
            }

            int calc(int a) {
                int a = 1;

                while(1 == 2) {
                    int aab = 1;
                }

                return a;
            }
        "));
    let ast = match parse(&mut lxr) {
        Ok(a) => a,
        Err(e) => {
            println!("{:?}", e);
            return;
        },
    };
    println!("{:?}", local_resolver(&ast));
}

#[test]
fn test_check_expr() {
    let mut lxr = Lexer::new(String::from("
            struct student {
                char[] name;
                int age;
                int sex;
                struct teacher *te;
            };

            struct teacher {
                struct headmaster ss;
            };

            struct headmaster {
                struct student sss;
                struct teacher *s;
            };

            int main(int argc,char **argv) {
                struct student a;
                int ba1 = 1;
                int[] aa;
                int[10] bb = aa;
                bb[1] = 1;
                a.age = calc(a);
                &a;
                for(i = 0; i < 10; i++) {
                    int ca = 1;
                    if (a == 2) {
                        int da = 12;
                        break;
                    } else {
                        continue;
                    }
                }

                while(1 == 2) {
                    int ca = 1;
                    ca = 2;
                }

                return 0;
            }

            int calc(int a) {
                
            }
        "));
    let ast = match parse(&mut lxr) {
        Ok(a) => a,
        Err(e) => {
            println!("{:?}", e);
            return;
        },
    };
    println!(" === {:?} ", ast);
    let mut symboltable = local_resolver(&ast);
    println!("symboltable : {:?}", symboltable);
    println!("{:?}", check_expr(&ast, &mut symboltable));
}

#[test]
fn test_generate() {
    let mut lxr = Lexer::new(String::from("
            struct student {
                char[] name;
                int age;
                int sex;
                struct teacher *te;
            };

            struct teacher {
                struct headmaster ss;
            };

            struct headmaster {
                struct student sss;
                struct teacher *s;
            };

            int main(int argc,char **argv) {
                struct student a;
                int ba1 = 1;
                int[] aa;
                int[10] bb = aa;
                bb[ba1] = 1 * 2 << 3 && 4 + 5 / 6 + calc();
                a.age = 2 + calc(a);
                &a;
                for(i = 0; i < 10; i++) {
                    int ca = 1;
                    if (a == 2) {
                        int da = 12;
                        break;
                    } else {
                        continue;
                    }
                }

                while(1 == 2) {
                    int ca = 1;
                    ca = 2;
                }

                return 0;
            }

            int calc(int a) {
                
            }
        "));
    let ast = match parse(&mut lxr) {
        Ok(a) => a,
        Err(e) => {
            println!("{:?}", e);
            return;
        },
    };
    println!(" === {:?} ", ast);
    let mut symboltable = local_resolver(&ast);
    println!("symboltable : {:?}", symboltable);
    println!("{:?}", check_expr(&ast, &mut symboltable));
}

#[test]
fn test_build_type_graph() {
    let mut lxr = Lexer::new(String::from("
            struct student {
                char[] name;
                int age;
                int sex;
                struct teacher te;
            };

            struct teacher {
                struct student[] *ss;
            };

            struct headmaster {
                struct student sss;
                struct teacher *s;
            };

            int main(int argc,char **argv) {
                struct class a;
                int ba1 = 1;
                int bb = 2;
                for(i = 0; i < 10; i++) {
                    int ca = 1;
                    a = 1 * 2 << 3 && 4 + 5 / 6 + calc(a);
                    if (a == 2) {
                        int da = 12;
                        break;
                    } else {
                        continue;
                    }
                }

                while(1 == 2) {
                    int cb = 1;
                }

                return 0;
            }
        "));
    let ast = match parse(&mut lxr) {
        Ok(a) => a,
        Err(e) => {
            println!("{:?}", e);
            return;
        },
    };
    let symboltable = local_resolver(&ast);
    println!("{:?}", build_type_graph(&symboltable.global_define_map))
}

#[test]
fn test_check_type_circle() {
    let mut lxr = Lexer::new(String::from("
            struct student {
                char[] name;
                int age;
                int sex;
                struct teacher te;
            };

            struct teacher {
                struct headmaster ss;
            };

            struct headmaster {
                struct student sss;
                struct teacher *s;
            };

            int main(int argc,char **argv) {
                struct class a;
                int ba1 = 1;
                int bb = 2;
                for(i = 0; i < 10; i++) {
                    int ca = 1;
                    a = 1 * 2 << 3 && 4 + 5 / 6 + calc(a);
                    if (a == 2) {
                        int da = 12;
                        break;
                    } else {
                        continue;
                    }
                }

                while(1 == 2) {
                    int cb = 1;
                }

                return 0;
            }
        "));
    let ast = match parse(&mut lxr) {
        Ok(a) => a,
        Err(e) => {
            println!("{:?}", e);
            return;
        },
    };
    let symboltable = local_resolver(&ast);
    println!("{:?}", check_circle_def(&symboltable.global_define_map));
}

#[test]
fn test_find_symbol() {
    let mut lxr = Lexer::new(String::from("
            struct student {
                char[] name;
                int age;
                int sex;
                struct teacher te;
            };

            struct teacher {
                struct headmaster ss;
            };

            struct headmaster {
                struct student sss;
                struct teacher *s;
            };

            int main(int argc,char **argv) {
                struct class a;
                int ba1 = 1;
                int bb = 2;
                for(i = 0; i < 10; i++) {
                    int ca = 1;
                    a = 1 * 2 << 3 && 4 + 5 / 6 + calc(a);
                    if (a == 2) {
                        int da = 12;
                        break;
                    } else {
                        continue;
                    }
                }

                while(1 == 2) {
                    int cb = 1;
                }

                return 0;
            }
        "));
    let ast = match parse(&mut lxr) {
        Ok(a) => a,
        Err(e) => {
            println!("{:?}", e);
            return;
        },
    };
    let symboltable = local_resolver(&ast);
    println!("{:?}", symboltable.get_type(&String::from("bb")));
}

#[test]
fn test_config() {
    let args: Vec<String> = vec![String::from("a1"), String::from("a2"), String::from("a3")];

    let config = Config::new(&args).unwrap();
    assert_eq!("a2", config.filename);
}
