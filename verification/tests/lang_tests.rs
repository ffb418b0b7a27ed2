use mikan_script::lang::compiler::{format_bytes, mangle_impl_method, optimize_asm, try_optimize_asm, Compiler};
use mikan_script::lang::lexer::{Lexer, Token};
use mikan_script::lang::optimizer::AsmOptimizer;
use mikan_script::lang::parser::Parser;

fn tokens(src: &str) -> Vec<Token> {
    let mut lx = Lexer::new(src);
    let mut out = Vec::new();
    loop {
        let t = lx.next_token().expect("token");
        let end = matches!(t, Token::Eof);
        out.push(t);
        if end {
            break;
        }
    }
    out
}

#[test]
fn lexer_reads_a_let_statement() {
    let ts = tokens("let x: u64 = 12 + y.");
    assert!(matches!(ts[0], Token::Let));
    assert!(matches!(&ts[1], Token::Ident(s) if s == "x"));
    assert!(matches!(ts[2], Token::Colon));
    assert!(matches!(&ts[3], Token::Ident(s) if s == "u64"));
    assert!(matches!(ts[4], Token::Assign));
    assert!(matches!(ts[5], Token::Number(12)));
    assert!(matches!(ts[6], Token::Plus));
    assert!(matches!(&ts[7], Token::Ident(s) if s == "y"));
    assert!(matches!(ts[8], Token::Dot));
    assert!(matches!(ts[9], Token::Eof));
    assert_eq!(ts.len(), 10);
}

#[test]
fn lexer_reads_two_char_operators() {
    let ts = tokens("<= >= == != -> => :: < > = ! - :");
    assert!(matches!(ts[0], Token::Le));
    assert!(matches!(ts[1], Token::Ge));
    assert!(matches!(ts[2], Token::EqEq));
    assert!(matches!(ts[3], Token::NotEq));
    assert!(matches!(ts[4], Token::Arrow));
    assert!(matches!(ts[5], Token::FatArrow));
    assert!(matches!(ts[6], Token::ColonColon));
    assert!(matches!(ts[7], Token::Lt));
    assert!(matches!(ts[8], Token::Gt));
    assert!(matches!(ts[9], Token::Assign));
    assert!(matches!(ts[10], Token::Bang));
    assert!(matches!(ts[11], Token::Minus));
    assert!(matches!(ts[12], Token::Colon));
}

#[test]
fn lexer_reads_keywords_and_strings() {
    let ts = tokens("fn loop match brk true false _ \"a\\n\"");
    assert!(matches!(ts[0], Token::Fn));
    assert!(matches!(ts[1], Token::Loop));
    assert!(matches!(ts[2], Token::Match));
    assert!(matches!(ts[3], Token::Brk));
    assert!(matches!(ts[4], Token::True));
    assert!(matches!(ts[5], Token::False));
    assert!(matches!(ts[6], Token::Underscore));
    assert!(matches!(&ts[7], Token::Str(b) if b == &vec![b'a', b'\n']));
}

#[test]
fn lexer_rejects_an_unknown_character() {
    let mut lx = Lexer::new("#");
    assert!(lx.next_token().is_err());
}

#[test]
fn lexer_skips_comments() {
    let ts = tokens("// a comment\n1");
    assert!(matches!(ts[0], Token::Number(1)));
}

#[test]
fn parser_reads_a_program() {
    let mut p = Parser::new("fn add(a: u64, b: u64) -> u64 { let c: u64 = a + b. }\nfn main() { add(1, 2). }");
    let prog = p.parse_program().expect("parses");
    assert_eq!(prog.functions.len(), 2);
    assert_eq!(prog.functions[0].name, "add");
    assert_eq!(prog.functions[0].params.len(), 2);
    assert_eq!(prog.functions[0].params[1].name, "b");
    assert_eq!(prog.functions[0].return_type.as_deref(), Some("u64"));
    assert_eq!(prog.functions[1].name, "main");
    assert_eq!(prog.functions[1].body.len(), 1);
}

#[test]
fn parser_reports_a_missing_brace() {
    let mut p = Parser::new("fn main() { let x: u64 = 1.");
    assert!(p.parse_program().is_err());
}

#[test]
fn parser_reads_structs_traits_and_impls() {
    let src = "struct P { x: u64, y: u64 }\ntrait T { fn f(a: u64) -> u64 }\nimpl P { fn g() { } }\nfn main() { }";
    let mut p = Parser::new(src);
    let prog = p.parse_program().expect("parses");
    assert_eq!(prog.structs.len(), 1);
    assert_eq!(prog.structs[0].fields.len(), 2);
    assert_eq!(prog.traits.len(), 1);
    assert_eq!(prog.impls.len(), 1);
    assert_eq!(prog.impls[0].methods[0].name, "g");
}

fn compile(src: &str) -> Result<String, String> {
    let mut p = Parser::new(src);
    let prog = p.parse_program()?;
    let mut c = Compiler::new(prog);
    c.try_compile().expect("no fault")
}

#[test]
fn compiler_emits_an_empty_main() {
    let text = compile("fn main() { }").expect("compiles");
    assert_eq!(text, "\nMAIN\n    LOAD_U64_IMMEDIATE r255 0\n    LOAD_U64_IMMEDIATE r0 0\n    EXIT r0\n");
}

#[test]
fn compiler_interns_strings_for_stdout() {
    let text = compile("fn main() { !reactor.stdout(\"hi\"). }").expect("compiles");
    assert!(text.starts_with("DATA STR0 \"hi\"\n"));
    assert!(text.contains("MAIN\n"));
    assert!(text.contains("EXIT r0"));
}

#[test]
fn compiler_reports_an_unknown_variable() {
    let err = compile("fn main() { let x: u64 = y. }").unwrap_err();
    assert_eq!(err, "unknown variable: y");
}

#[test]
fn compiler_reports_an_unknown_function() {
    let err = compile("fn main() { nope(). }").unwrap_err();
    assert_eq!(err, "unknown function: nope");
}

#[test]
fn compiler_reports_an_argument_count_mismatch() {
    let err = compile("fn f(a: u64) { }\nfn main() { f(1, 2). }").unwrap_err();
    assert_eq!(err, "argument count mismatch for f");
}

#[test]
fn compiler_emits_impl_methods_under_mangled_names() {
    let text = compile("impl P { fn g() { } }\nfn main() { P::g(). }").expect("compiles");
    assert!(text.contains("P__G\n"));
    assert!(text.contains("CALL r255 P__G"));
}

#[test]
fn format_bytes_escapes() {
    assert_eq!(format_bytes(b"a\"b\\c\n\r\t"), "\"a\\\"b\\\\c\\n\\r\\t\"");
    assert_eq!(format_bytes(&[0x00, 0x7f, 0xff, 0x20]), "\"\\x00\\x7F\\xFF \"");
}

#[test]
fn mangle_joins_with_two_underscores() {
    assert_eq!(mangle_impl_method("Point", "len"), "Point__len");
}

#[test]
fn quick_pass_drops_self_moves_and_repeats() {
    let out = optimize_asm("    MOV r1 r1\n    ADD_U64 r1 r2\n    ADD_U64 r1 r2\n");
    assert_eq!(out, "    ADD_U64 r1 r2\n");
}

#[test]
fn quick_pass_folds_load_into_move() {
    let out = optimize_asm("    LOAD_U64_IMMEDIATE r3 7\n    MOV r1 r3\n");
    assert_eq!(out, "    LOAD_U64_IMMEDIATE r1 7\n");
}

#[test]
fn quick_pass_folds_move_chain() {
    let out = optimize_asm("    MOV r2 r1\n    MOV r3 r2\n");
    assert_eq!(out, "    MOV r3 r1\n");
}

#[test]
fn quick_pass_keeps_second_of_two_moves_into_one_register() {
    let out = optimize_asm("    MOV r2 r1\n    MOV r2 r4\n");
    assert_eq!(out, "    MOV r2 r4\n");
}

#[test]
fn quick_pass_faults_where_the_indentation_cut_splits_a_char() {
    // 20 trailing blanks put the cut 20 bytes in, inside the two-byte `é`
    let text = format!("LOAD_U64_IMMEDIATE é 7{}\nMOV r1 é\n", " ".repeat(20));
    assert!(try_optimize_asm(&text).is_none());
    let fine = format!("LOAD_U64_IMMEDIATE e 7{}\nMOV r1 e\n", " ".repeat(20));
    assert!(try_optimize_asm(&fine).is_some());
}

#[test]
fn optimizer_removes_zero_immediates_and_self_moves() {
    let out = AsmOptimizer::optimize("MAIN\n    ADD_U64_IMMEDIATE r1 0\n    MOV r2 r2\n    EXIT r0\n");
    assert_eq!(out, "MAIN\n    EXIT r0\n");
}

#[test]
fn duplicate_lines_in_a_row_collapse() {
    let out = AsmOptimizer::optimize("MAIN\n    EXIT r0\n    EXIT r0\n    EXIT r0\n");
    assert_eq!(out, "MAIN\n    EXIT r0\n");
}

#[test]
fn loop_match_increment_folds_the_arm_end_layout() {
    let input = [
        "LOOP:",
        "GTE_U64_JUMP r255 r3 r2 ARM",
        "MOV r4 r3",
        "ADD_U64_IMMEDIATE r4 1",
        "JUMP r255 END",
        "ARM:",
        "LOAD_U64_IMMEDIATE r1 0",
        "JUMP r255 EXIT",
        "LOAD_U64_IMMEDIATE r4 0",
        "JUMP r255 END",
        "END:",
        "MOV r3 r4",
        "LOAD_U64_IMMEDIATE r4 0",
        "JUMP r255 LOOP",
    ];
    let mut lines: Vec<Vec<char>> = input.iter().map(|l| l.chars().collect()).collect();
    assert!(AsmOptimizer::fold_loop_match_increment(&mut lines));
    let out: Vec<String> = lines.iter().map(|l| l.iter().collect()).collect();
    assert_eq!(out, vec!["LOOP:", "GTE_U64_JUMP r255 r3 r2 EXIT", "ADD_U64_IMMEDIATE r3 1", "JUMP r255 LOOP"]);
}

#[test]
fn loop_match_increment_keeps_an_arm_jumped_to_twice() {
    let input = [
        "LOOP:",
        "GTE_U64_JUMP r255 r3 r2 ARM",
        "MOV r4 r3",
        "ADD_U64_IMMEDIATE r4 1",
        "JUMP r255 END",
        "ARM:",
        "LOAD_U64_IMMEDIATE r1 0",
        "JUMP r255 EXIT",
        "LOAD_U64_IMMEDIATE r4 0",
        "JUMP r255 END",
        "END:",
        "MOV r3 r4",
        "LOAD_U64_IMMEDIATE r4 0",
        "JUMP r255 LOOP",
        "JUMP r255 ARM",
    ];
    let mut lines: Vec<Vec<char>> = input.iter().map(|l| l.chars().collect()).collect();
    assert!(AsmOptimizer::fold_loop_match_increment(&mut lines));
    assert_eq!(lines.len(), input.len());
}

#[test]
fn lexer_repeats_eof_at_the_end() {
    let mut lx = Lexer::new("x // trailing comment\n");
    assert!(matches!(lx.next_token(), Ok(_)));
    assert!(matches!(lx.next_token(), Ok(Token::Eof)));
    assert!(matches!(lx.next_token(), Ok(Token::Eof)));
}

#[test]
fn formatted_bytes_lex_back_to_the_same_bytes() {
    let bytes: Vec<u8> = vec![b'h', b'i', b'"', b'\\', b'\n', b'\r', b'\t', 0, 0x7f, 0xff, b' '];
    let text = format_bytes(&bytes);
    let mut lx = Lexer::new(&text);
    match lx.next_token() {
        Ok(Token::Str(b)) => assert_eq!(b, bytes),
        other => panic!("expected a string token, got {:?}", other),
    }
    assert!(matches!(lx.next_token(), Ok(Token::Eof)));
}
