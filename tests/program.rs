use iaith::parse::ParseError;
use iaith::Program;

#[test]
fn lib_test_print_h() {
    let source = "++++++++++++++++++++++++++++++++++++++++++++++++++++++++++++++++++++++++.";
    let mut prog = Program::new(source).unwrap();

    assert_eq!("H", prog.execute());
}

#[test]
fn lib_test_print_hello_world() {
    let source = "++++++++[>++++[>++>+++>+++>+<<<<-]>+>+>->>+[<]<-]>>.>---.+++++++..+++.>>.<-.<.+++.------.--------.>>+.>++.";
    let mut prog = Program::new(source).unwrap();

    assert_eq!("Hello World!\n", prog.execute());
}

#[test]
fn lib_rejects_unmatched_bracket() {
    assert!(matches!(Program::new("]"), Err(ParseError::UnmatchedBracket)));
}

#[test]
fn lib_empty_program_prints_nothing() {
    let mut prog = Program::new("").unwrap();
    assert_eq!(prog.execute(), "");
}
