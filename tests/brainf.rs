use iaith::brainf::{as_tape, Program, State};
use iaith::parse::ParseError;

const HELLO: &str = "++++++++[>++++[>++>+++>+++>+<<<<-]>+>+>->>+[<]<-]>>.>---.+++++++..+++.>>.<-.<.+++.------.--------.>>+.>++.";

#[test]
fn test_step_program() {
    let mut prog = Program::new("++").unwrap();
    assert_eq!(prog.index, 0);
    assert_eq!(prog.state, State::New);

    let ret = prog.step();
    assert_eq!(ret, Some(String::from("")));
    assert_eq!(prog.state, State::Executing);
    assert_eq!(prog.index, 1);
    assert_eq!(*prog.tape.get(&0).unwrap(), 1);

    let ret = prog.step();
    assert_eq!(ret, Some(String::from("")));
    assert_eq!(prog.state, State::Executing);
    assert_eq!(prog.index, 2);
    assert_eq!(*prog.tape.get(&0).unwrap(), 2);

    let ret = prog.step();
    assert_eq!(ret, None);
    assert_eq!(prog.state, State::Terminated);
    assert_eq!(prog.index, 2);
    assert_eq!(*prog.tape.get(&0).unwrap(), 2);
}

#[test]
fn brainf_test_print_h() {
    let source = "++++++++++++++++++++++++++++++++++++++++++++++++++++++++++++++++++++++++.";
    let mut prog = Program::new(source).unwrap();

    assert_eq!("H", prog.execute());
}

#[test]
fn brainf_test_print_hello_world() {
    let mut prog = Program::new(HELLO).unwrap();

    assert_eq!("Hello World!\n", prog.execute());
}

#[test]
fn step_cursor_stays_at_zero() {
    let mut prog = Program::new("++").unwrap();
    prog.step();
    prog.step();
    assert_eq!(prog.pointer, 0);
    assert_eq!(prog.state, State::Executing);
    assert_eq!(prog.step(), None);
    assert_eq!(prog.state, State::Terminated);
    assert_eq!(prog.step(), None);
    assert_eq!(prog.state, State::Terminated);
}

#[test]
fn empty_program_ends_at_first_step() {
    let mut prog = Program::new("").unwrap();
    assert_eq!(prog.step(), None);
    assert_eq!(prog.state, State::Terminated);
    assert_eq!(prog.pointer, 0);
    assert!(prog.tape.is_empty());
}

#[test]
fn stray_close_bracket_fails() {
    assert!(matches!(Program::new("]"), Err(ParseError::UnmatchedBracket)));
    assert!(matches!(Program::new("+[]]"), Err(ParseError::UnmatchedBracket)));
}

#[test]
fn open_bracket_left_open_fails() {
    assert!(matches!(Program::new("[+"), Err(ParseError::UnmatchedBracket)));
    assert!(matches!(Program::new("[[]"), Err(ParseError::UnmatchedBracket)));
}

#[test]
fn comments_are_skipped() {
    let prog = Program::new("a+ b,[c-]d").unwrap();
    assert_eq!(prog.program.len(), 4);
    assert_eq!(prog.jumps[1], 3);
    assert_eq!(prog.jumps[3], 1);
    assert_eq!(prog.jumps[0], 0);
}

#[test]
fn links_use_command_positions() {
    let prog = Program::new("x[y[z]w]").unwrap();
    assert_eq!(prog.jumps, vec![3, 2, 1, 0]);
}

#[test]
fn step_by_step_equals_execute() {
    let mut stepped = Program::new(HELLO).unwrap();
    let mut text = String::new();
    while stepped.state != State::Terminated {
        if let Some(s) = stepped.step() {
            text += &s;
        }
    }
    let mut whole = Program::new(HELLO).unwrap();
    assert_eq!(text, whole.execute());
    assert_eq!(text, "Hello World!\n");
}

#[test]
fn two_runs_agree() {
    let source = "+++[>++<-]>.";
    let first = Program::new(source).unwrap().execute();
    let second = Program::new(source).unwrap().execute();
    assert_eq!(first, second);
    assert_eq!(first, "\u{6}");
}

#[test]
fn increment_full_cycle() {
    for v in 0..=255u32 {
        let mut source = "+".repeat(v as usize);
        source.push_str(&"+".repeat(256));
        let mut prog = Program::new(&source).unwrap();
        prog.execute();
        assert_eq!(*prog.tape.get(&0).unwrap(), v as u8);
    }
}

#[test]
fn decrement_full_cycle() {
    let mut source = "+++".to_string();
    source.push_str(&"-".repeat(256));
    let mut prog = Program::new(&source).unwrap();
    prog.execute();
    assert_eq!(*prog.tape.get(&0).unwrap(), 3);
}

#[test]
fn decrement_wraps_below_zero() {
    let mut prog = Program::new("-").unwrap();
    prog.execute();
    assert_eq!(*prog.tape.get(&0).unwrap(), 255);
}

#[test]
fn high_byte_prints_its_code_point() {
    let mut prog = Program::new("-.").unwrap();
    assert_eq!(prog.execute(), "\u{ff}");
}

#[test]
fn seventy_six_increments_print_l() {
    let mut source = "+".repeat(76);
    source.push('.');
    let mut prog = Program::new(&source).unwrap();
    assert_eq!(prog.execute(), "L");
}

#[test]
fn cursor_moves_left_of_zero() {
    let mut prog = Program::new("<<+>").unwrap();
    prog.execute();
    assert_eq!(prog.pointer, -1);
    assert_eq!(*prog.tape.get(&-2).unwrap(), 1);
    assert!(prog.tape.get(&0).is_none());
}

#[test]
fn reads_do_not_write() {
    let mut prog = Program::new(">>.[<]<.").unwrap();
    prog.execute();
    assert!(prog.tape.is_empty());
    assert!(as_tape(&prog).is_empty());
}

#[test]
fn dense_tape_fills_gaps_with_zero() {
    let mut prog = Program::new("+>>+++<<<-").unwrap();
    prog.execute();
    assert_eq!(as_tape(&prog), vec![1, 0, 3]);
}

#[test]
fn dense_tape_of_hello_world() {
    let mut prog = Program::new(HELLO).unwrap();
    prog.execute();
    assert_eq!(as_tape(&prog), vec![0, 0, 72, 100, 87, 33, 10]);
}
