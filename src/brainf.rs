//! The machine: a tape of byte cells addressed by `i64`, a cursor into it, and a
//! program run one command at a time.
//!
//! A cell that was never written reads 0 and is only stored once written. Cells
//! count modulo 256. A printed byte becomes the character whose code point is that
//! byte, so every byte prints, the ones above 127 included.
use vstd::prelude::*;
use vstd::string::StringExecFns;
use std::collections::HashMap;
use crate::parse::{ParseError, balanced, parse, tokens, links};

verus! {

/// A command of the language.
#[derive(Debug, Clone, Copy, PartialEq, Eq, Structural)]
pub enum Token {
    /// `[`
    LoopStart,
    /// `]`
    LoopEnd,
    /// `+`
    Increment,
    /// `-`
    Decrement,
    /// `>`
    ShiftR,
    /// `<`
    ShiftL,
    /// `.`
    Print,
}

/// The command a source character stands for, if any.
pub open spec fn token_of(c: char) -> Option<Token> {
    if c == '[' {
        Some(Token::LoopStart)
    } else if c == ']' {
        Some(Token::LoopEnd)
    } else if c == '+' {
        Some(Token::Increment)
    } else if c == '-' {
        Some(Token::Decrement)
    } else if c == '>' {
        Some(Token::ShiftR)
    } else if c == '<' {
        Some(Token::ShiftL)
    } else if c == '.' {
        Some(Token::Print)
    } else {
        None
    }
}

pub(crate) fn token(c: char) -> (r: Option<Token>)
    ensures
        r == token_of(c),
{
    match c {
        '[' => Some(Token::LoopStart),
        ']' => Some(Token::LoopEnd),
        '+' => Some(Token::Increment),
        '-' => Some(Token::Decrement),
        '>' => Some(Token::ShiftR),
        '<' => Some(Token::ShiftL),
        '.' => Some(Token::Print),
        _ => None,
    }
}

/// Where a program stands in its run.
#[derive(Debug, Clone, Copy, PartialEq, Eq, Structural)]
pub enum State {
    /// No command has been run yet.
    New,
    /// The run has started.
    Executing,
    /// The run is over: the command index has reached the end of the program.
    Terminated,
}

/// A mathematical picture of a running program.
pub struct Machine {
    pub program: Seq<Token>,
    pub jumps: Seq<usize>,
    pub index: int,
    pub tape: Map<i64, u8>,
    pub pointer: i64,
    pub state: State,
}

/// The value of a cell: a cell that was never written holds 0.
pub open spec fn cell(tape: Map<i64, u8>, a: i64) -> u8 {
    if tape.contains_key(a) {
        tape[a]
    } else {
        0
    }
}

/// Adding one to a cell, modulo 256.
pub open spec fn inc(v: u8) -> u8 {
    ((v + 1) % 256) as u8
}

/// Taking one from a cell, modulo 256.
pub open spec fn dec(v: u8) -> u8 {
    ((v + 255) % 256) as u8
}

/// The cell to the right; past the last address of `i64` the tape wraps to the first.
pub open spec fn right(a: i64) -> i64 {
    if a == i64::MAX {
        i64::MIN
    } else {
        (a + 1) as i64
    }
}

/// The cell to the left; before the first address of `i64` the tape wraps to the last.
pub open spec fn left(a: i64) -> i64 {
    if a == i64::MIN {
        i64::MAX
    } else {
        (a - 1) as i64
    }
}

/// The character that a printed byte stands for: the one whose code point is the byte.
pub open spec fn byte_char(v: u8) -> char {
    v as char
}

/// One step of a machine: the machine after it, and what it printed. `None` says the
/// run is over; `Some` says one command was run, and holds what it printed.
pub open spec fn step_spec(m: Machine) -> (Machine, Option<Seq<char>>) {
    if m.state == State::Terminated {
        (m, None)
    } else if m.index >= m.program.len() {
        (Machine { state: State::Terminated, ..m }, None)
    } else {
        let m = Machine { state: State::Executing, ..m };
        let v = cell(m.tape, m.pointer);
        let next = Machine { index: m.index + 1, ..m };
        match m.program[m.index] {
            Token::ShiftR => (Machine { pointer: right(m.pointer), ..next }, Some(seq![])),
            Token::ShiftL => (Machine { pointer: left(m.pointer), ..next }, Some(seq![])),
            Token::Increment => (Machine { tape: m.tape.insert(m.pointer, inc(v)), ..next }, Some(seq![])),
            Token::Decrement => (Machine { tape: m.tape.insert(m.pointer, dec(v)), ..next }, Some(seq![])),
            Token::Print => (next, Some(seq![byte_char(v)])),
            Token::LoopStart => if v == 0 {
                (Machine { index: m.jumps[m.index] as int, ..m }, Some(seq![]))
            } else {
                (next, Some(seq![]))
            },
            Token::LoopEnd => if v != 0 {
                (Machine { index: m.jumps[m.index] as int, ..m }, Some(seq![]))
            } else {
                (next, Some(seq![]))
            },
        }
    }
}

/// The text a step printed, if any.
pub open spec fn emitted(o: Option<Seq<char>>) -> Seq<char> {
    match o {
        Some(t) => t,
        None => seq![],
    }
}

/// Running a machine until its run is over, for at most `fuel` steps: the machine at
/// the end, and all it printed.
pub open spec fn run(m: Machine, fuel: nat) -> (Machine, Seq<char>)
    decreases fuel,
{
    if fuel == 0 || m.state == State::Terminated {
        (m, seq![])
    } else {
        let (m2, o) = step_spec(m);
        let (m3, rest) = run(m2, (fuel - 1) as nat);
        (m3, emitted(o) + rest)
    }
}

/// A machine that has not yet run, on a program and its bracket links.
pub open spec fn initial(program: Seq<Token>, jumps: Seq<usize>) -> Machine {
    Machine {
        program,
        jumps,
        index: 0,
        tape: Map::empty(),
        pointer: 0,
        state: State::New,
    }
}

/// The text a step returned, as characters.
pub open spec fn text_of(r: Option<String>) -> Option<Seq<char>> {
    match r {
        Some(s) => Some(s@),
        None => None,
    }
}

/// Relies on `String::push`: the character is added at the end.
#[verifier::external_body]
fn push_char(s: &mut String, c: char)
    ensures
        final(s)@ == old(s)@.push(c),
{
    s.push(c)
}

/// A program with all the state needed to run it.
pub struct Program {
    /// The commands of the program.
    pub program: Vec<Token>,
    /// The position of the next command to run.
    pub index: usize,
    /// The cells that were ever written, by address; the others hold 0.
    pub tape: HashMap<i64, u8>,
    /// The address of the current cell.
    pub pointer: i64,
    /// Where the run stands.
    pub state: State,
    /// For each bracket of the program, the position of its partner.
    pub jumps: Vec<usize>,
}

impl View for Program {
    type V = Machine;

    open spec fn view(&self) -> Machine {
        Machine {
            program: self.program@,
            jumps: self.jumps@,
            index: self.index as int,
            tape: self.tape@,
            pointer: self.pointer,
            state: self.state,
        }
    }
}

impl Program {
    /// The program's brackets are linked to their partners and the index stays in range.
    pub open spec fn wf(&self) -> bool {
        &&& links(self.program@, self.jumps@)
        &&& self.jumps@.len() == self.program@.len()
        &&& forall|i: int| 0 <= i < self.jumps@.len() ==> self.jumps@[i] < self.jumps@.len()
        &&& self.index <= self.program@.len()
    }

    /// Reads `source` into a program that has not yet run.
    pub fn new(source: &str) -> (r: Result<Program, ParseError>)
        ensures
            match r {
                Ok(p) => {
                    &&& p.wf()
                    &&& p@ == initial(tokens(source@), p@.jumps)
                },
                Err(e) => e == ParseError::UnmatchedBracket,
            },
            r is Ok <==> balanced(tokens(source@)),
    {
        match parse(source) {
            Ok((program, jumps)) => {
                proof {
                    reveal(links);
                }
                Ok(
                    Program {
                        program,
                        index: 0,
                        tape: HashMap::new(),
                        pointer: 0,
                        state: State::New,
                        jumps,
                    },
                )
            },
            Err(e) => Err(e),
        }
    }

    /// Runs the next command. `None` says that the run is over (and from now on
    /// always will be); `Some` holds what the command printed, maybe nothing.
    pub fn step(&mut self) -> (r: Option<String>)
        requires
            old(self).wf(),
        ensures
            final(self).wf(),
            step_spec(old(self)@) == (final(self)@, text_of(r)),
    {
        broadcast use vstd::std_specs::hash::group_hash_axioms;
        match self.state {
            State::Terminated => {
                return None;
            },
            _ => {
                if self.index >= self.program.len() {
                    self.state = State::Terminated;
                    return None;
                }
                self.state = State::Executing;
            },
        }
        let instruction = self.program[self.index];
        let value: u8 = match self.tape.get(&self.pointer) {
            Some(v) => *v,
            None => 0,
        };
        let mut out = String::new();
        match instruction {
            Token::ShiftR => {
                self.pointer = if self.pointer == i64::MAX { i64::MIN } else { self.pointer + 1 };
            },
            Token::ShiftL => {
                self.pointer = if self.pointer == i64::MIN { i64::MAX } else { self.pointer - 1 };
            },
            Token::Increment => {
                self.tape.insert(self.pointer, value.wrapping_add(1));
            },
            Token::Decrement => {
                self.tape.insert(self.pointer, value.wrapping_sub(1));
            },
            Token::LoopStart => {
                if value == 0 {
                    self.index = self.jumps[self.index];
                    return Some(out);
                }
            },
            Token::LoopEnd => {
                if value != 0 {
                    self.index = self.jumps[self.index];
                    return Some(out);
                }
            },
            Token::Print => {
                push_char(&mut out, value as char);
            },
        }
        self.index = self.index + 1;
        Some(out)
    }

    /// Runs the program until its run is over, and returns all it printed.
    ///
    /// The run is bounded by `u64::MAX` steps, which no machine reaches in practice; a
    /// program that loops forever stops there, with what it printed so far.
    pub fn execute(&mut self) -> (out: String)
        requires
            old(self).wf(),
        ensures
            final(self).wf(),
            run(old(self)@, u64::MAX as nat) == (final(self)@, out@),
    {
        let mut output = String::new();
        let mut fuel: u64 = u64::MAX;
        proof {
            assert(output@ + run(self@, fuel as nat).1 =~= run(self@, fuel as nat).1);
        }
        while self.state != State::Terminated && fuel > 0
            invariant
                self.wf(),
                run(old(self)@, u64::MAX as nat) == (run(self@, fuel as nat).0, output@ + run(
                    self@,
                    fuel as nat,
                ).1),
            decreases fuel,
        {
            let ghost before = self@;
            let ghost out_before = output@;
            let r = self.step();
            match r {
                Some(s) => output.append(s.as_str()),
                None => {},
            }
            fuel = fuel - 1;
            proof {
                let (m2, o) = step_spec(before);
                assert(out_before + (emitted(o) + run(m2, fuel as nat).1) =~= output@ + run(
                    self@,
                    fuel as nat,
                ).1);
            }
        }
        proof {
            assert(output@ + run(self@, fuel as nat).1 =~= output@);
        }
        output
    }
}

/// The tape laid out densely from address 0 up to the highest written address:
/// `prog.tape` holds a cell at the last position, at no later non-negative address,
/// and each position holds the value of its cell. With no cell written at or
/// above address 0 the layout is empty.
pub fn as_tape(prog: &Program) -> (r: Vec<u8>)
    ensures
        forall|i: int| 0 <= i < r@.len() ==> r@[i] == cell(prog.tape@, i as i64),
        forall|a: i64| 0 <= a && #[trigger] prog.tape@.contains_key(a) ==> a < r@.len(),
        r@.len() > 0 ==> prog.tape@.contains_key((r@.len() - 1) as i64),
{
    broadcast use vstd::std_specs::hash::group_hash_axioms;
    let mut hi: i64 = -1;
    for k in it: prog.tape.keys()
        invariant
            hi >= -1,
            hi >= 0 ==> prog.tape@.contains_key(hi),
            forall|j: int| 0 <= j < it.index() && *it.seq()[j] >= 0 ==> *it.seq()[j] <= hi,
    {
        if *k > hi {
            hi = *k;
        }
    }
    let mut tape: Vec<u8> = Vec::new();
    let mut i: i128 = 0;
    while i <= hi as i128
        invariant
            0 <= i <= hi + 1,
            hi >= 0 ==> prog.tape@.contains_key(hi),
            tape@.len() == i,
            forall|j: int| 0 <= j < i ==> tape@[j] == cell(prog.tape@, j as i64),
        decreases hi + 1 - i,
    {
        let a = i as i64;
        let v: u8 = match prog.tape.get(&a) {
            Some(v) => *v,
            None => 0,
        };
        tape.push(v);
        i = i + 1;
    }
    tape
}

} // verus!
