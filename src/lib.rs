//! An interpreter for a small tape-machine language of seven commands: `>` `<` `+`
//! `-` `.` `[` `]`. Every other character is a comment.
use vstd::prelude::*;

pub mod brainf;
pub mod parse;
pub mod lemmas;

use crate::brainf::{Machine, initial, run};
use crate::parse::{ParseError, balanced, links, tokens};

verus! {

/// A program that is run from start to finish in one call.
pub struct Program {
    engine: brainf::Program,
}

impl View for Program {
    type V = Machine;

    closed spec fn view(&self) -> Machine {
        self.engine@
    }
}

impl Program {
    /// The program is ready to run.
    pub closed spec fn wf(&self) -> bool {
        self.engine.wf()
    }

    /// Reads `source` into a program that has not yet run; fails exactly when its
    /// brackets do not pair up.
    pub fn new(source: &str) -> (r: Result<Program, ParseError>)
        ensures
            match r {
                Ok(p) => {
                    &&& p.wf()
                    &&& p@ == initial(tokens(source@), p@.jumps)
                    &&& links(tokens(source@), p@.jumps)
                },
                Err(e) => e == ParseError::UnmatchedBracket,
            },
            r is Ok <==> balanced(tokens(source@)),
    {
        match brainf::Program::new(source) {
            Ok(engine) => Ok(Program { engine }),
            Err(e) => Err(e),
        }
    }

    /// Runs the program until its run is over (for at most `u64::MAX` steps), and
    /// returns all it printed.
    pub fn execute(&mut self) -> (out: String)
        requires
            old(self).wf(),
        ensures
            final(self).wf(),
            run(old(self)@, u64::MAX as nat) == (final(self)@, out@),
    {
        self.engine.execute()
    }
}

} // verus!
