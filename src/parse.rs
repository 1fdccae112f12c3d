//! Turning source text into commands, and linking each bracket to its partner.
use vstd::prelude::*;
use crate::brainf::{Token, token, token_of};

verus! {

/// Why a source text is not a program.
#[derive(Debug, Clone, Copy, PartialEq, Eq, Structural)]
pub enum ParseError {
    /// A `]` closes no open `[`, or a `[` is never closed.
    UnmatchedBracket,
}

/// The commands of a source text, in order; every other character is a comment.
pub open spec fn tokens(s: Seq<char>) -> Seq<Token>
    decreases s.len(),
{
    if s.len() == 0 {
        seq![]
    } else {
        let rest = tokens(s.drop_last());
        match token_of(s.last()) {
            Some(t) => rest.push(t),
            None => rest,
        }
    }
}

/// How a command changes the bracket nesting depth.
pub open spec fn delta(t: Token) -> int {
    match t {
        Token::LoopStart => 1,
        Token::LoopEnd => -1,
        _ => 0,
    }
}

/// The bracket nesting depth after a run of commands.
pub open spec fn depth(p: Seq<Token>) -> int
    decreases p.len(),
{
    if p.len() == 0 {
        0
    } else {
        depth(p.drop_last()) + delta(p.last())
    }
}

/// The nesting depth in front of the command at position `k`.
pub open spec fn depth_at(p: Seq<Token>, k: int) -> int {
    depth(p.take(k))
}

/// Every `]` closes an open `[`, and every `[` is closed.
pub open spec fn balanced(p: Seq<Token>) -> bool {
    &&& forall|k: int| 0 <= k <= p.len() ==> depth_at(p, k) >= 0
    &&& depth(p) == 0
}

/// `e` is the `]` that closes the `[` at `s`: the first later position at which
/// the depth falls back to what it was in front of `s`.
pub open spec fn closes(p: Seq<Token>, s: int, e: int) -> bool {
    &&& 0 <= s < e < p.len()
    &&& p[s] == Token::LoopStart
    &&& p[e] == Token::LoopEnd
    &&& depth_at(p, e + 1) == depth_at(p, s)
    &&& forall|k: int| s < k <= e ==> depth_at(p, k) > depth_at(p, s)
}

/// `j` maps each bracket of `p` to its partner, in both directions, and every other
/// command to itself.
#[verifier::opaque]
pub open spec fn links(p: Seq<Token>, j: Seq<usize>) -> bool {
    &&& j.len() == p.len()
    &&& forall|i: int|
        0 <= i < p.len() && p[i] == Token::LoopStart ==> closes(p, i, j[i] as int) && j[j[i] as int]
            == i
    &&& forall|i: int|
        0 <= i < p.len() && p[i] == Token::LoopEnd ==> closes(p, j[i] as int, i) && j[j[i] as int]
            == i
    &&& forall|i: int|
        0 <= i < p.len() && p[i] != Token::LoopStart && p[i] != Token::LoopEnd ==> j[i] == i
}

proof fn lemma_depth_next(p: Seq<Token>, k: int)
    requires
        0 <= k < p.len(),
    ensures
        depth_at(p, k + 1) == depth_at(p, k) + delta(p[k]),
{
    assert(p.take(k + 1).drop_last() =~= p.take(k));
}

proof fn lemma_tokens_prefix(s: Seq<char>, i: int)
    requires
        0 <= i <= s.len(),
    ensures
        tokens(s.take(i)).len() <= tokens(s).len(),
        tokens(s).take(tokens(s.take(i)).len() as int) == tokens(s.take(i)),
    decreases s.len(),
{
    if i == s.len() {
        assert(s.take(i) =~= s);
        assert(tokens(s).take(tokens(s).len() as int) =~= tokens(s));
    } else {
        let d = s.drop_last();
        lemma_tokens_prefix(d, i);
        assert(d.take(i) =~= s.take(i));
        let a = tokens(s.take(i));
        assert(tokens(s).take(a.len() as int) =~= tokens(d).take(a.len() as int));
    }
}

proof fn lemma_tokens_next(s: Seq<char>, i: int)
    requires
        0 <= i < s.len(),
    ensures
        tokens(s.take(i + 1)) == match token_of(s[i]) {
            Some(t) => tokens(s.take(i)).push(t),
            None => tokens(s.take(i)),
        },
{
    assert(s.take(i + 1).drop_last() =~= s.take(i));
}

/// Reads the commands of `source` and links each `[` to its `]`.
///
/// A `,` is not a command of this interpreter and, like any other character
/// outside the alphabet, is skipped. A `]` without an open `[`, and a `[` left
/// open at the end, both make the text no program.
#[verifier::rlimit(40)]
pub fn parse(source: &str) -> (r: Result<(Vec<Token>, Vec<usize>), ParseError>)
    ensures
        match r {
            Ok((prog, jumps)) => {
                &&& balanced(tokens(source@))
                &&& prog@ == tokens(source@)
                &&& links(prog@, jumps@)
            },
            Err(e) => e == ParseError::UnmatchedBracket && !balanced(tokens(source@)),
        },
{
    let ghost s = source@;
    let ghost p = tokens(s);
    let mut prog: Vec<Token> = Vec::new();
    let mut jumps: Vec<usize> = Vec::new();
    let mut open: Vec<usize> = Vec::new();
    proof {
        assert(s.take(0) =~= seq![]);
        assert(p.take(0) =~= seq![]);
    }
    for c in it: source.chars()
        invariant
            it.seq() == s,
            s == source@,
            p == tokens(s),
            0 <= it.index() <= s.len(),
            prog@ == tokens(s.take(it.index() as int)),
            prog@.len() <= p.len(),
            p.take(prog@.len() as int) == prog@,
            jumps@.len() == prog@.len(),
            open@.len() == depth_at(p, prog@.len() as int),
            forall|k: int| 0 <= k <= prog@.len() ==> depth_at(p, k) >= 0,
            forall|m: int|
                0 <= m < open@.len() ==> {
                    &&& open@[m] < prog@.len()
                    &&& p[open@[m] as int] == Token::LoopStart
                    &&& depth_at(p, open@[m] as int) == m
                    &&& forall|k: int|
                        open@[m] < k <= prog@.len() ==> #[trigger] depth_at(p, k) > m
                },
            forall|x: int|
                0 <= x < prog@.len() && p[x] == Token::LoopStart ==> {
                    ||| (depth_at(p, x) < open@.len() && open@[depth_at(p, x)] == x)
                    ||| (closes(p, x, jumps@[x] as int) && jumps@[x] < prog@.len() && jumps@[jumps@[x] as int] == x)
                },
            forall|x: int|
                0 <= x < prog@.len() && p[x] == Token::LoopEnd ==> {
                    &&& jumps@[x] < x
                    &&& closes(p, jumps@[x] as int, x)
                    &&& jumps@[jumps@[x] as int] == x
                },
            forall|x: int|
                0 <= x < prog@.len() && p[x] != Token::LoopStart && p[x] != Token::LoopEnd
                    ==> jumps@[x] == x,
    {
        let ghost i = it.index();
        proof {
            assert(c == s[i as int]);
            lemma_tokens_next(s, i as int);
            lemma_tokens_prefix(s, i as int + 1);
        }
        match token(c) {
            Some(t) => {
                let at = prog.len();
                proof {
                    assert(p[at as int] == t);
                    lemma_depth_next(p, at as int);
                }
                match t {
                    Token::LoopStart => {
                        open.push(at);
                        prog.push(t);
                        jumps.push(at);
                    },
                    Token::LoopEnd => {
                        match open.pop() {
                            Some(start) => {
                                prog.push(t);
                                jumps.push(start);
                                jumps.set(start, at);
                            },
                            None => {
                                proof {
                                    assert(depth_at(p, at as int + 1) < 0);
                                }
                                return Err(ParseError::UnmatchedBracket);
                            },
                        }
                    },
                    _ => {
                        prog.push(t);
                        jumps.push(at);
                    },
                }
            },
            None => {},
        }
    }
    proof {
        assert(s.take(s.len() as int) =~= s);
        reveal(links);
    }
    if open.len() > 0 {
        return Err(ParseError::UnmatchedBracket);
    }
    Ok((prog, jumps))
}

} // verus!
