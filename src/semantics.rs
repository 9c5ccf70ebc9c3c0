use vstd::prelude::*;
use crate::model::Model;
use crate::number::{parse_of, Compare, Number};
use crate::optable::{op_of, Op};
use crate::text::{join, trimmed};
use crate::tokenizer::tokens_of;

verus! {

/// How far a run of tokens got: the session after it, whether a malformed
/// escape halted it, and whether it is determined at all (it is not once a
/// file is loaded, whose contents come from outside).
#[verifier::ext_equal]
pub struct Run<N> {
    pub model: Model<N>,
    pub halt: bool,
    pub known: bool,
}

/// The outcome of an operation that runs tokens of its own.
#[verifier::ext_equal]
pub struct Ctl<N> {
    pub model: Model<N>,
    /// The rest of the token stream is dropped.
    pub stop: bool,
    pub halt: bool,
    pub known: bool,
}

pub open spec fn next<N>(m: Model<N>) -> Ctl<N> {
    Ctl { model: m, stop: false, halt: false, known: true }
}

pub open spec fn stopped<N>(m: Model<N>) -> Ctl<N> {
    Ctl { model: m, stop: true, halt: false, known: true }
}

/// The outcome of an operation whose nested run ended as `r`, the session
/// then being `after` unless the run halted.
pub open spec fn after_run<N>(r: Run<N>, after: Model<N>) -> Ctl<N> {
    if r.halt {
        Ctl { model: r.model, stop: false, halt: true, known: r.known }
    } else {
        Ctl { model: after, stop: false, halt: false, known: r.known }
    }
}

/// The operations that run tokens of their own.
pub open spec fn is_control(op: Op) -> bool {
    op == Op::Else || op == Op::Elif || op == Op::If || op == Op::Times || op == Op::LoadFile
        || op == Op::Namespace || op == Op::Word
}

/// The operations that use up a pending one-shot suppression when they
/// succeed.
pub open spec fn uses_once(op: Op) -> bool {
    match op {
        Op::Optional(_) | Op::Def | Op::Const | Op::Fn | Op::Reset => true,
        _ => false,
    }
}

/// What becomes of a token while blocks are captured.
#[derive(PartialEq, Eq, Structural, Clone, Copy, Debug)]
pub enum Capture {
    /// Appended to the script.
    Store,
    /// Dropped: the brace that opens the outermost block.
    Skip,
    /// A closing brace with no block open: an error.
    Unexpected,
    /// Carried out as an operation.
    Dispatch,
}

/// The brace rules: given the nesting depth, whether a block is being
/// captured, and whether the token is `{` (checked first) or `}`, the new
/// depth, the new capturing state and what becomes of the token. Only the
/// outermost braces are dropped; inner ones are kept in the script.
pub open spec fn capture_spec(open: int, recording: bool, is_open: bool, is_close: bool) -> (int, bool, Capture) {
    if is_open {
        if open > 0 {
            (open + 1, recording, Capture::Store)
        } else {
            (1, true, Capture::Skip)
        }
    } else if is_close {
        if open > 1 {
            (open - 1, recording, Capture::Store)
        } else if open == 0 {
            (0, recording, Capture::Unexpected)
        } else {
            (0, false, Capture::Dispatch)
        }
    } else if recording {
        (open, recording, Capture::Store)
    } else {
        (open, recording, Capture::Dispatch)
    }
}

/// A fresh session.
pub open spec fn empty_model<N: Number>() -> Model<N> {
    Model {
        functions: Map::empty(),
        variables: Map::empty(),
        constants: Map::empty(),
        idents: Seq::empty(),
        stack: Seq::empty(),
        script: Seq::empty(),
        bool_val: None,
        last: N::int_spec(0),
        namespaces: Seq::empty(),
    }
}

/// Running the line `line` against `m`, with `d` levels of nesting left.
pub open spec fn run_spec<N: Number>(m: Model<N>, line: Seq<char>, d: nat) -> Run<N>
    decreases d, 2nat, 0nat,
{
    if d == 0 || line.len() >= usize::MAX - 2 {
        Run { model: m, halt: false, known: true }
    } else {
        match tokens_of(line) {
            None => Run { model: m, halt: true, known: true },
            Some(t) => run_tokens(m, t, 0, 0, false, false, false, d),
        }
    }
}

/// Running the tokens `t` from `i` on, with brace depth `open`, capture state
/// `rec`, and the one-shot and sticky suppression flags.
pub open spec fn run_tokens<N: Number>(
    m: Model<N>,
    t: Seq<Seq<char>>,
    i: int,
    open: int,
    rec: bool,
    once: bool,
    all: bool,
    d: nat,
) -> Run<N>
    decreases d, 1nat, (if i < t.len() { 2 * (t.len() - i) + 1 } else { 0 }) as nat,
{
    if i < 0 || i >= t.len() || d == 0 {
        Run { model: m, halt: false, known: true }
    } else {
        let tok = t[i];
        if !rec && m.variables.contains_key(tok) {
            dispatch(Model { stack: m.stack.push(m.variables[tok]), ..m }, t, i, open, rec, once, all, d)
        } else if !rec && m.constants.contains_key(tok) {
            dispatch(Model { stack: m.stack.push(m.constants[tok]), ..m }, t, i, open, rec, once, all, d)
        } else {
            let c = capture_spec(open, rec, tok == "{"@, tok == "}"@);
            match c.2 {
                Capture::Store => run_tokens(Model { script: m.script.push(tok), ..m }, t, i + 1, c.0, c.1, once, all, d),
                Capture::Skip => run_tokens(m, t, i + 1, c.0, c.1, once, all, d),
                Capture::Unexpected => Run { model: m, halt: false, known: true },
                Capture::Dispatch => dispatch(m, t, i, c.0, c.1, once, all, d),
            }
        }
    }
}

/// Carrying out the token `t[i]` as an operation, then running the rest.
pub open spec fn dispatch<N: Number>(
    m: Model<N>,
    t: Seq<Seq<char>>,
    i: int,
    open: int,
    rec: bool,
    once: bool,
    all: bool,
    d: nat,
) -> Run<N>
    decreases d, 1nat, (if i < t.len() { 2 * (t.len() - i) } else { 0 }) as nat,
{
    if i < 0 || i >= t.len() || d == 0 {
        Run { model: m, halt: false, known: true }
    } else {
        let tok = t[i];
        let op = op_of(tok);
        if op == Op::Suppress {
            run_tokens(m, t, i + 1, open, rec, true, all, d)
        } else if op == Op::SuppressAll {
            run_tokens(m, t, i + 1, open, rec, once, true, d)
        } else if is_control(op) {
            let c = control_spec(m, op, tok, (d - 1) as nat);
            if !c.known {
                Run { model: c.model, halt: false, known: false }
            } else if c.halt {
                Run { model: c.model, halt: true, known: true }
            } else if c.stop {
                Run { model: c.model, halt: false, known: true }
            } else {
                run_tokens(c.model, t, i + 1, open, rec, once, all, d)
            }
        } else if m.stops(op) {
            Run { model: m.op_next(op), halt: false, known: true }
        } else {
            run_tokens(m.op_next(op), t, i + 1, open, rec, once && !uses_once(op), all, d)
        }
    }
}

/// What an operation that runs tokens of its own does, its nested runs
/// having `d` levels of nesting left.
pub open spec fn control_spec<N: Number>(m: Model<N>, op: Op, tok: Seq<char>, d: nat) -> Ctl<N>
    decreases d, 4nat, 0nat,
{
    let one = N::int_spec(1);
    let popped = Model { stack: m.stack.drop_last(), ..m };
    let body = join(m.script);
    match op {
        Op::Else => match m.bool_val {
            Some(false) => {
                let r = run_spec(Model { script: Seq::empty(), ..m }, body, d);
                after_run(r, Model { script: Seq::empty(), ..r.model })
            },
            Some(true) => next(Model { script: Seq::empty(), bool_val: None, ..m }),
            None => next(Model { script: Seq::empty(), ..m }),
        },
        Op::Elif => if !m.has(1) {
            stopped(m)
        } else {
            match m.bool_val {
                Some(false) => if N::compare_spec(Compare::Eq, m.top(), one) {
                    let r = run_spec(Model { script: Seq::empty(), bool_val: Some(true), ..popped }, body, d);
                    after_run(r, Model { script: Seq::empty(), ..r.model })
                } else {
                    next(Model { script: Seq::empty(), bool_val: Some(false), ..popped })
                },
                Some(true) => next(Model { script: Seq::empty(), bool_val: None, ..popped }),
                None => stopped(Model { script: Seq::empty(), ..popped }),
            }
        },
        Op::If => if !m.has(1) {
            stopped(m)
        } else if N::compare_spec(Compare::Eq, m.top(), one) {
            let r = run_spec(Model { script: Seq::empty(), ..popped }, body, d);
            after_run(r, Model { script: Seq::empty(), bool_val: Some(true), ..r.model })
        } else {
            next(Model { script: Seq::empty(), bool_val: Some(false), ..popped })
        },
        Op::Times => if !m.has(1) {
            stopped(m)
        } else {
            times_spec(Model { script: Seq::empty(), ..popped }, body, N::trunc_spec(m.top()) as int, d)
        },
        Op::LoadFile => if m.idents.len() == 0 {
            stopped(m)
        } else {
            Ctl { model: m, stop: false, halt: false, known: false }
        },
        Op::Namespace => if m.idents.len() == 0 {
            stopped(m)
        } else {
            let named = Model { idents: m.idents.drop_last(), ..m };
            let sub = run_spec(empty_model::<N>(), body, d);
            if sub.halt {
                Ctl { model: named, stop: false, halt: true, known: sub.known }
            } else {
                Ctl {
                    model: Model {
                        namespaces: m.namespaces.push((m.idents.last(), sub.model.functions)),
                        script: Seq::empty(),
                        ..named
                    },
                    stop: false,
                    halt: false,
                    known: sub.known,
                }
            }
        },
        _ => match parse_of::<N>(tok) {
            Some(v) => next(Model { stack: m.stack.push(v), ..m }),
            None => match m.lookup(tok) {
                Some(b) => {
                    let r = run_spec(m, join(b), d);
                    after_run(r, r.model)
                },
                None => if trimmed(tok) == "{"@ || trimmed(tok) == "}"@ {
                    next(m)
                } else {
                    next(Model { idents: m.idents.push(tok), ..m })
                },
            },
        },
    }
}

/// Running `line` `k` times in turn.
pub open spec fn times_spec<N: Number>(m: Model<N>, line: Seq<char>, k: int, d: nat) -> Ctl<N>
    decreases d, 3nat, (if k > 0 { k } else { 0 }) as nat,
{
    if k <= 0 {
        next(m)
    } else {
        let r = run_spec(m, line, d);
        if r.halt || !r.known {
            Ctl { model: r.model, stop: false, halt: r.halt, known: r.known }
        } else {
            times_spec(r.model, line, k - 1, d)
        }
    }
}

} // verus!
