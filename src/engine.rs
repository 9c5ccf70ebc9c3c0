use vstd::prelude::*;
use crate::model::Model;
use crate::number::{Compare, Number};
use crate::ops::{ConstOutcome, Forgot};
use crate::optable::{classify, Level, Op};
use crate::session::{Namespace, SessionInfo};
use crate::table::Table;
use crate::text::{copy_vec, same_text, texts, trim_text, vec_to_line};
use crate::tokenizer::{tokenize, tokens_of};
use crate::semantics::{capture_spec, control_spec, dispatch, empty_model, is_control, run_spec, run_tokens, times_spec, uses_once, Capture, Run};
use crate::model::bodies;
use crate::text::join;

verus! {

/// Output of the engine, in the order it was produced.
pub enum Message {
    Out(String),
    Warn(String),
    Error(String),
    /// A line without a severity.
    Plain(String),
    /// Text written as it is, with no line break.
    Raw(String),
    /// A terminal control sequence, without its escape character.
    Ansi(String),
    ClearScreen,
    Help,
    /// The captured script, one token per entry.
    Script(Vec<String>),
    Identifiers(Vec<String>),
    /// Names with the text of their values.
    Values(Vec<(String, String)>),
    Namespaces(Vec<String>),
    /// The namespaces, then the session's own functions.
    Functions(Vec<Namespace>, Table<Vec<String>>),
    /// A function was defined, with this body.
    FunctionDefined(String, Vec<String>),
}

/// How a run ended: normally (also after a recoverable error), or on a
/// malformed escape, after which nothing more may run.
#[derive(PartialEq, Eq, Structural, Clone, Copy, Debug)]
pub enum Flow {
    Done,
    Halt,
}

/// What the engine does after an operation that runs tokens of its own.
#[derive(PartialEq, Eq, Structural, Clone, Copy, Debug)]
pub enum Control {
    Next,
    Stop,
    Halt,
}

/// Whether a token stream goes on after a token.
#[derive(PartialEq, Eq, Structural, Clone, Copy, Debug)]
pub enum Status {
    Go,
    Stop,
    Halt,
}

/// What the engine does after an operation.
#[derive(PartialEq, Eq, Structural, Clone, Copy, Debug)]
pub enum Signal {
    /// Go on with the next token.
    Next,
    /// Go on, and the one-shot suppression is used up.
    Used,
    /// Stop this token stream.
    Stop,
}

/// The brace rules, as `capture_spec` states them.
pub fn capture(open: usize, recording: bool, is_open: bool, is_close: bool) -> (r: (usize, bool, Capture))
    requires
        open < usize::MAX,
    ensures
        (r.0 as int, r.1, r.2) == capture_spec(open as int, recording, is_open, is_close),
{
    if is_open {
        if open > 0 {
            (open + 1, recording, Capture::Store)
        } else {
            (1, true, Capture::Skip)
        }
    } else if is_close {
        if open > 1 {
            (open - 1, recording, Capture::Store)
        } else if open == 0 {
            (0, recording, Capture::Unexpected)
        } else {
            (0, false, Capture::Dispatch)
        }
    } else if recording {
        (open, recording, Capture::Store)
    } else {
        (open, recording, Capture::Dispatch)
    }
}

/// Where `load_file` reads scripts from.
pub trait Files {
    fn read_file(&mut self, path: &str) -> Option<String>;
}

/// How deeply blocks, calls, files and namespaces may nest.
pub const MAX_DEPTH: usize = 200;

/// Constants are never lost or changed, and namespaces are only appended.
pub open spec fn keeps<N>(a: Model<N>, b: Model<N>) -> bool {
    &&& forall|k: Seq<char>| #[trigger] a.constants.contains_key(k) ==> b.constants.contains_key(k) && b.constants[k] == a.constants[k]
    &&& a.namespaces.len() <= b.namespaces.len()
    &&& forall|i: int| 0 <= i < a.namespaces.len() ==> #[trigger] b.namespaces[i] == a.namespaces[i]
}

proof fn lemma_forget_each_keeps<N: Number>(m: Model<N>, names: Seq<Seq<char>>)
    ensures
        m.forget_each(names).constants == m.constants,
        m.forget_each(names).namespaces == m.namespaces,
    decreases names.len(),
{
    if names.len() > 0 {
        lemma_forget_each_keeps(m, names.drop_last());
    }
}

proof fn lemma_keeps_trans<N>(a: Model<N>, b: Model<N>, c: Model<N>)
    requires
        keeps(a, b),
        keeps(b, c),
    ensures
        keeps(a, c),
{
    assert forall|i: int| 0 <= i < a.namespaces.len() implies #[trigger] c.namespaces[i] == a.namespaces[i] by {
        assert(b.namespaces[i] == a.namespaces[i]);
    };
}

fn complain(out: &mut Vec<Message>, text: &str) {
    out.push(Message::Error(text.to_owned()));
}

/// The severity that a message operation names.
pub open spec fn level_in(op: Op) -> Level {
    match op {
        Op::Say(l) | Op::Optional(l) => l,
        _ => Level::Out,
    }
}

/// The severity and text of a message that has them.
pub open spec fn said(m: Message) -> Option<(Level, Seq<char>)> {
    match m {
        Message::Out(t) => Some((Level::Out, t@)),
        Message::Warn(t) => Some((Level::Warn, t@)),
        Message::Error(t) => Some((Level::Error, t@)),
        _ => None,
    }
}

fn say(out: &mut Vec<Message>, level: Level, text: String)
    ensures
        final(out)@.len() == old(out)@.len() + 1,
        final(out)@.subrange(0, old(out)@.len() as int) == old(out)@,
        said(final(out)@.last()) == Some((level, text@)),
{
    match level {
        Level::Out => out.push(Message::Out(text)),
        Level::Warn => out.push(Message::Warn(text)),
        Level::Error => out.push(Message::Error(text)),
    }
}

/// `head`, then `name`, then `tail`.
fn quoted_name(head: &str, name: &str, tail: &str) -> (r: String)
    ensures
        r@ == head@ + name@ + tail@,
{
    let mut m = head.to_owned();
    m.append(name);
    m.append(tail);
    m
}

/// The names of a table with the text of their values.
fn value_lines<N: Number>(t: &Table<N>) -> Vec<(String, String)> {
    let mut lines: Vec<(String, String)> = Vec::new();
    let mut i: usize = 0;
    while i < t.entries.len()
        decreases t.entries@.len() - i,
    {
        let name = t.entries[i].0.clone();
        lines.push((name, N::text(t.entries[i].1)));
        i += 1;
    }
    lines
}

/// The titles of namespaces, in order.
fn titles(nss: &Vec<Namespace>) -> Vec<String> {
    let mut r: Vec<String> = Vec::new();
    let mut i: usize = 0;
    while i < nss.len()
        decreases nss@.len() - i,
    {
        r.push(nss[i].title.clone());
        i += 1;
    }
    r
}

impl<N: Number> SessionInfo<N> {
    /// `reset` of each name of the script, reporting each outcome.
    fn forget_script(&mut self, suppressed: bool, out: &mut Vec<Message>)
        requires
            old(self).wf(),
        ensures
            final(self).wf(),
            final(self)@ == old(self)@.forget_each(old(self)@.script),
    {
        let names = copy_vec(&self.script);
        let ghost start = self@;
        let mut j: usize = 0;
        while j < names.len()
            invariant
                self.wf(),
                j <= names@.len(),
                texts(names@) == start.script,
                self@ == start.forget_each(start.script.subrange(0, j as int)),
            decreases names@.len() - j,
        {
            let name = names[j].as_str();
            match self.forget(name) {
                Forgot::Variable => {
                    if !suppressed {
                        out.push(Message::Out(quoted_name("Variable '", name, "' removed.")));
                    }
                },
                Forgot::Function => {
                    if !suppressed {
                        out.push(Message::Out(quoted_name("Function '", name, "' removed.")));
                    }
                },
                Forgot::Missing => {
                    out.push(Message::Error(quoted_name("Could not find identifier '", name, "'.")));
                },
            }
            proof {
                let sub = start.script.subrange(0, j + 1);
                assert(sub.drop_last() =~= start.script.subrange(0, j as int));
                assert(sub.last() == texts(names@)[j as int]);
            }
            j += 1;
        }
        assert(start.script.subrange(0, j as int) =~= start.script);
    }

    /// The message operations: `out`, `warn`, `err`, their suppressible
    /// forms, `flush`, `ansi` and `puts`.
    fn emit(&mut self, op: Op, suppressed: bool, out: &mut Vec<Message>) -> (r: Signal)
        requires
            old(self).wf(),
            op is Optional || op is Say || op == Op::Flush || op == Op::Ansi || op == Op::Puts,
        ensures
            final(self).wf(),
            final(self)@ == old(self)@.op_next(op),
            (r == Signal::Stop) == old(self)@.stops(op),
            (r == Signal::Used) == (!old(self)@.stops(op) && uses_once(op)),
            op is Say && old(self)@.script.len() > 0 ==> final(out)@.len() == old(out)@.len() + 1
                && final(out)@.subrange(0, old(out)@.len() as int) == old(out)@
                && said(final(out)@.last()) == Some((level_in(op), join(old(self)@.script))),
            op is Optional && !suppressed ==> final(out)@.len() == old(out)@.len() + 1
                && final(out)@.subrange(0, old(out)@.len() as int) == old(out)@
                && said(final(out)@.last()) == Some((level_in(op), if old(self)@.script.len() > 0 {
                join(old(self)@.script)
            } else {
                seq![' ']
            })),
            op is Optional && suppressed ==> final(out)@ == old(out)@,
            op == Op::Flush && old(self)@.script.len() > 0 ==> final(out)@.len() == old(out)@.len() + 1
                && (final(out)@.last() matches Message::Plain(t) && t@ == join(old(self)@.script)),
            op == Op::Puts && old(self)@.idents.len() > 0 ==> final(out)@.len() == old(out)@.len() + 1
                && (final(out)@.last() matches Message::Raw(t) && t@ == old(self)@.idents.last()),
    {
        let insufficient = "Insufficient arguments!";
        match op {
            Op::Optional(level) => {
                if self.script.len() == 0 {
                    self.script.push(" ".to_owned());
                    proof {
                        reveal_strlit(" ");
                        assert(" "@ =~= seq![' ']);
                        assert(texts(self.script@) =~= seq![seq![' ']]);
                    }
                }
                if !suppressed {
                    say(out, level, vec_to_line(&self.script));
                }
                self.script = Vec::new();
                assert(self@ =~= old(self)@.op_next(op));
                Signal::Used
            },
            Op::Say(level) => {
                if self.script.len() == 0 {
                    let lv = if level == Level::Out {
                        Level::Out
                    } else {
                        Level::Error
                    };
                    say(out, lv, String::new());
                    assert(self@ =~= old(self)@.op_next(op));
                    return Signal::Next;
                }
                say(out, level, vec_to_line(&self.script));
                self.script = Vec::new();
                assert(self@ =~= old(self)@.op_next(op));
                Signal::Next
            },
            Op::Flush | Op::Ansi => {
                if self.script.len() == 0 {
                    assert(self@ =~= old(self)@.op_next(op));
                    if op == Op::Ansi {
                        complain(out, insufficient);
                        return Signal::Stop;
                    }
                    out.push(Message::Plain(String::new()));
                    return Signal::Next;
                }
                let text = vec_to_line(&self.script);
                if op == Op::Ansi {
                    out.push(Message::Ansi(text));
                } else {
                    out.push(Message::Plain(text));
                }
                self.script = Vec::new();
                assert(self@ =~= old(self)@.op_next(op));
                Signal::Next
            },
            Op::Puts => {
                let ghost before = self.idents@;
                match self.idents.pop() {
                    Some(t) => {
                        out.push(Message::Raw(t));
                        assert(texts(self.idents@) =~= texts(before).drop_last());
                        assert(self@ =~= old(self)@.op_next(op));
                        Signal::Next
                    },
                    None => {
                        complain(out, insufficient);
                        Signal::Stop
                    },
                }
            },
            _ => Signal::Next,
        }
    }

    /// Carries out an operation that runs no tokens. `suppressed` tells
    /// whether optional messages are silenced.
    pub fn step(&mut self, op: Op, suppressed: bool, suppress_once: bool, out: &mut Vec<Message>) -> (r: Signal)
        requires
            old(self).wf(),
        ensures
            final(self).wf(),
            op != Op::Else && op != Op::Elif && op != Op::If && op != Op::Times && op != Op::LoadFile
                && op != Op::Namespace && op != Op::Word && op != Op::Suppress && op != Op::SuppressAll
                ==> final(self)@ == old(self)@.op_next(op)
                && (r == Signal::Stop) == old(self)@.stops(op)
                && (r == Signal::Used) == (!old(self)@.stops(op) && uses_once(op)),
        keeps(old(self)@, final(self)@),
    {
        proof {
            lemma_forget_each_keeps(old(self)@, old(self)@.script);
        }
        let insufficient = "Insufficient arguments!";
        match op {
            Op::Break => Signal::Stop,
            Op::ShowScript => {
                if self.script.len() == 0 {
                    say(out, Level::Out, "None".to_owned());
                    return Signal::Stop;
                }
                out.push(Message::Script(copy_vec(&self.script)));
                Signal::Next
            },
            Op::ShowIdentifiers => {
                if self.idents.len() == 0 {
                    say(out, Level::Out, "None".to_owned());
                    return Signal::Stop;
                }
                out.push(Message::Identifiers(copy_vec(&self.idents)));
                Signal::Next
            },
            Op::ShowConstants | Op::ShowVariables => {
                let t = if op == Op::ShowConstants {
                    &self.constants
                } else {
                    &self.variables
                };
                if t.len() == 0 {
                    say(out, Level::Out, "None".to_owned());
                } else {
                    out.push(Message::Values(value_lines(t)));
                }
                Signal::Next
            },
            Op::ShowNamespaces => {
                if self.namespaces.len() == 0 {
                    say(out, Level::Out, "None".to_owned());
                } else {
                    out.push(Message::Namespaces(titles(&self.namespaces)));
                }
                Signal::Next
            },
            Op::ShowFunctions => {
                if self.functions.len() == 0 && self.namespaces.len() == 0 {
                    say(out, Level::Out, "None".to_owned());
                } else {
                    out.push(Message::Functions(self.namespaces.clone(), self.functions.clone()));
                }
                Signal::Next
            },
            Op::ClearCode => {
                self.script = Vec::new();
                assert(self@ =~= old(self)@.op_next(op));
                Signal::Next
            },
            Op::Optional(_) | Op::Say(_) | Op::Flush | Op::Ansi => self.emit(op, suppressed, out),
            Op::Concatf | Op::PushIdent | Op::Pushch | Op::Arith(_) | Op::Step(_) | Op::Bits(_)
            | Op::Compare(_) | Op::Factorial => {
                let ok = match op {
                    Op::Concatf => self.concatf(),
                    Op::PushIdent => self.push_ident(),
                    Op::Pushch => self.pushch(),
                    Op::Arith(a) => self.apply_arith(a),
                    Op::Step(a) => self.apply_step(a),
                    Op::Bits(b) => self.apply_bits(b),
                    Op::Compare(c) => self.apply_compare(c),
                    _ => self.apply_factorial(),
                };
                if ok {
                    Signal::Next
                } else {
                    complain(out, insufficient);
                    Signal::Stop
                }
            },
            Op::PopIdent => {
                if self.pop_ident() {
                    Signal::Next
                } else {
                    complain(out, "Nothing to pop.");
                    Signal::Stop
                }
            },
            Op::Dup => {
                if self.dup() {
                    Signal::Next
                } else {
                    complain(out, "Nothing to duplicate.");
                    Signal::Stop
                }
            },
            Op::Drop => {
                if self.drop_top() {
                    Signal::Next
                } else {
                    complain(out, "Nothing to drop.");
                    Signal::Stop
                }
            },
            Op::Last => {
                self.push_last();
                Signal::Next
            },
            Op::StackSize => {
                self.push_size();
                Signal::Next
            },
            Op::Puts => self.emit(op, suppressed, out),
            Op::Def => {
                match self.define_variable() {
                    Some((k, v)) => {
                        if !suppressed {
                            let mut m = k;
                            m.append(" = ");
                            m.append(N::text(v).as_str());
                            say(out, Level::Out, m);
                        }
                        Signal::Used
                    },
                    None => {
                        complain(out, insufficient);
                        Signal::Stop
                    },
                }
            },
            Op::Const => {
                match self.define_constant() {
                    ConstOutcome::Bound(k, v) => {
                        if !suppressed {
                            let mut m = k;
                            m.append(" = ");
                            m.append(N::text(v).as_str());
                            say(out, Level::Out, m);
                        }
                        Signal::Used
                    },
                    ConstOutcome::Taken => {
                        complain(out, "You cannot define a constant.");
                        Signal::Stop
                    },
                    ConstOutcome::Missing => {
                        complain(out, insufficient);
                        Signal::Stop
                    },
                }
            },
            Op::Fn => {
                match self.define_function() {
                    Some((name, body)) => {
                        if !suppressed {
                            out.push(Message::FunctionDefined(name, body));
                        }
                        Signal::Used
                    },
                    None => {
                        complain(out, insufficient);
                        Signal::Stop
                    },
                }
            },
            Op::Reset => {
                if self.script.len() > 0 {
                    self.forget_script(suppressed, out);
                    self.script = Vec::new();
                    assert(self@ =~= old(self)@.op_next(op));
                    return Signal::Used;
                }
                self.reset_all();
                if !suppress_once {
                    say(out, Level::Out, "Variables and functions reset.".to_owned());
                }
                Signal::Used
            },
            Op::Help => {
                out.push(Message::Help);
                Signal::Next
            },
            Op::Credits => {
                say(out, Level::Out, "Codebook created by Amelia Johnson.".to_owned());
                Signal::Next
            },
            Op::About => {
                say(out, Level::Out, "Not yet implemented.".to_owned());
                Signal::Next
            },
            Op::Clear => {
                out.push(Message::ClearScreen);
                Signal::Next
            },
            _ => Signal::Next,
        }
    }

    /// `else`, `elif` and `if`: run the captured script or not, by the chain
    /// flag and the condition.
    fn branch<F: Files>(&mut self, op: Op, token: &str, depth: usize, files: &mut F, out: &mut Vec<Message>) -> (r: Control)
        requires
            old(self).wf(),
            op == Op::Else || op == Op::Elif || op == Op::If,
        ensures
            final(self).wf(),
            keeps(old(self)@, final(self)@),
            ({
                let c = control_spec(old(self)@, op, token@, depth as nat);
                c.known ==> final(self)@ == c.model && (r == Control::Halt) == c.halt && (r == Control::Stop) == c.stop
            }),
        decreases depth, 2usize,
    {
        let ghost m = self@;
        let exec = copy_vec(&self.script);
        let body = vec_to_line(&exec);
        assert(body@ == join(m.script));
        if op == Op::Else {
            match self.bool_val {
                Some(false) => {
                    self.script = Vec::new();
                    let ghost mid = self@;
                    assert(mid =~= (Model { script: Seq::empty(), ..m }));
                    let flow = self.run_line(&body, depth, files, out);
                    proof {
                        lemma_keeps_trans(m, mid, self@);
                    }
                    if flow == Flow::Halt {
                        return Control::Halt;
                    }
                    let ghost ran = self@;
                    self.script = Vec::new();
                    assert(self@ =~= (Model { script: Seq::empty(), ..ran }));
                    Control::Next
                },
                Some(true) => {
                    self.bool_val = None;
                    self.script = Vec::new();
                    assert(self@ =~= (Model { script: Seq::empty(), bool_val: None, ..m }));
                    Control::Next
                },
                None => {
                    self.script = Vec::new();
                    assert(self@ =~= (Model { script: Seq::empty(), ..m }));
                    Control::Next
                },
            }
        } else {
            if self.stack.len() == 0 {
                complain(out, "Insufficient arguments!");
                return Control::Stop;
            }
            let cond = self.stack.pop().unwrap();
            let ghost popped = self@;
            assert(popped =~= (Model { stack: m.stack.drop_last(), ..m }));
            let one = N::from_int(1);
            let holds = N::compare(Compare::Eq, cond, one);
            if op == Op::Elif {
                match self.bool_val {
                    Some(false) => {
                        if holds {
                            self.script = Vec::new();
                            self.bool_val = Some(true);
                            let ghost mid = self@;
                            assert(mid =~= (Model { script: Seq::empty(), bool_val: Some(true), ..popped }));
                            let flow = self.run_line(&body, depth, files, out);
                            proof {
                                lemma_keeps_trans(m, mid, self@);
                            }
                            if flow == Flow::Halt {
                                return Control::Halt;
                            }
                            let ghost ran = self@;
                            self.script = Vec::new();
                            assert(self@ =~= (Model { script: Seq::empty(), ..ran }));
                        } else {
                            self.bool_val = Some(false);
                            self.script = Vec::new();
                            assert(self@ =~= (Model { script: Seq::empty(), bool_val: Some(false), ..popped }));
                        }
                        Control::Next
                    },
                    Some(true) => {
                        self.bool_val = None;
                        self.script = Vec::new();
                        assert(self@ =~= (Model { script: Seq::empty(), bool_val: None, ..popped }));
                        Control::Next
                    },
                    None => {
                        complain(out, "elif block missing if/elif block!");
                        self.script = Vec::new();
                        assert(self@ =~= (Model { script: Seq::empty(), ..popped }));
                        Control::Stop
                    },
                }
            } else {
                if holds {
                    self.script = Vec::new();
                    let ghost mid = self@;
                    assert(mid =~= (Model { script: Seq::empty(), ..popped }));
                    let flow = self.run_line(&body, depth, files, out);
                    proof {
                        lemma_keeps_trans(m, mid, self@);
                    }
                    if flow == Flow::Halt {
                        return Control::Halt;
                    }
                    let ghost ran = self@;
                    self.bool_val = Some(true);
                    self.script = Vec::new();
                    assert(self@ =~= (Model { script: Seq::empty(), bool_val: Some(true), ..ran }));
                } else {
                    self.bool_val = Some(false);
                    self.script = Vec::new();
                    assert(self@ =~= (Model { script: Seq::empty(), bool_val: Some(false), ..popped }));
                }
                Control::Next
            }
        }
    }

    /// `times`: runs the captured script as often as the top value says.
    #[verifier::loop_isolation(false)]
    #[verifier::rlimit(80)]
    fn repeat<F: Files>(&mut self, op: Op, token: &str, depth: usize, files: &mut F, out: &mut Vec<Message>) -> (r: Control)
        requires
            old(self).wf(),
            op == Op::Times,
        ensures
            final(self).wf(),
            keeps(old(self)@, final(self)@),
            ({
                let c = control_spec(old(self)@, op, token@, depth as nat);
                c.known ==> final(self)@ == c.model && (r == Control::Halt) == c.halt && (r == Control::Stop) == c.stop
            }),
        decreases depth, 2usize,
    {
        let ghost m = self@;
        if self.stack.len() == 0 {
            complain(out, "Insufficient arguments!");
            return Control::Stop;
        }
        let count = N::trunc(self.stack.pop().unwrap());
        let exec = copy_vec(&self.script);
        self.script = Vec::new();
        let body = vec_to_line(&exec);
        assert(body@ == join(m.script));
        let ghost base = self@;
        assert(base =~= (Model { script: Seq::empty(), stack: m.stack.drop_last(), ..m }));
        let ghost total = times_spec(base, body@, count as int, depth as nat);
        assert(total == control_spec(m, op, token@, depth as nat));
        let mut k: i32 = 0;
        while k < count
            invariant
                self.wf(),
                keeps(m, self@),
                0 <= k,
                k == 0 || k <= count,
                total.known ==> total == times_spec(self@, body@, count - k, depth as nat),
            decreases count - k,
        {
            let ghost cur = self@;
            let flow = self.run_line(&body, depth, files, out);
            proof {
                lemma_keeps_trans(m, cur, self@);
            }
            if flow == Flow::Halt {
                return Control::Halt;
            }
            k += 1;
        }
        assert(total.known ==> total == control_spec(m, op, token@, depth as nat));
        Control::Next
    }

    /// `load_file`: runs the file named by the top identifier.
    fn load<F: Files>(&mut self, op: Op, token: &str, suppressed: bool, depth: usize, files: &mut F, out: &mut Vec<Message>) -> (r: Control)
        requires
            old(self).wf(),
            op == Op::LoadFile,
        ensures
            final(self).wf(),
            keeps(old(self)@, final(self)@),
            ({
                let c = control_spec(old(self)@, op, token@, depth as nat);
                c.known ==> final(self)@ == c.model && (r == Control::Halt) == c.halt && (r == Control::Stop) == c.stop
            }),
        decreases depth, 2usize,
    {
        let ghost m = self@;
        match self.idents.pop() {
            None => {
                complain(out, "Insufficient arguments!");
                Control::Stop
            },
            Some(path) => {
                match files.read_file(path.as_str()) {
                    Some(content) => {
                        let ghost mid = self@;
                        let flow = self.run_line(&content, depth, files, out);
                        proof {
                            lemma_keeps_trans(m, mid, self@);
                        }
                        if flow == Flow::Halt {
                            return Control::Halt;
                        }
                        if !suppressed {
                            out.push(Message::Out(quoted_name("Successfully loaded file '", path.as_str(), "'.")));
                        }
                    },
                    None => {
                        out.push(Message::Error(quoted_name("Could not read file '", path.as_str(), "'.")));
                    },
                }
                Control::Next
            },
        }
    }

    /// `namespace`: runs the captured script in a fresh session and keeps its
    /// functions under the top identifier.
    fn build_namespace<F: Files>(&mut self, op: Op, token: &str, depth: usize, files: &mut F, out: &mut Vec<Message>) -> (r: Control)
        requires
            old(self).wf(),
            op == Op::Namespace,
        ensures
            final(self).wf(),
            keeps(old(self)@, final(self)@),
            ({
                let c = control_spec(old(self)@, op, token@, depth as nat);
                c.known ==> final(self)@ == c.model && (r == Control::Halt) == c.halt && (r == Control::Stop) == c.stop
            }),
        decreases depth, 2usize,
    {
        let ghost m = self@;
        let ghost before = self.idents@;
        match self.idents.pop() {
            None => {
                complain(out, "Namespace requires a name.");
                Control::Stop
            },
            Some(title) => {
                assert(texts(self.idents@) =~= texts(before).drop_last());
                let ghost named = self@;
                assert(named =~= (Model { idents: m.idents.drop_last(), ..m }));
                let mut ns = Namespace::new(title);
                let mut sub: SessionInfo<N> = SessionInfo::new();
                assert(sub@ =~= empty_model::<N>());
                assert(bodies(sub.functions@) =~= Map::<Seq<char>, Seq<Seq<char>>>::empty());
                assert(sub@ =~= empty_model::<N>());
                let body = vec_to_line(&self.script);
                let flow = sub.run_line(&body, depth, files, out);
                if flow == Flow::Halt {
                    return Control::Halt;
                }
                ns.functions = sub.functions;
                let ghost entry = (ns.title@, bodies(ns.functions@));
                self.namespaces.push(ns);
                self.script = Vec::new();
                assert(self@.namespaces =~= m.namespaces.push(entry));
                assert(self@ =~= (Model {
                    namespaces: m.namespaces.push(entry),
                    script: Seq::empty(),
                    ..named
                }));
                Control::Next
            },
        }
    }

    /// A word: a number is pushed, a function is called, anything else is
    /// pushed onto the identifier stack.
    fn word<F: Files>(&mut self, op: Op, token: &str, depth: usize, files: &mut F, out: &mut Vec<Message>) -> (r: Control)
        requires
            old(self).wf(),
            is_control(op),
            op != Op::Else && op != Op::Elif && op != Op::If && op != Op::Times && op != Op::LoadFile
                && op != Op::Namespace,
        ensures
            final(self).wf(),
            keeps(old(self)@, final(self)@),
            ({
                let c = control_spec(old(self)@, op, token@, depth as nat);
                c.known ==> final(self)@ == c.model && (r == Control::Halt) == c.halt && (r == Control::Stop) == c.stop
            }),
        decreases depth, 2usize,
    {
        let ghost m = self@;
        match N::parse(token) {
            Some(v) => {
                self.stack.push(v);
                assert(self@ =~= (Model { stack: m.stack.push(v), ..m }));
                Control::Next
            },
            None => {
                if self.contains_function(token) {
                    let exec = self.get_function(token);
                    let body = vec_to_line(&exec);
                    let flow = self.run_line(&body, depth, files, out);
                    if flow == Flow::Halt {
                        return Control::Halt;
                    }
                    Control::Next
                } else {
                    let t = trim_text(token);
                    if same_text(t, "{") || same_text(t, "}") {
                        return Control::Next;
                    }
                    let ghost before = self.idents@;
                    self.idents.push(token.to_owned());
                    assert(texts(self.idents@) =~= texts(before).push(token@));
                    assert(self@ =~= (Model { idents: m.idents.push(token@), ..m }));
                    Control::Next
                }
            },
        }
    }

    /// Carries out an operation that runs tokens of its own: `if`, `elif`,
    /// `else`, `times`, `load_file`, `namespace`, or a word (a number, a call
    /// or a name). Nested runs get `depth` levels.
    pub fn control<F: Files>(&mut self, op: Op, token: &str, suppressed: bool, depth: usize, files: &mut F, out: &mut Vec<Message>) -> (r: Control)
        requires
            old(self).wf(),
            is_control(op),
        ensures
            final(self).wf(),
            keeps(old(self)@, final(self)@),
            ({
                let c = control_spec(old(self)@, op, token@, depth as nat);
                c.known ==> final(self)@ == c.model && (r == Control::Halt) == c.halt && (r == Control::Stop) == c.stop
            }),
        decreases depth, 3usize,
    {
        match op {
            Op::Else | Op::Elif | Op::If => self.branch(op, token, depth, files, out),
            Op::Times => self.repeat(op, token, depth, files, out),
            Op::LoadFile => self.load(op, token, suppressed, depth, files, out),
            Op::Namespace => self.build_namespace(op, token, depth, files, out),
            _ => self.word(op, token, depth, files, out),
        }
    }

    /// Carries out the token `t[i]` as an operation, given the suppression
    /// flags; returns the flags after it and whether the token stream goes on.
    fn dispatch_token<F: Files>(
        &mut self,
        token: &str,
        once: bool,
        all: bool,
        depth: usize,
        files: &mut F,
        out: &mut Vec<Message>,
        Ghost(t): Ghost<Seq<Seq<char>>>,
        Ghost(i): Ghost<int>,
        Ghost(open): Ghost<int>,
        Ghost(rec): Ghost<bool>,
    ) -> (r: (bool, bool, Status))
        requires
            old(self).wf(),
            depth > 0,
            0 <= i < t.len(),
            t[i] == token@,
        ensures
            final(self).wf(),
            keeps(old(self)@, final(self)@),
            ({
                let w = dispatch(old(self)@, t, i, open, rec, once, all, depth as nat);
                w.known ==> match r.2 {
                    Status::Go => w == run_tokens(final(self)@, t, i + 1, open, rec, r.0, r.1, depth as nat),
                    Status::Stop => w == (Run { model: final(self)@, halt: false, known: true }),
                    Status::Halt => w == (Run { model: final(self)@, halt: true, known: true }),
                }
            }),
        decreases depth, 0usize,
    {
        let op = classify(token);
        match op {
            Op::Suppress => (true, all, Status::Go),
            Op::SuppressAll => (once, true, Status::Go),
            Op::Else | Op::Elif | Op::If | Op::Times | Op::LoadFile | Op::Namespace | Op::Word => {
                let signal = self.control(op, token, once || all, depth - 1, files, out);
                if signal == Control::Halt {
                    (once, all, Status::Halt)
                } else if signal == Control::Stop {
                    (once, all, Status::Stop)
                } else {
                    (once, all, Status::Go)
                }
            },
            _ => {
                let signal = self.step(op, once || all, once, out);
                if signal == Signal::Stop {
                    (once, all, Status::Stop)
                } else if signal == Signal::Used {
                    (false, all, Status::Go)
                } else {
                    (once, all, Status::Go)
                }
            },
        }
    }

    /// Runs a block, a function body or a loaded file: the tokens of `line`
    /// against this session, nested `depth` levels deep at most. Constants
    /// are never lost or changed, and namespaces are only appended.
    pub fn run_line<F: Files>(&mut self, line: &String, depth: usize, files: &mut F, out: &mut Vec<Message>) -> (flow: Flow)
        requires
            old(self).wf(),
        ensures
            final(self).wf(),
            keeps(old(self)@, final(self)@),
            depth == 0 ==> flow == Flow::Done && *final(self) == *old(self),
            depth > 0 && line@.len() < usize::MAX - 2 && tokens_of(line@) is None
                ==> flow == Flow::Halt && *final(self) == *old(self),
            ({
                let r = run_spec(old(self)@, line@, depth as nat);
                r.known ==> final(self)@ == r.model && (flow == Flow::Halt) == r.halt
            }),
        decreases depth, 1usize,
    {
        if depth == 0 {
            complain(out, "Calls nested too deeply.");
            return Flow::Done;
        }
        if line.as_str().unicode_len() >= usize::MAX - 2 {
            complain(out, "Line too long.");
            return Flow::Done;
        }
        let tokens = match tokenize(line) {
            Some(t) => t,
            None => {
                complain(out, "Unknown escape sequence encountered.");
                return Flow::Halt;
            },
        };
        let ghost start = self@;
        let ghost t = texts(tokens@);
        let ghost whole = run_spec(start, line@, depth as nat);
        let mut recording = false;
        let mut suppress_once = false;
        let mut suppress_all = false;
        let mut open: usize = 0;
        let mut i: usize = 0;
        while i < tokens.len()
            invariant
                self.wf(),
                start == old(self)@,
                keeps(start, self@),
                i <= tokens@.len(),
                open <= i,
                recording == (open > 0),
                depth > 0,
                t == texts(tokens@),
                t.len() == tokens@.len(),
                tokens_of(line@) == Some(t),
                line@.len() < usize::MAX - 2,
                whole == run_spec(start, line@, depth as nat),
                whole.known ==> whole == run_tokens(self@, t, i as int, open as int, recording, suppress_once, suppress_all, depth as nat),
            decreases tokens@.len() - i,
        {
            let token = tokens[i].as_str();
            let ghost ii = i as int;
            let ghost m0 = self@;
            assert(t[ii] == token@);
            i += 1;
            if !recording && self.variables.contains(token) {
                let k = self.variables.find(token).unwrap();
                let v = self.variables.entries[k].1;
                self.stack.push(v);
                assert(self@ =~= (Model { stack: m0.stack.push(m0.variables[token@]), ..m0 }));
            } else if !recording && self.constants.contains(token) {
                let k = self.constants.find(token).unwrap();
                let v = self.constants.entries[k].1;
                self.stack.push(v);
                assert(self@ =~= (Model { stack: m0.stack.push(m0.constants[token@]), ..m0 }));
            } else {
                let (depth_after, recording_after, action) = capture(open, recording, same_text(token, "{"), same_text(token, "}"));
                open = depth_after;
                recording = recording_after;
                match action {
                    Capture::Store => {
                        let ghost before = self.script@;
                        self.script.push(token.to_owned());
                        assert(texts(self.script@) =~= texts(before).push(token@));
                        assert(self@ =~= (Model { script: m0.script.push(token@), ..m0 }));
                        continue;
                    },
                    Capture::Skip => {
                        continue;
                    },
                    Capture::Unexpected => {
                        complain(out, "Unexpected '}' encountered!");
                        return Flow::Done;
                    },
                    Capture::Dispatch => {},
                }
            }
            let ghost m1 = self@;
            let (once_after, all_after, status) = self.dispatch_token(
                token, suppress_once, suppress_all, depth, files, out,
                Ghost(t), Ghost(ii), Ghost(open as int), Ghost(recording),
            );
            proof {
                lemma_keeps_trans(start, m1, self@);
            }
            suppress_once = once_after;
            suppress_all = all_after;
            match status {
                Status::Go => {},
                Status::Stop => {
                    return Flow::Done;
                },
                Status::Halt => {
                    return Flow::Halt;
                },
            }
        }
        Flow::Done
    }
}

/// Runs one line of text against a session: the engine's entry point.
/// Messages are appended to `out`; `Halt` means that a malformed escape was
/// met and the program should end. The session ends as `run_spec` says,
/// unless a file was loaded on the way. Blocks, calls, loops, files and
/// namespaces nest at most `MAX_DEPTH` levels deep: a deeper run reports
/// "Calls nested too deeply." and does nothing, where unbounded recursion
/// would exhaust the call stack.
pub fn interpret_line<N: Number, F: Files>(line: &String, session: &mut SessionInfo<N>, files: &mut F, out: &mut Vec<Message>) -> (flow: Flow)
    requires
        old(session).wf(),
    ensures
        final(session).wf(),
        keeps(old(session)@, final(session)@),
        line@.len() < usize::MAX - 2 && tokens_of(line@) is None
            ==> flow == Flow::Halt && *final(session) == *old(session),
        ({
            let r = run_spec(old(session)@, line@, MAX_DEPTH as nat);
            r.known ==> final(session)@ == r.model && (flow == Flow::Halt) == r.halt
        }),
{
    session.run_line(line, MAX_DEPTH, files, out)
}

/// Closes a line: the top value, if any, becomes the stored result and is
/// returned; then the stack and the identifier stack are emptied.
pub fn finish_line<N: Number>(session: &mut SessionInfo<N>) -> (r: Option<N>)
    requires
        old(session).wf(),
    ensures
        final(session).wf(),
        r == (if old(session)@.stack.len() > 0 { Some(old(session)@.top()) } else { None }),
        final(session)@ == (Model {
            stack: Seq::empty(),
            idents: Seq::empty(),
            last: if old(session)@.stack.len() > 0 { old(session)@.top() } else { old(session)@.last },
            ..old(session)@
        }),
{
    let r = session.stack.pop();
    match r {
        Some(v) => {
            session.last = v;
        },
        None => {},
    }
    session.stack = Vec::new();
    session.idents = Vec::new();
    assert(texts(session.idents@) =~= Seq::<Seq<char>>::empty());
    assert(session@ =~= (Model {
        stack: Seq::empty(),
        idents: Seq::empty(),
        last: if old(session)@.stack.len() > 0 { old(session)@.top() } else { old(session)@.last },
        ..old(session)@
    }));
    r
}

/// Runs a list of tokens, joined into one line, against a session.
pub fn interpret_vec<N: Number, F: Files>(vector: &Vec<String>, session: &mut SessionInfo<N>, files: &mut F, out: &mut Vec<Message>) -> (flow: Flow)
    requires
        old(session).wf(),
    ensures
        final(session).wf(),
        keeps(old(session)@, final(session)@),
        ({
            let r = run_spec(old(session)@, join(texts(vector@)), MAX_DEPTH as nat);
            r.known ==> final(session)@ == r.model && (flow == Flow::Halt) == r.halt
        }),
{
    let line = vec_to_line(vector);
    interpret_line(&line, session, files, out)
}

/// Reads the file at `filepath` through `files` and runs it against the
/// session. `Err` when it cannot be read: the session is then unchanged.
pub fn load_file<N: Number, F: Files>(filepath: &str, session: &mut SessionInfo<N>, files: &mut F, out: &mut Vec<Message>) -> (r: Result<Flow, ()>)
    requires
        old(session).wf(),
    ensures
        final(session).wf(),
        keeps(old(session)@, final(session)@),
        r is Err ==> *final(session) == *old(session),
        r is Err ==> final(out)@.len() == old(out)@.len() + 1
            && (final(out)@.last() matches Message::Error(t) && t@ == "Could not read file '"@ + filepath@ + "'."@),
{
    match files.read_file(filepath) {
        Some(content) => Ok(interpret_line(&content, session, files, out)),
        None => {
            out.push(Message::Error(quoted_name("Could not read file '", filepath, "'.")));
            Err(())
        },
    }
}

} // verus!
