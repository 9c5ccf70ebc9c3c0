use vstd::prelude::*;
use crate::number::{text_of, Arith, Compare, Number};
use crate::optable::Op;
use crate::session::{Namespace, SessionInfo};
use crate::text::texts;

verus! {

/// The bitwise operators, applied to the `i32` parts of their operands.
#[derive(PartialEq, Eq, Structural, Clone, Copy, Debug)]
pub enum Bits {
    Shl,
    Shr,
    And,
    Or,
    Xor,
}

/// A function table as a map from names to token sequences.
pub open spec fn bodies(t: Map<Seq<char>, Vec<String>>) -> Map<Seq<char>, Seq<Seq<char>>> {
    t.map_values(|b: Vec<String>| texts(b@))
}

/// A session as mathematical values.
#[verifier::ext_equal]
pub struct Model<N> {
    pub functions: Map<Seq<char>, Seq<Seq<char>>>,
    pub variables: Map<Seq<char>, N>,
    pub constants: Map<Seq<char>, N>,
    pub idents: Seq<Seq<char>>,
    pub stack: Seq<N>,
    pub script: Seq<Seq<char>>,
    pub bool_val: Option<bool>,
    pub last: N,
    pub namespaces: Seq<(Seq<char>, Map<Seq<char>, Seq<Seq<char>>>)>,
}

impl<N: Number> View for SessionInfo<N> {
    type V = Model<N>;

    open spec fn view(&self) -> Model<N> {
        Model {
            functions: bodies(self.functions@),
            variables: self.variables@,
            constants: self.constants@,
            idents: texts(self.idents@),
            stack: self.stack@,
            script: texts(self.script@),
            bool_val: self.bool_val,
            last: self.last,
            namespaces: self.namespaces@.map_values(|ns: Namespace| (ns.title@, bodies(ns.functions@))),
        }
    }
}

/// The result of a bitwise operator on two integers; shift amounts are taken
/// modulo 32.
pub open spec fn bits_spec(op: Bits, a: i32, b: i32) -> i32 {
    match op {
        Bits::Shl => a.wrapping_shl(b as u32),
        Bits::Shr => a.wrapping_shr(b as u32),
        Bits::And => a & b,
        Bits::Or => a | b,
        Bits::Xor => a ^ b,
    }
}

/// The product of the integers from 2 through `k`, one when that range is
/// empty.
pub open spec fn factorial_spec<N: Number>(k: int) -> N
    decreases k,
{
    if k < 2 {
        N::int_spec(1)
    } else {
        N::arith_spec(Arith::Mul, factorial_spec::<N>(k - 1), N::int_spec(k as i32))
    }
}

/// The value that a comparison pushes: one when it holds, else zero.
pub open spec fn truth<N: Number>(b: bool) -> N {
    if b {
        N::int_spec(1)
    } else {
        N::int_spec(0)
    }
}

/// The body of the first namespace, in order, that defines `name`.
pub open spec fn first_body(
    nss: Seq<(Seq<char>, Map<Seq<char>, Seq<Seq<char>>>)>,
    name: Seq<char>,
) -> Option<Seq<Seq<char>>>
    decreases nss.len(),
{
    if nss.len() == 0 {
        None
    } else if nss[0].1.contains_key(name) {
        Some(nss[0].1[name])
    } else {
        first_body(nss.drop_first(), name)
    }
}

impl<N: Number> Model<N> {
    /// The body that a call of `name` runs: the session's own function first,
    /// else that of the first namespace defining it.
    pub open spec fn lookup(self, name: Seq<char>) -> Option<Seq<Seq<char>>> {
        if self.functions.contains_key(name) {
            Some(self.functions[name])
        } else {
            first_body(self.namespaces, name)
        }
    }

    /// Whether the stack holds at least `k` values.
    pub open spec fn has(self, k: int) -> bool {
        self.stack.len() >= k
    }

    pub open spec fn top(self) -> N {
        self.stack.last()
    }

    pub open spec fn below_top(self) -> N {
        self.stack[self.stack.len() - 2]
    }

    /// `+ - * / % **`: pops the right operand, then the left one, and pushes
    /// the result; short of operands, the stack is emptied.
    pub open spec fn arith_next(self, op: Arith) -> Self {
        if self.has(2) {
            Model {
                stack: self.stack.subrange(0, self.stack.len() - 2).push(
                    N::arith_spec(op, self.below_top(), self.top()),
                ),
                ..self
            }
        } else {
            Model { stack: Seq::empty(), ..self }
        }
    }

    /// `++` (with `Add`) and `--` (with `Sub`): one added to or taken from the
    /// top value.
    pub open spec fn step_next(self, op: Arith) -> Self {
        if self.has(1) {
            Model { stack: self.stack.drop_last().push(N::arith_spec(op, self.top(), N::int_spec(1))), ..self }
        } else {
            self
        }
    }

    /// `<< >> & | ^` on the integer parts of the two top values.
    pub open spec fn bits_next(self, op: Bits) -> Self {
        if self.has(2) {
            Model {
                stack: self.stack.subrange(0, self.stack.len() - 2).push(
                    N::int_spec(bits_spec(op, N::trunc_spec(self.below_top()), N::trunc_spec(self.top()))),
                ),
                ..self
            }
        } else {
            self
        }
    }

    /// `== != < > <= >=`: one or zero in place of the two top values.
    pub open spec fn compare_next(self, op: Compare) -> Self {
        if self.has(2) {
            Model {
                stack: self.stack.subrange(0, self.stack.len() - 2).push(
                    truth::<N>(N::compare_spec(op, self.below_top(), self.top())),
                ),
                ..self
            }
        } else {
            self
        }
    }

    /// `n!`: the factorial of the integer part of the top value.
    pub open spec fn factorial_next(self) -> Self {
        if self.has(1) {
            Model { stack: self.stack.drop_last().push(factorial_spec::<N>(N::trunc_spec(self.top()) as int)), ..self }
        } else {
            self
        }
    }

    pub open spec fn dup_next(self) -> Self {
        if self.has(1) {
            Model { stack: self.stack.push(self.top()), ..self }
        } else {
            self
        }
    }

    pub open spec fn drop_next(self) -> Self {
        if self.has(1) {
            Model { stack: self.stack.drop_last(), ..self }
        } else {
            self
        }
    }

    /// `STACK_SIZE`: pushes the number of values on the stack.
    pub open spec fn size_next(self) -> Self {
        Model { stack: self.stack.push(N::count_spec(self.stack.len() as usize)), ..self }
    }

    /// `last`: pushes the result of the latest completed line.
    pub open spec fn last_next(self) -> Self {
        Model { stack: self.stack.push(self.last), ..self }
    }

    /// `push_ident`: moves the top value, as text, to the identifier stack.
    pub open spec fn push_ident_next(self) -> Self {
        if self.has(1) {
            Model { stack: self.stack.drop_last(), idents: self.idents.push(text_of(self.top())), ..self }
        } else {
            self
        }
    }

    pub open spec fn pop_ident_next(self) -> Self {
        if self.idents.len() > 0 {
            Model { idents: self.idents.drop_last(), ..self }
        } else {
            self
        }
    }

    /// `concatf`: moves the top identifier to the end of the script.
    pub open spec fn concatf_next(self) -> Self {
        if self.idents.len() > 0 {
            Model { idents: self.idents.drop_last(), script: self.script.push(self.idents.last()), ..self }
        } else {
            self
        }
    }

    /// `pushch`: appends the top value, as text, to the last script token, or
    /// makes it the first token of an empty script.
    pub open spec fn pushch_next(self) -> Self {
        let shown = text_of(self.top());
        if !self.has(1) {
            self
        } else if self.script.len() == 0 {
            Model { stack: self.stack.drop_last(), script: seq![shown], ..self }
        } else {
            Model {
                stack: self.stack.drop_last(),
                script: self.script.drop_last().push(self.script.last() + shown),
                ..self
            }
        }
    }

    /// Whether a naming operation has both a name and a value to take.
    pub open spec fn can_define(self) -> bool {
        self.idents.len() > 0 && self.has(1)
    }

    /// `def`: binds the top identifier to the top value.
    pub open spec fn def_next(self) -> Self {
        if self.can_define() {
            Model {
                idents: self.idents.drop_last(),
                stack: self.stack.drop_last(),
                variables: self.variables.insert(self.idents.last(), self.top()),
                ..self
            }
        } else {
            self
        }
    }

    /// `const`: takes the top identifier and value, and binds them unless the
    /// name is already a constant.
    pub open spec fn const_next(self) -> Self {
        if !self.can_define() {
            self
        } else if self.constants.contains_key(self.idents.last()) {
            Model { idents: self.idents.drop_last(), stack: self.stack.drop_last(), ..self }
        } else {
            Model {
                idents: self.idents.drop_last(),
                stack: self.stack.drop_last(),
                constants: self.constants.insert(self.idents.last(), self.top()),
                ..self
            }
        }
    }

    /// `fn`: the script becomes the body of a function named by the top
    /// identifier.
    pub open spec fn fn_next(self) -> Self {
        if self.idents.len() > 0 {
            Model {
                idents: self.idents.drop_last(),
                functions: self.functions.insert(self.idents.last(), self.script),
                script: Seq::empty(),
                ..self
            }
        } else {
            self
        }
    }

    /// `reset` with an empty script: every variable and function forgotten.
    pub open spec fn reset_all_next(self) -> Self {
        Model { variables: Map::empty(), functions: Map::empty(), ..self }
    }

    /// `reset` of one name: the variable of that name, else the function.
    pub open spec fn forget_next(self, name: Seq<char>) -> Self {
        if self.variables.contains_key(name) {
            Model { variables: self.variables.remove(name), ..self }
        } else if self.functions.contains_key(name) {
            Model { functions: self.functions.remove(name), ..self }
        } else {
            self
        }
    }

    /// `reset` of each of `names` in turn.
    pub open spec fn forget_each(self, names: Seq<Seq<char>>) -> Self
        decreases names.len(),
    {
        if names.len() == 0 {
            self
        } else {
            self.forget_each(names.drop_last()).forget_next(names.last())
        }
    }

    /// `reset`: of the names in the script, else of everything.
    pub open spec fn reset_next(self) -> Self {
        if self.script.len() == 0 {
            self.reset_all_next()
        } else {
            Model { script: Seq::empty(), ..self.forget_each(self.script) }
        }
    }

    /// What an operation that runs no tokens does to the session.
    pub open spec fn op_next(self, op: Op) -> Self {
        match op {
            Op::ClearCode | Op::Optional(_) | Op::Say(_) | Op::Flush | Op::Ansi => Model {
                script: Seq::empty(),
                ..self
            },
            Op::Concatf => self.concatf_next(),
            Op::PushIdent => self.push_ident_next(),
            Op::PopIdent | Op::Puts => self.pop_ident_next(),
            Op::Pushch => self.pushch_next(),
            Op::Last => self.last_next(),
            Op::StackSize => self.size_next(),
            Op::Dup => self.dup_next(),
            Op::Drop => self.drop_next(),
            Op::Arith(a) => self.arith_next(a),
            Op::Step(a) => self.step_next(a),
            Op::Bits(b) => self.bits_next(b),
            Op::Compare(c) => self.compare_next(c),
            Op::Factorial => self.factorial_next(),
            Op::Def => self.def_next(),
            Op::Const => self.const_next(),
            Op::Fn => self.fn_next(),
            Op::Reset => self.reset_next(),
            _ => self,
        }
    }

    /// Whether an operation that runs no tokens ends the token stream: `break`,
    /// a missing argument, a constant named twice, or a listing of an empty
    /// script or identifier stack.
    pub open spec fn stops(self, op: Op) -> bool {
        match op {
            Op::Break => true,
            Op::Concatf | Op::PopIdent | Op::Puts | Op::Fn | Op::ShowIdentifiers => self.idents.len() == 0,
            Op::PushIdent | Op::Pushch | Op::Dup | Op::Drop | Op::Step(_) | Op::Factorial => !self.has(1),
            Op::Arith(_) | Op::Bits(_) | Op::Compare(_) => !self.has(2),
            Op::Def => !self.can_define(),
            Op::Const => !self.can_define() || self.constants.contains_key(self.idents.last()),
            Op::ShowScript | Op::Ansi => self.script.len() == 0,
            _ => false,
        }
    }
}

} // verus!
