use vstd::prelude::*;
use crate::model::{factorial_spec, Model};
use crate::number::{Arith, Number};
use crate::optable::Op;

verus! {

/// An arithmetic operator takes the value below the top as its left operand
/// and the top value as its right one, and leaves the result in their place.
pub proof fn lemma_operand_order<N: Number>(m: Model<N>, op: Arith)
    requires
        m.stack.len() >= 2,
    ensures
        m.arith_next(op).stack == m.stack.subrange(0, m.stack.len() - 2).push(
            N::arith_spec(op, m.stack[m.stack.len() - 2], m.stack[m.stack.len() - 1]),
        ),
        m.arith_next(op).stack.len() == m.stack.len() - 1,
        !m.stops(Op::Arith(op)),
{
}

/// `def` binds the pending name to the top value, consuming both.
pub proof fn lemma_definition<N: Number>(m: Model<N>, name: Seq<char>, v: N)
    ensures
        ({
            let before = Model { idents: m.idents.push(name), stack: m.stack.push(v), ..m };
            let after = before.def_next();
            &&& after.variables.contains_key(name)
            &&& after.variables[name] == v
            &&& after.stack == m.stack
            &&& after.idents == m.idents
            &&& !before.stops(Op::Def)
        }),
{
    let before = Model { idents: m.idents.push(name), stack: m.stack.push(v), ..m };
    assert(before.idents.drop_last() =~= m.idents);
    assert(before.stack.drop_last() =~= m.stack);
}

/// The factorial of an integer part below two (zero, one, or negative) is one.
pub proof fn lemma_factorial_base<N: Number>(k: int)
    requires
        k < 2,
    ensures
        factorial_spec::<N>(k) == N::int_spec(1),
{
}

/// A constant is written once: defining the same name a second time stops the
/// token stream and leaves the first value in place.
pub proof fn lemma_constant_written_once<N: Number>(m: Model<N>, name: Seq<char>, v1: N, v2: N)
    requires
        !m.constants.contains_key(name),
    ensures
        ({
            let first = Model { idents: m.idents.push(name), stack: m.stack.push(v1), ..m };
            let defined = first.const_next();
            let second = Model { idents: defined.idents.push(name), stack: defined.stack.push(v2), ..defined };
            let after = second.const_next();
            &&& !first.stops(Op::Const)
            &&& defined.constants[name] == v1
            &&& second.stops(Op::Const)
            &&& after.constants == defined.constants
            &&& after.constants[name] == v1
        }),
{
}

/// A function of the session's own shadows every namespace function of the
/// same name.
pub proof fn lemma_local_shadows<N: Number>(m: Model<N>, name: Seq<char>)
    requires
        m.functions.contains_key(name),
    ensures
        m.lookup(name) == Some(m.functions[name]),
{
}

/// `reset` with an empty script forgets every variable and function, and
/// keeps the constants and namespaces.
pub proof fn lemma_reset_keeps_constants<N: Number>(m: Model<N>)
    requires
        m.script.len() == 0,
    ensures
        m.reset_next().variables == Map::<Seq<char>, N>::empty(),
        m.reset_next().functions == Map::<Seq<char>, Seq<Seq<char>>>::empty(),
        m.reset_next().constants == m.constants,
        m.reset_next().namespaces == m.namespaces,
{
}

} // verus!
