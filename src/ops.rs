use vstd::prelude::*;
use crate::model::{bits_spec, bodies, factorial_spec, truth, Bits, Model};
use crate::number::{Arith, Compare, Number};
use crate::session::SessionInfo;
use crate::text::{copy_vec, texts};

verus! {

/// What `const` did.
pub enum ConstOutcome<N> {
    /// No name or no value was pending.
    Missing,
    /// The name was already a constant; name and value were consumed.
    Taken,
    /// The name was bound to the value.
    Bound(String, N),
}

/// What `reset` did with one name.
#[derive(PartialEq, Eq, Structural, Clone, Copy, Debug)]
pub enum Forgot {
    Variable,
    Function,
    Missing,
}

proof fn lemma_texts_push(v: Seq<String>, s: String)
    ensures
        texts(v.push(s)) == texts(v).push(s@),
{
    assert(texts(v.push(s)) =~= texts(v).push(s@));
}

proof fn lemma_texts_drop_last(v: Seq<String>)
    requires
        v.len() > 0,
    ensures
        texts(v.drop_last()) == texts(v).drop_last(),
        texts(v).last() == v.last()@,
{
    assert(texts(v.drop_last()) =~= texts(v).drop_last());
}

/// The bitwise operator on two integers.
pub fn apply_bits(op: Bits, a: i32, b: i32) -> (r: i32)
    ensures
        r == bits_spec(op, a, b),
{
    match op {
        Bits::Shl => a.wrapping_shl(b as u32),
        Bits::Shr => a.wrapping_shr(b as u32),
        Bits::And => a & b,
        Bits::Or => a | b,
        Bits::Xor => a ^ b,
    }
}

/// The product of the integers from 2 through `k`; one when that range is
/// empty.
pub fn factorial<N: Number>(k: i32) -> (r: N)
    ensures
        r == factorial_spec::<N>(k as int),
{
    let mut acc = N::from_int(1);
    if k < 2 {
        return acc;
    }
    let mut i: i32 = 2;
    while i <= k
        invariant
            2 <= i,
            i <= k + 1,
            acc == factorial_spec::<N>(i - 1),
        decreases k - i,
    {
        acc = N::arith(Arith::Mul, acc, N::from_int(i));
        if i == k {
            return acc;
        }
        i += 1;
    }
    acc
}

impl<N: Number> SessionInfo<N> {
    /// `+ - * / % **`; `false` when fewer than two values were on the stack.
    pub fn apply_arith(&mut self, op: Arith) -> (ok: bool)
        requires
            old(self).wf(),
        ensures
            final(self).wf(),
            final(self)@ == old(self)@.arith_next(op),
            ok == old(self)@.has(2),
    {
        let rhs = self.stack.pop();
        let lhs = self.stack.pop();
        match (lhs, rhs) {
            (Some(l), Some(r)) => {
                self.stack.push(N::arith(op, l, r));
                assert(self@ =~= old(self)@.arith_next(op));
                true
            },
            _ => {
                assert(self@ =~= old(self)@.arith_next(op));
                false
            },
        }
    }

    /// `++` with `Add`, `--` with `Sub`; `false` on an empty stack.
    pub fn apply_step(&mut self, op: Arith) -> (ok: bool)
        requires
            old(self).wf(),
        ensures
            final(self).wf(),
            final(self)@ == old(self)@.step_next(op),
            ok == old(self)@.has(1),
    {
        match self.stack.pop() {
            Some(v) => {
                self.stack.push(N::arith(op, v, N::from_int(1)));
                assert(self@ =~= old(self)@.step_next(op));
                true
            },
            None => false,
        }
    }

    /// `<< >> & | ^`; `false` when fewer than two values are on the stack.
    pub fn apply_bits(&mut self, op: Bits) -> (ok: bool)
        requires
            old(self).wf(),
        ensures
            final(self).wf(),
            final(self)@ == old(self)@.bits_next(op),
            ok == old(self)@.has(2),
    {
        if self.stack.len() < 2 {
            return false;
        }
        let rhs = N::trunc(self.stack.pop().unwrap());
        let lhs = N::trunc(self.stack.pop().unwrap());
        self.stack.push(N::from_int(apply_bits(op, lhs, rhs)));
        assert(self@ =~= old(self)@.bits_next(op));
        true
    }

    /// `== != < > <= >=`; `false` when fewer than two values are on the stack.
    pub fn apply_compare(&mut self, op: Compare) -> (ok: bool)
        requires
            old(self).wf(),
        ensures
            final(self).wf(),
            final(self)@ == old(self)@.compare_next(op),
            ok == old(self)@.has(2),
    {
        if self.stack.len() < 2 {
            return false;
        }
        let rhs = self.stack.pop().unwrap();
        let lhs = self.stack.pop().unwrap();
        let v = if N::compare(op, lhs, rhs) {
            N::from_int(1)
        } else {
            N::from_int(0)
        };
        self.stack.push(v);
        assert(self@ =~= old(self)@.compare_next(op));
        true
    }

    /// `n!`; `false` on an empty stack.
    pub fn apply_factorial(&mut self) -> (ok: bool)
        requires
            old(self).wf(),
        ensures
            final(self).wf(),
            final(self)@ == old(self)@.factorial_next(),
            ok == old(self)@.has(1),
    {
        match self.stack.pop() {
            Some(v) => {
                let k = N::trunc(v);
                self.stack.push(factorial(k));
                assert(self@ =~= old(self)@.factorial_next());
                true
            },
            None => false,
        }
    }

    /// `dup`; `false` on an empty stack.
    pub fn dup(&mut self) -> (ok: bool)
        requires
            old(self).wf(),
        ensures
            final(self).wf(),
            final(self)@ == old(self)@.dup_next(),
            ok == old(self)@.has(1),
    {
        let n = self.stack.len();
        if n == 0 {
            return false;
        }
        let v = self.stack[n - 1];
        self.stack.push(v);
        assert(self@ =~= old(self)@.dup_next());
        true
    }

    /// `drop`; `false` on an empty stack.
    pub fn drop_top(&mut self) -> (ok: bool)
        requires
            old(self).wf(),
        ensures
            final(self).wf(),
            final(self)@ == old(self)@.drop_next(),
            ok == old(self)@.has(1),
    {
        match self.stack.pop() {
            Some(_) => {
                assert(self@ =~= old(self)@.drop_next());
                true
            },
            None => false,
        }
    }

    /// `STACK_SIZE`.
    pub fn push_size(&mut self)
        requires
            old(self).wf(),
        ensures
            final(self).wf(),
            final(self)@ == old(self)@.size_next(),
    {
        let n = self.stack.len();
        self.stack.push(N::from_count(n));
        assert(self@ =~= old(self)@.size_next());
    }

    /// `last`.
    pub fn push_last(&mut self)
        requires
            old(self).wf(),
        ensures
            final(self).wf(),
            final(self)@ == old(self)@.last_next(),
    {
        let v = self.last;
        self.stack.push(v);
        assert(self@ =~= old(self)@.last_next());
    }

    /// `push_ident`; `false` on an empty stack.
    pub fn push_ident(&mut self) -> (ok: bool)
        requires
            old(self).wf(),
        ensures
            final(self).wf(),
            final(self)@ == old(self)@.push_ident_next(),
            ok == old(self)@.has(1),
    {
        match self.stack.pop() {
            Some(v) => {
                let t = N::text(v);
                self.idents.push(t);
                proof {
                    lemma_texts_push(old(self).idents@, t);
                }
                assert(self@ =~= old(self)@.push_ident_next());
                true
            },
            None => false,
        }
    }

    /// `pop_ident`; `false` when no identifier is pending.
    pub fn pop_ident(&mut self) -> (ok: bool)
        requires
            old(self).wf(),
        ensures
            final(self).wf(),
            final(self)@ == old(self)@.pop_ident_next(),
            ok == (old(self)@.idents.len() > 0),
    {
        match self.idents.pop() {
            Some(_) => {
                proof {
                    lemma_texts_drop_last(old(self).idents@);
                }
                assert(self@ =~= old(self)@.pop_ident_next());
                true
            },
            None => false,
        }
    }

    /// `concatf`; `false` when no identifier is pending.
    pub fn concatf(&mut self) -> (ok: bool)
        requires
            old(self).wf(),
        ensures
            final(self).wf(),
            final(self)@ == old(self)@.concatf_next(),
            ok == (old(self)@.idents.len() > 0),
    {
        match self.idents.pop() {
            Some(t) => {
                self.script.push(t);
                proof {
                    lemma_texts_drop_last(old(self).idents@);
                    lemma_texts_push(old(self).script@, t);
                }
                assert(self@ =~= old(self)@.concatf_next());
                true
            },
            None => false,
        }
    }

    /// `pushch`; `false` on an empty stack.
    pub fn pushch(&mut self) -> (ok: bool)
        requires
            old(self).wf(),
        ensures
            final(self).wf(),
            final(self)@ == old(self)@.pushch_next(),
            ok == old(self)@.has(1),
    {
        match self.stack.pop() {
            Some(v) => {
                let t = N::text(v);
                match self.script.pop() {
                    Some(mut last) => {
                        last.append(t.as_str());
                        self.script.push(last);
                        proof {
                            lemma_texts_drop_last(old(self).script@);
                            lemma_texts_push(old(self).script@.drop_last(), last);
                        }
                    },
                    None => {
                        self.script.push(t);
                        proof {
                            lemma_texts_push(old(self).script@, t);
                        }
                        assert(texts(old(self).script@) =~= Seq::<Seq<char>>::empty());
                    },
                }
                assert(self@ =~= old(self)@.pushch_next());
                true
            },
            None => false,
        }
    }

    /// `def`: the name and value it bound, or `None` when one was missing.
    pub fn define_variable(&mut self) -> (r: Option<(String, N)>)
        requires
            old(self).wf(),
        ensures
            final(self).wf(),
            final(self)@ == old(self)@.def_next(),
            r is Some == old(self)@.can_define(),
            r is Some ==> r.unwrap().0@ == old(self)@.idents.last() && r.unwrap().1 == old(self)@.top(),
    {
        if self.idents.len() == 0 || self.stack.len() == 0 {
            return None;
        }
        let key = self.idents.pop().unwrap();
        let value = self.stack.pop().unwrap();
        let shown = key.clone();
        self.variables.insert(key, value);
        proof {
            lemma_texts_drop_last(old(self).idents@);
        }
        assert(self@ =~= old(self)@.def_next());
        Some((shown, value))
    }

    /// `const`: binds a name once; a second binding of it is refused.
    pub fn define_constant(&mut self) -> (r: ConstOutcome<N>)
        requires
            old(self).wf(),
        ensures
            final(self).wf(),
            final(self)@ == old(self)@.const_next(),
            r is Missing == !old(self)@.can_define(),
            r is Taken == (old(self)@.can_define() && old(self)@.constants.contains_key(old(self)@.idents.last())),
            r matches ConstOutcome::Bound(k, v) ==> k@ == old(self)@.idents.last() && v == old(self)@.top(),
    {
        if self.idents.len() == 0 || self.stack.len() == 0 {
            return ConstOutcome::Missing;
        }
        let key = self.idents.pop().unwrap();
        let value = self.stack.pop().unwrap();
        proof {
            lemma_texts_drop_last(old(self).idents@);
        }
        if self.constants.contains(key.as_str()) {
            assert(self@ =~= old(self)@.const_next());
            return ConstOutcome::Taken;
        }
        let shown = key.clone();
        self.constants.insert(key, value);
        assert(self@ =~= old(self)@.const_next());
        ConstOutcome::Bound(shown, value)
    }

    /// `fn`: the name and body it defined, or `None` when no name was
    /// pending.
    pub fn define_function(&mut self) -> (r: Option<(String, Vec<String>)>)
        requires
            old(self).wf(),
        ensures
            final(self).wf(),
            final(self)@ == old(self)@.fn_next(),
            r is Some == (old(self)@.idents.len() > 0),
            r is Some ==> r.unwrap().0@ == old(self)@.idents.last() && texts(r.unwrap().1@) == old(self)@.script,
    {
        if self.idents.len() == 0 {
            return None;
        }
        let body = copy_vec(&self.script);
        let shown = copy_vec(&self.script);
        let key = self.idents.pop().unwrap();
        let name = key.clone();
        self.functions.insert(key, body);
        self.script = Vec::new();
        proof {
            lemma_texts_drop_last(old(self).idents@);
        }
        assert(texts(self.script@) =~= Seq::<Seq<char>>::empty());
        assert(bodies(self.functions@) =~= bodies(old(self).functions@).insert(name@, texts(old(self).script@)));
        assert(self@ =~= old(self)@.fn_next());
        Some((name, shown))
    }

    /// `reset` with an empty script.
    pub fn reset_all(&mut self)
        requires
            old(self).wf(),
        ensures
            final(self).wf(),
            final(self)@ == old(self)@.reset_all_next(),
    {
        self.reset();
        assert(bodies(self.functions@) =~= Map::<Seq<char>, Seq<Seq<char>>>::empty());
        assert(self@ =~= old(self)@.reset_all_next());
    }

    /// `reset` of one name: its variable if there is one, else its function.
    pub fn forget(&mut self, name: &str) -> (r: Forgot)
        requires
            old(self).wf(),
        ensures
            final(self).wf(),
            final(self)@ == old(self)@.forget_next(name@),
            r == (if old(self)@.variables.contains_key(name@) {
                Forgot::Variable
            } else if old(self)@.functions.contains_key(name@) {
                Forgot::Function
            } else {
                Forgot::Missing
            }),
    {
        if self.variables.contains(name) {
            self.variables.remove(name);
            assert(self@ =~= old(self)@.forget_next(name@));
            Forgot::Variable
        } else if self.functions.contains(name) {
            self.functions.remove(name);
            assert(bodies(self.functions@) =~= bodies(old(self).functions@).remove(name@));
            assert(self@ =~= old(self)@.forget_next(name@));
            Forgot::Function
        } else {
            Forgot::Missing
        }
    }
}

} // verus!
