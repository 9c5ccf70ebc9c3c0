use vstd::prelude::*;
use crate::number::Number;
use crate::table::Table;
use crate::model::{bodies, first_body};
use crate::text::{copy_vec, texts};

verus! {

/// A named group of functions, built by running a script in a session of its
/// own and keeping the functions it defined.
#[derive(Clone)]
pub struct Namespace {
    pub title: String,
    pub functions: Table<Vec<String>>,
}

impl Namespace {
    /// A namespace with the given title and no functions.
    pub fn new(title: String) -> (r: Self)
        ensures
            r.title@ == title@,
            r.functions.wf(),
            r.functions@ == Map::<Seq<char>, Vec<String>>::empty(),
    {
        Namespace { title: title, functions: Table::new() }
    }
}

/// The mutable state that a token stream is executed against.
pub struct SessionInfo<N> {
    /// Functions: name to body, a list of tokens kept unevaluated.
    pub functions: Table<Vec<String>>,
    /// Variables: may be redefined.
    pub variables: Table<N>,
    /// Constants: written once.
    pub constants: Table<N>,
    /// Names and strings awaiting an operation that consumes them.
    pub idents: Vec<String>,
    /// The operand stack.
    pub stack: Vec<N>,
    /// Tokens captured by the latest `{ ... }` block.
    pub script: Vec<String>,
    /// The outcome of the latest `if` or `elif`, for `elif` and `else`.
    pub bool_val: Option<bool>,
    /// The result of the latest completed line.
    pub last: N,
    /// Namespaces, in the order they were built.
    pub namespaces: Vec<Namespace>,
}

impl<N: Number> SessionInfo<N> {
    pub open spec fn wf(&self) -> bool {
        &&& self.functions.wf()
        &&& self.variables.wf()
        &&& self.constants.wf()
        &&& forall|i: int| 0 <= i < self.namespaces@.len() ==> (#[trigger] self.namespaces@[i]).functions.wf()
    }

    /// An empty session.
    pub fn new() -> (r: Self)
        ensures
            r.wf(),
            r.functions@ == Map::<Seq<char>, Vec<String>>::empty(),
            r.variables@ == Map::<Seq<char>, N>::empty(),
            r.constants@ == Map::<Seq<char>, N>::empty(),
            r.idents@.len() == 0,
            r.stack@.len() == 0,
            r.script@.len() == 0,
            r.bool_val is None,
            r.last == N::int_spec(0),
            r.namespaces@.len() == 0,
    {
        SessionInfo {
            functions: Table::new(),
            variables: Table::new(),
            constants: Table::new(),
            idents: Vec::new(),
            stack: Vec::new(),
            script: Vec::new(),
            bool_val: None,
            last: N::from_int(0),
            namespaces: Vec::new(),
        }
    }

    /// Forgets every variable and function; constants, namespaces and the
    /// rest stay.
    pub fn reset(&mut self)
        requires
            old(self).wf(),
        ensures
            final(self).wf(),
            final(self).functions@ == Map::<Seq<char>, Vec<String>>::empty(),
            final(self).variables@ == Map::<Seq<char>, N>::empty(),
            final(self).constants == old(self).constants,
            final(self).namespaces == old(self).namespaces,
            final(self).idents == old(self).idents,
            final(self).stack == old(self).stack,
            final(self).script == old(self).script,
            final(self).bool_val == old(self).bool_val,
            final(self).last == old(self).last,
    {
        self.functions.clear();
        self.variables.clear();
    }

    /// Position of the first namespace that defines `name`.
    fn find_namespace(&self, name: &str) -> (r: Option<usize>)
        requires
            self.wf(),
        ensures
            match r {
                Some(i) => i < self.namespaces@.len()
                    && first_body(self@.namespaces, name@) == Some(texts(self.namespaces@[i as int].functions@[name@]@))
                    && self.namespaces@[i as int].functions@.contains_key(name@),
                None => first_body(self@.namespaces, name@) is None,
            },
    {
        let ghost all = self@.namespaces;
        let mut i: usize = 0;
        assert(all.subrange(0, all.len() as int) =~= all);
        while i < self.namespaces.len()
            invariant
                i <= self.namespaces@.len(),
                self.wf(),
                all == self@.namespaces,
                all.len() == self.namespaces@.len(),
                first_body(all, name@) == first_body(all.subrange(i as int, all.len() as int), name@),
            decreases self.namespaces@.len() - i,
        {
            let ghost rest = all.subrange(i as int, all.len() as int);
            assert(rest[0] == (self.namespaces@[i as int].title@, bodies(self.namespaces@[i as int].functions@)));
            if self.namespaces[i].functions.contains(name) {
                return Some(i);
            }
            assert(rest.drop_first() =~= all.subrange(i + 1, all.len() as int));
            i += 1;
        }
        None
    }

    /// Whether a call of `name` finds a function.
    pub fn contains_function(&self, name: &str) -> (r: bool)
        requires
            self.wf(),
        ensures
            r == self@.lookup(name@) is Some,
    {
        if self.functions.contains(name) {
            true
        } else {
            self.find_namespace(name).is_some()
        }
    }

    /// The body that a call of `name` runs; empty when none is defined.
    pub fn get_function(&self, name: &str) -> (r: Vec<String>)
        requires
            self.wf(),
        ensures
            texts(r@) == match self@.lookup(name@) {
                Some(b) => b,
                None => Seq::empty(),
            },
    {
        match self.functions.find(name) {
            Some(i) => copy_vec(&self.functions.entries[i].1),
            None => match self.find_namespace(name) {
                Some(j) => {
                    let ns = &self.namespaces[j];
                    let k = ns.functions.find(name).unwrap();
                    copy_vec(&ns.functions.entries[k].1)
                },
                None => {
                    let r: Vec<String> = Vec::new();
                    assert(texts(r@) =~= Seq::<Seq<char>>::empty());
                    r
                },
            },
        }
    }
}

} // verus!
