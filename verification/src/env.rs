//! The variable environment and the table of user-defined functions.
//!
//! Both are association lists in which a binding is always appended at the
//! end and a lookup walks backwards, so the latest binding of a name wins.
//! Appending is the only way the lists grow, which lets a function call
//! restore the caller's environment exactly by cutting the list back to
//! its length from before the call.
use crate::ast::{ExprV, Expression, Statement, StmtV, stmts_view};
use crate::value::{Value, ValueV};
use std::rc::Rc;
use vstd::prelude::*;

verus! {

broadcast use vstd::std_specs::vec::group_vec_axioms, vstd::seq::group_seq_axioms;

/// The mapping that a binding log denotes: later entries shadow earlier
/// ones.
pub open spec fn map_of_log<V>(log: Seq<(Seq<char>, V)>) -> Map<Seq<char>, V>
    decreases log,
{
    if log.len() == 0 {
        Map::empty()
    } else {
        map_of_log(log.drop_last()).insert(log.last().0, log.last().1)
    }
}

/// A name bound nowhere in the log is absent from the denoted map.
pub proof fn lemma_log_absent<V>(log: Seq<(Seq<char>, V)>, k: Seq<char>)
    requires
        forall|j: int| 0 <= j < log.len() ==> log[j].0 != k,
    ensures
        !map_of_log(log).contains_key(k),
    decreases log,
{
    if log.len() > 0 {
        lemma_log_absent(log.drop_last(), k);
    }
}

/// The latest entry for a name gives its value in the denoted map.
pub proof fn lemma_log_found<V>(log: Seq<(Seq<char>, V)>, k: Seq<char>, i: int)
    requires
        0 <= i < log.len(),
        log[i].0 == k,
        forall|j: int| i < j < log.len() ==> log[j].0 != k,
    ensures
        map_of_log(log).contains_key(k),
        map_of_log(log)[k] == log[i].1,
    decreases log,
{
    if i < log.len() - 1 {
        lemma_log_found(log.drop_last(), k, i);
    }
}

/// The mutable variable environment: a mapping from variable name to
/// runtime value, with the binding history as its underlying state.
pub struct Env {
    pairs: Vec<(String, Value)>,
}

impl Env {
    /// The binding history: every binding ever made, oldest first.
    pub closed spec fn log(&self) -> Seq<(Seq<char>, ValueV)> {
        Seq::new(self.pairs@.len(), |i: int| (self.pairs@[i].0@, self.pairs@[i].1@))
    }

    /// The mapping the environment currently denotes.
    pub open spec fn view(&self) -> Map<Seq<char>, ValueV> {
        map_of_log(self.log())
    }

    /// An empty environment.
    pub fn new() -> (r: Env)
        ensures
            r.log() =~= Seq::<(Seq<char>, ValueV)>::empty(),
            r@ =~= Map::<Seq<char>, ValueV>::empty(),
    {
        Env { pairs: Vec::new() }
    }

    /// How many bindings the history holds.
    pub fn depth(&self) -> (n: usize)
        ensures
            n == self.log().len(),
    {
        self.pairs.len()
    }

    /// Binds `v` to `name`, shadowing any earlier binding of that name.
    pub fn set(&mut self, name: String, v: Value)
        ensures
            final(self).log() =~= old(self).log().push((name@, v@)),
            final(self)@ == old(self)@.insert(name@, v@),
    {
        let ghost oldlog = self.log();
        self.pairs.push((name, v));
        proof {
            assert(final(self).log() =~= oldlog.push((name@, v@)));
            assert(final(self).log().drop_last() =~= oldlog);
        }
    }

    /// The value bound to `name`, if any.
    pub fn get(&self, name: &String) -> (r: Option<Value>)
        ensures
            match r {
                Option::Some(v) => self@.contains_key(name@) && v@ == self@[name@],
                Option::None => !self@.contains_key(name@),
            },
    {
        let mut i: usize = self.pairs.len();
        while i > 0
            invariant
                0 <= i <= self.pairs.len(),
                forall|j: int| i <= j < self.log().len() ==> self.log()[j].0 != name@,
            decreases i,
        {
            i = i - 1;
            if self.pairs[i].0.eq(name) {
                let v = self.pairs[i].1.dup();
                proof {
                    lemma_log_found(self.log(), name@, i as int);
                }
                return Option::Some(v);
            }
        }
        proof {
            lemma_log_absent(self.log(), name@);
        }
        Option::None
    }

    /// Cuts the binding history back to its first `n` entries; with `n`
    /// the depth saved before a call, this discards everything the call
    /// bound and restores the saved mapping.
    pub fn truncate_to(&mut self, n: usize)
        requires
            n <= old(self).log().len(),
        ensures
            final(self).log() =~= old(self).log().subrange(0, n as int),
    {
        self.pairs.truncate(n);
        proof {
            assert(final(self).log() =~= old(self).log().subrange(0, n as int));
        }
    }
}

/// One user-defined function: ordered parameter names, body statements,
/// and the return expression evaluated after the body.
#[derive(Debug)]
pub struct FunDef {
    pub params: Vec<String>,
    pub body: Vec<Statement>,
    pub ret: Expression,
}

/// The mathematical shape of a `FunDef`.
pub struct FunDefV {
    pub params: Seq<Seq<char>>,
    pub body: Seq<StmtV>,
    pub ret: ExprV,
}

impl FunDef {
    pub open spec fn view(&self) -> FunDefV {
        FunDefV {
            params: Seq::new(self.params@.len(), |i: int| self.params@[i]@),
            body: stmts_view(self.body@),
            ret: self.ret.view(),
        }
    }
}

/// The table of user-defined functions. A later definition of the same
/// name silently replaces the earlier one; nothing is ever removed.
pub struct Funcs {
    pairs: Vec<(String, Rc<FunDef>)>,
}

impl Funcs {
    /// The definition history, oldest first.
    pub closed spec fn log(&self) -> Seq<(Seq<char>, FunDefV)> {
        Seq::new(self.pairs@.len(), |i: int| (self.pairs@[i].0@, self.pairs@[i].1.view()))
    }

    /// The mapping from function name to current definition.
    pub open spec fn view(&self) -> Map<Seq<char>, FunDefV> {
        map_of_log(self.log())
    }

    /// An empty table.
    pub fn new() -> (r: Funcs)
        ensures
            r.log() =~= Seq::<(Seq<char>, FunDefV)>::empty(),
            r@ =~= Map::<Seq<char>, FunDefV>::empty(),
    {
        Funcs { pairs: Vec::new() }
    }

    /// Registers a definition under `name`, replacing any earlier one.
    pub fn set(&mut self, name: String, fd: Rc<FunDef>)
        ensures
            final(self)@ == old(self)@.insert(name@, fd.view()),
    {
        let ghost oldlog = self.log();
        let ghost fdv = fd.view();
        self.pairs.push((name, fd));
        proof {
            assert(final(self).log() =~= oldlog.push((name@, fdv)));
            assert(final(self).log().drop_last() =~= oldlog);
        }
    }

    /// The current definition registered under `name`, if any.
    pub fn get(&self, name: &String) -> (r: Option<Rc<FunDef>>)
        ensures
            match r {
                Option::Some(fd) => self@.contains_key(name@) && fd.view() == self@[name@],
                Option::None => !self@.contains_key(name@),
            },
    {
        let mut i: usize = self.pairs.len();
        while i > 0
            invariant
                0 <= i <= self.pairs.len(),
                forall|j: int| i <= j < self.log().len() ==> self.log()[j].0 != name@,
            decreases i,
        {
            i = i - 1;
            if self.pairs[i].0.eq(name) {
                let fd = self.pairs[i].1.clone();
                proof {
                    lemma_log_found(self.log(), name@, i as int);
                }
                return Option::Some(fd);
            }
        }
        proof {
            lemma_log_absent(self.log(), name@);
        }
        Option::None
    }
}

} // verus!
