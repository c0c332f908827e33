//! The environment: variable bindings and user-defined function bindings.
//!
//! The two namespaces are independent: variables are consulted only for
//! variable references, functions only for calls.  A binding list is kept in
//! insertion order and read from the back, so a later binding overwrites an
//! earlier one; the abstract view of each list is a map.

use vstd::prelude::*;

use crate::ast::{Expr, ExprS, expr_model};
use crate::term::{Term, TermS, term_model};

verus! {

/// A user-defined function: one parameter and a body.
#[derive(Debug, PartialEq)]
pub struct FnDef {
    pub param: String,
    pub body: Expr,
}

/// The mathematical model of a [`FnDef`].
pub struct FnDefS {
    pub param: Seq<char>,
    pub body: ExprS,
}

/// The model of a function definition.
pub open spec fn fndef_model(f: FnDef) -> FnDefS {
    FnDefS { param: f.param@, body: expr_model(f.body) }
}

impl FnDef {
    /// A deep copy; the copy has the same model as the original.
    pub fn dup(&self) -> (r: FnDef)
        ensures
            fndef_model(r) == fndef_model(*self),
    {
        FnDef { param: self.param.clone(), body: self.body.dup() }
    }
}

/// The map that a binding list denotes: a later entry overwrites an earlier
/// one with the same name.
pub open spec fn vars_map(s: Seq<(String, Term)>) -> Map<Seq<char>, TermS>
    decreases s,
{
    if s.len() == 0 {
        Map::empty()
    } else {
        vars_map(s.drop_last()).insert(s.last().0@, term_model(s.last().1))
    }
}

/// The map that a function binding list denotes.
pub open spec fn funcs_map(s: Seq<(String, FnDef)>) -> Map<Seq<char>, FnDefS>
    decreases s,
{
    if s.len() == 0 {
        Map::empty()
    } else {
        funcs_map(s.drop_last()).insert(s.last().0@, fndef_model(s.last().1))
    }
}

/// The model of an environment: a map of variables and a map of functions.
pub struct EnvS {
    pub vars: Map<Seq<char>, TermS>,
    pub funcs: Map<Seq<char>, FnDefS>,
}

/// The mutable environment that evaluation reads and writes.
#[derive(Debug, PartialEq)]
pub struct Env {
    vars: Vec<(String, Term)>,
    funcs: Vec<(String, FnDef)>,
}

impl View for Env {
    type V = EnvS;

    closed spec fn view(&self) -> EnvS {
        EnvS { vars: vars_map(self.vars@), funcs: funcs_map(self.funcs@) }
    }
}

impl Env {
    /// The empty environment that a session starts with.
    pub fn new() -> (r: Env)
        ensures
            r@.vars == Map::<Seq<char>, TermS>::empty(),
            r@.funcs == Map::<Seq<char>, FnDefS>::empty(),
    {
        Env { vars: Vec::new(), funcs: Vec::new() }
    }

    /// The value bound to a variable, if any; the latest binding wins.
    #[verifier::loop_isolation(false)]
    pub fn get_var(&self, name: &String) -> (r: Option<Term>)
        ensures
            match r {
                Some(t) => self@.vars.contains_key(name@) && term_model(t) == self@.vars[name@],
                None => !self@.vars.contains_key(name@),
            },
    {
        let s = &self.vars;
        let mut i: usize = s.len();
        proof {
            assert(s@.subrange(0, i as int) =~= s@);
        }
        while i > 0
            invariant
                i <= s@.len(),
                vars_map(s@).contains_key(name@) == vars_map(
                    s@.subrange(0, i as int),
                ).contains_key(name@),
                vars_map(s@).contains_key(name@) ==> vars_map(s@)[name@] == vars_map(
                    s@.subrange(0, i as int),
                )[name@],
            decreases i,
        {
            proof {
                assert(s@.subrange(0, i as int).drop_last() =~= s@.subrange(0, i as int - 1));
                assert(s@.subrange(0, i as int).last() == s@[i as int - 1]);
            }
            if s[i - 1].0 == *name {
                return Some(s[i - 1].1.dup());
            }
            i = i - 1;
        }
        None
    }

    /// The definition bound to a function name, if any; the latest wins.
    #[verifier::loop_isolation(false)]
    pub fn get_func(&self, name: &String) -> (r: Option<FnDef>)
        ensures
            match r {
                Some(f) => self@.funcs.contains_key(name@) && fndef_model(f)
                    == self@.funcs[name@],
                None => !self@.funcs.contains_key(name@),
            },
    {
        let s = &self.funcs;
        let mut i: usize = s.len();
        proof {
            assert(s@.subrange(0, i as int) =~= s@);
        }
        while i > 0
            invariant
                i <= s@.len(),
                funcs_map(s@).contains_key(name@) == funcs_map(
                    s@.subrange(0, i as int),
                ).contains_key(name@),
                funcs_map(s@).contains_key(name@) ==> funcs_map(s@)[name@] == funcs_map(
                    s@.subrange(0, i as int),
                )[name@],
            decreases i,
        {
            proof {
                assert(s@.subrange(0, i as int).drop_last() =~= s@.subrange(0, i as int - 1));
                assert(s@.subrange(0, i as int).last() == s@[i as int - 1]);
            }
            if s[i - 1].0 == *name {
                return Some(s[i - 1].1.dup());
            }
            i = i - 1;
        }
        None
    }

    /// Binds a variable, overwriting any earlier binding of the same name.
    pub fn set_var(&mut self, name: String, t: Term)
        ensures
            final(self)@.vars == old(self)@.vars.insert(name@, term_model(t)),
            final(self)@.funcs == old(self)@.funcs,
    {
        let ghost before = self.vars@;
        self.vars.push((name, t));
        proof {
            assert(self.vars@.drop_last() =~= before);
        }
    }

    /// Binds a function name, overwriting any earlier definition.
    pub fn set_func(&mut self, name: String, f: FnDef)
        ensures
            final(self)@.funcs == old(self)@.funcs.insert(name@, fndef_model(f)),
            final(self)@.vars == old(self)@.vars,
    {
        let ghost before = self.funcs@;
        self.funcs.push((name, f));
        proof {
            assert(self.funcs@.drop_last() =~= before);
        }
    }

    /// The call-local environment of one user-function invocation: a copy of
    /// this environment's variables with the parameter bound to the argument,
    /// and a copy of its functions.
    #[verifier::loop_isolation(false)]
    pub fn call_env(&self, param: String, arg: Term) -> (r: Env)
        ensures
            r@.vars == self@.vars.insert(param@, term_model(arg)),
            r@.funcs == self@.funcs,
    {
        let mut vars: Vec<(String, Term)> = Vec::new();
        let mut i: usize = 0;
        proof {
            assert(self.vars@.subrange(0, 0) =~= vars@);
        }
        while i < self.vars.len()
            invariant
                i <= self.vars@.len(),
                vars_map(vars@) == vars_map(self.vars@.subrange(0, i as int)),
                vars@.len() == i as nat,
            decreases self.vars@.len() - i,
        {
            let ghost before = vars@;
            let name = self.vars[i].0.clone();
            let value = self.vars[i].1.dup();
            vars.push((name, value));
            proof {
                assert(vars@.drop_last() =~= before);
                assert(self.vars@.subrange(0, i as int + 1).drop_last() =~= self.vars@.subrange(
                    0,
                    i as int,
                ));
                assert(self.vars@.subrange(0, i as int + 1).last() == self.vars@[i as int]);
            }
            i = i + 1;
        }
        proof {
            assert(self.vars@.subrange(0, self.vars@.len() as int) =~= self.vars@);
        }
        let mut funcs: Vec<(String, FnDef)> = Vec::new();
        let mut j: usize = 0;
        proof {
            assert(self.funcs@.subrange(0, 0) =~= funcs@);
        }
        while j < self.funcs.len()
            invariant
                j <= self.funcs@.len(),
                funcs_map(funcs@) == funcs_map(self.funcs@.subrange(0, j as int)),
                vars_map(vars@) == vars_map(self.vars@),
            decreases self.funcs@.len() - j,
        {
            let ghost before = funcs@;
            let name = self.funcs[j].0.clone();
            let def = self.funcs[j].1.dup();
            funcs.push((name, def));
            proof {
                assert(funcs@.drop_last() =~= before);
                assert(self.funcs@.subrange(0, j as int + 1).drop_last() =~= self.funcs@.subrange(
                    0,
                    j as int,
                ));
                assert(self.funcs@.subrange(0, j as int + 1).last() == self.funcs@[j as int]);
            }
            j = j + 1;
        }
        proof {
            assert(self.funcs@.subrange(0, self.funcs@.len() as int) =~= self.funcs@);
        }
        let mut r = Env { vars, funcs };
        r.set_var(param, arg);
        r
    }
}

} // verus!
