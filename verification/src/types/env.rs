//! The local names of a body.
use crate::ast_tree::{trees, Syntax};
use crate::types::checks::{bind, enter, local, local_in, Locals};
use crate::types::names::Names;
use crate::types::ty::Ty;
use vstd::prelude::*;

verus! {

/// The local names, from the outermost block to the innermost.
pub struct Env {
    scopes: Vec<Names<Ty>>,
}

impl Env {
    pub closed spec fn locals(self) -> Locals {
        trees(self.scopes@)
    }

    /// A single block without names.
    pub fn new() -> (r: Env)
        ensures
            r.locals() == enter(seq![]),
    {
        let mut r = Env { scopes: Vec::new() };
        assert(r.locals() =~= seq![]);
        r.push();
        r
    }

    /// Enters a block.
    pub fn push(&mut self)
        ensures
            final(self).locals() == enter(old(self).locals()),
    {
        self.scopes.push(Names::new());
        assert(self.locals() =~= enter(old(self).locals()));
    }

    /// Leaves the innermost block.
    pub fn pop(&mut self)
        requires
            old(self).locals().len() > 0,
        ensures
            final(self).locals() == old(self).locals().drop_last(),
    {
        self.scopes.pop();
        assert(self.locals() =~= old(self).locals().drop_last());
    }

    /// Gives a name a type in the innermost block.
    pub fn insert(&mut self, name: String, t: Ty)
        requires
            old(self).locals().len() > 0,
        ensures
            final(self).locals() == bind(old(self).locals(), name@, t.tree()),
            final(self).locals().len() == old(self).locals().len(),
            final(self).locals().drop_last() == old(self).locals().drop_last(),
    {
        if let Some(mut top) = self.scopes.pop() {
            top.insert(name, t);
            self.scopes.push(top);
        }
        assert(self.locals() =~= bind(old(self).locals(), name@, t.tree()));
        assert(self.locals().drop_last() =~= old(self).locals().drop_last());
    }

    /// The type of a name, the innermost block first.
    pub fn get(&self, name: &str) -> (r: Option<&Ty>)
        ensures
            match r {
                Some(t) => local(self.locals(), name@) == Some(t.tree()),
                None => local(self.locals(), name@) is None,
            },
    {
        let mut n = self.scopes.len();
        while n > 0
            invariant
                n <= self.scopes@.len(),
                local_in(self.locals(), name@, n as nat) == local(self.locals(), name@),
            decreases n,
        {
            n = n - 1;
            let found = self.scopes[n].get(name);
            if found.is_some() {
                return found;
            }
        }
        None
    }
}

} // verus!
