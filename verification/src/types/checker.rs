//! The checker itself.
use crate::ast::{Expr, FnDecl, ImplItem, Item, ItemKind, Param, Program};
use crate::ast_tree::{trees, Syntax};
use crate::text::same_text;
use crate::types::bodies::Ctx;
use crate::types::checks::{
    check, check_all, checked, excused, expr, function, impl_functions, own_reading, param_locals,
    Found,
};
use crate::types::env::Env;
use crate::types::growth::checking_an_expression;
use crate::types::model::{Problem, Registry};
use crate::types::params::no_type_parameter_comes_out;
use crate::types::registry::Declared;
use crate::types::resolve::{resolve_primitive, How};
use crate::types::rules::{holds_param, State};
use crate::types::ty::{opt_ty, Ty, TypeError};
use vstd::prelude::*;

verus! {

/// Checks programs. What is declared in one program is known in the next; the errors of
/// all of them are kept, in order.
pub struct TypeChecker {
    declared: Declared,
    pub errors: Vec<TypeError>,
}

impl TypeChecker {
    /// What is declared so far.
    pub closed spec fn reg(self) -> Registry {
        self.declared.reg()
    }

    /// The problems found so far.
    pub closed spec fn problems(self) -> Seq<Problem> {
        trees(self.errors@)
    }

    pub open spec fn state(self) -> State {
        State { reg: self.reg(), errs: self.problems() }
    }

    pub fn new() -> (r: Self)
        ensures
            r.state() == nothing(),
    {
        let r = TypeChecker { declared: Declared::new(), errors: Vec::new() };
        assert(r.problems() =~= seq![]);
        r
    }

    /// The errors found so far.
    pub fn errors(&self) -> (r: &Vec<TypeError>)
        ensures
            trees(r@) == self.problems(),
    {
        &self.errors
    }

    /// Checks a program: everything is declared first, so the order of declarations does
    /// not matter; then the `impl` blocks are added; then the bodies are checked.
    pub fn check_program(&mut self, program: &Program)
        ensures
            final(self).state() == checked(old(self).state(), program.tree()),
    {
        proof {
            program.unfold();
        }
        assert(trees(program.items@).len() == program.items@.len());
        self.declared.register_items(&program.items);
        self.declared.register_all_impls(&program.items, &mut self.errors);
        self.declared.check_items(&program.items, &mut self.errors);
    }

    /// The type of an expression, held against what is expected. The errors found before
    /// stay, an expectation that is not met adds one, and no name is bound for good.
    pub fn check_expr(
        &mut self,
        e: &Expr,
        expected: Option<&Ty>,
        env: &mut Env,
        ctx: &Ctx,
    ) -> (r: Ty)
        ensures
            final(self).reg() == old(self).reg(),
            final(env).locals() == old(env).locals(),
            (Found { ty: r.tree(), errs: final(self).problems() }) == expr(
                ctx.scope(old(self).reg()),
                old(env).locals(),
                e.tree(),
                opt_ty(expected),
                old(self).problems(),
            ),
            old(self).problems().is_prefix_of(final(self).problems()),
            expected is Some && r.tree() != opt_ty(expected)->0 && !excused(
                ctx.scope(old(self).reg()),
                e.tree(),
                opt_ty(expected),
            ) ==> final(self).problems().len() > old(self).problems().len(),
            holds_param(r.tree()) ==> opt_ty(expected) == Some(r.tree()),
    {
        proof {
            let c = ctx.scope(self.reg());
            let errs = self.problems();
            checking_an_expression(c, env.locals(), e.tree(), opt_ty(expected), errs, errs);
            no_type_parameter_comes_out(c, env.locals(), e.tree(), opt_ty(expected), errs);
        }
        self.declared.check_expr(e, expected, env, ctx, &mut self.errors)
    }
}

impl Default for TypeChecker {
    fn default() -> (r: Self)
        ensures
            r.state() == nothing(),
    {
        Self::new()
    }
}

/// Where checking starts: nothing declared, nothing found.
pub open spec fn nothing() -> State {
    State {
        reg: Registry {
            structs: Map::empty(),
            enums: Map::empty(),
            functions: Map::empty(),
            traits: Map::empty(),
            impls: seq![],
        },
        errs: seq![],
    }
}

/// Binds the parameters of a function; `own` is the type of the receiver.
fn bind_fn_params(params: &Vec<Param>, own: Option<&Ty>, how: &How) -> (r: Env)
    requires
        how.reading() == own_reading(opt_ty(own)),
    ensures
        r.locals() == param_locals(trees(params@), opt_ty(own), params@.len()),
{
    let mut env = Env::new();
    let mut i: usize = 0;
    while i < params.len()
        invariant
            i <= params@.len(),
            how.reading() == own_reading(opt_ty(own)),
            env.locals().len() > 0,
            env.locals() == param_locals(trees(params@), opt_ty(own), i as nat),
        decreases params@.len() - i,
    {
        let p = &params[i];
        proof {
            p.unfold();
        }
        if same_text(p.name.as_str(), "self") {
            if let Some(t) = own {
                env.insert(p.name.clone(), t.copy());
            }
        } else {
            env.insert(p.name.clone(), how.read_type(&p.ty));
        }
        i = i + 1;
    }
    env
}

impl Declared {
    /// Checks the function bodies of an item.
    fn check_item(&self, item: &Item, errors: &mut Vec<TypeError>)
        ensures
            trees(final(errors)@) == check(self.reg(), item.tree(), trees(old(errors)@)),
        decreases item, 1nat,
    {
        proof {
            item.unfold();
            item.kind.unfold();
        }
        match &item.kind {
            ItemKind::Fn(f) => self.check_fn(f, None, errors),
            ItemKind::Impl(d) => {
                proof {
                    d.unfold();
                    d.target.unfold();
                }
                assert(trees(d.items@).len() == d.items@.len());
                let own = resolve_primitive(&d.target.name);
                self.check_impl_fns(&d.items, &own, errors);
            },
            ItemKind::Mod(m) => {
                proof {
                    m.unfold();
                }
                assert(trees(m.items@).len() == m.items@.len());
                self.check_items(&m.items, errors);
            },
            _ => {},
        }
    }

    fn check_items(&self, items: &Vec<Item>, errors: &mut Vec<TypeError>)
        ensures
            trees(final(errors)@) == check_all(
                self.reg(),
                trees(items@),
                items@.len(),
                trees(old(errors)@),
            ),
        decreases items, 0nat,
    {
        let ghost start = trees(errors@);
        let mut i: usize = 0;
        while i < items.len()
            invariant
                i <= items@.len(),
                trees(errors@) == check_all(self.reg(), trees(items@), i as nat, start),
            decreases items@.len() - i,
        {
            self.check_item(&items[i], errors);
            i = i + 1;
        }
    }

    fn check_impl_fns(&self, items: &Vec<ImplItem>, own: &Ty, errors: &mut Vec<TypeError>)
        ensures
            trees(final(errors)@) == impl_functions(
                self.reg(),
                trees(items@),
                own.tree(),
                items@.len(),
                trees(old(errors)@),
            ),
    {
        let ghost start = trees(errors@);
        let mut i: usize = 0;
        while i < items.len()
            invariant
                i <= items@.len(),
                trees(errors@) == impl_functions(
                    self.reg(),
                    trees(items@),
                    own.tree(),
                    i as nat,
                    start,
                ),
            decreases items@.len() - i,
        {
            proof {
                items@[i as int].unfold();
            }
            if let ImplItem::Fn(f) = &items[i] {
                self.check_fn(f, Some(own), errors);
            }
            i = i + 1;
        }
    }

    /// Checks the body of a function. In a method `Self` stands for the type of the `impl`.
    fn check_fn(&self, f: &FnDecl, own: Option<&Ty>, errors: &mut Vec<TypeError>)
        ensures
            trees(final(errors)@) == function(
                self.reg(),
                f.tree(),
                opt_ty(own),
                trees(old(errors)@),
            ),
    {
        proof {
            f.unfold();
        }
        assert(trees(f.params@).len() == f.params@.len());
        let body = match &f.body {
            Some(body) => body,
            None => return,
        };
        let how = match own {
            Some(t) => How::Within(t),
            None => How::Plain,
        };
        let mut env = bind_fn_params(&f.params, own, &how);
        let expected = match &f.return_type {
            Some(t) => Some(how.read_type(t)),
            None => None,
        };
        let ctx = Ctx {
            name: f.name.clone(),
            own: match own {
                Some(t) => Some(t.copy()),
                None => None,
            },
        };
        self.check_block(body, expected.as_ref(), &mut env, &ctx, errors);
    }
}

} // verus!
