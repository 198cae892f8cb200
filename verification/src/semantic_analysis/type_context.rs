//! The typing context: a lexically scoped environment from names to types.
use vstd::prelude::*;
use crate::ast::{Type, TypeView};
use crate::semantic_analysis::errors::{ErrStack, TError, TypeError, TypeFailure, fail, report};
use crate::table::{Table, map_of};

verus! {

/// Model of [`TCContext`]: for each name in scope its type and whether the
/// current scope declared it, and the return type of the enclosing function.
pub struct TCContextView {
    pub env: Map<Seq<char>, (TypeView, bool)>,
    pub return_type: TypeView,
}

/// The environment of a nested scope: every name stays in scope, and none
/// counts as declared by the new scope.
pub open spec fn inherited(env: Map<Seq<char>, (TypeView, bool)>) -> Map<
    Seq<char>,
    (TypeView, bool),
> {
    Map::new(|k: Seq<char>| env.contains_key(k), |k: Seq<char>| (env[k].0, false))
}

/// Of the names among `keys`, those that an environment binds to a function
/// type, as a nested scope sees them.
pub open spec fn functions_among(
    env: Map<Seq<char>, (TypeView, bool)>,
    keys: Set<Seq<char>>,
) -> Map<Seq<char>, (TypeView, bool)> {
    Map::new(
        |k: Seq<char>| keys.contains(k) && env.contains_key(k) && env[k].0 is Func,
        |k: Seq<char>| (env[k].0, false),
    )
}

impl TCContextView {
    /// The type of a name, or the error that it is not declared.
    pub open spec fn lookup(self, id: Seq<char>) -> Result<TypeView, TypeFailure> {
        if self.env.contains_key(id) {
            Ok(self.env[id].0)
        } else {
            Err(fail(TypeError::Undeclared(id)))
        }
    }

    /// The context after a declaration of a name in the current scope, or
    /// the error that the current scope declared the name before. A name of
    /// an outer scope is shadowed.
    pub open spec fn declare(self, id: Seq<char>, t: TypeView) -> Result<
        TCContextView,
        TypeFailure,
    > {
        if self.env.contains_key(id) && self.env[id].1 {
            Err(fail(TypeError::Redefinition(id)))
        } else {
            Ok(TCContextView { env: self.env.insert(id, (t, true)), return_type: self.return_type })
        }
    }

    /// The context at the start of a nested scope.
    pub open spec fn new_scope(self) -> TCContextView {
        TCContextView { env: inherited(self.env), return_type: self.return_type }
    }

    /// The context at the start of a function with the given return type:
    /// only the function signatures stay in scope.
    pub open spec fn new_function(self, ret: TypeView) -> TCContextView {
        TCContextView { env: functions_among(self.env, self.env.dom()), return_type: ret }
    }
}

/// The environment that a table of types and flags stands for.
pub open spec fn env_view(m: Map<Seq<char>, (Type, bool)>) -> Map<Seq<char>, (TypeView, bool)> {
    Map::new(|k: Seq<char>| m.contains_key(k), |k: Seq<char>| (m[k].0@, m[k].1))
}

/// The typing context.
#[derive(Debug)]
pub struct TCContext {
    // Identifier -> (Type, IsFromCurrentScope)
    env: Table<(Type, bool)>,
    return_type: Type,
}

impl TCContext {
    pub closed spec fn view(&self) -> TCContextView {
        TCContextView { env: env_view(self.env@), return_type: self.return_type@ }
    }

    /// The context with no name in scope, outside any function.
    pub fn new() -> (c: TCContext)
        ensures
            c@ == (TCContextView { env: Map::empty(), return_type: TypeView::Void }),
    {
        let c = TCContext { env: Table::new(), return_type: Type::TVoid };
        proof {
            assert(c@.env =~= Map::<Seq<char>, (TypeView, bool)>::empty());
        }
        c
    }

    /// The return type of the enclosing function.
    pub fn return_type(&self) -> (t: Type)
        ensures
            t@ == self@.return_type,
    {
        self.return_type.duplicate()
    }

    /// The type of a name.
    pub fn get(&self, id: &String) -> (r: TError<Type>)
        ensures
            match self@.lookup(id@) {
                Ok(t) => r is Ok && r->Ok_0@ == t,
                Err(f) => r is Err && r->Err_0@ == report(f),
            },
    {
        match self.env.get(id) {
            Some(t) => Ok(t.0.duplicate()),
            None => Err(ErrStack::undeclared(id)),
        }
    }

    /// Declares a name in the current scope.
    pub fn add(&mut self, id: &String, t: &Type) -> (r: TError<()>)
        ensures
            match old(self)@.declare(id@, t@) {
                Ok(c) => r is Ok && final(self)@ == c,
                Err(f) => r is Err && r->Err_0@ == report(f) && final(self)@ == old(self)@,
            },
    {
        let declared_here = match self.env.get(id) {
            None => false,
            Some(binding) => binding.1,
        };
        if declared_here {
            Err(ErrStack::redefinition(id))
        } else {
            self.env.insert(id.clone(), (t.duplicate(), true));
            proof {
                assert(self@.env =~= old(self)@.env.insert(id@, (t@, true)));
            }
            Ok(())
        }
    }

    /// Runs a function on the context at the start of a function with the
    /// given return type. This context is left as it is.
    pub fn in_new_function<T, F: Fn(&mut TCContext) -> T>(&self, ret_type: &Type, fun: F) -> (r: T)
        requires
            forall|c: &mut TCContext|
                c@ == self@.new_function(ret_type@) ==> call_requires(fun, (c,)),
        ensures
            exists|c: &mut TCContext|
                c@ == self@.new_function(ret_type@) && #[trigger] call_ensures(fun, (c,), r),
    {
        let mut new_env = self.make_function_context(ret_type);
        fun(&mut new_env)
    }

    /// Runs a function on the context at the start of a nested scope. This
    /// context is left as it is.
    pub fn in_new_scope<T, F: Fn(&mut TCContext) -> T>(&self, fun: F) -> (r: T)
        requires
            forall|c: &mut TCContext| c@ == self@.new_scope() ==> call_requires(fun, (c,)),
        ensures
            exists|c: &mut TCContext|
                c@ == self@.new_scope() && #[trigger] call_ensures(fun, (c,), r),
    {
        let mut new_env = self.make_new_context();
        fun(&mut new_env)
    }

    /// The context at the start of a function with the given return type.
    fn make_function_context(&self, ret_type: &Type) -> (c: TCContext)
        ensures
            c@ == self@.new_function(ret_type@),
    {
        let mut env: Table<(Type, bool)> = Table::new();
        let mut i: usize = 0;
        proof {
            assert(self.env.entries@.take(0) =~= Seq::<(String, (Type, bool))>::empty());
            assert(env_view(env@) =~= functions_among(self@.env, Set::empty()));
        }
        while i < self.env.entries.len()
            invariant
                i <= self.env.entries.len(),
                env_view(env@) == functions_among(
                    self@.env,
                    map_of(self.env.entries@.take(i as int)).dom(),
                ),
            decreases self.env.entries.len() - i,
        {
            let name = &self.env.entries[i].0;
            let ghost keys = map_of(self.env.entries@.take(i as int)).dom();
            proof {
                let next = self.env.entries@.take(i + 1);
                assert(next.drop_last() =~= self.env.entries@.take(i as int));
                assert(next.last() == self.env.entries@[i as int]);
                assert(map_of(next).dom() =~= keys.insert(name@));
            }
            let ghost before = env@;
            match self.env.get(name) {
                Some(binding) => {
                    match &binding.0 {
                        Type::TFunc(_, _) => {
                            let copy = binding.0.duplicate();
                            env.insert(name.clone(), (copy, false));
                            proof {
                                assert(env@ == before.insert(name@, (copy, false)));
                                assert(env_view(env@) =~= env_view(before).insert(
                                    name@,
                                    (copy@, false),
                                ));
                                assert(self@.env[name@].0 == copy@);
                                assert(env_view(env@) =~= functions_among(
                                    self@.env,
                                    keys.insert(name@),
                                ));
                            }
                        },
                        _ => {
                            proof {
                                assert(functions_among(self@.env, keys) =~= functions_among(
                                    self@.env,
                                    keys.insert(name@),
                                ));
                            }
                        },
                    }
                },
                None => {
                    proof {
                        assert(functions_among(self@.env, keys) =~= functions_among(
                            self@.env,
                            keys.insert(name@),
                        ));
                    }
                },
            }
            i += 1;
        }
        proof {
            assert(self.env.entries@.take(i as int) =~= self.env.entries@);
            assert(self.env@.dom() =~= self@.env.dom());
        }
        TCContext { env, return_type: ret_type.duplicate() }
    }

    /// The context at the start of a nested scope.
    fn make_new_context(&self) -> (c: TCContext)
        ensures
            c@ == self@.new_scope(),
    {
        let mut env: Table<(Type, bool)> = Table::new();
        let mut i: usize = 0;
        proof {
            assert(self.env.entries@.take(0) =~= Seq::<(String, (Type, bool))>::empty());
            assert(env_view(env@) =~= inherited(env_view(Map::empty())));
        }
        while i < self.env.entries.len()
            invariant
                i <= self.env.entries.len(),
                env_view(env@) == inherited(env_view(map_of(self.env.entries@.take(i as int)))),
            decreases self.env.entries.len() - i,
        {
            let name = &self.env.entries[i].0;
            let ty = &self.env.entries[i].1.0;
            proof {
                let next = self.env.entries@.take(i + 1);
                assert(next.drop_last() =~= self.env.entries@.take(i as int));
                assert(next.last() == self.env.entries@[i as int]);
            }
            let ghost before = env@;
            let ghost m = map_of(self.env.entries@.take(i as int));
            let copy = ty.duplicate();
            env.insert(name.clone(), (copy, false));
            proof {
                let e = self.env.entries@[i as int].1;
                assert(env@ == before.insert(name@, (copy, false)));
                assert(env_view(env@) =~= env_view(before).insert(name@, (copy@, false)));
                assert(map_of(self.env.entries@.take(i + 1)) == m.insert(name@, e));
                assert(env_view(m.insert(name@, e)) =~= env_view(m).insert(name@, (e.0@, e.1)));
                assert(inherited(env_view(m).insert(name@, (e.0@, e.1))) =~= inherited(
                    env_view(m),
                ).insert(name@, (e.0@, false)));
                assert(env_view(env@) =~= inherited(
                    env_view(map_of(self.env.entries@.take(i + 1))),
                ));
            }
            i += 1;
        }
        proof {
            assert(self.env.entries@.take(i as int) =~= self.env.entries@);
        }
        TCContext { env, return_type: self.return_type.duplicate() }
    }
}

} // verus!
