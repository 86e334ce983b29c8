//! The environment: an owned stack of name-to-value scopes implementing
//! lexical shadowing. The stack always holds at least the global scope.
//!
//! A scope is stored as an association vector whose mathematical image is the
//! map sending each name to its most recently stored value; storing a pair
//! therefore is exactly a map insert, and no key-uniqueness bookkeeping is
//! needed.

use vstd::prelude::*;
use vstd::string::*;
use crate::error::RuntimeError;
use crate::expression::{LiteralValue, ValueV};
use crate::token::Token;

verus! {

/// The mathematical image of the whole environment: the stack of scope maps,
/// outermost (global) first.
pub type EnvV = Seq<Map<Seq<char>, ValueV>>;

/// The map an association list denotes: later pairs shadow earlier ones.
pub open spec fn assoc_map(s: Seq<(String, LiteralValue)>) -> Map<Seq<char>, ValueV>
    decreases s.len(),
{
    if s.len() == 0 {
        Map::empty()
    } else {
        assoc_map(s.drop_last()).insert(s.last().0@, s.last().1@)
    }
}

/// One level of name-to-value bindings.
pub struct Scope {
    values: Vec<(String, LiteralValue)>,
}

impl View for Scope {
    type V = Map<Seq<char>, ValueV>;

    closed spec fn view(&self) -> Map<Seq<char>, ValueV> {
        assoc_map(self.values@)
    }
}

proof fn lemma_assoc_map_keys(s: Seq<(String, LiteralValue)>, name: Seq<char>)
    ensures
        assoc_map(s).contains_key(name) <==> (exists|j: int| 0 <= j < s.len() && s[j].0@ == name),
    decreases s.len(),
{
    if s.len() > 0 {
        lemma_assoc_map_keys(s.drop_last(), name);
        if s.last().0@ == name {
            assert(s[s.len() - 1].0@ == name);
        } else {
            if exists|j: int| 0 <= j < s.len() && s[j].0@ == name {
                let j = choose|j: int| 0 <= j < s.len() && s[j].0@ == name;
                assert(s.drop_last()[j].0@ == name);
            }
            if exists|j: int| 0 <= j < s.drop_last().len() && s.drop_last()[j].0@ == name {
                let j = choose|j: int| 0 <= j < s.drop_last().len() && s.drop_last()[j].0@ == name;
                assert(s[j].0@ == name);
            }
        }
    }
}

proof fn lemma_assoc_map_at(s: Seq<(String, LiteralValue)>, name: Seq<char>, i: int)
    requires
        0 <= i < s.len(),
        s[i].0@ == name,
        forall|j: int| i < j < s.len() ==> s[j].0@ != name,
    ensures
        assoc_map(s).contains_key(name),
        assoc_map(s)[name] == s[i].1@,
    decreases s.len(),
{
    if i == s.len() - 1 {
    } else {
        lemma_assoc_map_at(s.drop_last(), name, i);
    }
}

impl Scope {
    pub fn new() -> (s: Scope)
        ensures
            s@ == Map::<Seq<char>, ValueV>::empty(),
    {
        Scope { values: Vec::new() }
    }

    /// Looks the name up; the most recently stored pair wins.
    fn get_value(&self, name: &String) -> (r: Option<&LiteralValue>)
        ensures
            (match r {
                Option::Some(v) => self@.contains_key(name@) && v@ == self@[name@],
                Option::None => !self@.contains_key(name@),
            }),
    {
        let n = self.values.len();
        let mut i: usize = n;
        while i > 0
            invariant
                i <= n,
                n == self.values.len(),
                forall|j: int| i <= j < n ==> self.values[j].0@ != name@,
            decreases i,
        {
            i = i - 1;
            if self.values[i].0 == *name {
                proof {
                    lemma_assoc_map_at(self.values@, name@, i as int);
                }
                return Option::Some(&self.values[i].1);
            }
        }
        proof {
            lemma_assoc_map_keys(self.values@, name@);
        }
        Option::None
    }

    /// Whether the name is bound in this scope.
    fn has_name(&self, name: &String) -> (r: bool)
        ensures
            r == self@.contains_key(name@),
    {
        match self.get_value(name) {
            Option::Some(_) => true,
            Option::None => false,
        }
    }

    /// Binds the name to the value, shadowing any earlier pair of this scope.
    fn set_value(&mut self, name: String, value: LiteralValue)
        ensures
            final(self)@ == old(self)@.insert(name@, value@),
    {
        let ghost s0 = self.values@;
        let ghost p = (name, value);
        self.values.push((name, value));
        proof {
            assert(self.values@.drop_last() =~= s0);
            assert(self.values@.last().0@ == p.0@);
        }
    }
}

/// The stack of scopes, outermost (global) first. Invariant: at least one
/// scope, the global one, is always present.
pub struct Environment {
    pub scopes: Vec<Scope>,
}

impl View for Environment {
    type V = EnvV;

    open spec fn view(&self) -> EnvV {
        Seq::new(self.scopes@.len(), |i: int| self.scopes@[i]@)
    }
}

/// Resolution among the scopes below index `i`, innermost first.
pub open spec fn env_lookup_from(env: EnvV, i: int, name: Seq<char>) -> Option<ValueV>
    decreases i,
{
    if i <= 0 || i > env.len() {
        Option::None
    } else if env[i - 1].contains_key(name) {
        Option::Some(env[i - 1][name])
    } else {
        env_lookup_from(env, i - 1, name)
    }
}

/// Looks a name up from the innermost scope outward.
pub open spec fn env_lookup(env: EnvV, name: Seq<char>) -> Option<ValueV> {
    env_lookup_from(env, env.len() as int, name)
}

/// Rebinding in the nearest enclosing scope below index `i` that already
/// binds the name; `None` when no scope does.
pub open spec fn env_assign_from(env: EnvV, i: int, name: Seq<char>, v: ValueV) -> Option<EnvV>
    decreases i,
{
    if i <= 0 || i > env.len() {
        Option::None
    } else if env[i - 1].contains_key(name) {
        Option::Some(env.update(i - 1, env[i - 1].insert(name, v)))
    } else {
        env_assign_from(env, i - 1, name, v)
    }
}

/// Rebinds a name in the nearest enclosing scope that defines it.
pub open spec fn env_assign_spec(env: EnvV, name: Seq<char>, v: ValueV) -> Option<EnvV> {
    env_assign_from(env, env.len() as int, name, v)
}

/// Rebinding a name never changes how many scopes there are.
pub proof fn lemma_env_assign_len(env: EnvV, i: int, name: Seq<char>, v: ValueV)
    ensures
        (match env_assign_from(env, i, name, v) {
            Option::Some(e2) => e2.len() == env.len(),
            Option::None => true,
        }),
    decreases i,
{
    if 0 < i <= env.len() && !env[i - 1].contains_key(name) {
        lemma_env_assign_len(env, i - 1, name, v);
    }
}

/// Binding in the current innermost scope, shadowing outer bindings.
pub open spec fn env_define_spec(env: EnvV, name: Seq<char>, v: ValueV) -> EnvV {
    env.update(env.len() - 1, env.last().insert(name, v))
}

proof fn lemma_assign_from_none(env: EnvV, j: int, name: Seq<char>, v: ValueV)
    requires
        0 <= j <= env.len(),
    ensures
        env_assign_from(env, j, name, v) is None <==> (forall|i: int|
            0 <= i < j ==> !env[i].contains_key(name)),
    decreases j,
{
    if j > 0 {
        lemma_assign_from_none(env, j - 1, name, v);
    }
}

/// Law: assignment rebinds an existing name and never creates one: it
/// fails exactly when no scope at all defines the name.
pub proof fn lemma_assign_requires_declaration(env: EnvV, name: Seq<char>, v: ValueV)
    ensures
        env_assign_spec(env, name, v) is None <==> (forall|i: int|
            0 <= i < env.len() ==> !env[i].contains_key(name)),
{
    lemma_assign_from_none(env, env.len() as int, name, v);
}

/// Law: a declaration binds in the current innermost scope alone, shadowing
/// without touching it: every outer scope keeps its bindings unchanged.
pub proof fn lemma_define_shadows(env: EnvV, name: Seq<char>, v: ValueV)
    requires
        env.len() >= 1,
    ensures
        env_define_spec(env, name, v).len() == env.len(),
        forall|i: int| 0 <= i < env.len() - 1 ==> env_define_spec(env, name, v)[i] == env[i],
        env_define_spec(env, name, v).last() == env.last().insert(name, v),
{
}

impl Environment {
    /// At least the global scope is always present.
    pub open spec fn wf(&self) -> bool {
        self@.len() >= 1
    }

    pub fn new() -> (e: Environment)
        ensures
            e@.len() == 1,
            e@[0] == Map::<Seq<char>, ValueV>::empty(),
    {
        // with the global scope
        let mut scopes: Vec<Scope> = Vec::new();
        scopes.push(Scope::new());
        Environment { scopes }
    }

    /// Looks the name up from the innermost scope outward; an undefined
    /// variable is a runtime error.
    pub fn get(&self, name: &str) -> (r: Result<&LiteralValue, RuntimeError>)
        ensures
            (match env_lookup(self@, name@) {
                Option::Some(v) => r matches Ok(rv) && rv@ == v,
                Option::None => r is Err,
            }),
    {
        let owned = name.to_owned();
        let n = self.scopes.len();
        let mut i: usize = n;
        while i > 0
            invariant
                i <= n,
                n == self.scopes.len(),
                owned@ == name@,
                env_lookup(self@, name@) == env_lookup_from(self@, i as int, name@),
            decreases i,
        {
            i = i - 1;
            match self.scopes[i].get_value(&owned) {
                Option::Some(v) => {
                    return Result::Ok(v);
                },
                Option::None => {},
            }
        }
        let mut msg = "Undefined variable `".to_owned();
        msg.append(name);
        msg.append("`.");
        Result::Err(RuntimeError::new(msg))
    }

    /// Binds the name in the current innermost scope.
    pub fn define(&mut self, name: &str, value: LiteralValue)
        requires
            old(self).wf(),
        ensures
            final(self).wf(),
            final(self)@ == env_define_spec(old(self)@, name@, value@),
    {
        let mut top = match self.scopes.pop() {
            Option::Some(s) => s,
            Option::None => Scope::new(),  // unreachable: the stack is never empty
        };
        top.set_value(name.to_owned(), value);
        self.scopes.push(top);
        proof {
            assert(final(self)@ =~= env_define_spec(old(self)@, name@, value@));
        }
    }

    /// Rebinds the name in the nearest enclosing scope that defines it; an
    /// undefined variable is a runtime error and leaves everything unchanged.
    pub fn assign(&mut self, name: Token, value: LiteralValue) -> (r: Result<(), RuntimeError>)
        ensures
            (match env_assign_spec(old(self)@, name@.lexeme, value@) {
                Option::Some(e2) => r is Ok && final(self)@ == e2,
                Option::None => r is Err && final(self)@ == old(self)@,
            }),
    {
        let n = self.scopes.len();
        let mut i: usize = n;
        while i > 0
            invariant
                i <= n,
                n == self.scopes.len(),
                self@ == old(self)@,
                env_assign_spec(old(self)@, name@.lexeme, value@) == env_assign_from(
                    old(self)@,
                    i as int,
                    name@.lexeme,
                    value@,
                ),
            decreases i,
        {
            i = i - 1;
            if self.scopes[i].has_name(&name.lexeme) {
                let mut sc = self.scopes.remove(i);
                sc.set_value(name.lexeme, value);
                self.scopes.insert(i, sc);
                proof {
                    assert(final(self)@ =~= old(self)@.update(
                        i as int,
                        old(self)@[i as int].insert(name@.lexeme, value@),
                    ));
                }
                return Result::Ok(());
            }
        }
        let mut msg = "Undefined variable `".to_owned();
        msg.append(name.lexeme.as_str());
        msg.append("`.");
        Result::Err(RuntimeError::new(msg))
    }

    /// called when enter a new block
    pub fn create_scope(&mut self)
        ensures
            final(self)@ == old(self)@.push(Map::<Seq<char>, ValueV>::empty()),
    {
        self.scopes.push(Scope::new());
        proof {
            assert(final(self)@ =~= old(self)@.push(Map::<Seq<char>, ValueV>::empty()));
        }
    }

    /// called when finish a block
    pub fn drop_scope(&mut self)
        requires
            old(self)@.len() > 0,
        ensures
            final(self)@ == old(self)@.drop_last(),
    {
        let _ = self.scopes.pop();
        proof {
            assert(final(self)@ =~= old(self)@.drop_last());
        }
    }
}

} // verus!
