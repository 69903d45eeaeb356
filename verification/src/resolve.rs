use vstd::prelude::*;
use crate::constants::{constant_of, lookup_constant};
use crate::error::{eres_view, Error, ErrorV};
use crate::functions::{is_builtin_fn, lookup_builtin_fn, Args};
use crate::scope::{Scope, Variable, VariableV};
use crate::value::Value;

verus! {

// Name resolution: builtin registries first, the caller's Scope second.

/// What a name stands for as a variable: a builtin constant, else the
/// Scope's number binding; a function binding is no variable.
pub open spec fn resolve_var_spec(
    name: Seq<char>,
    scope: Map<Seq<char>, VariableV>,
) -> Result<Value, ErrorV> {
    match constant_of(name) {
        Some(b) => Ok(Value::Num(b)),
        None => if scope.contains_key(name) {
            match scope[name] {
                VariableV::Number(b) => Ok(Value::Num(b)),
                VariableV::Function => Err(ErrorV::UnknownVariable(name)),
            }
        } else {
            Err(ErrorV::UnknownVariable(name))
        },
    }
}

/// Whether a name resolves as a variable: what the lexer asks when it
/// splits an identifier run.
pub open spec fn var_known(name: Seq<char>, scope: Map<Seq<char>, VariableV>) -> bool {
    resolve_var_spec(name, scope) is Ok
}

/// Whether a name resolves as a function: a builtin function, or the
/// Scope's function binding.
pub open spec fn fn_known(name: Seq<char>, scope: Map<Seq<char>, VariableV>) -> bool {
    is_builtin_fn(name) || (scope.contains_key(name) && scope[name] is Function)
}

/// Resolves a name as a variable: builtin constants first, then the
/// Scope's number bindings.
pub fn resolve_var<F: Fn(Args) -> Result<Value, Error>>(name: &str, scope: &Scope<F>) -> (r:
    Result<Value, Error>)
    ensures
        eres_view(r) == resolve_var_spec(name@, scope@),
{
    match lookup_constant(name) {
        Some(b) => Ok(Value::Num(b)),
        None => match scope.get_var(name) {
            Some(Variable::Number(b)) => Ok(Value::Num(*b)),
            _ => Err(Error::UnknownVariable(name.to_owned())),
        },
    }
}

/// What a name in call position resolved to.
pub enum FnBinding<'a, F> {
    /// A function of the builtin registry; `functions::apply_builtin` runs
    /// it.
    Builtin,
    /// The caller's own function binding.
    Custom(&'a F),
}

/// Resolves a name as a function: the builtin registry first, then the
/// Scope's function bindings. A custom binding coming out of a Scope
/// accepts every argument list.
pub fn resolve_fn<'a, F: Fn(Args) -> Result<Value, Error>>(name: &str, scope: &'a Scope<F>) -> (r:
    Result<FnBinding<'a, F>, Error>)
    ensures
        is_builtin_fn(name@) ==> (r matches Ok(b) && b is Builtin),
        !is_builtin_fn(name@) && fn_known(name@, scope@) ==> (r matches Ok(b) && b is Custom),
        !fn_known(name@, scope@) ==> (r matches Err(e) && e@ == ErrorV::UnknownFunction(name@)),
        r matches Ok(FnBinding::Custom(f)) ==> forall|a: Args| call_requires(*f, (a,)),
{
    if lookup_builtin_fn(name) {
        Ok(FnBinding::Builtin)
    } else {
        match scope.get_var(name) {
            Some(Variable::Function(f)) => Ok(FnBinding::Custom(f)),
            _ => Err(Error::UnknownFunction(name.to_owned())),
        }
    }
}

} // verus!
