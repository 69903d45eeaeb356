use vstd::prelude::*;
use crate::error::Error;
use crate::functions::Args;
use crate::value::Value;
use crate::util::str_eq;

verus! {

/// A binding the caller put into a `Scope`: a number (binary64 bit pattern)
/// or a function taking an ordered argument list.
pub enum Variable<F> {
    Number(u64),
    Function(F),
}

/// The shape of a binding: contracts track a number's bits and a function
/// binding's presence.
#[derive(PartialEq, Eq, Structural)]
pub enum VariableV {
    Number(u64),
    Function,
}

impl<F> View for Variable<F> {
    type V = VariableV;

    open spec fn view(&self) -> VariableV {
        match self {
            Variable::Number(b) => VariableV::Number(*b),
            Variable::Function(_) => VariableV::Function,
        }
    }
}

/// The name-to-binding map a run of `set_var` calls builds up, later writes
/// shadowing earlier ones.
pub open spec fn entries_map<F>(s: Seq<(String, Variable<F>)>) -> Map<Seq<char>, VariableV>
    decreases s.len(),
{
    if s.len() == 0 {
        Map::empty()
    } else {
        entries_map(s.drop_last()).insert(s.last().0@, s.last().1@)
    }
}

/// The same map with the bindings themselves kept, function values
/// included: what ties an evaluation result to the very binding the
/// caller stored.
pub open spec fn entries_bindings<F>(s: Seq<(String, Variable<F>)>) -> Map<Seq<char>, Variable<F>>
    decreases s.len(),
{
    if s.len() == 0 {
        Map::empty()
    } else {
        entries_bindings(s.drop_last()).insert(s.last().0@, s.last().1)
    }
}

/// The binding environment: a mutable name-keyed mapping, read by the lexer
/// for disambiguation and by the evaluator for resolution, written only by
/// the embedding caller. Held as an association list in write order; a
/// lookup takes the latest entry for its name, so the view is a map in
/// which the last write wins.
pub struct Scope<F: Fn(Args) -> Result<Value, Error>> {
    entries: Vec<(String, Variable<F>)>,
}

impl<F: Fn(Args) -> Result<Value, Error>> View for Scope<F> {
    type V = Map<Seq<char>, VariableV>;

    closed spec fn view(&self) -> Map<Seq<char>, VariableV> {
        entries_map(self.entries@)
    }
}

impl<F: Fn(Args) -> Result<Value, Error>> Scope<F> {
    /// The stored bindings themselves, function values included.
    pub closed spec fn bindings(&self) -> Map<Seq<char>, Variable<F>> {
        entries_bindings(self.entries@)
    }
}

impl<F: Fn(Args) -> Result<Value, Error>> Scope<F> {
    /// Every function binding can be called on any argument list: set_var
    /// admits no other, so the evaluator may call what it resolves.
    #[verifier::type_invariant]
    pub closed spec fn wf(self) -> bool {
        forall|i: int| #![trigger self.entries@[i]]
            0 <= i < self.entries@.len() ==> (match self.entries@[i].1 {
                Variable::Function(f) => forall|a: Args| call_requires(f, (a,)),
                Variable::Number(_) => true,
            })
    }

    pub fn new() -> (s: Scope<F>)
        ensures
            s@ == Map::<Seq<char>, VariableV>::empty(),
            s.bindings() == Map::<Seq<char>, Variable<F>>::empty(),
    {
        Scope { entries: Vec::new() }
    }

    pub fn with_capacity(cap: usize) -> (s: Scope<F>)
        ensures
            s@ == Map::<Seq<char>, VariableV>::empty(),
            s.bindings() == Map::<Seq<char>, Variable<F>>::empty(),
    {
        Scope { entries: Vec::with_capacity(cap) }
    }

    /// Binds a name, shadowing any earlier binding of the same name. A
    /// function binding must accept every argument list, since the
    /// evaluator will call it on whatever argument list the expression
    /// produces.
    pub fn set_var(&mut self, var_name: &str, value: Variable<F>)
        requires
            value matches Variable::Function(f) ==> forall|a: Args| call_requires(f, (a,)),
        ensures
            final(self)@ == old(self)@.insert(var_name@, value@),
            final(self).bindings() == old(self).bindings().insert(var_name@, value),
    {
        proof {
            use_type_invariant(&*self);
        }
        let ghost oldseq = self.entries@;
        let mut es: Vec<(String, Variable<F>)> = Vec::new();
        core::mem::swap(&mut es, &mut self.entries);
        es.push((var_name.to_owned(), value));
        core::mem::swap(&mut es, &mut self.entries);
        proof {
            assert(self.entries@.drop_last() =~= oldseq);
        }
    }

    /// The latest binding of a name, if any. A function binding coming out
    /// of a Scope accepts every argument list: `set_var` admits no other.
    pub fn get_var(&self, var_name: &str) -> (r: Option<&Variable<F>>)
        ensures
            match r {
                Some(v) => self@.contains_key(var_name@) && v@ == self@[var_name@]
                    && self.bindings().contains_key(var_name@) && *v == self.bindings()[
                    var_name@],
                None => !self@.contains_key(var_name@),
            },
            r matches Some(v) ==> (*v matches Variable::Function(f) ==> forall|a: Args|
                call_requires(f, (a,))),
    {
        proof {
            use_type_invariant(&*self);
        }
        let n = self.entries.len();
        let mut i: usize = n;
        while i > 0
            invariant
                n == self.entries@.len(),
                0 <= i <= n,
                forall|j: int| i <= j < n ==> self.entries@[j].0@ != var_name@,
            decreases i,
        {
            i -= 1;
            if str_eq(self.entries[i].0.as_str(), var_name) {
                proof {
                    use_type_invariant(&*self);
                    lemma_entries_map_last_match(self.entries@, i as int, var_name@);
                    lemma_entries_bindings_last_match(self.entries@, i as int, var_name@);
                    let entry = self.entries@[i as int];
                    assert(match entry.1 {
                        Variable::Function(f) => forall|a: Args| call_requires(f, (a,)),
                        Variable::Number(_) => true,
                    });
                }
                return Some(&self.entries[i].1);
            }
        }
        proof {
            lemma_entries_map_no_match(self.entries@, var_name@);
        }
        None
    }
}

/// The latest entry bearing a name decides the map's value for that name.
proof fn lemma_entries_map_last_match<F>(s: Seq<(String, Variable<F>)>, i: int, k: Seq<char>)
    requires
        0 <= i < s.len(),
        s[i].0@ == k,
        forall|j: int| i < j < s.len() ==> s[j].0@ != k,
    ensures
        entries_map(s).contains_key(k),
        entries_map(s)[k] == s[i].1@,
    decreases s.len(),
{
    if i == s.len() - 1 {
    } else {
        lemma_entries_map_last_match(s.drop_last(), i, k);
    }
}

/// The latest entry bearing a name decides the binding map's value too.
proof fn lemma_entries_bindings_last_match<F>(s: Seq<(String, Variable<F>)>, i: int, k: Seq<char>)
    requires
        0 <= i < s.len(),
        s[i].0@ == k,
        forall|j: int| i < j < s.len() ==> s[j].0@ != k,
    ensures
        entries_bindings(s).contains_key(k),
        entries_bindings(s)[k] == s[i].1,
    decreases s.len(),
{
    if i == s.len() - 1 {
    } else {
        lemma_entries_bindings_last_match(s.drop_last(), i, k);
    }
}

/// A name on no entry is not in the map.
proof fn lemma_entries_map_no_match<F>(s: Seq<(String, Variable<F>)>, k: Seq<char>)
    requires
        forall|j: int| 0 <= j < s.len() ==> s[j].0@ != k,
    ensures
        !entries_map(s).contains_key(k),
    decreases s.len(),
{
    if s.len() > 0 {
        lemma_entries_map_no_match(s.drop_last(), k);
    }
}

} // verus!
