use vstd::prelude::*;
use crate::constants::{D180_BITS, NAN_BITS, PI_BITS};
use crate::error::{eres_view, Error as EvalError, ErrorV as EvalErrorV};
use crate::floatsem::{abs_bits, f64_abs, f64_max, f64_min, max_bits, min_bits};
use crate::numerics::{
    cbrt_bits, ceil_bits, cos_bits, div_bits, f64_cbrt, f64_ceil, f64_cos, f64_div, f64_floor,
    f64_ln, f64_log10, f64_mul, f64_sin, f64_sqrt, f64_tan, floor_bits, ln_bits, log10_bits,
    mul_bits, sin_bits, sqrt_bits, tan_bits,
};
use crate::util::str_eq;
use crate::value::Value;

verus! {

/// A failure reported by a function binding: bad argument, or too few of
/// them.
#[derive(Debug, Clone)]
pub enum Error {
    InvalidArgument(String),
    NotEnoughParams,
}

/// The shape of a function-binding failure with text payloads taken as
/// character sequences.
pub enum ErrorV {
    InvalidArgument(Seq<char>),
    NotEnoughParams,
}

impl View for Error {
    type V = ErrorV;

    open spec fn view(&self) -> ErrorV {
        match self {
            Error::InvalidArgument(s) => ErrorV::InvalidArgument(s@),
            Error::NotEnoughParams => ErrorV::NotEnoughParams,
        }
    }
}

impl PartialEq for Error {
    fn eq(&self, other: &Error) -> (r: bool) {
        match (self, other) {
            (Error::InvalidArgument(a), Error::InvalidArgument(b)) => *a == *b,
            (Error::NotEnoughParams, Error::NotEnoughParams) => true,
            _ => false,
        }
    }
}

impl vstd::std_specs::cmp::PartialEqSpecImpl for Error {
    open spec fn obeys_eq_spec() -> bool {
        true
    }

    open spec fn eq_spec(&self, other: &Error) -> bool {
        self@ == other@
    }
}

/// The ordered argument list handed to a function binding. Holds a
/// smallvec::SmallVec so that short lists need no heap allocation.
#[verifier::external_body]
pub struct Args(smallvec::SmallVec<[Value; 4]>);

pub uninterp spec fn args_view(v: &Args) -> Seq<Value>;

impl View for Args {
    type V = Seq<Value>;

    open spec fn view(&self) -> Seq<Value> {
        args_view(self)
    }
}

impl Args {
    /// Relies on smallvec::SmallVec::from_vec: the list holds exactly the
    /// elements of the given vector, in order.
    #[verifier::external_body]
    pub fn from_vec(v: Vec<Value>) -> (r: Args)
        ensures
            args_view(&r) == v@,
    {
        Args(smallvec::SmallVec::from_vec(v))
    }

    /// Relies on smallvec::SmallVec::len.
    #[verifier::external_body]
    pub(crate) fn len(&self) -> (r: usize)
        ensures
            r == args_view(self).len(),
    {
        self.0.len()
    }

    /// Relies on the slice `get` reached through smallvec's deref: the
    /// element at the given position, if any.
    #[verifier::external_body]
    pub fn get(&self, index: usize) -> (r: Option<Value>)
        ensures
            r == if index < args_view(self).len() {
                Some(args_view(self)[index as int])
            } else {
                None::<Value>
            },
    {
        self.0.get(index).copied()
    }

    /// The numeric arguments, in order, every boolean dropped; an error when
    /// fewer than `n` remain.
    pub fn nums(self, n: usize) -> (r: Result<Vec<u64>, Error>)
        ensures
            nums_of(self@).len() >= n ==> (r matches Ok(v) && v@ == nums_of(self@)),
            nums_of(self@).len() < n ==> (r matches Err(e) && e is NotEnoughParams),
    {
        let len = self.len();
        let mut out: Vec<u64> = Vec::new();
        let mut i: usize = 0;
        while i < len
            invariant
                len == self@.len(),
                0 <= i <= len,
                out@ == nums_of(self@.take(i as int)),
            decreases len - i,
        {
            proof {
                assert(self@.take(i + 1).drop_last() =~= self@.take(i as int));
                assert(self@.take(i + 1).last() == self@[i as int]);
            }
            match self.get(i) {
                Some(Value::Num(b)) => out.push(b),
                _ => (),
            }
            i += 1;
        }
        proof {
            assert(self@.take(len as int) =~= self@);
        }
        if out.len() < n {
            Err(Error::NotEnoughParams)
        } else {
            Ok(out)
        }
    }
}

/// The numeric members of a value sequence, in order.
pub open spec fn nums_of(s: Seq<Value>) -> Seq<u64>
    decreases s.len(),
{
    if s.len() == 0 {
        Seq::empty()
    } else {
        let rest = nums_of(s.drop_last());
        match s.last() {
            Value::Num(b) => rest.push(b),
            _ => rest,
        }
    }
}

/// The left fold of `max` over a number sequence, seeded with NaN, so that
/// NaN is returned only when no argument is a number.
pub open spec fn fold_max(s: Seq<u64>) -> u64
    decreases s.len(),
{
    if s.len() == 0 {
        NAN_BITS
    } else {
        max_bits(fold_max(s.drop_last()), s.last())
    }
}

/// The left fold of `min` over a number sequence, seeded with NaN.
pub open spec fn fold_min(s: Seq<u64>) -> u64
    decreases s.len(),
{
    if s.len() == 0 {
        NAN_BITS
    } else {
        min_bits(fold_min(s.drop_last()), s.last())
    }
}

/// Degrees turned to radians: a multiplication by pi/180, both constants
/// rounded as binary64.
pub open spec fn rad_of(x: u64) -> u64 {
    mul_bits(x, div_bits(PI_BITS, D180_BITS))
}

/// Whether a name belongs to the builtin function registry.
pub open spec fn is_builtin_fn(name: Seq<char>) -> bool {
    ||| name == "min"@
    ||| name == "max"@
    ||| name == "abs"@
    ||| name == "sqrt"@
    ||| name == "cbrt"@
    ||| name == "sin"@
    ||| name == "cos"@
    ||| name == "tan"@
    ||| name == "log"@
    ||| name == "log_10"@
    ||| name == "ln"@
    ||| name == "floor"@
    ||| name == "ceil"@
}

/// What a one-number builtin returns on the first numeric argument.
pub open spec fn unary_builtin(name: Seq<char>, x: u64) -> u64 {
    if name == "abs"@ {
        abs_bits(x)
    } else if name == "sqrt"@ {
        sqrt_bits(x)
    } else if name == "cbrt"@ {
        cbrt_bits(x)
    } else if name == "sin"@ {
        sin_bits(rad_of(x))
    } else if name == "cos"@ {
        cos_bits(rad_of(x))
    } else if name == "tan"@ {
        tan_bits(rad_of(x))
    } else if name == "log_10"@ {
        log10_bits(x)
    } else if name == "ln"@ {
        ln_bits(x)
    } else if name == "floor"@ {
        floor_bits(x)
    } else {
        ceil_bits(x)
    }
}

/// What the builtin function registry returns for a name applied to an
/// argument list: `max` and `min` fold over every numeric argument;
/// `log(base, x)` is the quotient of natural logarithms; the one-number
/// builtins take the first numeric argument; too few numeric arguments is
/// the binding's own failure.
pub open spec fn builtin_apply(name: Seq<char>, args: Seq<Value>) -> Result<Value, EvalErrorV> {
    let ns = nums_of(args);
    if name == "max"@ {
        Ok(Value::Num(fold_max(ns)))
    } else if name == "min"@ {
        Ok(Value::Num(fold_min(ns)))
    } else if name == "log"@ {
        if ns.len() < 2 {
            Err(EvalErrorV::Function(ErrorV::NotEnoughParams))
        } else {
            Ok(Value::Num(div_bits(ln_bits(ns[1]), ln_bits(ns[0]))))
        }
    } else if is_builtin_fn(name) {
        if ns.len() < 1 {
            Err(EvalErrorV::Function(ErrorV::NotEnoughParams))
        } else {
            Ok(Value::Num(unary_builtin(name, ns[0])))
        }
    } else {
        Err(EvalErrorV::UnknownFunction(name))
    }
}

/// Runs the builtin function bound to `name` on the given arguments.
pub fn apply_builtin(name: &str, args: Args) -> (r: Result<Value, EvalError>)
    ensures
        eres_view(r) == builtin_apply(name@, args@),
{
    let ghost gargs = args@;
    if str_eq(name, "max") {
        let ns = match args.nums(0) {
            Ok(v) => v,
            Err(e) => {
                return Err(EvalError::Function(e));
            },
        };
        let mut acc = NAN_BITS;
        let mut i: usize = 0;
        while i < ns.len()
            invariant
                ns@ == nums_of(gargs),
                0 <= i <= ns@.len(),
                acc == fold_max(ns@.take(i as int)),
            decreases ns@.len() - i,
        {
            proof {
                assert(ns@.take(i + 1).drop_last() =~= ns@.take(i as int));
            }
            acc = f64_max(acc, ns[i]);
            i += 1;
        }
        proof {
            assert(ns@.take(ns@.len() as int) =~= ns@);
        }
        Ok(Value::Num(acc))
    } else if str_eq(name, "min") {
        let ns = match args.nums(0) {
            Ok(v) => v,
            Err(e) => {
                return Err(EvalError::Function(e));
            },
        };
        let mut acc = NAN_BITS;
        let mut i: usize = 0;
        while i < ns.len()
            invariant
                ns@ == nums_of(gargs),
                0 <= i <= ns@.len(),
                acc == fold_min(ns@.take(i as int)),
            decreases ns@.len() - i,
        {
            proof {
                assert(ns@.take(i + 1).drop_last() =~= ns@.take(i as int));
            }
            acc = f64_min(acc, ns[i]);
            i += 1;
        }
        proof {
            assert(ns@.take(ns@.len() as int) =~= ns@);
        }
        Ok(Value::Num(acc))
    } else if str_eq(name, "log") {
        match args.nums(2) {
            Ok(ns) => Ok(Value::Num(f64_div(f64_ln(ns[1]), f64_ln(ns[0])))),
            Err(e) => Err(EvalError::Function(e)),
        }
    } else if str_eq(name, "abs") {
        match args.nums(1) {
            Ok(ns) => Ok(Value::Num(f64_abs(ns[0]))),
            Err(e) => Err(EvalError::Function(e)),
        }
    } else if str_eq(name, "sqrt") {
        match args.nums(1) {
            Ok(ns) => Ok(Value::Num(f64_sqrt(ns[0]))),
            Err(e) => Err(EvalError::Function(e)),
        }
    } else if str_eq(name, "cbrt") {
        match args.nums(1) {
            Ok(ns) => Ok(Value::Num(f64_cbrt(ns[0]))),
            Err(e) => Err(EvalError::Function(e)),
        }
    } else if str_eq(name, "sin") {
        match args.nums(1) {
            Ok(ns) => Ok(Value::Num(f64_sin(to_radians(ns[0])))),
            Err(e) => Err(EvalError::Function(e)),
        }
    } else if str_eq(name, "cos") {
        match args.nums(1) {
            Ok(ns) => Ok(Value::Num(f64_cos(to_radians(ns[0])))),
            Err(e) => Err(EvalError::Function(e)),
        }
    } else if str_eq(name, "tan") {
        match args.nums(1) {
            Ok(ns) => Ok(Value::Num(f64_tan(to_radians(ns[0])))),
            Err(e) => Err(EvalError::Function(e)),
        }
    } else if str_eq(name, "log_10") {
        match args.nums(1) {
            Ok(ns) => Ok(Value::Num(f64_log10(ns[0]))),
            Err(e) => Err(EvalError::Function(e)),
        }
    } else if str_eq(name, "ln") {
        match args.nums(1) {
            Ok(ns) => Ok(Value::Num(f64_ln(ns[0]))),
            Err(e) => Err(EvalError::Function(e)),
        }
    } else if str_eq(name, "floor") {
        match args.nums(1) {
            Ok(ns) => Ok(Value::Num(f64_floor(ns[0]))),
            Err(e) => Err(EvalError::Function(e)),
        }
    } else if str_eq(name, "ceil") {
        match args.nums(1) {
            Ok(ns) => Ok(Value::Num(f64_ceil(ns[0]))),
            Err(e) => Err(EvalError::Function(e)),
        }
    } else {
        Err(EvalError::UnknownFunction(name.to_owned()))
    }
}

/// Whether a name belongs to the builtin function registry.
pub fn lookup_builtin_fn(name: &str) -> (r: bool)
    ensures
        r == is_builtin_fn(name@),
{
    str_eq(name, "min") || str_eq(name, "max") || str_eq(name, "abs")
        || str_eq(name, "sqrt") || str_eq(name, "cbrt") || str_eq(name, "sin")
        || str_eq(name, "cos") || str_eq(name, "tan") || str_eq(name, "log")
        || str_eq(name, "log_10") || str_eq(name, "ln") || str_eq(name, "floor")
        || str_eq(name, "ceil")
}

/// Degrees turned to radians.
fn to_radians(x: u64) -> (r: u64)
    ensures
        r == rad_of(x),
{
    f64_mul(x, f64_div(PI_BITS, D180_BITS))
}

} // verus!
