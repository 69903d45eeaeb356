use vstd::prelude::*;

verus! {

/// A runtime value: `Num` holds the IEEE-754 binary64 bit pattern of a
/// number, `Bool` a boolean. Only evaluation produces values.
///
/// The derived `==` compares bit patterns; the `==` operator of the
/// expression language compares numbers by IEEE equality instead (see
/// `Operator::eval`), which differs on NaN (never equal to itself) and on the
/// two zeros (equal to each other).
#[derive(Debug, Clone, Copy, PartialEq, Eq, Structural)]
pub enum Value {
    Num(u64),
    Bool(bool),
}

} // verus!
