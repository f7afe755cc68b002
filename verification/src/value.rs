//! Concrete variable values: a resolved variable is a boolean, a signed
//! 64-bit integer, or a string. Choice variables pick one such value from a
//! fixed list.

use vstd::prelude::*;
use crate::text::str_eq;

verus! {

/// A concrete value a variable can resolve to.
#[derive(Debug, PartialEq, Eq)]
pub enum VarValue {
    Boolean(bool),
    Integer(i64),
    Text(String),
}

/// The mathematical shape of a `VarValue`.
pub enum VarValueV {
    Boolean(bool),
    Integer(int),
    Text(Seq<char>),
}

impl View for VarValue {
    type V = VarValueV;

    open spec fn view(&self) -> VarValueV {
        match self {
            VarValue::Boolean(b) => VarValueV::Boolean(*b),
            VarValue::Integer(i) => VarValueV::Integer(*i as int),
            VarValue::Text(s) => VarValueV::Text(s@),
        }
    }
}

/// The views of a list of values.
pub open spec fn values_view(s: Seq<VarValue>) -> Seq<VarValueV> {
    s.map_values(|v: VarValue| v@)
}

impl VarValue {
    /// An equal copy.
    pub fn dup(&self) -> (r: VarValue)
        ensures
            r@ == self@,
    {
        match self {
            VarValue::Boolean(b) => VarValue::Boolean(*b),
            VarValue::Integer(i) => VarValue::Integer(*i),
            VarValue::Text(s) => VarValue::Text(s.clone()),
        }
    }

    /// True exactly when the two values are the same mathematical value.
    pub fn same(&self, other: &VarValue) -> (r: bool)
        ensures
            r == (self@ == other@),
    {
        match (self, other) {
            (VarValue::Boolean(a), VarValue::Boolean(b)) => *a == *b,
            (VarValue::Integer(a), VarValue::Integer(b)) => *a == *b,
            (VarValue::Text(a), VarValue::Text(b)) => str_eq(a.as_str(), b.as_str()),
            _ => false,
        }
    }
}

} // verus!
