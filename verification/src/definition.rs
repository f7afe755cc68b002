//! The declarative definition a template exposes: an ordered list of
//! variables, each with a name, a kind, a default, for choice variables a
//! list of allowed values, and an optional display prompt.

use vstd::prelude::*;
use crate::value::{VarValue, VarValueV, values_view};

verus! {

/// The kind a declared variable can have.
#[derive(Clone, Copy, Debug, PartialEq, Eq, Structural)]
pub enum VarKind {
    Boolean,
    Text,
    Integer,
    Choice,
}

/// One declared variable.
#[derive(Debug, PartialEq, Eq)]
pub struct VariableDefinition {
    pub name: String,
    pub kind: VarKind,
    pub default: VarValue,
    /// The allowed values; meaningful only for `Choice` variables, empty
    /// for the other kinds.
    pub choices: Vec<VarValue>,
    /// The display prompt, when the definition gives one.
    pub prompt: Option<String>,
}

/// The mathematical shape of a declared variable.
pub struct VarDefV {
    pub name: Seq<char>,
    pub kind: VarKind,
    pub default: VarValueV,
    pub choices: Seq<VarValueV>,
    pub prompt: Option<Seq<char>>,
}

impl View for VariableDefinition {
    type V = VarDefV;

    open spec fn view(&self) -> VarDefV {
        VarDefV {
            name: self.name@,
            kind: self.kind,
            default: self.default@,
            choices: values_view(self.choices@),
            prompt: match self.prompt {
                Some(p) => Some(p@),
                None => None,
            },
        }
    }
}

/// An ordered list of declared variables; the order is the prompting order.
#[derive(Debug, PartialEq, Eq)]
pub struct Definition {
    pub variables: Vec<VariableDefinition>,
}

/// The views of a list of declared variables.
pub open spec fn vars_view(s: Seq<VariableDefinition>) -> Seq<VarDefV> {
    s.map_values(|v: VariableDefinition| v@)
}

impl View for Definition {
    type V = Seq<VarDefV>;

    open spec fn view(&self) -> Seq<VarDefV> {
        vars_view(self.variables@)
    }
}

/// The declared kind admits the value.
pub open spec fn kind_matches(k: VarKind, v: VarValueV) -> bool {
    match k {
        VarKind::Boolean => v is Boolean,
        VarKind::Text => v is Text,
        VarKind::Integer => v is Integer,
        VarKind::Choice => true,
    }
}

/// The variable's default matches its declared kind.
pub open spec fn var_well_typed(v: VarDefV) -> bool {
    kind_matches(v.kind, v.default)
}

/// Every variable's default matches its declared kind.
pub open spec fn def_well_typed(vars: Seq<VarDefV>) -> bool {
    forall|i: int| 0 <= i < vars.len() ==> var_well_typed(#[trigger] vars[i])
}

/// Checks that the declared kind admits the value, as `kind_matches` says.
pub fn check_kind_matches(k: VarKind, v: &VarValue) -> (r: bool)
    ensures
        r == kind_matches(k, v@),
{
    match k {
        VarKind::Boolean => matches!(v, VarValue::Boolean(_)),
        VarKind::Text => matches!(v, VarValue::Text(_)),
        VarKind::Integer => matches!(v, VarValue::Integer(_)),
        VarKind::Choice => true,
    }
}

} // verus!
