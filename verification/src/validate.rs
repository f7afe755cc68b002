//! The validator: checks a definition for internal consistency and reports
//! every defect, in declaration order. It is pure; it never resolves a
//! variable. An empty report means the definition is semantically valid.

use vstd::prelude::*;
use crate::definition::{Definition, VarDefV, VarKind, kind_matches, check_kind_matches};
use crate::text::str_eq;

verus! {

/// What is wrong with a variable.
#[derive(Clone, Copy, Debug, PartialEq, Eq, Structural)]
pub enum IssueReason {
    /// An earlier variable has the same name.
    DuplicateName,
    /// The default does not match the declared kind.
    DefaultTypeMismatch,
    /// A choice variable's default is not one of its choices.
    DefaultNotInChoices,
    /// A choice variable has no choices.
    EmptyChoices,
}

/// One detected defect: the variable's name and the reason.
#[derive(Debug)]
pub struct ValidationIssue {
    pub name: String,
    pub reason: IssueReason,
}

/// The mathematical shape of a `ValidationIssue`.
pub struct IssueV {
    pub name: Seq<char>,
    pub reason: IssueReason,
}

impl View for ValidationIssue {
    type V = IssueV;

    open spec fn view(&self) -> IssueV {
        IssueV { name: self.name@, reason: self.reason }
    }
}

/// The views of a list of issues.
pub open spec fn issues_view(s: Seq<ValidationIssue>) -> Seq<IssueV> {
    s.map_values(|i: ValidationIssue| i@)
}

/// Some variable before position `j` has the same name as the one at `i`.
pub open spec fn dup_before(vars: Seq<VarDefV>, i: int, j: int) -> bool {
    exists|k: int| 0 <= k < j && (#[trigger] vars[k]).name == vars[i].name
}

/// The issues the variable at position `i` contributes, in report order:
/// a duplicated name, a mistyped default, a default missing from the
/// choices, an empty choice list. A choice variable with no choices gets
/// the one `EmptyChoices` issue; membership of its default is not also
/// reported.
pub open spec fn issues_for(vars: Seq<VarDefV>, i: int) -> Seq<IssueV> {
    let v = vars[i];
    (if dup_before(vars, i, i) {
        seq![IssueV { name: v.name, reason: IssueReason::DuplicateName }]
    } else {
        Seq::empty()
    }) + (if !kind_matches(v.kind, v.default) {
        seq![IssueV { name: v.name, reason: IssueReason::DefaultTypeMismatch }]
    } else {
        Seq::empty()
    }) + (if v.kind is Choice && v.choices.len() > 0 && !v.choices.contains(v.default) {
        seq![IssueV { name: v.name, reason: IssueReason::DefaultNotInChoices }]
    } else {
        Seq::empty()
    }) + (if v.kind is Choice && v.choices.len() == 0 {
        seq![IssueV { name: v.name, reason: IssueReason::EmptyChoices }]
    } else {
        Seq::empty()
    })
}

/// The issues of the first `n` variables, in declaration order.
pub open spec fn issues_upto(vars: Seq<VarDefV>, n: int) -> Seq<IssueV>
    decreases n,
{
    if n <= 0 {
        Seq::empty()
    } else {
        issues_upto(vars, n - 1) + issues_for(vars, n - 1)
    }
}

/// Every issue of the definition, in declaration order.
pub open spec fn definition_issues(vars: Seq<VarDefV>) -> Seq<IssueV> {
    issues_upto(vars, vars.len() as int)
}

/// Checks the definition and reports every defect, as `definition_issues`
/// says.
#[verifier::loop_isolation(false)]
pub fn validate(def: &Definition) -> (issues: Vec<ValidationIssue>)
    ensures
        issues_view(issues@) == definition_issues(def@),
{
    let vars = &def.variables;
    let ghost dv = def@;
    let mut out: Vec<ValidationIssue> = Vec::new();
    let mut i: usize = 0;
    proof {
        assert(issues_view(out@) =~= issues_upto(dv, 0));
    }
    while i < vars.len()
        invariant
            0 <= i <= vars.len(),
            dv == def@,
            dv.len() == vars@.len(),
            issues_view(out@) == issues_upto(dv, i as int),
        decreases vars.len() - i,
    {
        let ghost base = out@;
        proof {
            assert(dv[i as int] == vars@[i as int]@);
        }
        let mut dup = false;
        let mut j: usize = 0;
        while j < i
            invariant
                0 <= j <= i < vars.len(),
                dv == def@,
                dv.len() == vars@.len(),
                dup == dup_before(dv, i as int, j as int),
            decreases i - j,
        {
            proof {
                assert(dv[j as int] == vars@[j as int]@);
                assert(dv[i as int] == vars@[i as int]@);
            }
            if str_eq(vars[j].name.as_str(), vars[i].name.as_str()) {
                proof {
                    assert((dv[j as int]).name == dv[i as int].name);
                }
                dup = true;
            }
            j = j + 1;
        }
        if dup {
            out.push(
                ValidationIssue { name: vars[i].name.clone(), reason: IssueReason::DuplicateName },
            );
        }
        if !check_kind_matches(vars[i].kind, &vars[i].default) {
            out.push(
                ValidationIssue {
                    name: vars[i].name.clone(),
                    reason: IssueReason::DefaultTypeMismatch,
                },
            );
        }
        if matches!(vars[i].kind, VarKind::Choice) {
            if vars[i].choices.len() > 0 {
                let ghost cv = dv[i as int].choices;
                let ghost dvv = dv[i as int].default;
                let mut found = false;
                let mut k: usize = 0;
                while k < vars[i].choices.len()
                    invariant
                        0 <= k <= vars[i as int].choices.len(),
                        i < vars.len(),
                        dv == def@,
                        dv.len() == vars@.len(),
                        cv == dv[i as int].choices,
                        dvv == dv[i as int].default,
                        cv.len() == vars[i as int].choices@.len(),
                        found == exists|m: int| 0 <= m < k && (#[trigger] cv[m]) == dvv,
                    decreases vars[i as int].choices.len() - k,
                {
                    proof {
                        assert(dv[i as int] == vars@[i as int]@);
                        assert(cv[k as int] == vars@[i as int].choices@[k as int]@);
                    }
                    if vars[i].choices[k].same(&vars[i].default) {
                        proof {
                            assert(cv[k as int] == dvv);
                        }
                        found = true;
                    }
                    k = k + 1;
                }
                if !found {
                    out.push(
                        ValidationIssue {
                            name: vars[i].name.clone(),
                            reason: IssueReason::DefaultNotInChoices,
                        },
                    );
                }
            } else {
                proof {
                    assert(dv[i as int].choices.len() == 0);
                }
                out.push(
                    ValidationIssue {
                        name: vars[i].name.clone(),
                        reason: IssueReason::EmptyChoices,
                    },
                );
            }
        }
        proof {
            assert(issues_view(out@) =~= issues_view(base) + issues_for(dv, i as int));
            assert(issues_view(out@) =~= issues_upto(dv, i + 1));
        }
        i = i + 1;
    }
    out
}

/// What an empty report means: names are pairwise distinct, every default
/// matches its kind, and every choice variable has a non-empty choice list
/// holding its default.
pub open spec fn semantically_valid(vars: Seq<VarDefV>) -> bool {
    &&& forall|i: int, j: int|
        0 <= i < j < vars.len() ==> (#[trigger] vars[i]).name != (#[trigger] vars[j]).name
    &&& forall|i: int|
        0 <= i < vars.len() ==> kind_matches((#[trigger] vars[i]).kind, vars[i].default)
    &&& forall|i: int|
        0 <= i < vars.len() && (#[trigger] vars[i]).kind is Choice ==> vars[i].choices.len() > 0
            && vars[i].choices.contains(vars[i].default)
}

proof fn lemma_issues_upto_empty(vars: Seq<VarDefV>, n: int)
    requires
        0 <= n <= vars.len(),
    ensures
        issues_upto(vars, n).len() == 0 <==> forall|i: int|
            0 <= i < n ==> (#[trigger] issues_for(vars, i)).len() == 0,
    decreases n,
{
    if n > 0 {
        lemma_issues_upto_empty(vars, n - 1);
    }
}

/// The validator reports nothing exactly of the semantically valid
/// definitions.
pub proof fn lemma_no_issues_iff_valid(vars: Seq<VarDefV>)
    ensures
        definition_issues(vars).len() == 0 <==> semantically_valid(vars),
{
    lemma_issues_upto_empty(vars, vars.len() as int);
    if definition_issues(vars).len() == 0 {
        assert forall|i: int, j: int|
            0 <= i < j < vars.len() implies (#[trigger] vars[i]).name != (
        #[trigger] vars[j]).name by {
            assert(issues_for(vars, j).len() == 0);
            if vars[i].name == vars[j].name {
                assert(dup_before(vars, j, j));
            }
        }
        assert forall|i: int| 0 <= i < vars.len() implies kind_matches(
            (#[trigger] vars[i]).kind,
            vars[i].default,
        ) by {
            assert(issues_for(vars, i).len() == 0);
        }
        assert forall|i: int|
            0 <= i < vars.len() && (#[trigger] vars[i]).kind is Choice implies vars[
            i].choices.len() > 0 && vars[i].choices.contains(vars[i].default) by {
            assert(issues_for(vars, i).len() == 0);
        }
    }
    if semantically_valid(vars) {
        assert forall|i: int| 0 <= i < vars.len() implies (#[trigger] issues_for(
            vars,
            i,
        )).len() == 0 by {
            if dup_before(vars, i, i) {
                let k = choose|k: int| 0 <= k < i && (#[trigger] vars[k]).name == vars[i].name;
                assert(vars[k].name != vars[i].name);
            }
        }
    }
}

} // verus!
