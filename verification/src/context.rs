//! The context builder: resolves every declared variable exactly once, in
//! declaration order, into one ordered name-to-value mapping. One boolean
//! switch, decided once for the whole run, picks between no-input mode
//! (every variable takes its default, no line of input is read) and
//! interactive mode (each variable is resolved against the input lines by
//! the prompt engine's retry discipline).

use vstd::prelude::*;
use crate::definition::{Definition, VarDefV, VarKind, def_well_typed, var_well_typed};
use crate::prompt::{
    PromptError,
    lines_view,
    bool_resolution,
    string_resolution,
    integer_resolution,
    choice_resolution,
    ask_bool,
    ask_string,
    ask_integer,
    ask_choices,
};
use crate::value::{VarValue, VarValueV};

verus! {

/// The resolved context: one (name, value) entry per declared variable, in
/// declaration order.
#[derive(Debug)]
pub struct ResolvedContext {
    pub entries: Vec<(String, VarValue)>,
}

/// The views of a list of context entries.
pub open spec fn entries_view(s: Seq<(String, VarValue)>) -> Seq<(Seq<char>, VarValueV)> {
    s.map_values(|e: (String, VarValue)| (e.0@, e.1@))
}

impl View for ResolvedContext {
    type V = Seq<(Seq<char>, VarValueV)>;

    open spec fn view(&self) -> Seq<(Seq<char>, VarValueV)> {
        entries_view(self.entries@)
    }
}

/// The defaults map: every variable's name paired with its default, in
/// declaration order.
pub open spec fn defaults_of(vars: Seq<VarDefV>) -> Seq<(Seq<char>, VarValueV)> {
    vars.map_values(|v: VarDefV| (v.name, v.default))
}

/// What resolving one variable against the input lines yields: the prompt
/// operation matching its kind, applied with its default (and, for a
/// choice variable, its choices).
pub open spec fn var_resolution(v: VarDefV, lines: Seq<Seq<char>>) -> Option<(VarValueV, int)> {
    match v.kind {
        VarKind::Boolean => match bool_resolution(lines, v.default->Boolean_0) {
            Some(p) => Some((VarValueV::Boolean(p.0), p.1)),
            None => None,
        },
        VarKind::Text => match string_resolution(lines, v.default->Text_0) {
            Some(p) => Some((VarValueV::Text(p.0), p.1)),
            None => None,
        },
        VarKind::Integer => match integer_resolution(lines, v.default->Integer_0) {
            Some(p) => Some((VarValueV::Integer(p.0), p.1)),
            None => None,
        },
        VarKind::Choice => choice_resolution(lines, v.default, v.choices),
    }
}

/// What interactive resolution of the whole definition yields: each
/// variable in declaration order, each consuming the lines its resolution
/// read; `None` where the lines run out before every variable resolves.
pub open spec fn context_resolution(vars: Seq<VarDefV>, lines: Seq<Seq<char>>) -> Option<
    (Seq<(Seq<char>, VarValueV)>, int),
>
    decreases vars.len(),
{
    if vars.len() == 0 {
        Some((Seq::empty(), 0))
    } else {
        match var_resolution(vars[0], lines) {
            None => None,
            Some(p) => match context_resolution(vars.drop_first(), lines.skip(p.1)) {
                None => None,
                Some(q) => Some((seq![(vars[0].name, p.0)] + q.0, p.1 + q.1)),
            },
        }
    }
}

/// Builds the no-input context: the defaults map, exactly. No prompt
/// operation is involved and no line of input is read.
#[verifier::loop_isolation(false)]
pub fn build_default_context(def: &Definition) -> (r: ResolvedContext)
    ensures
        r@ == defaults_of(def@),
{
    let ghost dv = def@;
    let mut entries: Vec<(String, VarValue)> = Vec::new();
    let mut i: usize = 0;
    proof {
        assert(entries_view(entries@) =~= defaults_of(dv.take(0)));
    }
    while i < def.variables.len()
        invariant
            0 <= i <= dv.len(),
            entries_view(entries@) == defaults_of(dv.take(i as int)),
        decreases dv.len() - i,
    {
        proof {
            assert(dv[i as int] == def.variables@[i as int]@);
        }
        let ghost base = entries@;
        entries.push((def.variables[i].name.clone(), def.variables[i].default.dup()));
        proof {
            assert(entries_view(entries@) =~= entries_view(base).push(
                (dv[i as int].name, dv[i as int].default),
            ));
            assert(defaults_of(dv.take(i + 1)) =~= defaults_of(dv.take(i as int)).push(
                (dv[i as int].name, dv[i as int].default),
            ));
        }
        i = i + 1;
    }
    proof {
        assert(dv.take(i as int) =~= dv);
    }
    ResolvedContext { entries }
}

/// Builds the context interactively, as `context_resolution` says: each
/// variable is resolved in declaration order by the prompt operation of
/// its kind, reading lines from left to right; fails exactly where the
/// lines run out before every variable resolves.
#[verifier::loop_isolation(false)]
pub fn build_interactive_context(def: &Definition, lines: &Vec<String>) -> (r: Result<
    ResolvedContext,
    PromptError,
>)
    requires
        def_well_typed(def@),
    ensures
        ({
            let cr = context_resolution(def@, lines_view(lines@));
            match r {
                Ok(c) => cr is Some && c@ == cr->Some_0.0,
                Err(_) => cr is None,
            }
        }),
{
    let ghost dv = def@;
    let ghost lv = lines_view(lines@);
    let mut entries: Vec<(String, VarValue)> = Vec::new();
    let mut pos: usize = 0;
    let mut i: usize = 0;
    proof {
        assert(dv.skip(0) =~= dv);
        assert(lv.skip(0) =~= lv);
        if context_resolution(dv, lv) is Some {
            assert(entries_view(entries@) + context_resolution(dv, lv)->Some_0.0
                =~= context_resolution(dv, lv)->Some_0.0);
        }
    }
    while i < def.variables.len()
        invariant
            0 <= i <= dv.len(),
            0 <= pos <= lines.len(),
            context_resolution(dv, lv) == match context_resolution(
                dv.skip(i as int),
                lv.skip(pos as int),
            ) {
                Some(q) => Some(
                    (entries_view(entries@) + q.0, pos + q.1),
                ),
                None => None::<(Seq<(Seq<char>, VarValueV)>, int)>,
            },
        decreases dv.len() - i,
    {
        let var = &def.variables[i];
        proof {
            assert(dv[i as int] == def.variables@[i as int]@);
            assert(var_well_typed(dv[i as int]));
            assert(dv.skip(i as int)[0] == dv[i as int]);
            assert(dv.skip(i as int).drop_first() =~= dv.skip(i + 1));
        }
        let step: Result<(VarValue, usize), PromptError> = match var.kind {
            VarKind::Boolean => {
                let d: bool = match &var.default {
                    VarValue::Boolean(b) => *b,
                    _ => {
                        proof {
                            assert(false);
                        }
                        false
                    },
                };
                match ask_bool(lines, pos, d) {
                    Ok(p) => Ok((VarValue::Boolean(p.0), p.1)),
                    Err(e) => Err(e),
                }
            },
            VarKind::Text => {
                let step_r: Result<(VarValue, usize), PromptError> = match &var.default {
                    VarValue::Text(s) => match ask_string(lines, pos, s.as_str()) {
                        Ok(p) => Ok((VarValue::Text(p.0), p.1)),
                        Err(e) => Err(e),
                    },
                    _ => {
                        proof {
                            assert(false);
                        }
                        Err(PromptError::UnreadableInput)
                    },
                };
                step_r
            },
            VarKind::Integer => {
                let d: i64 = match &var.default {
                    VarValue::Integer(n) => *n,
                    _ => {
                        proof {
                            assert(false);
                        }
                        0
                    },
                };
                match ask_integer(lines, pos, d) {
                    Ok(p) => Ok((VarValue::Integer(p.0), p.1)),
                    Err(e) => Err(e),
                }
            },
            VarKind::Choice => {
                match ask_choices(lines, pos, &var.default, &var.choices) {
                    Ok(p) => Ok(p),
                    Err(e) => Err(e),
                }
            },
        };
        proof {
            assert(lv.skip(pos as int).skip(step_count(step, pos)) =~= lv.skip(
                step_next(step, pos),
            ));
        }
        match step {
            Err(e) => {
                return Err(e);
            },
            Ok(p) => {
                let ghost base = entries@;
                entries.push((var.name.clone(), p.0));
                proof {
                    assert(entries_view(entries@) =~= entries_view(base).push(
                        (var.name@, p.0@),
                    ));
                    if context_resolution(dv.skip(i + 1), lv.skip(p.1 as int)) is Some {
                        let q0 = context_resolution(dv.skip(i + 1), lv.skip(p.1 as int))->Some_0.0;
                        assert(entries_view(base) + (seq![(dv[i as int].name, p.0@)] + q0)
                            =~= entries_view(entries@) + q0);
                    }
                }
                pos = p.1;
                i = i + 1;
            },
        }
    }
    proof {
        assert(dv.skip(i as int).len() == 0);
        assert(entries_view(entries@) + Seq::<(Seq<char>, VarValueV)>::empty() =~= entries_view(
            entries@,
        ));
    }
    Ok(ResolvedContext { entries })
}

/// The position after a resolution step: unchanged on failure.
spec fn step_next(step: Result<(VarValue, usize), PromptError>, pos: usize) -> int {
    match step {
        Ok(p) => p.1 as int,
        Err(_) => pos as int,
    }
}

/// The lines a resolution step read: none on failure.
spec fn step_count(step: Result<(VarValue, usize), PromptError>, pos: usize) -> int {
    match step {
        Ok(p) => p.1 - pos as int,
        Err(_) => 0,
    }
}

/// Builds the context, in the mode the one switch picks: in no-input mode
/// the result is the defaults map exactly, whatever the lines hold and
/// without reading any; in interactive mode the result is what
/// `context_resolution` says of the lines.
pub fn build_context(def: &Definition, no_input: bool, lines: &Vec<String>) -> (r: Result<
    ResolvedContext,
    PromptError,
>)
    requires
        !no_input ==> def_well_typed(def@),
    ensures
        no_input ==> r is Ok && r->Ok_0@ == defaults_of(def@),
        !no_input ==> ({
            let cr = context_resolution(def@, lines_view(lines@));
            match r {
                Ok(c) => cr is Some && c@ == cr->Some_0.0,
                Err(_) => cr is None,
            }
        }),
{
    if no_input {
        Ok(build_default_context(def))
    } else {
        build_interactive_context(def, lines)
    }
}

/// The names of a context's entries, in order.
pub open spec fn context_names(entries: Seq<(Seq<char>, VarValueV)>) -> Seq<Seq<char>> {
    entries.map_values(|e: (Seq<char>, VarValueV)| e.0)
}

/// The names of a definition's variables, in order.
pub open spec fn definition_names(vars: Seq<VarDefV>) -> Seq<Seq<char>> {
    vars.map_values(|v: VarDefV| v.name)
}

/// A resolved context's keys are exactly the definition's variable names,
/// in declaration order: none is skipped, none is added, none is resolved
/// twice. This holds of the defaults map and of any interactive
/// resolution.
pub proof fn lemma_context_keys(vars: Seq<VarDefV>, lines: Seq<Seq<char>>)
    ensures
        context_names(defaults_of(vars)) =~= definition_names(vars),
        context_resolution(vars, lines) is Some ==> context_names(
            context_resolution(vars, lines)->Some_0.0,
        ) =~= definition_names(vars),
    decreases vars.len(),
{
    if vars.len() > 0 && context_resolution(vars, lines) is Some {
        let p = var_resolution(vars[0], lines)->Some_0;
        let sub = context_resolution(vars.drop_first(), lines.skip(p.1));
        lemma_context_keys(vars.drop_first(), lines.skip(p.1));
        let e = context_resolution(vars, lines)->Some_0.0;
        assert(e == seq![(vars[0].name, p.0)] + sub->Some_0.0);
        assert(sub->Some_0.0.len() == vars.len() - 1) by {
            assert(context_names(sub->Some_0.0) =~= definition_names(vars.drop_first()));
        }
        assert forall|k: int| 0 <= k < e.len() implies (#[trigger] context_names(e)[k])
            == definition_names(vars)[k] by {
            if k > 0 {
                assert(e[k] == sub->Some_0.0[k - 1]);
                assert(context_names(sub->Some_0.0)[k - 1] == definition_names(
                    vars.drop_first(),
                )[k - 1]);
                assert(definition_names(vars.drop_first())[k - 1] == vars.drop_first()[k
                    - 1].name);
            }
        }
    }
}

} // verus!
