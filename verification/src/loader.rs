//! The definition loader: reads the parsed shape of the definition file
//! into a `Definition`, checking the grammar of each variable: a `type`
//! field naming one of the four kinds, a `default` scalar matching that
//! kind, a `choices` list exactly for choice variables, and an optional
//! `prompt` string. Semantic checks beyond this grammar belong to the
//! validator.
//!
//! A value here is a boolean, a signed 64-bit integer or a string: that
//! is the whole value model of this library, so a float, datetime or
//! nested structure in `default` or `choices` position is rejected at
//! load (`BadDefault`, `BadChoices`) rather than carried along.

use vstd::prelude::*;
use crate::definition::{
    Definition,
    VariableDefinition,
    VarDefV,
    VarKind,
    kind_matches,
    var_well_typed,
    def_well_typed,
    check_kind_matches,
    vars_view,
};
use crate::raw::{
    RawScalar,
    RawField,
    RawEntry,
    RawScalarV,
    RawFieldV,
    RawEntryV,
    raw_entries_view,
    parse_toml,
    toml_definition_of,
};
use crate::value::{VarValue, VarValueV, values_view};
use crate::text::str_eq;

verus! {

/// Why a definition file fails to load.
#[derive(Debug, PartialEq, Eq)]
pub enum ParseError {
    /// The text is not valid TOML.
    Syntax,
    /// The named top-level entry is not a table.
    VariableNotTable(String),
    /// The named variable has no `type` field.
    MissingType(String),
    /// The named variable's `type` is not one of the four kind names.
    UnknownType(String),
    /// The named variable has no `default` field.
    MissingDefault(String),
    /// The named variable's `default` is no scalar of its declared kind.
    BadDefault(String),
    /// The named choice variable has no `choices` field.
    MissingChoices(String),
    /// The named variable's `choices` is not a list of scalars.
    BadChoices(String),
    /// The named variable's `prompt` is not a string.
    BadPrompt(String),
}

/// The mathematical shape of a `ParseError`.
pub enum ParseErrorV {
    Syntax,
    VariableNotTable(Seq<char>),
    MissingType(Seq<char>),
    UnknownType(Seq<char>),
    MissingDefault(Seq<char>),
    BadDefault(Seq<char>),
    MissingChoices(Seq<char>),
    BadChoices(Seq<char>),
    BadPrompt(Seq<char>),
}

impl View for ParseError {
    type V = ParseErrorV;

    open spec fn view(&self) -> ParseErrorV {
        match self {
            ParseError::Syntax => ParseErrorV::Syntax,
            ParseError::VariableNotTable(n) => ParseErrorV::VariableNotTable(n@),
            ParseError::MissingType(n) => ParseErrorV::MissingType(n@),
            ParseError::UnknownType(n) => ParseErrorV::UnknownType(n@),
            ParseError::MissingDefault(n) => ParseErrorV::MissingDefault(n@),
            ParseError::BadDefault(n) => ParseErrorV::BadDefault(n@),
            ParseError::MissingChoices(n) => ParseErrorV::MissingChoices(n@),
            ParseError::BadChoices(n) => ParseErrorV::BadChoices(n@),
            ParseError::BadPrompt(n) => ParseErrorV::BadPrompt(n@),
        }
    }
}

/// The first field of the given name, in field order.
pub open spec fn field_lookup(fields: Seq<(Seq<char>, RawFieldV)>, key: Seq<char>) -> Option<
    RawFieldV,
>
    decreases fields.len(),
{
    if fields.len() == 0 {
        None
    } else if fields[0].0 == key {
        Some(fields[0].1)
    } else {
        field_lookup(fields.drop_first(), key)
    }
}

/// The value a scalar field carries, if it is of a kind a variable can hold.
pub open spec fn scalar_value(s: RawScalarV) -> Option<VarValueV> {
    match s {
        RawScalarV::Boolean(b) => Some(VarValueV::Boolean(b)),
        RawScalarV::Integer(i) => Some(VarValueV::Integer(i)),
        RawScalarV::Text(t) => Some(VarValueV::Text(t)),
        RawScalarV::Other => None,
    }
}

/// The values of a list of scalars; `None` where any member is no scalar
/// value.
pub open spec fn scalar_list_values(l: Seq<RawScalarV>) -> Option<Seq<VarValueV>>
    decreases l.len(),
{
    if l.len() == 0 {
        Some(Seq::empty())
    } else {
        match scalar_value(l[0]) {
            None => None,
            Some(v) => match scalar_list_values(l.drop_first()) {
                None => None,
                Some(rest) => Some(seq![v] + rest),
            },
        }
    }
}

/// The kind a `type` field names.
pub open spec fn kind_named(t: Seq<char>) -> Option<VarKind> {
    if t == "bool"@ {
        Some(VarKind::Boolean)
    } else if t == "string"@ {
        Some(VarKind::Text)
    } else if t == "int"@ {
        Some(VarKind::Integer)
    } else if t == "choice"@ {
        Some(VarKind::Choice)
    } else {
        None
    }
}

/// The last step of the variable grammar: an optional `prompt` string.
pub open spec fn var_with_choices(
    name: Seq<char>,
    fields: Seq<(Seq<char>, RawFieldV)>,
    kind: VarKind,
    default: VarValueV,
    choices: Seq<VarValueV>,
) -> Result<VarDefV, ParseErrorV> {
    match field_lookup(fields, "prompt"@) {
        None => Ok(VarDefV { name, kind, default, choices, prompt: None }),
        Some(pf) => match pf {
            RawFieldV::Scalar(RawScalarV::Text(p)) => Ok(
                VarDefV { name, kind, default, choices, prompt: Some(p) },
            ),
            _ => Err(ParseErrorV::BadPrompt(name)),
        },
    }
}

/// The `choices` step of the variable grammar: a list of scalars, present
/// exactly for choice variables.
pub open spec fn var_with_default(
    name: Seq<char>,
    fields: Seq<(Seq<char>, RawFieldV)>,
    kind: VarKind,
    default: VarValueV,
) -> Result<VarDefV, ParseErrorV> {
    if kind is Choice {
        match field_lookup(fields, "choices"@) {
            None => Err(ParseErrorV::MissingChoices(name)),
            Some(cf) => match cf {
                RawFieldV::List(l) => match scalar_list_values(l) {
                    None => Err(ParseErrorV::BadChoices(name)),
                    Some(cs) => var_with_choices(name, fields, kind, default, cs),
                },
                _ => Err(ParseErrorV::BadChoices(name)),
            },
        }
    } else {
        var_with_choices(name, fields, kind, default, Seq::empty())
    }
}

/// The `default` step of the variable grammar: a scalar matching the
/// declared kind.
pub open spec fn var_with_kind(
    name: Seq<char>,
    fields: Seq<(Seq<char>, RawFieldV)>,
    kind: VarKind,
) -> Result<VarDefV, ParseErrorV> {
    match field_lookup(fields, "default"@) {
        None => Err(ParseErrorV::MissingDefault(name)),
        Some(df) => match df {
            RawFieldV::Scalar(s) => match scalar_value(s) {
                None => Err(ParseErrorV::BadDefault(name)),
                Some(dv) => if kind_matches(kind, dv) {
                    var_with_default(name, fields, kind, dv)
                } else {
                    Err(ParseErrorV::BadDefault(name))
                },
            },
            _ => Err(ParseErrorV::BadDefault(name)),
        },
    }
}

/// What one variable's table of fields loads to: the whole grammar of one
/// variable, or the first defect found, in the order type, default,
/// choices, prompt.
pub open spec fn var_from_fields(name: Seq<char>, fields: Seq<(Seq<char>, RawFieldV)>) -> Result<
    VarDefV,
    ParseErrorV,
> {
    match field_lookup(fields, "type"@) {
        None => Err(ParseErrorV::MissingType(name)),
        Some(tf) => match tf {
            RawFieldV::Scalar(RawScalarV::Text(tn)) => match kind_named(tn) {
                None => Err(ParseErrorV::UnknownType(name)),
                Some(kind) => var_with_kind(name, fields, kind),
            },
            _ => Err(ParseErrorV::UnknownType(name)),
        },
    }
}

/// What the whole top-level table loads to: each entry must be a table
/// that follows the variable grammar; the first defect, in document order,
/// fails the load.
pub open spec fn definition_of(entries: Seq<(Seq<char>, RawEntryV)>) -> Result<
    Seq<VarDefV>,
    ParseErrorV,
>
    decreases entries.len(),
{
    if entries.len() == 0 {
        Ok(Seq::empty())
    } else {
        match entries[0].1 {
            RawEntryV::NotTable => Err(ParseErrorV::VariableNotTable(entries[0].0)),
            RawEntryV::Fields(fs) => match var_from_fields(entries[0].0, fs) {
                Err(e) => Err(e),
                Ok(v) => match definition_of(entries.drop_first()) {
                    Err(e) => Err(e),
                    Ok(rest) => Ok(seq![v] + rest),
                },
            },
        }
    }
}

/// A loaded variable's default always matches its kind.
proof fn lemma_var_from_fields_well_typed(name: Seq<char>, fields: Seq<(Seq<char>, RawFieldV)>)
    ensures
        var_from_fields(name, fields) is Ok ==> var_well_typed(var_from_fields(name, fields)->Ok_0),
{
}

/// A loaded definition is well-typed.
pub proof fn lemma_definition_of_well_typed(entries: Seq<(Seq<char>, RawEntryV)>)
    ensures
        definition_of(entries) is Ok ==> def_well_typed(definition_of(entries)->Ok_0),
    decreases entries.len(),
{
    if entries.len() > 0 && definition_of(entries) is Ok {
        match entries[0].1 {
            RawEntryV::NotTable => {},
            RawEntryV::Fields(fs) => {
                lemma_var_from_fields_well_typed(entries[0].0, fs);
                lemma_definition_of_well_typed(entries.drop_first());
            },
        }
    }
}

/// The views of a list of fields.
pub open spec fn fields_view(s: Seq<(String, RawField)>) -> Seq<(Seq<char>, RawFieldV)> {
    s.map_values(|f: (String, RawField)| (f.0@, f.1@))
}

proof fn lemma_field_lookup_skip(fields: Seq<(Seq<char>, RawFieldV)>, key: Seq<char>, j: int)
    requires
        0 <= j <= fields.len(),
        forall|k: int| 0 <= k < j ==> (#[trigger] fields[k]).0 != key,
    ensures
        field_lookup(fields, key) == field_lookup(fields.skip(j), key),
    decreases j,
{
    if j == 0 {
        assert(fields.skip(0) =~= fields);
    } else {
        assert(fields.drop_first() =~= fields.skip(1));
        lemma_field_lookup_skip(fields.drop_first(), key, j - 1);
        assert(fields.drop_first().skip(j - 1) =~= fields.skip(j));
    }
}

/// Finds the first field of the given name, as `field_lookup` says.
fn lookup_field<'a>(fields: &'a Vec<(String, RawField)>, key: &str) -> (r: Option<&'a RawField>)
    ensures
        match r {
            Some(f) => field_lookup(fields_view(fields@), key@) == Some(f@),
            None => field_lookup(fields_view(fields@), key@) is None,
        },
{
    let ghost fv = fields_view(fields@);
    let mut i: usize = 0;
    while i < fields.len()
        invariant
            0 <= i <= fields.len(),
            fv == fields_view(fields@),
            forall|k: int| 0 <= k < i ==> (#[trigger] fv[k]).0 != key@,
        decreases fields.len() - i,
    {
        if str_eq(fields[i].0.as_str(), key) {
            proof {
                lemma_field_lookup_skip(fv, key@, i as int);
                assert(fv.skip(i as int)[0] == fv[i as int]);
            }
            return Some(&fields[i].1);
        }
        i = i + 1;
    }
    proof {
        lemma_field_lookup_skip(fv, key@, i as int);
    }
    None
}

/// Reads a scalar field's value, as `scalar_value` says.
fn scalar_to_value(s: &RawScalar) -> (r: Option<VarValue>)
    ensures
        match r {
            Some(v) => scalar_value(s@) == Some(v@),
            None => scalar_value(s@) is None,
        },
{
    match s {
        RawScalar::Boolean(b) => Some(VarValue::Boolean(*b)),
        RawScalar::Integer(i) => Some(VarValue::Integer(*i)),
        RawScalar::Text(t) => Some(VarValue::Text(t.clone())),
        RawScalar::Other => None,
    }
}

/// Reads a list of scalars, as `scalar_list_values` says.
fn list_to_values(l: &Vec<RawScalar>) -> (r: Option<Vec<VarValue>>)
    ensures
        ({
            let lv = l@.map_values(|s: RawScalar| s@);
            match r {
                Some(v) => scalar_list_values(lv) == Some(values_view(v@)),
                None => scalar_list_values(lv) is None,
            }
        }),
{
    let ghost lv = l@.map_values(|s: RawScalar| s@);
    let mut out: Vec<VarValue> = Vec::new();
    let mut i: usize = 0;
    proof {
        assert(lv.skip(0) =~= lv);
        assert(values_view(out@) =~= Seq::<VarValueV>::empty());
        if scalar_list_values(lv) is Some {
            assert(values_view(out@) + scalar_list_values(lv)->Some_0 =~= scalar_list_values(
                lv,
            )->Some_0);
        }
    }
    while i < l.len()
        invariant
            0 <= i <= l.len(),
            lv == l@.map_values(|s: RawScalar| s@),
            scalar_list_values(lv) == match scalar_list_values(lv.skip(i as int)) {
                Some(rest) => Some(values_view(out@) + rest),
                None => None::<Seq<VarValueV>>,
            },
        decreases l.len() - i,
    {
        let got = scalar_to_value(&l[i]);
        proof {
            assert(lv.skip(i as int)[0] == lv[i as int]);
            assert(lv.skip(i as int).drop_first() =~= lv.skip(i + 1));
        }
        match got {
            None => {
                return None;
            },
            Some(v) => {
                let ghost old_out = out@;
                out.push(v);
                proof {
                    assert(values_view(out@) =~= values_view(old_out).push(v@));
                    if scalar_list_values(lv.skip(i + 1)) is Some {
                        assert(values_view(old_out) + (seq![v@] + scalar_list_values(
                            lv.skip(i + 1),
                        )->Some_0) =~= values_view(out@) + scalar_list_values(
                            lv.skip(i + 1),
                        )->Some_0);
                    }
                }
                i = i + 1;
            },
        }
    }
    proof {
        assert(lv.skip(i as int).len() == 0);
        assert(values_view(out@) + Seq::<VarValueV>::empty() =~= values_view(out@));
    }
    Some(out)
}

/// Reads a `type` field's name, as `kind_named` says.
fn kind_from_name(t: &str) -> (r: Option<VarKind>)
    ensures
        r == kind_named(t@),
{
    if str_eq(t, "bool") {
        Some(VarKind::Boolean)
    } else if str_eq(t, "string") {
        Some(VarKind::Text)
    } else if str_eq(t, "int") {
        Some(VarKind::Integer)
    } else if str_eq(t, "choice") {
        Some(VarKind::Choice)
    } else {
        None
    }
}

/// Loads one variable from its table of fields, as `var_from_fields` says.
fn load_var(name: &String, fields: &Vec<(String, RawField)>) -> (r: Result<
    VariableDefinition,
    ParseError,
>)
    ensures
        match r {
            Ok(v) => var_from_fields(name@, fields_view(fields@)) == Ok::<VarDefV, ParseErrorV>(
                v@,
            ),
            Err(e) => var_from_fields(name@, fields_view(fields@)) == Err::<VarDefV, ParseErrorV>(
                e@,
            ),
        },
{
    let kind: VarKind = match lookup_field(fields, "type") {
        None => {
            return Err(ParseError::MissingType(name.clone()));
        },
        Some(tf) => match tf {
            RawField::Scalar(RawScalar::Text(tn)) => match kind_from_name(tn.as_str()) {
                None => {
                    return Err(ParseError::UnknownType(name.clone()));
                },
                Some(k) => k,
            },
            _ => {
                return Err(ParseError::UnknownType(name.clone()));
            },
        },
    };
    let default: VarValue = match lookup_field(fields, "default") {
        None => {
            return Err(ParseError::MissingDefault(name.clone()));
        },
        Some(df) => match df {
            RawField::Scalar(s) => match scalar_to_value(s) {
                None => {
                    return Err(ParseError::BadDefault(name.clone()));
                },
                Some(dv) => if check_kind_matches(kind, &dv) {
                    dv
                } else {
                    return Err(ParseError::BadDefault(name.clone()));
                },
            },
            _ => {
                return Err(ParseError::BadDefault(name.clone()));
            },
        },
    };
    let choices: Vec<VarValue> = if matches!(kind, VarKind::Choice) {
        match lookup_field(fields, "choices") {
            None => {
                return Err(ParseError::MissingChoices(name.clone()));
            },
            Some(cf) => match cf {
                RawField::List(l) => match list_to_values(l) {
                    None => {
                        return Err(ParseError::BadChoices(name.clone()));
                    },
                    Some(cs) => cs,
                },
                _ => {
                    return Err(ParseError::BadChoices(name.clone()));
                },
            },
        }
    } else {
        Vec::new()
    };
    let prompt: Option<String> = match lookup_field(fields, "prompt") {
        None => None,
        Some(pf) => match pf {
            RawField::Scalar(RawScalar::Text(p)) => Some(p.clone()),
            _ => {
                return Err(ParseError::BadPrompt(name.clone()));
            },
        },
    };
    proof {
        assert(values_view(Seq::<VarValue>::empty()) =~= Seq::<VarValueV>::empty());
    }
    Ok(VariableDefinition { name: name.clone(), kind, default, choices, prompt })
}

/// Loads a whole parsed top-level table, as `definition_of` says.
pub fn definition_from_entries(entries: &Vec<(String, RawEntry)>) -> (r: Result<
    Definition,
    ParseError,
>)
    ensures
        match r {
            Ok(d) => definition_of(raw_entries_view(entries@)) == Ok::<Seq<VarDefV>, ParseErrorV>(
                d@,
            ),
            Err(e) => definition_of(raw_entries_view(entries@)) == Err::<
                Seq<VarDefV>,
                ParseErrorV,
            >(e@),
        },
{
    let ghost ev = raw_entries_view(entries@);
    let mut out: Vec<VariableDefinition> = Vec::new();
    let mut i: usize = 0;
    proof {
        assert(ev.skip(0) =~= ev);
        assert(vars_view(out@) =~= Seq::<VarDefV>::empty());
        if definition_of(ev) is Ok {
            assert(vars_view(out@) + definition_of(ev)->Ok_0 =~= definition_of(ev)->Ok_0);
        }
    }
    while i < entries.len()
        invariant
            0 <= i <= entries.len(),
            ev == raw_entries_view(entries@),
            definition_of(ev) == match definition_of(ev.skip(i as int)) {
                Ok(rest) => Ok::<Seq<VarDefV>, ParseErrorV>(vars_view(out@) + rest),
                Err(e) => Err::<Seq<VarDefV>, ParseErrorV>(e),
            },
        decreases entries.len() - i,
    {
        proof {
            assert(ev.skip(i as int)[0] == ev[i as int]);
            assert(ev.skip(i as int).drop_first() =~= ev.skip(i + 1));
        }
        let loaded = match &entries[i].1 {
            RawEntry::NotTable => Err(ParseError::VariableNotTable(entries[i].0.clone())),
            RawEntry::Fields(fs) => load_var(&entries[i].0, fs),
        };
        match loaded {
            Err(e) => {
                return Err(e);
            },
            Ok(v) => {
                let ghost old_out = out@;
                out.push(v);
                proof {
                    assert(vars_view(out@) =~= vars_view(old_out).push(v@));
                    if definition_of(ev.skip(i + 1)) is Ok {
                        assert(vars_view(old_out) + (seq![v@] + definition_of(
                            ev.skip(i + 1),
                        )->Ok_0) =~= vars_view(out@) + definition_of(ev.skip(i + 1))->Ok_0);
                    }
                }
                i = i + 1;
            },
        }
    }
    proof {
        assert(ev.skip(i as int).len() == 0);
        assert(vars_view(out@) + Seq::<VarDefV>::empty() =~= vars_view(out@));
    }
    Ok(Definition { variables: out })
}

/// Loads a definition from the text of the definition file: parses it as
/// TOML and reads the variable grammar, as `definition_of` says of what the
/// parse yields. A loaded definition is always well-typed.
pub fn load_definition_str(text: &str) -> (r: Result<Definition, ParseError>)
    ensures
        match toml_definition_of(text@) {
            None => r is Err && r->Err_0@ == ParseErrorV::Syntax,
            Some(es) => match definition_of(es) {
                Ok(d) => r is Ok && r->Ok_0@ == d,
                Err(e) => r is Err && r->Err_0@ == e,
            },
        },
        r is Ok ==> def_well_typed(r->Ok_0@),
{
    match parse_toml(text) {
        None => Err(ParseError::Syntax),
        Some(entries) => {
            proof {
                lemma_definition_of_well_typed(raw_entries_view(entries@));
            }
            definition_from_entries(&entries)
        },
    }
}

} // verus!
