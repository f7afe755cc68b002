//! The boundary to the TOML parser. The definition file is TOML text; the
//! `toml` crate parses it, and the parse result is converted, variant by
//! variant, into the plain shapes below, which the verified loader reads.
//! Only the depth the definition grammar uses is kept: a top-level table of
//! variables, each a table of fields, each field a scalar or a list of
//! scalars; anything deeper or of another type is marked `Other` and is
//! rejected by the loader.

use vstd::prelude::*;

verus! {

/// A scalar field value: the three scalar shapes the grammar admits, or
/// `Other` for a TOML value of any other type (float, datetime, nested
/// array or table) in scalar position.
#[derive(Debug)]
pub enum RawScalar {
    Boolean(bool),
    Integer(i64),
    Text(String),
    Other,
}

/// A field of a variable's table: a scalar, a list of scalars, or `Other`
/// for a nested table.
#[derive(Debug)]
pub enum RawField {
    Scalar(RawScalar),
    List(Vec<RawScalar>),
    Other,
}

/// One top-level entry of the definition file: a variable's table of
/// fields, or `NotTable` where the entry is not a table.
#[derive(Debug)]
pub enum RawEntry {
    Fields(Vec<(String, RawField)>),
    NotTable,
}

/// The mathematical shape of a `RawScalar`.
pub enum RawScalarV {
    Boolean(bool),
    Integer(int),
    Text(Seq<char>),
    Other,
}

/// The mathematical shape of a `RawField`.
pub enum RawFieldV {
    Scalar(RawScalarV),
    List(Seq<RawScalarV>),
    Other,
}

/// The mathematical shape of a `RawEntry`.
pub enum RawEntryV {
    Fields(Seq<(Seq<char>, RawFieldV)>),
    NotTable,
}

impl View for RawScalar {
    type V = RawScalarV;

    open spec fn view(&self) -> RawScalarV {
        match self {
            RawScalar::Boolean(b) => RawScalarV::Boolean(*b),
            RawScalar::Integer(i) => RawScalarV::Integer(*i as int),
            RawScalar::Text(s) => RawScalarV::Text(s@),
            RawScalar::Other => RawScalarV::Other,
        }
    }
}

impl View for RawField {
    type V = RawFieldV;

    open spec fn view(&self) -> RawFieldV {
        match self {
            RawField::Scalar(s) => RawFieldV::Scalar(s@),
            RawField::List(l) => RawFieldV::List(l@.map_values(|s: RawScalar| s@)),
            RawField::Other => RawFieldV::Other,
        }
    }
}

impl View for RawEntry {
    type V = RawEntryV;

    open spec fn view(&self) -> RawEntryV {
        match self {
            RawEntry::Fields(fs) => RawEntryV::Fields(
                fs@.map_values(|f: (String, RawField)| (f.0@, f.1@)),
            ),
            RawEntry::NotTable => RawEntryV::NotTable,
        }
    }
}

/// The views of a parsed top-level table.
pub open spec fn raw_entries_view(s: Seq<(String, RawEntry)>) -> Seq<(Seq<char>, RawEntryV)> {
    s.map_values(|e: (String, RawEntry)| (e.0@, e.1@))
}

#[verifier::external_type_specification]
#[verifier::external_body]
pub struct ExTomlValue(toml::Value);

/// What parsing the text as a TOML document and keeping the shapes above
/// yields: the top-level entries in document order, or `None` where the
/// text is not valid TOML. The result depends on the text alone.
pub uninterp spec fn toml_definition_of(s: Seq<char>) -> Option<Seq<(Seq<char>, RawEntryV)>>;

/// Relies on the variants of `toml::Value`: keeps a boolean, integer or
/// string scalar and marks every other type `Other`.
#[verifier::external_body]
fn scalar_of(v: toml::Value) -> RawScalar {
    match v {
        toml::Value::Boolean(b) => RawScalar::Boolean(b),
        toml::Value::Integer(i) => RawScalar::Integer(i),
        toml::Value::String(s) => RawScalar::Text(s),
        _ => RawScalar::Other,
    }
}

/// Relies on the variants of `toml::Value`: an array becomes a list of
/// scalars, a table is marked `Other`, anything else is a scalar.
#[verifier::external_body]
fn field_of(v: toml::Value) -> RawField {
    match v {
        toml::Value::Array(a) => RawField::List(a.into_iter().map(scalar_of).collect()),
        toml::Value::Table(_) => RawField::Other,
        other => RawField::Scalar(scalar_of(other)),
    }
}

/// Relies on the variants of `toml::Value`: a table's fields are kept in
/// document order; any other type is marked `NotTable`.
#[verifier::external_body]
fn entry_of(v: toml::Value) -> RawEntry {
    match v {
        toml::Value::Table(t) => RawEntry::Fields(
            t.into_iter().map(|(k, f)| (k, field_of(f))).collect(),
        ),
        _ => RawEntry::NotTable,
    }
}

/// Relies on `toml::Table::from_str`: parses the text as a TOML document,
/// whose top-level is a table, and keeps its entries in document order
/// (the crate is built with its `preserve_order` feature). `None` exactly
/// where the text is not valid TOML.
#[verifier::external_body]
pub fn parse_toml(text: &str) -> (r: Option<Vec<(String, RawEntry)>>)
    ensures
        match r {
            Some(v) => toml_definition_of(text@) == Some(raw_entries_view(v@)),
            None => toml_definition_of(text@) is None,
        },
{
    match text.parse::<toml::Table>() {
        Ok(t) => Some(t.into_iter().map(|(k, v)| (k, entry_of(v))).collect()),
        Err(_) => None,
    }
}

} // verus!
