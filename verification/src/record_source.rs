//! The record-file syntax boundary. What a source text parses to is a
//! function of its characters alone, so the result carries a name,
//! `spec_records_of`, that every contract downstream speaks through: the
//! generic syntax handling itself is the outside parser's affair and is
//! relied upon, not proved, while coercion, column order and statement
//! text are specified and proved on the library's own types.
//!
//! The parser recurses per block-nesting level, so a pathologically deep
//! adversarial source can exhaust the stack; fixture files are flat
//! two-level documents in practice.

use crate::fixture_file::{FixtureEntry, FixtureEntryModel, FixtureRecord};
use crate::value::FixtureValue;
use vstd::prelude::*;
use yaml_rust::{Yaml, YamlLoader};

verus! {

#[verifier::external_type_specification]
#[verifier::external_body]
pub struct ExYaml(Yaml);

/// The records a fixture source text parses to: `None` on malformed
/// syntax, a non-list top level, or a non-mapping record; otherwise one
/// entry list per record, in written order. The result depends on the
/// source's characters alone.
pub uninterp spec fn spec_records_of(source: Seq<char>) -> Option<Seq<Seq<FixtureEntryModel>>>;

/// Relies on yaml_rust::Yaml: scalars carry a string, an integer kept as
/// `i64`, a real kept as its written literal, or a boolean; every other
/// variant is of an unsupported kind.
#[verifier::external_body]
fn scalar_from_yaml(y: Yaml) -> FixtureValue {
    match y {
        Yaml::String(s) => FixtureValue::Str(s),
        Yaml::Integer(i) => FixtureValue::Int(i),
        Yaml::Real(r) => FixtureValue::Real(r),
        Yaml::Boolean(b) => FixtureValue::Bool(b),
        _ => FixtureValue::Unsupported,
    }
}

/// Relies on yaml_rust::Yaml and linked_hash_map: a record must be a
/// mapping, and a mapping's entries come out in insertion order, which is
/// the order they were written in.
#[verifier::external_body]
fn record_from_item(item: Yaml) -> Option<FixtureRecord> {
    match item {
        Yaml::Hash(entries) => Some(
            FixtureRecord {
                entries: entries.into_iter().map(
                    |(key, value)|
                        FixtureEntry {
                            key: scalar_from_yaml(key),
                            value: scalar_from_yaml(value),
                        },
                ).collect(),
            },
        ),
        _ => None,
    }
}

/// Relies on yaml_rust::YamlLoader::load_from_str: parses a source text
/// into its documents, deterministically in the text. The first document
/// must be a list of mappings; an empty source holds zero records; extra
/// documents are ignored.
#[verifier::external_body]
pub(crate) fn records_from_source(source: &str) -> (r: Option<Vec<FixtureRecord>>)
    ensures
        r.deep_view() == spec_records_of(source@),
{
    let mut docs = match YamlLoader::load_from_str(source) {
        Ok(docs) => docs,
        Err(_) => return None,
    };
    if docs.is_empty() {
        return Some(Vec::new());
    }
    let items = match docs.remove(0) {
        Yaml::Array(items) => items,
        _ => return None,
    };
    items.into_iter().map(record_from_item).collect()
}

} // verus!
