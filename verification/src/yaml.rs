//! A plain-value model of a parsed YAML document, and the trusted bridge
//! that obtains one from serde_yaml.
//!
//! The header decoder reads only strings, sequences and mappings; numbers
//! and tagged values never match the header schema, so only their presence
//! is kept (`Other`).

use vstd::prelude::*;

verus! {

/// A parsed YAML document as plain values.
#[derive(Debug)]
pub enum Yaml {
    Null,
    Bool(bool),
    Str(String),
    Sequence(Vec<Yaml>),
    Mapping(Vec<(Yaml, Yaml)>),
    Other,
}

/// The mathematical view of a `Yaml` value.
pub enum YamlV {
    Null,
    Bool(bool),
    Str(Seq<char>),
    Sequence(Seq<YamlV>),
    Mapping(Seq<(YamlV, YamlV)>),
    Other,
}

/// The view of the elements of a sequence, from position `i` on.
pub open spec fn yaml_seq_view(items: Seq<Yaml>, i: int) -> Seq<YamlV>
    decreases items, items.len() - i + 1,
{
    if i < 0 || i >= items.len() {
        Seq::empty()
    } else {
        seq![yaml_view(items[i])] + yaml_seq_view(items, i + 1)
    }
}

/// The view of the entries of a mapping, from position `i` on.
pub open spec fn yaml_map_view(pairs: Seq<(Yaml, Yaml)>, i: int) -> Seq<(YamlV, YamlV)>
    decreases pairs, pairs.len() - i + 1,
{
    if i < 0 || i >= pairs.len() {
        Seq::empty()
    } else {
        seq![(yaml_view(pairs[i].0), yaml_view(pairs[i].1))] + yaml_map_view(pairs, i + 1)
    }
}

/// The view of a `Yaml` value.
pub open spec fn yaml_view(y: Yaml) -> YamlV
    decreases y, 0int,
{
    match y {
        Yaml::Null => YamlV::Null,
        Yaml::Bool(b) => YamlV::Bool(b),
        Yaml::Str(s) => YamlV::Str(s@),
        Yaml::Sequence(items) => YamlV::Sequence(yaml_seq_view(items@, 0)),
        Yaml::Mapping(pairs) => YamlV::Mapping(yaml_map_view(pairs@, 0)),
        Yaml::Other => YamlV::Other,
    }
}

impl View for Yaml {
    type V = YamlV;

    open spec fn view(&self) -> YamlV {
        yaml_view(*self)
    }
}

/// The sequence view is pointwise the view of the elements.
pub proof fn lemma_yaml_seq_view(items: Seq<Yaml>, i: int)
    requires
        0 <= i <= items.len(),
    ensures
        yaml_seq_view(items, i).len() == items.len() - i,
        forall|k: int|
            0 <= k < items.len() - i ==> yaml_seq_view(items, i)[k] == yaml_view(items[i + k]),
    decreases items.len() - i,
{
    if i < items.len() {
        lemma_yaml_seq_view(items, i + 1);
    }
}

/// The mapping view is pointwise the view of the entries.
pub proof fn lemma_yaml_map_view(pairs: Seq<(Yaml, Yaml)>, i: int)
    requires
        0 <= i <= pairs.len(),
    ensures
        yaml_map_view(pairs, i).len() == pairs.len() - i,
        forall|k: int|
            0 <= k < pairs.len() - i ==> yaml_map_view(pairs, i)[k] == (
            yaml_view(pairs[i + k].0),
            yaml_view(pairs[i + k].1),
            ),
    decreases pairs.len() - i,
{
    if i < pairs.len() {
        lemma_yaml_map_view(pairs, i + 1);
    }
}

/// Declares serde_yaml::Value, the parser's own document type, so that the
/// conversion below may take it; the type stays opaque.
#[verifier::external_type_specification]
#[verifier::external_body]
pub struct ExYamlValue(serde_yaml::Value);

/// What parsing a text as YAML yields, when it is valid: parsing is a
/// function of the text alone.
pub uninterp spec fn yaml_of(s: Seq<char>) -> Option<YamlV>;

/// Relies on the shape of serde_yaml::Value: each variant is carried over
/// one for one; numbers and tagged values, which the header schema never
/// reads beyond their presence, keep only their variant.
#[verifier::external_body]
fn yaml_of_value(v: serde_yaml::Value) -> Yaml {
    match v {
        serde_yaml::Value::Null => Yaml::Null,
        serde_yaml::Value::Bool(b) => Yaml::Bool(b),
        serde_yaml::Value::Number(_) => Yaml::Other,
        serde_yaml::Value::String(s) => Yaml::Str(s),
        serde_yaml::Value::Sequence(xs) => Yaml::Sequence(xs.into_iter().map(yaml_of_value).collect()),
        serde_yaml::Value::Mapping(m) => Yaml::Mapping(
            m.into_iter().map(|e| (yaml_of_value(e.0), yaml_of_value(e.1))).collect(),
        ),
        serde_yaml::Value::Tagged(_) => Yaml::Other,
    }
}

/// Relies on serde_yaml::from_str: the result is a function of the text
/// alone, and a text that is not valid YAML gives an error.
#[verifier::external_body]
pub fn parse_yaml(s: &str) -> (r: Option<Yaml>)
    ensures
        r matches Some(y) ==> yaml_of(s@) == Some(y@),
        r is None <==> yaml_of(s@) is None,
{
    match serde_yaml::from_str::<serde_yaml::Value>(s) {
        Ok(v) => Some(yaml_of_value(v)),
        Err(_) => None,
    }
}

} // verus!
