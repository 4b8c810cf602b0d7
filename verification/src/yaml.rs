//! The boundary to the YAML parser: the one place where the library calls
//! into `yaml_rust`. Everything behind these declarations is trusted; the
//! rest of the crate is verified against the contracts stated here.

use vstd::prelude::*;

use crate::node::{Node, Value};

verus! {

/// Relies on `yaml_rust::Yaml`: the parser's document node, opaque here.
#[verifier::external_type_specification]
#[verifier::external_body]
pub struct ExYaml(yaml_rust::Yaml);

/// Relies on `yaml_rust::ScanError`: the parser's error value, opaque here.
#[verifier::external_type_specification]
#[verifier::external_body]
pub struct ExScanError(yaml_rust::ScanError);

/// The documents that parsing a text yields, by variant shape, or `None`
/// where the text is not well-formed YAML. The result is a function of the
/// text alone.
pub uninterp spec fn parsed_documents(text: Seq<char>) -> Option<Seq<Value>>;

/// The models of a sequence of nodes, element by element.
pub open spec fn views_of(docs: Seq<Node>) -> Seq<Value> {
    Seq::new(docs.len(), |i: int| docs[i]@)
}

/// Relies on `yaml_rust::Yaml`: each variant is carried over to the [`Node`]
/// variant of the same shape (a real scalar as its source text, an
/// unresolved alias and a bad value both as the absent value).
#[verifier::external_body]
fn node_from_yaml(y: &yaml_rust::Yaml) -> Node {
    match y {
        yaml_rust::Yaml::Null => Node::Null,
        yaml_rust::Yaml::Boolean(b) => Node::Bool(*b),
        yaml_rust::Yaml::Integer(i) => Node::Int(*i),
        yaml_rust::Yaml::Real(s) => Node::Real(s.clone()),
        yaml_rust::Yaml::String(s) => Node::Str(s.clone()),
        yaml_rust::Yaml::Array(v) => Node::Sequence(v.iter().map(node_from_yaml).collect()),
        yaml_rust::Yaml::Hash(h) => Node::Mapping(
            h.iter().map(|(k, w)| (node_from_yaml(k), node_from_yaml(w))).collect(),
        ),
        yaml_rust::Yaml::Alias(_) => Node::Bad,
        yaml_rust::Yaml::BadValue => Node::Bad,
    }
}

/// Relies on `yaml_rust::YamlLoader::load_from_str`: it returns every
/// top-level document of the text in order, or a scan error where the text
/// is not well-formed; the outcome depends on the text alone.
#[verifier::external_body]
pub(crate) fn load_documents(text: &str) -> (r: Result<Vec<Node>, yaml_rust::ScanError>)
    ensures
        match r {
            Ok(docs) => parsed_documents(text@) == Some(views_of(docs@)),
            Err(_) => parsed_documents(text@) is None,
        },
{
    match yaml_rust::YamlLoader::load_from_str(text) {
        Ok(docs) => Ok(docs.iter().map(node_from_yaml).collect()),
        Err(e) => Err(e),
    }
}

} // verus!
