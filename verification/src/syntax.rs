//! The trusted syntax boundary: the two template syntaxes are parsed by the
//! kdl and serde_yaml libraries, and the parsed values are read into the
//! library's own models. Everything downstream of these wrappers is
//! verified; nothing else in the crate touches the syntax libraries.

use vstd::prelude::*;
use crate::node::Node;
use crate::node::NodeV;
use crate::node::Scalar;

verus! {

broadcast use vstd::std_specs::vec::axiom_vec_index_decreases;

/// A YAML value, as the library models it.
///
/// A number carries both its textual form (as the YAML library writes it)
/// and, when it is integral and fits, the integer itself. Mapping keys can
/// be any YAML value, so entries pair two values.
#[derive(Debug)]
pub enum Yaml {
    Null,
    Bool(bool),
    Num { text: String, int_val: Option<i64> },
    Str(String),
    List(Vec<Yaml>),
    Mapping(Vec<(Yaml, Yaml)>),
}

/// The mathematical model of a `Yaml` value.
pub enum YamlV {
    Null,
    Bool(bool),
    Num { text: Seq<char>, int_val: Option<i64> },
    Str(Seq<char>),
    List(Seq<YamlV>),
    Mapping(Seq<(YamlV, YamlV)>),
}

/// The model of one YAML value; lists and mappings are modelled recursively.
pub open spec fn yaml_view(y: Yaml) -> YamlV
    decreases y,
{
    match y {
        Yaml::Null => YamlV::Null,
        Yaml::Bool(b) => YamlV::Bool(b),
        Yaml::Num { text, int_val } => YamlV::Num { text: text@, int_val },
        Yaml::Str(s) => YamlV::Str(s@),
        Yaml::List(items) => YamlV::List(yamls_view(items@)),
        Yaml::Mapping(entries) => YamlV::Mapping(ymap_view(entries@)),
    }
}

/// The model of a sequence of YAML values, in order.
pub open spec fn yamls_view(s: Seq<Yaml>) -> Seq<YamlV>
    decreases s,
{
    if s.len() == 0 {
        Seq::empty()
    } else {
        seq![yaml_view(s[0])] + yamls_view(s.drop_first())
    }
}

/// The model of a mapping's entries, in order.
pub open spec fn ymap_view(s: Seq<(Yaml, Yaml)>) -> Seq<(YamlV, YamlV)>
    decreases s,
{
    if s.len() == 0 {
        Seq::empty()
    } else {
        seq![(yaml_view(s[0].0), yaml_view(s[0].1))] + ymap_view(s.drop_first())
    }
}

/// `yamls_view` maps `yaml_view` over the sequence, element by element.
pub proof fn lemma_yamls_view(s: Seq<Yaml>)
    ensures
        yamls_view(s).len() == s.len(),
        forall|i: int| 0 <= i < s.len() ==> yamls_view(s)[i] == yaml_view(s[i]),
    decreases s.len(),
{
    if s.len() > 0 {
        lemma_yamls_view(s.drop_first());
    }
}

/// `ymap_view` maps the pair model over the entries, element by element.
pub proof fn lemma_ymap_view(s: Seq<(Yaml, Yaml)>)
    ensures
        ymap_view(s).len() == s.len(),
        forall|i: int| 0 <= i < s.len() ==> ymap_view(s)[i] == (
            yaml_view(s[i].0),
            yaml_view(s[i].1),
        ),
    decreases s.len(),
{
    if s.len() > 0 {
        lemma_ymap_view(s.drop_first());
    }
}

impl View for Yaml {
    type V = YamlV;

    open spec fn view(&self) -> YamlV {
        yaml_view(*self)
    }
}

impl DeepView for Yaml {
    type V = YamlV;

    open spec fn deep_view(&self) -> YamlV {
        self@
    }
}

#[verifier::external_type_specification]
#[verifier::external_body]
pub struct ExKdlDocument(kdl::KdlDocument);

#[verifier::external_type_specification]
#[verifier::external_body]
pub struct ExKdlNode(kdl::KdlNode);

#[verifier::external_type_specification]
#[verifier::external_body]
pub struct ExKdlValue(kdl::KdlValue);

/// What parsing a template text as KDL yields: `Some` of the models of the
/// document's top-level nodes when the text is valid KDL, `None` when it is
/// not. Parsing is a pure function of the text alone.
pub uninterp spec fn kdl_parse_of(s: Seq<char>) -> Option<Seq<NodeV>>;

/// Relies on `str::parse::<kdl::KdlDocument>`: parsing succeeds exactly on
/// valid KDL text and is a pure function of the text; `kdl_nodes_model`
/// reads the parsed document into the library's node model.
#[verifier::external_body]
pub(crate) fn parse_kdl_raw(text: &str) -> (r: Result<Vec<Node>, String>)
    ensures
        match r {
            Ok(nodes) => kdl_parse_of(text@) == Some(nodes.deep_view()),
            Err(_) => kdl_parse_of(text@) is None,
        },
{
    match text.parse::<kdl::KdlDocument>() {
        Ok(doc) => Ok(kdl_nodes_model(&doc)),
        Err(e) => Err(e.to_string()),
    }
}

/// Conversion helper for `parse_kdl_raw`: one library node per KDL node, in
/// document order. Relies on `kdl::KdlDocument::nodes`.
#[verifier::external_body]
fn kdl_nodes_model(doc: &kdl::KdlDocument) -> Vec<Node> {
    doc.nodes().iter().map(kdl_node_model).collect()
}

/// Conversion helper for `parse_kdl_raw`: reads one KDL node — its name, its
/// positional and named entries, and its children — into the library's node
/// model. Relies on `kdl::KdlNode::{name, entries, children}` and
/// `kdl::KdlEntry::{name, value}`.
#[verifier::external_body]
fn kdl_node_model(n: &kdl::KdlNode) -> Node {
    let mut args = Vec::new();
    let mut attrs = Vec::new();
    for e in n.entries() {
        match e.name() {
            None => args.push(kdl_scalar_model(e.value())),
            Some(id) => attrs.push((id.value().to_string(), kdl_scalar_model(e.value()))),
        }
    }
    let children = match n.children() {
        Some(d) => kdl_nodes_model(d),
        None => Vec::new(),
    };
    Node { name: n.name().value().to_string(), args, attrs, children }
}

/// Conversion helper for `parse_kdl_raw`: one scalar per KDL value, variant
/// to variant. Relies on the `kdl::KdlValue` `Display` form for a number's
/// text and on `i64::try_from` for an integer's value.
#[verifier::external_body]
fn kdl_scalar_model(v: &kdl::KdlValue) -> Scalar {
    match v {
        kdl::KdlValue::String(s) => Scalar::Str(s.clone()),
        kdl::KdlValue::Integer(i) => Scalar::Num {
            text: v.to_string(),
            int_val: i64::try_from(*i).ok(),
        },
        kdl::KdlValue::Float(_) => Scalar::Num { text: v.to_string(), int_val: None },
        kdl::KdlValue::Bool(b) => Scalar::Bool(*b),
        kdl::KdlValue::Null => Scalar::Null,
    }
}

#[verifier::external_type_specification]
#[verifier::external_body]
pub struct ExYamlValue(serde_yaml::Value);

/// What parsing a template text as YAML yields: `Some` of the model of the
/// parsed YAML value when the text is valid YAML, `None` when it is not.
/// Parsing is a pure function of the text alone.
pub uninterp spec fn yaml_parse_of(s: Seq<char>) -> Option<YamlV>;

/// Relies on `serde_yaml::from_str::<serde_yaml::Value>`: parsing succeeds
/// exactly on valid YAML text and is a pure function of the text;
/// `yaml_model` reads the parsed value into the library's model.
#[verifier::external_body]
pub(crate) fn parse_yaml_raw(text: &str) -> (r: Result<Yaml, String>)
    ensures
        match r {
            Ok(y) => yaml_parse_of(text@) == Some(y@),
            Err(_) => yaml_parse_of(text@) is None,
        },
{
    match serde_yaml::from_str::<serde_yaml::Value>(text) {
        Ok(v) => Ok(yaml_model(&v)),
        Err(e) => Err(e.to_string()),
    }
}

/// Conversion helper for `parse_yaml_raw`: reads a `serde_yaml::Value` into
/// the library's model, one variant to one variant; a tagged value is read
/// as the value it wraps. Relies on `serde_yaml::Number::to_string` for the
/// text of a number and on `Number::as_i64` for its integer value; mapping
/// entries come in the mapping's own order.
#[verifier::external_body]
fn yaml_model(v: &serde_yaml::Value) -> Yaml {
    match v {
        serde_yaml::Value::Null => Yaml::Null,
        serde_yaml::Value::Bool(b) => Yaml::Bool(*b),
        serde_yaml::Value::Number(n) => Yaml::Num { text: n.to_string(), int_val: n.as_i64() },
        serde_yaml::Value::String(s) => Yaml::Str(s.clone()),
        serde_yaml::Value::Sequence(items) => Yaml::List(items.iter().map(yaml_model).collect()),
        serde_yaml::Value::Mapping(m) => Yaml::Mapping(
            m.iter().map(|(k, x)| (yaml_model(k), yaml_model(x))).collect(),
        ),
        serde_yaml::Value::Tagged(t) => yaml_model(&t.value),
    }
}

} // verus!
