//! The template parser's normalization and validation: both accepted
//! template syntaxes — the node-with-attributes form (KDL) and the
//! nested-mapping/sequence form (YAML) — normalize to one section list, and
//! the seven required sections are validated before anything is compiled.

use vstd::prelude::*;
use crate::error::ReportError;
use crate::error::ReportErrorV;
use crate::node::Node;
use crate::node::NodeV;
use crate::node::Scalar;
use crate::node::ScalarV;
use crate::node::find_node;
use crate::node::lemma_nodes_deep_view;
use crate::node::spec_find_node;
use crate::syntax::Yaml;
use crate::syntax::YamlV;
use crate::syntax::kdl_parse_of;
use crate::syntax::parse_kdl_raw;
use crate::syntax::parse_yaml_raw;
use crate::syntax::yaml_parse_of;
use crate::syntax::yaml_view;
use crate::syntax::yamls_view;
use crate::syntax::ymap_view;
use crate::syntax::lemma_yamls_view;
use crate::syntax::lemma_ymap_view;

verus! {

/// The seven required top-level sections of a template.
#[derive(Clone, Copy, PartialEq, Eq, Structural)]
pub enum SectionKind {
    Title,
    ColumnHeader,
    Row,
    ColumnFooter,
    PageHeader,
    PageFooter,
    Summary,
}

impl SectionKind {
    /// The section's name as it stands in a template.
    pub open spec fn spec_name(self) -> Seq<char> {
        match self {
            SectionKind::Title => "title"@,
            SectionKind::ColumnHeader => "column_header"@,
            SectionKind::Row => "row"@,
            SectionKind::ColumnFooter => "column_footer"@,
            SectionKind::PageHeader => "page_header"@,
            SectionKind::PageFooter => "page_footer"@,
            SectionKind::Summary => "summary"@,
        }
    }

    /// The section's name.
    pub fn name(self) -> (r: &'static str)
        ensures
            r@ == self.spec_name(),
    {
        match self {
            SectionKind::Title => "title",
            SectionKind::ColumnHeader => "column_header",
            SectionKind::Row => "row",
            SectionKind::ColumnFooter => "column_footer",
            SectionKind::PageHeader => "page_header",
            SectionKind::PageFooter => "page_footer",
            SectionKind::Summary => "summary",
        }
    }
}

/// The nodes of the section named `name`: a missing section is a structure
/// error naming it, and so is a section with no nodes.
pub open spec fn spec_section(sections: Seq<NodeV>, name: Seq<char>) -> Result<
    Seq<NodeV>,
    ReportErrorV,
> {
    match spec_find_node(sections, name) {
        None => Err(ReportErrorV::MissingSection(name)),
        Some(sec) => if sec.children.len() == 0 {
            Err(ReportErrorV::EmptySection(name))
        } else {
            Ok(sec.children)
        },
    }
}

/// Extracts the nodes of one required section.
pub fn section_nodes<'a>(sections: &'a Vec<Node>, name: &str) -> (r: Result<
    &'a Vec<Node>,
    ReportError,
>)
    ensures
        match r {
            Ok(ns) => spec_section(sections.deep_view(), name@) == Ok::<
                Seq<NodeV>,
                ReportErrorV,
            >(ns.deep_view()),
            Err(e) => spec_section(sections.deep_view(), name@) == Err::<
                Seq<NodeV>,
                ReportErrorV,
            >(e@),
        },
{
    match find_node(sections, name) {
        None => Err(ReportError::MissingSection(String::from_str(name))),
        Some(sec) => {
            proof {
                lemma_nodes_deep_view(sec.children);
            }
            if sec.children.len() == 0 {
                Err(ReportError::EmptySection(String::from_str(name)))
            } else {
                Ok(&sec.children)
            }
        },
    }
}

/// `spec_find_node` finds exactly the first node that carries the name.
pub proof fn lemma_find_node_at(s: Seq<NodeV>, name: Seq<char>, i: int)
    requires
        0 <= i < s.len(),
        s[i].name == name,
        forall|k: int| 0 <= k < i ==> s[k].name != name,
    ensures
        spec_find_node(s, name) == Some(s[i]),
    decreases i,
{
    if i == 0 {
    } else {
        lemma_find_node_at(s.drop_first(), name, i - 1);
    }
}

/// Finds the index of the first node named `name`.
fn find_node_index(nodes: &Vec<Node>, name: &str) -> (r: Option<usize>)
    ensures
        match r {
            Some(i) => i < nodes@.len() && spec_find_node(nodes.deep_view(), name@) == Some(
                nodes.deep_view()[i as int],
            ),
            None => spec_find_node(nodes.deep_view(), name@) is None,
        },
{
    let name_string = String::from_str(name);
    let n = nodes.len();
    let mut i: usize = 0;
    proof {
        assert(nodes.deep_view().skip(0) =~= nodes.deep_view());
    }
    while i < n
        invariant
            i <= n,
            n == nodes@.len(),
            name_string@ == name@,
            nodes.deep_view().len() == n,
            forall|k: int| 0 <= k < n ==> nodes.deep_view()[k] == #[trigger] nodes@[k]@,
            forall|k: int| 0 <= k < i ==> nodes.deep_view()[k].name != name@,
            spec_find_node(nodes.deep_view().skip(i as int), name@) == spec_find_node(
                nodes.deep_view(),
                name@,
            ),
        decreases n - i,
    {
        proof {
            assert(nodes.deep_view().skip(i as int)[0] == nodes.deep_view()[i as int]);
            assert(nodes.deep_view().skip(i as int).drop_first() =~= nodes.deep_view().skip(
                i as int + 1,
            ));
        }
        if nodes[i].name == name_string {
            proof {
                lemma_find_node_at(nodes.deep_view(), name@, i as int);
            }
            return Some(i);
        }
        i = i + 1;
    }
    proof {
        assert(nodes.deep_view().skip(n as int).len() == 0);
    }
    None
}

/// The scalar a YAML value stands for when it is used as a node argument or
/// attribute value; a nested list or mapping cannot stand in an attribute
/// and reads as null.
pub open spec fn spec_yscalar(v: YamlV) -> ScalarV {
    match v {
        YamlV::Null => ScalarV::Null,
        YamlV::Bool(b) => ScalarV::Bool(b),
        YamlV::Num { text, int_val } => ScalarV::Num { text, int_val },
        YamlV::Str(s) => ScalarV::Str(s),
        YamlV::List(_) => ScalarV::Null,
        YamlV::Mapping(_) => ScalarV::Null,
    }
}

/// First value of the mapping entries whose key is the string `key`, if any.
pub open spec fn spec_ymap_get(entries: Seq<(YamlV, YamlV)>, key: Seq<char>) -> Option<YamlV>
    decreases entries.len(),
{
    if entries.len() == 0 {
        None
    } else if entries[0].0 == YamlV::Str(key) {
        Some(entries[0].1)
    } else {
        spec_ymap_get(entries.drop_first(), key)
    }
}

/// The attributes a mapping item yields: every string-keyed entry, in
/// mapping order, except the primary key `skip_key`; a non-string key yields
/// no attribute.
pub open spec fn spec_yaml_attrs(entries: Seq<(YamlV, YamlV)>, skip_key: Option<Seq<char>>) -> Seq<
    (Seq<char>, ScalarV),
>
    decreases entries.len(),
{
    if entries.len() == 0 {
        Seq::empty()
    } else {
        let rest = spec_yaml_attrs(entries.drop_first(), skip_key);
        match entries[0].0 {
            YamlV::Str(k) => if skip_key == Some(k) {
                rest
            } else {
                seq![(k, spec_yscalar(entries[0].1))] + rest
            },
            _ => rest,
        }
    }
}

/// The node a mapping item normalizes to: named `node_name`, with the
/// primary key's value (when one is named and present) as the single
/// positional argument, and the remaining string-keyed entries as
/// attributes. An item that is not a mapping normalizes to a bare node
/// named `item`, which no downstream reader selects.
pub open spec fn spec_yaml_keyed_node(
    item: YamlV,
    node_name: Seq<char>,
    primary: Option<Seq<char>>,
) -> NodeV {
    match item {
        YamlV::Mapping(entries) => NodeV {
            name: node_name,
            args: match primary {
                Some(pk) => match spec_ymap_get(entries, pk) {
                    Some(v) => seq![spec_yscalar(v)],
                    None => Seq::empty(),
                },
                None => Seq::empty(),
            },
            attrs: spec_yaml_attrs(entries, primary),
            children: Seq::empty(),
        },
        _ => NodeV {
            name: "item"@,
            args: Seq::empty(),
            attrs: Seq::empty(),
            children: Seq::empty(),
        },
    }
}

/// The node one item of a section normalizes to, by section:
/// - `title`: a `header` node (text under the `header` key), an `image`
///   node, or a bare `item` node that no reader selects;
/// - `column_header`: a `column` node whose entries are attributes;
/// - `row` and `column_footer`: a `value` node whose `value` key is the
///   positional binding literal;
/// - `page_header` and `page_footer`: a `text` node whose `text` key is the
///   positional text;
/// - `summary`: a `paragraph` node whose `paragraph` list nests `text`
///   nodes.
pub open spec fn spec_yaml_item(kind: SectionKind, item: YamlV) -> NodeV {
    match kind {
        SectionKind::Title => match item {
            YamlV::Mapping(entries) => if spec_ymap_get(entries, "header"@) is Some {
                spec_yaml_keyed_node(item, "header"@, Some("header"@))
            } else if spec_ymap_get(entries, "image"@) is Some {
                spec_yaml_keyed_node(item, "image"@, Some("image"@))
            } else {
                spec_yaml_keyed_node(item, "item"@, None)
            },
            _ => spec_yaml_keyed_node(item, "item"@, None),
        },
        SectionKind::ColumnHeader => spec_yaml_keyed_node(item, "column"@, None),
        SectionKind::Row => spec_yaml_keyed_node(item, "value"@, Some("value"@)),
        SectionKind::ColumnFooter => spec_yaml_keyed_node(item, "value"@, Some("value"@)),
        SectionKind::PageHeader => spec_yaml_keyed_node(item, "text"@, Some("text"@)),
        SectionKind::PageFooter => spec_yaml_keyed_node(item, "text"@, Some("text"@)),
        SectionKind::Summary => match item {
            YamlV::Mapping(entries) => match spec_ymap_get(entries, "paragraph"@) {
                Some(YamlV::List(texts)) => NodeV {
                    name: "paragraph"@,
                    args: Seq::empty(),
                    attrs: Seq::empty(),
                    children: texts.map_values(
                        |t: YamlV| spec_yaml_keyed_node(t, "text"@, Some("text"@)),
                    ),
                },
                _ => spec_yaml_keyed_node(item, "item"@, None),
            },
            _ => spec_yaml_keyed_node(item, "item"@, None),
        },
    }
}

/// The nodes a section's item list normalizes to, in list order.
pub open spec fn spec_yaml_items(kind: SectionKind, items: Seq<YamlV>) -> Seq<NodeV> {
    items.map_values(|it: YamlV| spec_yaml_item(kind, it))
}

/// The section node a template mapping yields for one section kind: present
/// exactly when the mapping holds the section's name with a list value.
pub open spec fn spec_yaml_section(m: Seq<(YamlV, YamlV)>, kind: SectionKind) -> Option<NodeV> {
    match spec_ymap_get(m, kind.spec_name()) {
        Some(YamlV::List(items)) => Some(
            NodeV {
                name: kind.spec_name(),
                args: Seq::empty(),
                attrs: Seq::empty(),
                children: spec_yaml_items(kind, items),
            },
        ),
        _ => None,
    }
}

/// A singleton or empty sequence from an optional section node.
pub open spec fn opt_node_seq(o: Option<NodeV>) -> Seq<NodeV> {
    match o {
        Some(n) => seq![n],
        None => Seq::empty(),
    }
}

/// The section list a YAML template mapping normalizes to: the seven
/// sections in their fixed order, each present exactly when the mapping
/// holds it as a list.
pub open spec fn spec_yaml_sections(m: Seq<(YamlV, YamlV)>) -> Seq<NodeV> {
    opt_node_seq(spec_yaml_section(m, SectionKind::Title)) + opt_node_seq(
        spec_yaml_section(m, SectionKind::ColumnHeader),
    ) + opt_node_seq(spec_yaml_section(m, SectionKind::Row)) + opt_node_seq(
        spec_yaml_section(m, SectionKind::ColumnFooter),
    ) + opt_node_seq(spec_yaml_section(m, SectionKind::PageHeader)) + opt_node_seq(
        spec_yaml_section(m, SectionKind::PageFooter),
    ) + opt_node_seq(spec_yaml_section(m, SectionKind::Summary))
}

/// Reads one YAML value as a node argument or attribute value.
fn yaml_scalar(v: &Yaml) -> (r: Scalar)
    ensures
        r@ == spec_yscalar(v@),
{
    match v {
        Yaml::Null => Scalar::Null,
        Yaml::Bool(b) => Scalar::Bool(*b),
        Yaml::Num { text, int_val } => Scalar::Num { text: text.clone(), int_val: *int_val },
        Yaml::Str(s) => Scalar::Str(s.clone()),
        Yaml::List(_) => Scalar::Null,
        Yaml::Mapping(_) => Scalar::Null,
    }
}

/// Looks the string key `key` up among mapping entries.
fn ymap_get<'a>(entries: &'a Vec<(Yaml, Yaml)>, key: &str) -> (r: Option<&'a Yaml>)
    ensures
        match r {
            Some(v) => spec_ymap_get(ymap_view(entries@), key@) == Some(v@),
            None => spec_ymap_get(ymap_view(entries@), key@) is None,
        },
{
    let ghost ev = ymap_view(entries@);
    let n = entries.len();
    let mut i: usize = 0;
    proof {
        lemma_ymap_view(entries@);
        assert(ev.skip(0) =~= ev);
    }
    while i < n
        invariant
            i <= n,
            n == entries@.len(),
            ev == ymap_view(entries@),
            ev.len() == n,
            forall|k: int| 0 <= k < n ==> ev[k] == (
                yaml_view(#[trigger] entries@[k].0),
                yaml_view(entries@[k].1),
            ),
            spec_ymap_get(ev.skip(i as int), key@) == spec_ymap_get(ev, key@),
        decreases n - i,
    {
        proof {
            assert(ev.skip(i as int)[0] == ev[i as int]);
            assert(ev.skip(i as int).drop_first() =~= ev.skip(i as int + 1));
        }
        match &entries[i].0 {
            Yaml::Str(s) => {
                let key_string = String::from_str(key);
                if *s == key_string {
                    proof {
                        assert(ev[i as int].0 == YamlV::Str(key@));
                    }
                    return Some(&entries[i].1);
                } else {
                    proof {
                        assert(ev[i as int].0 == YamlV::Str(s@));
                        assert(ev[i as int].0 != YamlV::Str(key@));
                    }
                }
            },
            _ => {
                proof {
                    assert(!(ev[i as int].0 is Str));
                }
            },
        }
        i = i + 1;
    }
    proof {
        assert(ev.skip(n as int).len() == 0);
    }
    None
}

/// Collects the attributes of one mapping item, skipping the primary key.
fn yaml_attrs(entries: &Vec<(Yaml, Yaml)>, skip_key: Option<&str>) -> (r: Vec<(String, Scalar)>)
    ensures
        r.deep_view() == spec_yaml_attrs(
            ymap_view(entries@),
            match skip_key {
                Some(k) => Some(k@),
                None => None,
            },
        ),
{
    let ghost ev = ymap_view(entries@);
    let ghost skipv: Option<Seq<char>> = match skip_key {
        Some(k) => Some(k@),
        None => None,
    };
    let n = entries.len();
    let mut out: Vec<(String, Scalar)> = Vec::new();
    let mut i: usize = 0;
    proof {
        lemma_ymap_view(entries@);
        assert(ev.skip(n as int).len() == 0);
        assert(out.deep_view() =~= Seq::<(Seq<char>, ScalarV)>::empty());
        assert(ev.skip(0) =~= ev);
    }
    while i < n
        invariant
            i <= n,
            n == entries@.len(),
            ev == ymap_view(entries@),
            ev.len() == n,
            forall|k: int| 0 <= k < n ==> ev[k] == (
                yaml_view(#[trigger] entries@[k].0),
                yaml_view(entries@[k].1),
            ),
            skipv == match skip_key {
                Some(k) => Some(k@),
                None => None,
            },
            out.deep_view() + spec_yaml_attrs(ev.skip(i as int), skipv) == spec_yaml_attrs(
                ev,
                skipv,
            ),
        decreases n - i,
    {
        let ghost pre = out.deep_view();
        proof {
            assert(ev.skip(i as int)[0] == ev[i as int]);
            assert(ev.skip(i as int).drop_first() =~= ev.skip(i as int + 1));
        }
        match &entries[i].0 {
            Yaml::Str(s) => {
                let is_skipped = match skip_key {
                    Some(k) => {
                        let k_string = String::from_str(k);
                        if *s == k_string {
                            proof {
                                assert(skipv == Some(s@));
                            }
                            true
                        } else {
                            proof {
                                assert(skipv != Some(s@));
                            }
                            false
                        }
                    },
                    None => false,
                };
                proof {
                    assert(ev[i as int].0 == YamlV::Str(s@));
                    assert(is_skipped == (skipv == Some(s@)));
                }
                if !is_skipped {
                    let value = yaml_scalar(&entries[i].1);
                    out.push((s.clone(), value));
                    proof {
                        assert(out.deep_view() =~= pre + seq![(s@, value@)]);
                        assert(pre + (seq![(s@, value@)] + spec_yaml_attrs(
                            ev.skip(i as int + 1),
                            skipv,
                        )) =~= (pre + seq![(s@, value@)]) + spec_yaml_attrs(
                            ev.skip(i as int + 1),
                            skipv,
                        ));
                    }
                }
            },
            _ => {
                proof {
                    assert(!(ev[i as int].0 is Str));
                }
            },
        }
        i = i + 1;
    }
    proof {
        assert(ev.skip(n as int).len() == 0);
        assert(spec_yaml_attrs(ev.skip(n as int), skipv) =~= Seq::<(Seq<char>, ScalarV)>::empty());
        assert(out.deep_view() + Seq::<(Seq<char>, ScalarV)>::empty() =~= out.deep_view());
    }
    out
}

/// Normalizes one mapping item to a node.
fn yaml_keyed_node(item: &Yaml, node_name: &str, primary: Option<&str>) -> (r: Node)
    ensures
        r@ == spec_yaml_keyed_node(
            item@,
            node_name@,
            match primary {
                Some(k) => Some(k@),
                None => None,
            },
        ),
{
    let ghost primaryv: Option<Seq<char>> = match primary {
        Some(k) => Some(k@),
        None => None,
    };
    match item {
        Yaml::Mapping(entries) => {
            let mut args: Vec<Scalar> = Vec::new();
            if let Some(pk) = primary {
                match ymap_get(entries, pk) {
                    Some(v) => {
                        args.push(yaml_scalar(v));
                    },
                    None => {},
                }
            }
            let attrs = yaml_attrs(entries, primary);
            let node = Node {
                name: String::from_str(node_name),
                args,
                attrs,
                children: Vec::new(),
            };
            proof {
                assert(item@ == YamlV::Mapping(ymap_view(entries@)));
                let m = spec_yaml_keyed_node(item@, node_name@, primaryv);
                assert(node@.name == m.name);
                assert(node@.args =~= m.args);
                assert(node@.attrs =~= node.attrs.deep_view());
                assert(node@.attrs =~= m.attrs);
                assert(node@.children =~= m.children);
                assert(node@ == m);
            }
            node
        },
        _ => {
            let node = Node {
                name: String::from_str("item"),
                args: Vec::new(),
                attrs: Vec::new(),
                children: Vec::new(),
            };
            proof {
                let m = spec_yaml_keyed_node(item@, node_name@, primaryv);
                assert(node@.args =~= m.args);
                assert(node@.attrs =~= m.attrs);
                assert(node@.children =~= m.children);
                assert(node@ == m);
            }
            node
        },
    }
}

/// Normalizes one item of a section to a node.
fn yaml_item(kind: SectionKind, item: &Yaml) -> (r: Node)
    ensures
        r@ == spec_yaml_item(kind, item@),
{
    match kind {
        SectionKind::Title => match item {
            Yaml::Mapping(entries) => {
                proof {
                    assert(item@ == YamlV::Mapping(ymap_view(entries@)));
                }
                if ymap_get(entries, "header").is_some() {
                    yaml_keyed_node(item, "header", Some("header"))
                } else if ymap_get(entries, "image").is_some() {
                    yaml_keyed_node(item, "image", Some("image"))
                } else {
                    yaml_keyed_node(item, "item", None)
                }
            },
            _ => yaml_keyed_node(item, "item", None),
        },
        SectionKind::ColumnHeader => yaml_keyed_node(item, "column", None),
        SectionKind::Row => yaml_keyed_node(item, "value", Some("value")),
        SectionKind::ColumnFooter => yaml_keyed_node(item, "value", Some("value")),
        SectionKind::PageHeader => yaml_keyed_node(item, "text", Some("text")),
        SectionKind::PageFooter => yaml_keyed_node(item, "text", Some("text")),
        SectionKind::Summary => match item {
            Yaml::Mapping(entries) => {
                proof {
                    assert(item@ == YamlV::Mapping(ymap_view(entries@)));
                }
                match ymap_get(entries, "paragraph") {
                    Some(p) => match p {
                        Yaml::List(texts) => {
                            let ghost textsv = yamls_view(texts@);
                            let ghost f = |t: YamlV| spec_yaml_keyed_node(
                                t,
                                "text"@,
                                Some("text"@),
                            );
                            let m = texts.len();
                            let mut children: Vec<Node> = Vec::new();
                            let mut i: usize = 0;
                            proof {
                                lemma_yamls_view(texts@);
                                assert(children.deep_view() =~= textsv.take(0).map_values(f));
                            }
                            while i < m
                                invariant
                                    i <= m,
                                    m == texts@.len(),
                                    textsv == yamls_view(texts@),
                                    textsv.len() == m,
                                    forall|k: int| 0 <= k < m ==> textsv[k] == yaml_view(
                                        #[trigger] texts@[k],
                                    ),
                                    f == (|t: YamlV| spec_yaml_keyed_node(
                                        t,
                                        "text"@,
                                        Some("text"@),
                                    )),
                                    children.deep_view() =~= textsv.take(i as int).map_values(f),
                                decreases m - i,
                            {
                                let ghost pre = children.deep_view();
                                let child = yaml_keyed_node(&texts[i], "text", Some("text"));
                                children.push(child);
                                proof {
                                    assert(children.deep_view() =~= pre + seq![child@]);
                                    assert(textsv.take(i + 1).map_values(f) =~= textsv.take(
                                        i as int,
                                    ).map_values(f) + seq![f(textsv[i as int])]);
                                }
                                i = i + 1;
                            }
                            let node = Node {
                                name: String::from_str("paragraph"),
                                args: Vec::new(),
                                attrs: Vec::new(),
                                children,
                            };
                            proof {
                                lemma_nodes_deep_view(node.children);
                                assert(textsv.take(m as int) =~= textsv);
                                let spec_node = spec_yaml_item(kind, item@);
                                assert(node@.args =~= spec_node.args);
                                assert(node@.attrs =~= spec_node.attrs);
                                assert(node@.children =~= spec_node.children);
                                assert(node@ == spec_node);
                            }
                            node
                        },
                        _ => yaml_keyed_node(item, "item", None),
                    },
                    None => yaml_keyed_node(item, "item", None),
                }
            },
            _ => yaml_keyed_node(item, "item", None),
        },
    }
}

/// Appends one section node to the section list when the template mapping
/// holds the section as a list.
fn push_section(out: &mut Vec<Node>, entries: &Vec<(Yaml, Yaml)>, kind: SectionKind)
    ensures
        final(out).deep_view() == old(out).deep_view() + opt_node_seq(
            spec_yaml_section(ymap_view(entries@), kind),
        ),
{
    let ghost pre = out.deep_view();
    match ymap_get(entries, kind.name()) {
        Some(v) => match v {
            Yaml::List(items) => {
                let ghost itemsv = yamls_view(items@);
                let ghost f = |it: YamlV| spec_yaml_item(kind, it);
                let m = items.len();
                let mut children: Vec<Node> = Vec::new();
                let mut i: usize = 0;
                proof {
                    lemma_yamls_view(items@);
                    assert(children.deep_view() =~= itemsv.take(0).map_values(f));
                }
                while i < m
                    invariant
                        i <= m,
                        m == items@.len(),
                        itemsv == yamls_view(items@),
                        itemsv.len() == m,
                        forall|k: int| 0 <= k < m ==> itemsv[k] == yaml_view(#[trigger] items@[k]),
                        f == (|it: YamlV| spec_yaml_item(kind, it)),
                        children.deep_view() =~= itemsv.take(i as int).map_values(f),
                    decreases m - i,
                {
                    let ghost cpre = children.deep_view();
                    let child = yaml_item(kind, &items[i]);
                    children.push(child);
                    proof {
                        assert(children.deep_view() =~= cpre + seq![child@]);
                        assert(itemsv.take(i + 1).map_values(f) =~= itemsv.take(
                            i as int,
                        ).map_values(f) + seq![f(itemsv[i as int])]);
                    }
                    i = i + 1;
                }
                let node = Node {
                    name: String::from_str(kind.name()),
                    args: Vec::new(),
                    attrs: Vec::new(),
                    children,
                };
                proof {
                    lemma_nodes_deep_view(node.children);
                    assert(itemsv.take(m as int) =~= itemsv);
                    let spec_node = spec_yaml_section(ymap_view(entries@), kind)->Some_0;
                    assert(node@.args =~= spec_node.args);
                    assert(node@.attrs =~= spec_node.attrs);
                    assert(node@.children =~= spec_node.children);
                    assert(node@ == spec_node);
                }
                out.push(node);
                proof {
                    assert(out.deep_view() =~= pre + seq![node@]);
                }
            },
            _ => {
                proof {
                    assert(out.deep_view() =~= pre + opt_node_seq(
                        spec_yaml_section(ymap_view(entries@), kind),
                    ));
                }
            },
        },
        None => {
            proof {
                assert(out.deep_view() =~= pre + opt_node_seq(
                    spec_yaml_section(ymap_view(entries@), kind),
                ));
            }
        },
    }
}

/// Normalizes a YAML template mapping to the section list.
fn yaml_sections(entries: &Vec<(Yaml, Yaml)>) -> (r: Vec<Node>)
    ensures
        r.deep_view() == spec_yaml_sections(ymap_view(entries@)),
{
    let mut out: Vec<Node> = Vec::new();
    proof {
        assert(out.deep_view() =~= Seq::<NodeV>::empty());
    }
    push_section(&mut out, entries, SectionKind::Title);
    push_section(&mut out, entries, SectionKind::ColumnHeader);
    push_section(&mut out, entries, SectionKind::Row);
    push_section(&mut out, entries, SectionKind::ColumnFooter);
    push_section(&mut out, entries, SectionKind::PageHeader);
    push_section(&mut out, entries, SectionKind::PageFooter);
    push_section(&mut out, entries, SectionKind::Summary);
    proof {
        assert(out.deep_view() =~= spec_yaml_sections(ymap_view(entries@)));
    }
    out
}

/// The section list a template text normalizes to. The syntax is determined
/// by content: text that parses as KDL and holds the `template` root node is
/// read as the node-with-attributes form; otherwise text that parses as a
/// YAML mapping is read as the nested-mapping form; text that parses only as
/// templateless KDL is missing its `template` root; `None` is text that
/// matches neither syntax. In the KDL form the sections are the children of
/// the `template` node.
pub open spec fn spec_template_sections(t: Seq<char>) -> Option<
    Result<Seq<NodeV>, ReportErrorV>,
> {
    let kdl = kdl_parse_of(t);
    if kdl is Some && spec_find_node(kdl->Some_0, "template"@) is Some {
        Some(spec_section(kdl->Some_0, "template"@))
    } else {
        match yaml_parse_of(t) {
            Some(y) => match y {
                YamlV::Mapping(m) => Some(Ok(spec_yaml_sections(m))),
                _ => if kdl is Some {
                    Some(Err(ReportErrorV::MissingSection("template"@)))
                } else {
                    None
                },
            },
            None => if kdl is Some {
                Some(Err(ReportErrorV::MissingSection("template"@)))
            } else {
                None
            },
        }
    }
}

/// Parses raw template text into the normalized section list. The syntax is
/// determined by content: text that parses as KDL is read as the
/// node-with-attributes form, anything else that parses as a YAML mapping as
/// the nested-mapping form, and any other text is a syntax error.
pub fn parse_template(text: &str) -> (r: Result<Vec<Node>, ReportError>)
    ensures
        match spec_template_sections(text@) {
            Some(res) => match r {
                Ok(ns) => res == Ok::<Seq<NodeV>, ReportErrorV>(ns.deep_view()),
                Err(e) => res == Err::<Seq<NodeV>, ReportErrorV>(e@),
            },
            None => r matches Err(e) && e@ is TemplateSyntax,
        },
{
    match parse_kdl_raw(text) {
        Ok(mut nodes) => {
            let ghost nodesv = nodes.deep_view();
            let idx = match find_node_index(&nodes, "template") {
                Some(i) => i,
                None => {
                    // valid KDL without the template root: the text may still
                    // be the nested-mapping form
                    return match parse_yaml_raw(text) {
                        Ok(y) => match y {
                            Yaml::Mapping(entries) => {
                                proof {
                                    assert(y@ == YamlV::Mapping(ymap_view(entries@)));
                                }
                                Ok(yaml_sections(&entries))
                            },
                            _ => Err(
                                ReportError::MissingSection(String::from_str("template")),
                            ),
                        },
                        Err(_) => Err(
                            ReportError::MissingSection(String::from_str("template")),
                        ),
                    };
                },
            };
            let template_node = nodes.remove(idx);
            proof {
                assert(template_node@ == nodesv[idx as int]);
                assert(spec_find_node(nodesv, "template"@) == Some(template_node@));
            }
            if template_node.children.len() == 0 {
                Err(ReportError::EmptySection(String::from_str("template")))
            } else {
                proof {
                    lemma_nodes_deep_view(template_node.children);
                }
                Ok(template_node.children)
            }
        },
        Err(_) => match parse_yaml_raw(text) {
            Ok(y) => match y {
                Yaml::Mapping(entries) => {
                    proof {
                        assert(y@ == YamlV::Mapping(ymap_view(entries@)));
                    }
                    Ok(yaml_sections(&entries))
                },
                _ => Err(
                    ReportError::TemplateSyntax(
                        String::from_str("template text matches neither accepted syntax"),
                    ),
                ),
            },
            Err(m) => Err(ReportError::TemplateSyntax(m)),
        },
    }
}

} // verus!
