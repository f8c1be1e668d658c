//! The document assembler: title headers and images, the table, the page
//! header and footer lines, and the summary paragraph are ordered into the
//! final document. Any missing required section or attribute anywhere in the
//! pipeline aborts the whole compile with the first error encountered;
//! partial documents are never returned.

use vstd::prelude::*;
use crate::document::Element;
use crate::document::ElementV;
use crate::document::TextSpan;
use crate::document::TextSpanV;
use crate::error::ReportError;
use crate::error::ReportErrorV;
use crate::images::ImageMap;
use crate::images::spec_image_lookup;
use crate::node::Node;
use crate::node::NodeV;
use crate::node::Scalar;
use crate::node::ScalarV;
use crate::node::find_node;
use crate::node::lemma_nodes_deep_view;
use crate::node::spec_find_attr;
use crate::node::spec_find_node;
use crate::params::ParamMap;
use crate::subst::subst;
use crate::subst::substitute;

verus! {

/// The value of a required integer attribute that must fit a display byte:
/// absent is a hard error, and so is any value that is not an integer
/// between 0 and 255.
pub open spec fn spec_u8_attr(attrs: Seq<(Seq<char>, ScalarV)>, name: Seq<char>) -> Result<
    u8,
    ReportErrorV,
> {
    match spec_find_attr(attrs, name) {
        None => Err(ReportErrorV::MissingAttribute(name)),
        Some(v) => match v {
            ScalarV::Num { text, int_val } => match int_val {
                Some(i) => if 0 <= i <= 255 {
                    Ok(i as u8)
                } else {
                    Err(ReportErrorV::TypeMismatch(name, "integer"@))
                },
                None => Err(ReportErrorV::TypeMismatch(name, "integer"@)),
            },
            _ => Err(ReportErrorV::TypeMismatch(name, "integer"@)),
        },
    }
}

/// The value of a required integer attribute.
pub open spec fn spec_i64_attr(attrs: Seq<(Seq<char>, ScalarV)>, name: Seq<char>) -> Result<
    i64,
    ReportErrorV,
> {
    match spec_find_attr(attrs, name) {
        None => Err(ReportErrorV::MissingAttribute(name)),
        Some(v) => match v {
            ScalarV::Num { text, int_val } => match int_val {
                Some(i) => Ok(i),
                None => Err(ReportErrorV::TypeMismatch(name, "integer"@)),
            },
            _ => Err(ReportErrorV::TypeMismatch(name, "integer"@)),
        },
    }
}

/// The value of a required string attribute.
pub open spec fn spec_str_attr(attrs: Seq<(Seq<char>, ScalarV)>, name: Seq<char>) -> Result<
    Seq<char>,
    ReportErrorV,
> {
    match spec_find_attr(attrs, name) {
        None => Err(ReportErrorV::MissingAttribute(name)),
        Some(v) => match v {
            ScalarV::Str(s) => Ok(s),
            _ => Err(ReportErrorV::TypeMismatch(name, "string"@)),
        },
    }
}

/// Reads a required display-byte attribute of a node.
fn u8_attr(node: &Node, name: &str) -> (r: Result<u8, ReportError>)
    ensures
        match r {
            Ok(v) => spec_u8_attr(node@.attrs, name@) == Ok::<u8, ReportErrorV>(v),
            Err(e) => spec_u8_attr(node@.attrs, name@) == Err::<u8, ReportErrorV>(e@),
        },
{
    match node.get_attr(name) {
        None => Err(ReportError::MissingAttribute(String::from_str(name))),
        Some(v) => match v {
            Scalar::Num { text, int_val } => match int_val {
                Some(i) => if 0 <= *i && *i <= 255 {
                    Ok(*i as u8)
                } else {
                    Err(ReportError::TypeMismatch(
                        String::from_str(name),
                        String::from_str("integer"),
                    ))
                },
                None => Err(ReportError::TypeMismatch(
                    String::from_str(name),
                    String::from_str("integer"),
                )),
            },
            _ => Err(ReportError::TypeMismatch(
                String::from_str(name),
                String::from_str("integer"),
            )),
        },
    }
}

/// Reads a required integer attribute of a node.
fn i64_attr(node: &Node, name: &str) -> (r: Result<i64, ReportError>)
    ensures
        match r {
            Ok(v) => spec_i64_attr(node@.attrs, name@) == Ok::<i64, ReportErrorV>(v),
            Err(e) => spec_i64_attr(node@.attrs, name@) == Err::<i64, ReportErrorV>(e@),
        },
{
    match node.get_attr(name) {
        None => Err(ReportError::MissingAttribute(String::from_str(name))),
        Some(v) => match v {
            Scalar::Num { text, int_val } => match int_val {
                Some(i) => Ok(*i),
                None => Err(ReportError::TypeMismatch(
                    String::from_str(name),
                    String::from_str("integer"),
                )),
            },
            _ => Err(ReportError::TypeMismatch(
                String::from_str(name),
                String::from_str("integer"),
            )),
        },
    }
}

/// Reads a required string attribute of a node.
fn str_attr(node: &Node, name: &str) -> (r: Result<String, ReportError>)
    ensures
        match r {
            Ok(v) => spec_str_attr(node@.attrs, name@) == Ok::<Seq<char>, ReportErrorV>(v@),
            Err(e) => spec_str_attr(node@.attrs, name@) == Err::<Seq<char>, ReportErrorV>(e@),
        },
{
    match node.get_attr(name) {
        None => Err(ReportError::MissingAttribute(String::from_str(name))),
        Some(v) => match v {
            Scalar::Str(s) => Ok(s.clone()),
            _ => Err(ReportError::TypeMismatch(
                String::from_str(name),
                String::from_str("string"),
            )),
        },
    }
}

/// The header elements one title `header` node yields: one per positional
/// text entry, in entry order, each with placeholders substituted; an entry
/// that is not a string is a type mismatch.
pub open spec fn spec_header_elements(
    args: Seq<ScalarV>,
    p: Map<Seq<char>, Seq<char>>,
    level: u8,
) -> Result<Seq<ElementV>, ReportErrorV>
    decreases args.len(),
{
    if args.len() == 0 {
        Ok(Seq::empty())
    } else {
        match args[0] {
            ScalarV::Str(s) => match spec_header_elements(args.drop_first(), p, level) {
                Err(e) => Err(e),
                Ok(rest) => Ok(seq![ElementV::Header { text: subst(s, p), level }] + rest),
            },
            _ => Err(ReportErrorV::TypeMismatch("text"@, "string"@)),
        }
    }
}

/// The elements one title node yields: a `header` node yields one header per
/// positional text entry at its required `level`; an `image` node yields one
/// image element, its bytes looked up under its `src` name in the caller's
/// image map (a missing image is a fatal error); any other node yields
/// nothing.
pub open spec fn spec_title_node_elements(
    n: NodeV,
    p: Map<Seq<char>, Seq<char>>,
    images: Seq<(Seq<char>, Seq<u8>)>,
) -> Result<Seq<ElementV>, ReportErrorV> {
    if n.name == "header"@ {
        match spec_u8_attr(n.attrs, "level"@) {
            Err(e) => Err(e),
            Ok(level) => spec_header_elements(n.args, p, level),
        }
    } else if n.name == "image"@ {
        match spec_str_attr(n.attrs, "src"@) {
            Err(e) => Err(e),
            Ok(src) => match spec_i64_attr(n.attrs, "width"@) {
                Err(e) => Err(e),
                Ok(w) => match spec_i64_attr(n.attrs, "height"@) {
                    Err(e) => Err(e),
                    Ok(h) => match spec_image_lookup(images, src) {
                        None => Err(ReportErrorV::Io(src)),
                        Some(bytes) => Ok(
                            seq![ElementV::Image { bytes, width: w, height: h }],
                        ),
                    },
                },
            },
        }
    } else {
        Ok(Seq::empty())
    }
}

/// The elements of all title nodes, in declared order, or the first error.
pub open spec fn spec_title_elements(
    nodes: Seq<NodeV>,
    p: Map<Seq<char>, Seq<char>>,
    images: Seq<(Seq<char>, Seq<u8>)>,
) -> Result<Seq<ElementV>, ReportErrorV>
    decreases nodes.len(),
{
    if nodes.len() == 0 {
        Ok(Seq::empty())
    } else {
        match spec_title_node_elements(nodes[0], p, images) {
            Err(e) => Err(e),
            Ok(els) => match spec_title_elements(nodes.drop_first(), p, images) {
                Err(e) => Err(e),
                Ok(rest) => Ok(els + rest),
            },
        }
    }
}

/// Splitting the title nodes splits the element computation.
proof fn lemma_spec_title_elements_add(
    a: Seq<NodeV>,
    b: Seq<NodeV>,
    p: Map<Seq<char>, Seq<char>>,
    images: Seq<(Seq<char>, Seq<u8>)>,
)
    ensures
        spec_title_elements(a + b, p, images) == match spec_title_elements(a, p, images) {
            Err(e) => Err::<Seq<ElementV>, ReportErrorV>(e),
            Ok(ea) => match spec_title_elements(b, p, images) {
                Err(e) => Err(e),
                Ok(eb) => Ok(ea + eb),
            },
        },
    decreases a.len(),
{
    if a.len() == 0 {
        assert(a + b =~= b);
        if spec_title_elements(b, p, images) is Ok {
            assert(Seq::<ElementV>::empty() + spec_title_elements(b, p, images)->Ok_0
                =~= spec_title_elements(b, p, images)->Ok_0);
        }
    } else {
        assert((a + b)[0] == a[0]);
        assert((a + b).drop_first() =~= a.drop_first() + b);
        lemma_spec_title_elements_add(a.drop_first(), b, p, images);
        if spec_title_node_elements(a[0], p, images) is Ok && spec_title_elements(
            a.drop_first(),
            p,
            images,
        ) is Ok && spec_title_elements(b, p, images) is Ok {
            assert(spec_title_node_elements(a[0], p, images)->Ok_0 + (spec_title_elements(
                a.drop_first(),
                p,
                images,
            )->Ok_0 + spec_title_elements(b, p, images)->Ok_0) =~= (spec_title_node_elements(
                a[0],
                p,
                images,
            )->Ok_0 + spec_title_elements(a.drop_first(), p, images)->Ok_0)
                + spec_title_elements(b, p, images)->Ok_0);
        }
    }
}

/// Builds the elements of one title node.
fn title_node_elements(node: &Node, params: &ParamMap, images: &ImageMap) -> (r: Result<
    Vec<Element>,
    ReportError,
>)
    ensures
        match r {
            Ok(els) => spec_title_node_elements(
                node@,
                params.as_map(),
                images.entries.deep_view(),
            ) == Ok::<Seq<ElementV>, ReportErrorV>(els.deep_view()),
            Err(e) => spec_title_node_elements(
                node@,
                params.as_map(),
                images.entries.deep_view(),
            ) == Err::<Seq<ElementV>, ReportErrorV>(e@),
        },
{
    let header_name = String::from_str("header");
    let image_name = String::from_str("image");
    if node.name == header_name {
        let level = match u8_attr(node, "level") {
            Ok(v) => v,
            Err(e) => {
                return Err(e);
            },
        };
        let ghost p = params.as_map();
        let ghost argsv = node@.args;
        let n = node.args.len();
        let mut out: Vec<Element> = Vec::new();
        let mut i: usize = 0;
        proof {
            assert(argsv.take(0) =~= Seq::<ScalarV>::empty());
            assert(out.deep_view() =~= Seq::<ElementV>::empty());
        }
        while i < n
            invariant
                i <= n,
                n == node.args@.len(),
                p == params.as_map(),
                node@.name == "header"@,
                spec_u8_attr(node@.attrs, "level"@) == Ok::<u8, ReportErrorV>(level),
                argsv == node@.args,
                argsv.len() == n,
                forall|k: int| 0 <= k < n ==> argsv[k] == #[trigger] node.args@[k]@,
                spec_header_elements(argsv.take(i as int), p, level) == Ok::<
                    Seq<ElementV>,
                    ReportErrorV,
                >(out.deep_view()),
            decreases n - i,
        {
            let ghost pre = out.deep_view();
            let text = match &node.args[i] {
                Scalar::Str(s) => s,
                _ => {
                    proof {
                        assert(argsv =~= argsv.take(i as int) + argsv.skip(i as int));
                        lemma_spec_header_elements_add(
                            argsv.take(i as int),
                            argsv.skip(i as int),
                            p,
                            level,
                        );
                        assert(argsv.skip(i as int)[0] == argsv[i as int]);
                    }
                    return Err(ReportError::TypeMismatch(
                        String::from_str("text"),
                        String::from_str("string"),
                    ));
                },
            };
            let resolved = substitute(text.as_str(), params);
            let element = Element::Header { text: resolved, level };
            out.push(element);
            proof {
                assert(argsv[i as int] == ScalarV::Str(text@));
                assert(argsv.take(i + 1) =~= argsv.take(i as int) + seq![argsv[i as int]]);
                lemma_spec_header_elements_add(
                    argsv.take(i as int),
                    seq![argsv[i as int]],
                    p,
                    level,
                );
                assert(seq![argsv[i as int]].drop_first() =~= Seq::<ScalarV>::empty());
                assert(spec_header_elements(Seq::<ScalarV>::empty(), p, level) == Ok::<
                    Seq<ElementV>,
                    ReportErrorV,
                >(Seq::empty()));
                assert(seq![argsv[i as int]][0] == argsv[i as int]);
                assert(spec_header_elements(seq![argsv[i as int]], p, level) == Ok::<
                    Seq<ElementV>,
                    ReportErrorV,
                >(seq![ElementV::Header { text: subst(text@, p), level }] + Seq::empty()));
                assert(seq![ElementV::Header { text: subst(text@, p), level }] + Seq::<
                    ElementV,
                >::empty() =~= seq![ElementV::Header { text: subst(text@, p), level }]);
                assert(out.deep_view() =~= pre + seq![
                    ElementV::Header { text: subst(text@, p), level },
                ]);
            }
            i = i + 1;
        }
        proof {
            assert(argsv.take(n as int) =~= argsv);
        }
        Ok(out)
    } else if node.name == image_name {
        let src = match str_attr(node, "src") {
            Ok(v) => v,
            Err(e) => {
                return Err(e);
            },
        };
        let width = match i64_attr(node, "width") {
            Ok(v) => v,
            Err(e) => {
                return Err(e);
            },
        };
        let height = match i64_attr(node, "height") {
            Ok(v) => v,
            Err(e) => {
                return Err(e);
            },
        };
        let bytes = match images.get(src.as_str()) {
            Some(b) => b.clone(),
            None => {
                return Err(ReportError::Io(src));
            },
        };
        let mut out: Vec<Element> = Vec::new();
        out.push(Element::Image { bytes, width, height });
        proof {
            assert(out.deep_view() =~= seq![
                ElementV::Image {
                    bytes: spec_image_lookup(images.entries.deep_view(), src@)->Some_0,
                    width: width,
                    height: height,
                },
            ]);
        }
        Ok(out)
    } else {
        let out: Vec<Element> = Vec::new();
        proof {
            assert(node@.name != "header"@ && node@.name != "image"@);
            assert(out.deep_view() =~= Seq::<ElementV>::empty());
        }
        Ok(out)
    }
}

/// Splitting the header entries splits the element computation.
proof fn lemma_spec_header_elements_add(
    a: Seq<ScalarV>,
    b: Seq<ScalarV>,
    p: Map<Seq<char>, Seq<char>>,
    level: u8,
)
    ensures
        spec_header_elements(a + b, p, level) == match spec_header_elements(a, p, level) {
            Err(e) => Err::<Seq<ElementV>, ReportErrorV>(e),
            Ok(ea) => match spec_header_elements(b, p, level) {
                Err(e) => Err(e),
                Ok(eb) => Ok(ea + eb),
            },
        },
    decreases a.len(),
{
    if a.len() == 0 {
        assert(a + b =~= b);
        if spec_header_elements(b, p, level) is Ok {
            assert(Seq::<ElementV>::empty() + spec_header_elements(b, p, level)->Ok_0
                =~= spec_header_elements(b, p, level)->Ok_0);
        }
    } else {
        assert((a + b)[0] == a[0]);
        assert((a + b).drop_first() =~= a.drop_first() + b);
        lemma_spec_header_elements_add(a.drop_first(), b, p, level);
        if a[0] is Str && spec_header_elements(a.drop_first(), p, level) is Ok
            && spec_header_elements(b, p, level) is Ok {
            let head = ElementV::Header { text: subst(a[0]->Str_0, p), level };
            assert(seq![head] + (spec_header_elements(a.drop_first(), p, level)->Ok_0
                + spec_header_elements(b, p, level)->Ok_0) =~= (seq![head]
                + spec_header_elements(a.drop_first(), p, level)->Ok_0) + spec_header_elements(
                b,
                p,
                level,
            )->Ok_0);
        }
    }
}

/// Builds the elements of the whole title section, in declared order.
pub fn title_elements(nodes: &Vec<Node>, params: &ParamMap, images: &ImageMap) -> (r: Result<
    Vec<Element>,
    ReportError,
>)
    ensures
        match r {
            Ok(els) => spec_title_elements(
                nodes.deep_view(),
                params.as_map(),
                images.entries.deep_view(),
            ) == Ok::<Seq<ElementV>, ReportErrorV>(els.deep_view()),
            Err(e) => spec_title_elements(
                nodes.deep_view(),
                params.as_map(),
                images.entries.deep_view(),
            ) == Err::<Seq<ElementV>, ReportErrorV>(e@),
        },
{
    let ghost nodesv = nodes.deep_view();
    let ghost p = params.as_map();
    let ghost imgs = images.entries.deep_view();
    let n = nodes.len();
    let mut out: Vec<Element> = Vec::new();
    let mut i: usize = 0;
    proof {
        assert(nodesv.take(0) =~= Seq::<NodeV>::empty());
        assert(out.deep_view() =~= Seq::<ElementV>::empty());
    }
    while i < n
        invariant
            i <= n,
            n == nodes@.len(),
            nodesv == nodes.deep_view(),
            p == params.as_map(),
            imgs == images.entries.deep_view(),
            nodesv.len() == n,
            forall|k: int| 0 <= k < n ==> nodesv[k] == #[trigger] nodes@[k]@,
            spec_title_elements(nodesv.take(i as int), p, imgs) == Ok::<
                Seq<ElementV>,
                ReportErrorV,
            >(out.deep_view()),
        decreases n - i,
    {
        let ghost pre = out.deep_view();
        match title_node_elements(&nodes[i], params, images) {
            Ok(mut els) => {
                proof {
                    assert(spec_title_node_elements(nodesv[i as int], p, imgs) == Ok::<
                        Seq<ElementV>,
                        ReportErrorV,
                    >(els.deep_view()));
                }
                let ghost elsv = els.deep_view();
                out.append(&mut els);
                proof {
                    assert(nodesv.take(i + 1) =~= nodesv.take(i as int) + seq![nodesv[i as int]]);
                    lemma_spec_title_elements_add(
                        nodesv.take(i as int),
                        seq![nodesv[i as int]],
                        p,
                        imgs,
                    );
                    assert(seq![nodesv[i as int]].drop_first() =~= Seq::<NodeV>::empty());
                    assert(spec_title_elements(Seq::<NodeV>::empty(), p, imgs) == Ok::<
                        Seq<ElementV>,
                        ReportErrorV,
                    >(Seq::empty()));
                    assert(seq![nodesv[i as int]][0] == nodesv[i as int]);
                    assert(spec_title_elements(seq![nodesv[i as int]], p, imgs) == Ok::<
                        Seq<ElementV>,
                        ReportErrorV,
                    >(elsv + Seq::empty()));
                    assert(elsv + Seq::<ElementV>::empty() =~= elsv);
                    assert(out.deep_view() =~= pre + elsv);
                }
            },
            Err(e) => {
                proof {
                    assert(nodesv =~= nodesv.take(i as int) + nodesv.skip(i as int));
                    lemma_spec_title_elements_add(
                        nodesv.take(i as int),
                        nodesv.skip(i as int),
                        p,
                        imgs,
                    );
                    assert(nodesv.skip(i as int)[0] == nodesv[i as int]);
                }
                return Err(e);
            },
        }
        i = i + 1;
    }
    proof {
        assert(nodesv.take(n as int) =~= nodesv);
    }
    Ok(out)
}

/// The one text line a page band yields: its required `text` node's first
/// positional text at the node's required `size`. No substitution is applied
/// to page header or footer text: they are static labels.
pub open spec fn spec_band_line(nodes: Seq<NodeV>) -> Result<TextSpanV, ReportErrorV> {
    match spec_find_node(nodes, "text"@) {
        None => Err(ReportErrorV::MissingAttribute("text"@)),
        Some(tn) => if tn.args.len() == 0 {
            Err(ReportErrorV::MissingAttribute("text"@))
        } else {
            match tn.args[0] {
                ScalarV::Str(s) => match spec_u8_attr(tn.attrs, "size"@) {
                    Err(e) => Err(e),
                    Ok(size) => Ok(TextSpanV { text: s, size }),
                },
                _ => Err(ReportErrorV::TypeMismatch("text"@, "string"@)),
            }
        },
    }
}

/// Builds the text line of a page header or page footer section.
pub fn band_line(nodes: &Vec<Node>) -> (r: Result<TextSpan, ReportError>)
    ensures
        match r {
            Ok(line) => spec_band_line(nodes.deep_view()) == Ok::<TextSpanV, ReportErrorV>(line@),
            Err(e) => spec_band_line(nodes.deep_view()) == Err::<TextSpanV, ReportErrorV>(e@),
        },
{
    let tn = match find_node(nodes, "text") {
        Some(node) => node,
        None => {
            return Err(ReportError::MissingAttribute(String::from_str("text")));
        },
    };
    let text = match tn.first_arg() {
        Some(v) => match v {
            Scalar::Str(s) => s.clone(),
            _ => {
                return Err(ReportError::TypeMismatch(
                    String::from_str("text"),
                    String::from_str("string"),
                ));
            },
        },
        None => {
            return Err(ReportError::MissingAttribute(String::from_str("text")));
        },
    };
    let size = match u8_attr(tn, "size") {
        Ok(v) => v,
        Err(e) => {
            return Err(e);
        },
    };
    Ok(TextSpan { text, size })
}

/// The summary paragraph: the required `paragraph` node nests a `text` node
/// read like a page band line, and the text then goes through placeholder
/// substitution.
pub open spec fn spec_summary_paragraph(nodes: Seq<NodeV>, p: Map<Seq<char>, Seq<char>>) -> Result<
    ElementV,
    ReportErrorV,
> {
    match spec_find_node(nodes, "paragraph"@) {
        None => Err(ReportErrorV::MissingAttribute("paragraph"@)),
        Some(pn) => match spec_band_line(pn.children) {
            Err(e) => Err(e),
            Ok(line) => Ok(
                ElementV::Paragraph {
                    texts: seq![TextSpanV { text: subst(line.text, p), size: line.size }],
                },
            ),
        },
    }
}

/// Builds the summary paragraph element.
pub fn summary_paragraph(nodes: &Vec<Node>, params: &ParamMap) -> (r: Result<
    Element,
    ReportError,
>)
    ensures
        match r {
            Ok(el) => spec_summary_paragraph(nodes.deep_view(), params.as_map()) == Ok::<
                ElementV,
                ReportErrorV,
            >(el@),
            Err(e) => spec_summary_paragraph(nodes.deep_view(), params.as_map()) == Err::<
                ElementV,
                ReportErrorV,
            >(e@),
        },
{
    let pn = match find_node(nodes, "paragraph") {
        Some(node) => node,
        None => {
            return Err(ReportError::MissingAttribute(String::from_str("paragraph")));
        },
    };
    proof {
        lemma_nodes_deep_view(pn.children);
    }
    let line = match band_line(&pn.children) {
        Ok(l) => l,
        Err(e) => {
            return Err(e);
        },
    };
    let resolved = substitute(line.text.as_str(), params);
    let mut texts: Vec<TextSpan> = Vec::new();
    texts.push(TextSpan { text: resolved, size: line.size });
    let element = Element::Paragraph { texts };
    proof {
        assert(element@ matches ElementV::Paragraph { texts: t } && t =~= seq![
            TextSpanV {
                text: subst(line@.text, params.as_map()),
                size: line@.size,
            },
        ]);
    }
    Ok(element)
}

} // verus!
