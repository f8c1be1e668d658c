//! The normalized template tree: both accepted template syntaxes parse into
//! this one shape, so everything downstream is syntax-agnostic.
//!
//! A node has a name, ordered positional arguments, named attributes, and
//! optional nested children.

use vstd::prelude::*;

verus! {

broadcast use vstd::std_specs::vec::axiom_vec_index_decreases;

/// A scalar attribute or argument value of a template node.
///
/// Numeric values carry both their textual form (as written by the syntax
/// library that parsed them) and, when the number is integral and fits,
/// the integer itself.
#[derive(Debug, Clone, PartialEq, Eq)]
pub enum Scalar {
    Null,
    Bool(bool),
    Num { text: String, int_val: Option<i64> },
    Str(String),
}

/// The mathematical model of a `Scalar`.
pub enum ScalarV {
    Null,
    Bool(bool),
    Num { text: Seq<char>, int_val: Option<i64> },
    Str(Seq<char>),
}

impl View for Scalar {
    type V = ScalarV;

    open spec fn view(&self) -> ScalarV {
        match self {
            Scalar::Null => ScalarV::Null,
            Scalar::Bool(b) => ScalarV::Bool(*b),
            Scalar::Num { text, int_val } => ScalarV::Num { text: text@, int_val: *int_val },
            Scalar::Str(s) => ScalarV::Str(s@),
        }
    }
}

impl DeepView for Scalar {
    type V = ScalarV;

    open spec fn deep_view(&self) -> ScalarV {
        self@
    }
}

/// One node of the normalized template tree.
#[derive(Debug)]
pub struct Node {
    pub name: String,
    pub args: Vec<Scalar>,
    pub attrs: Vec<(String, Scalar)>,
    pub children: Vec<Node>,
}

/// The mathematical model of a `Node`.
pub struct NodeV {
    pub name: Seq<char>,
    pub args: Seq<ScalarV>,
    pub attrs: Seq<(Seq<char>, ScalarV)>,
    pub children: Seq<NodeV>,
}

/// The model of one node; children are modelled recursively.
pub open spec fn node_view(n: Node) -> NodeV
    decreases n,
{
    NodeV {
        name: n.name@,
        args: Seq::new(n.args@.len(), |i: int| n.args@[i]@),
        attrs: Seq::new(n.attrs@.len(), |i: int| (n.attrs@[i].0@, n.attrs@[i].1@)),
        children: nodes_view(n.children@),
    }
}

/// The model of a sequence of nodes, in order.
pub open spec fn nodes_view(s: Seq<Node>) -> Seq<NodeV>
    decreases s,
{
    if s.len() == 0 {
        Seq::empty()
    } else {
        seq![node_view(s[0])] + nodes_view(s.drop_first())
    }
}

/// `nodes_view` maps `node_view` over the sequence, element by element.
pub proof fn lemma_nodes_view(s: Seq<Node>)
    ensures
        nodes_view(s).len() == s.len(),
        forall|i: int| 0 <= i < s.len() ==> nodes_view(s)[i] == node_view(s[i]),
    decreases s.len(),
{
    if s.len() == 0 {
    } else {
        lemma_nodes_view(s.drop_first());
    }
}

impl View for Node {
    type V = NodeV;

    open spec fn view(&self) -> NodeV {
        node_view(*self)
    }
}

/// `nodes_view` of a vector's contents is its deep view.
pub proof fn lemma_nodes_deep_view(v: Vec<Node>)
    ensures
        nodes_view(v@) == v.deep_view(),
{
    lemma_nodes_view(v@);
    assert(nodes_view(v@) =~= v.deep_view());
}

/// First node of `s` whose name is `name`, if any.
pub open spec fn spec_find_node(s: Seq<NodeV>, name: Seq<char>) -> Option<NodeV>
    decreases s.len(),
{
    if s.len() == 0 {
        None
    } else if s[0].name == name {
        Some(s[0])
    } else {
        spec_find_node(s.drop_first(), name)
    }
}

/// First attribute of `attrs` whose name is `name`, if any.
pub open spec fn spec_find_attr(s: Seq<(Seq<char>, ScalarV)>, name: Seq<char>) -> Option<ScalarV>
    decreases s.len(),
{
    if s.len() == 0 {
        None
    } else if s[0].0 == name {
        Some(s[0].1)
    } else {
        spec_find_attr(s.drop_first(), name)
    }
}

/// Finds the first node of `nodes` named `name`.
pub fn find_node<'a>(nodes: &'a Vec<Node>, name: &str) -> (r: Option<&'a Node>)
    ensures
        match r {
            Some(node) => spec_find_node(nodes.deep_view(), name@) == Some(node@),
            None => spec_find_node(nodes.deep_view(), name@) is None,
        },
{
    let name_string = String::from_str(name);
    let n = nodes.len();
    let mut i: usize = 0;
    proof {
        assert(nodes.deep_view().skip(0) =~= nodes.deep_view());
    }
    while i < n
        invariant
            i <= n,
            n == nodes@.len(),
            name_string@ == name@,
            nodes.deep_view().len() == n,
            forall|k: int| 0 <= k < n ==> nodes.deep_view()[k] == #[trigger] nodes@[k]@,
            spec_find_node(nodes.deep_view().skip(i as int), name@) == spec_find_node(
                nodes.deep_view(),
                name@,
            ),
        decreases n - i,
    {
        proof {
            assert(nodes.deep_view().skip(i as int)[0] == nodes.deep_view()[i as int]);
            assert(nodes.deep_view().skip(i as int).drop_first() =~= nodes.deep_view().skip(
                i as int + 1,
            ));
        }
        if nodes[i].name == name_string {
            return Some(&nodes[i]);
        }
        i = i + 1;
    }
    proof {
        assert(nodes.deep_view().skip(n as int).len() == 0);
    }
    None
}

impl Node {
    /// Looks up the first attribute named `name`.
    pub fn get_attr<'a>(&'a self, name: &str) -> (r: Option<&'a Scalar>)
        ensures
            match r {
                Some(v) => spec_find_attr(self@.attrs, name@) == Some(v@),
                None => spec_find_attr(self@.attrs, name@) is None,
            },
    {
        let name_string = String::from_str(name);
        let n = self.attrs.len();
        let mut i: usize = 0;
        proof {
            assert(self@.attrs.skip(0) =~= self@.attrs);
        }
        while i < n
            invariant
                i <= n,
                n == self.attrs@.len(),
                name_string@ == name@,
                self@.attrs.len() == n,
                forall|k: int| 0 <= k < n ==> self@.attrs[k] == (
                    #[trigger] self.attrs@[k].0@,
                    self.attrs@[k].1@,
                ),
                spec_find_attr(self@.attrs.skip(i as int), name@) == spec_find_attr(
                    self@.attrs,
                    name@,
                ),
            decreases n - i,
        {
            proof {
                assert(self@.attrs.skip(i as int)[0] == self@.attrs[i as int]);
                assert(self@.attrs.skip(i as int).drop_first() =~= self@.attrs.skip(i as int + 1));
            }
            if self.attrs[i].0 == name_string {
                return Some(&self.attrs[i].1);
            }
            i = i + 1;
        }
        proof {
            assert(self@.attrs.skip(n as int).len() == 0);
        }
        None
    }

    /// The first positional argument, if any.
    pub fn first_arg<'a>(&'a self) -> (r: Option<&'a Scalar>)
        ensures
            match r {
                Some(v) => self@.args.len() > 0 && self@.args[0] == v@,
                None => self@.args.len() == 0,
            },
    {
        if self.args.len() > 0 {
            Some(&self.args[0])
        } else {
            None
        }
    }
}

/// The deep view of a node vector: each node's model, in order.
impl DeepView for Node {
    type V = NodeV;

    open spec fn deep_view(&self) -> NodeV {
        self@
    }
}

} // verus!
