//! YAML documents as trees of plain values.
//!
//! Parsing itself is done by `serde_yaml`; the result is rebuilt, one node
//! for one node, as a [`Node`], which the rest of the crate reads with
//! verified code.
use vstd::prelude::*;

verus! {

broadcast use vstd::std_specs::vec::group_vec_axioms;

/// One node of a parsed YAML document, held as plain values.
#[derive(Debug)]
pub enum Node {
    Null,
    Bool(bool),
    /// An integer scalar that fits in no unsigned word: always negative.
    Int(i64),
    /// A non-negative integer scalar.
    UInt(u64),
    /// A floating point scalar, held as its IEEE 754 double-precision bits.
    Float(u64),
    Text(String),
    List(Vec<Node>),
    Mapping(Vec<(Node, Node)>),
}

/// The mathematical shape of a [`Node`].
pub enum NodeView {
    Null,
    Bool(bool),
    Int(i64),
    UInt(u64),
    Float(u64),
    Text(Seq<char>),
    List(Seq<NodeView>),
    Mapping(Seq<(NodeView, NodeView)>),
}

pub open spec fn node_view(n: Node) -> NodeView
    decreases n,
{
    match n {
        Node::Null => NodeView::Null,
        Node::Bool(b) => NodeView::Bool(b),
        Node::Int(i) => NodeView::Int(i),
        Node::UInt(u) => NodeView::UInt(u),
        Node::Float(b) => NodeView::Float(b),
        Node::Text(s) => NodeView::Text(s@),
        Node::List(xs) => NodeView::List(node_seq_view(xs@)),
        Node::Mapping(es) => NodeView::Mapping(node_pair_seq_view(es@)),
    }
}

pub open spec fn node_seq_view(xs: Seq<Node>) -> Seq<NodeView>
    decreases xs,
{
    Seq::new(
        xs.len(),
        |i: int|
            if 0 <= i < xs.len() {
                node_view(xs[i])
            } else {
                NodeView::Null
            },
    )
}

pub open spec fn node_pair_seq_view(es: Seq<(Node, Node)>) -> Seq<(NodeView, NodeView)>
    decreases es,
{
    Seq::new(
        es.len(),
        |i: int|
            if 0 <= i < es.len() {
                (node_view(es[i].0), node_view(es[i].1))
            } else {
                (NodeView::Null, NodeView::Null)
            },
    )
}

impl View for Node {
    type V = NodeView;

    open spec fn view(&self) -> NodeView {
        node_view(*self)
    }
}

#[verifier::external_type_specification]
#[verifier::external_body]
pub struct ExValue(serde_yaml::Value);

#[verifier::external_type_specification]
#[verifier::external_body]
pub struct ExNumber(serde_yaml::Number);

/// The tree that a text yields when it parses as one YAML document,
/// or `None` when it does not parse.
pub uninterp spec fn yaml_doc_of(s: Seq<char>) -> Option<NodeView>;

/// Relies on `serde_yaml::from_str::<Value>`: whether a text parses as one
/// YAML document, and which tree it yields, depend on the text alone.
#[verifier::external_body]
pub(crate) fn parse_document(text: &str) -> (r: Result<Node, String>)
    ensures
        match r {
            Ok(n) => yaml_doc_of(text@) == Some(n@),
            Err(_) => yaml_doc_of(text@) is None,
        },
{
    match serde_yaml::from_str::<serde_yaml::Value>(text) {
        Ok(v) => Ok(node_of_value(v)),
        Err(e) => Err(e.to_string()),
    }
}

/// Relies on the shape of `serde_yaml::Value` alone: rebuilds the same tree
/// out of plain values, one node for one node, dropping only YAML tags.
#[verifier::external_body]
fn node_of_value(v: serde_yaml::Value) -> Node {
    match v {
        serde_yaml::Value::Null => Node::Null,
        serde_yaml::Value::Bool(b) => Node::Bool(b),
        serde_yaml::Value::Number(x) => number_node(x),
        serde_yaml::Value::String(s) => Node::Text(s),
        serde_yaml::Value::Sequence(xs) => Node::List(xs.into_iter().map(node_of_value).collect()),
        serde_yaml::Value::Mapping(m) => {
            Node::Mapping(m.into_iter().map(|(k, w)| (node_of_value(k), node_of_value(w))).collect())
        },
        serde_yaml::Value::Tagged(t) => node_of_value(t.value),
    }
}

/// Relies on `serde_yaml::Number::as_u64`, `as_i64` and `as_f64`: a number is
/// a non-negative integer, a negative integer, or a float, and `as_f64`
/// answers for every float.
#[verifier::external_body]
fn number_node(x: serde_yaml::Number) -> Node {
    if let Some(u) = x.as_u64() {
        Node::UInt(u)
    } else if let Some(i) = x.as_i64() {
        Node::Int(i)
    } else {
        match x.as_f64() {
            Some(f) => Node::Float(f.to_bits()),
            None => Node::Null,
        }
    }
}

/// The IEEE 754 double-precision bit pattern nearest to the integer `u`.
pub uninterp spec fn f64_bits_of_u64(u: u64) -> u64;

/// Relies on `serde_yaml::Number::from` and `as_f64`: the double-precision
/// value of an integer, which depends on the integer alone; `as_f64`
/// answers for every number.
#[verifier::external_body]
pub(crate) fn float_bits_of_uint(u: u64) -> (r: u64)
    ensures
        r == f64_bits_of_u64(u),
{
    match serde_yaml::Number::from(u).as_f64() {
        Some(f) => f.to_bits(),
        None => 0,
    }
}

/// The IEEE 754 double-precision bit pattern nearest to the integer `i`.
pub uninterp spec fn f64_bits_of_i64(i: i64) -> u64;

/// Relies on `serde_yaml::Number::from` and `as_f64`: the double-precision
/// value of an integer, which depends on the integer alone; `as_f64`
/// answers for every number.
#[verifier::external_body]
pub(crate) fn float_bits_of_int(i: i64) -> (r: u64)
    ensures
        r == f64_bits_of_i64(i),
{
    match serde_yaml::Number::from(i).as_f64() {
        Some(f) => f.to_bits(),
        None => 0,
    }
}

} // verus!
