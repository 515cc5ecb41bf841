//! The shape of the four configuration documents, and verified extraction
//! of records out of parsed YAML trees.
use vstd::prelude::*;

use crate::model::{
    Background, BackgroundV, BackgroundVariant, BackgroundVariantV, CharacterMeta, CharacterMetaV,
    Font, FontV, TextConfigItem, TextConfigItemV,
};
use crate::table::{str_eq, Table};
use crate::yaml::{
    f64_bits_of_i64, f64_bits_of_u64, float_bits_of_int, float_bits_of_uint, node_pair_seq_view,
    node_seq_view, Node, NodeView,
};

verus! {

/// The value that a mapping's entries bind a text key to: the last
/// binding wins, as in the source documents.
pub open spec fn lookup(es: Seq<(NodeView, NodeView)>, key: Seq<char>) -> Option<NodeView>
    decreases es.len(),
{
    if es.len() == 0 {
        None
    } else if es.last().0 == NodeView::Text(key) {
        Some(es.last().1)
    } else {
        lookup(es.drop_last(), key)
    }
}

/// The character sequence a text node holds.
pub open spec fn str_of(n: NodeView) -> Option<Seq<char>> {
    match n {
        NodeView::Text(s) => Some(s),
        _ => None,
    }
}

/// The non-negative integer a scalar node holds, when it fits in 32 bits.
pub open spec fn u32_of(n: NodeView) -> Option<u32> {
    match n {
        NodeView::UInt(u) => if u < 0x1_0000_0000 {
            Some(u as u32)
        } else {
            None
        },
        NodeView::Int(i) => if 0 <= i < 0x1_0000_0000 {
            Some(i as u32)
        } else {
            None
        },
        _ => None,
    }
}

/// The signed integer a scalar node holds, when it fits in 32 bits.
pub open spec fn i32_of(n: NodeView) -> Option<i32> {
    match n {
        NodeView::UInt(u) => if u < 0x8000_0000 {
            Some(u as i32)
        } else {
            None
        },
        NodeView::Int(i) => if -0x8000_0000 <= i < 0x8000_0000 {
            Some(i as i32)
        } else {
            None
        },
        _ => None,
    }
}

/// The byte a scalar node holds, when it fits in 8 bits.
pub open spec fn u8_of(n: NodeView) -> Option<u8> {
    match n {
        NodeView::UInt(u) => if u < 0x100 {
            Some(u as u8)
        } else {
            None
        },
        NodeView::Int(i) => if 0 <= i < 0x100 {
            Some(i as u8)
        } else {
            None
        },
        _ => None,
    }
}

/// The double-precision bit pattern a numeric node denotes.
pub open spec fn f64_bits_of(n: NodeView) -> Option<u64> {
    match n {
        NodeView::Float(b) => Some(b),
        NodeView::UInt(u) => Some(f64_bits_of_u64(u)),
        NodeView::Int(i) => Some(f64_bits_of_i64(i)),
        _ => None,
    }
}

/// The text bound to `key` in a mapping's entries, when there is one.
pub open spec fn field_str(es: Seq<(NodeView, NodeView)>, key: Seq<char>) -> Option<Seq<char>> {
    match lookup(es, key) {
        Some(v) => str_of(v),
        None => None,
    }
}

/// The 32-bit count bound to `key` in a mapping's entries, when there is one.
pub open spec fn field_u32(es: Seq<(NodeView, NodeView)>, key: Seq<char>) -> Option<u32> {
    match lookup(es, key) {
        Some(v) => u32_of(v),
        None => None,
    }
}

/// A record type that one YAML node describes.
pub trait FromNode: Sized + DeepView {
    /// The record a node denotes, or `None` when the node does not fit
    /// the record's shape.
    spec fn node_spec(n: NodeView) -> Option<Self::V>;

    /// What a well-formed value of the type keeps true inside.
    spec fn inv(&self) -> bool;

    /// Reads the record out of a node, exactly as `node_spec` says.
    fn of_node(n: &Node) -> (r: Option<Self>)
        ensures
            match r {
                Some(v) => Self::node_spec(n@) == Some(v.deep_view()) && v.inv(),
                None => Self::node_spec(n@) is None,
            },
    ;
}

/// The table a mapping node denotes, entry by entry: `None` as soon as a
/// key is no text or a value does not fit `V`; the last binding of a key
/// wins.
pub open spec fn entries_table<V: FromNode>(es: Seq<(NodeView, NodeView)>) -> Option<
    Map<Seq<char>, V::V>,
>
    decreases es.len(),
{
    if es.len() == 0 {
        Some(Map::empty())
    } else {
        match entries_table::<V>(es.drop_last()) {
            Some(m) => match es.last().0 {
                NodeView::Text(k) => match V::node_spec(es.last().1) {
                    Some(v) => Some(m.insert(k, v)),
                    None => None,
                },
                _ => None,
            },
            None => None,
        }
    }
}

/// The table a node denotes: the node must be a mapping.
pub open spec fn table_of<V: FromNode>(n: NodeView) -> Option<Map<Seq<char>, V::V>> {
    match n {
        NodeView::Mapping(es) => entries_table::<V>(es),
        _ => None,
    }
}

/// The table a whole document denotes: a mapping at top level, whose
/// `key` entry is the table; other top-level entries are ignored.
pub open spec fn doc_table<V: FromNode>(root: NodeView, key: Seq<char>) -> Option<
    Map<Seq<char>, V::V>,
> {
    match root {
        NodeView::Mapping(es) => match lookup(es, key) {
            Some(v) => table_of::<V>(v),
            None => None,
        },
        _ => None,
    }
}

/// Finds the value bound to `key` in a mapping's entries; the last
/// binding wins.
pub fn lookup_node<'a>(es: &'a Vec<(Node, Node)>, key: &str) -> (r: Option<&'a Node>)
    ensures
        match r {
            Some(v) => lookup(node_pair_seq_view(es@), key@) == Some(v@),
            None => lookup(node_pair_seq_view(es@), key@) is None,
        },
{
    let ghost pv = node_pair_seq_view(es@);
    proof {
        assert(pv.take(pv.len() as int) =~= pv);
    }
    let mut j = es.len();
    while j > 0
        invariant
            pv == node_pair_seq_view(es@),
            j <= es@.len(),
            pv.len() == es@.len(),
            lookup(pv, key@) == lookup(pv.take(j as int), key@),
        decreases j,
    {
        j -= 1;
        proof {
            assert(pv.take(j + 1).drop_last() =~= pv.take(j as int));
            assert(pv.take(j + 1).last() == pv[j as int]);
        }
        let hit = match &es[j].0 {
            Node::Text(s) => str_eq(s.as_str(), key),
            _ => false,
        };
        if hit {
            return Some(&es[j].1);
        }
    }
    proof {
        assert(pv.take(0) =~= Seq::<(NodeView, NodeView)>::empty());
    }
    None
}

/// Reads a text node's characters.
pub fn node_str(n: &Node) -> (r: Option<String>)
    ensures
        match r {
            Some(s) => str_of(n@) == Some(s@),
            None => str_of(n@) is None,
        },
{
    match n {
        Node::Text(s) => Some(s.clone()),
        _ => None,
    }
}

/// Reads a non-negative 32-bit integer out of a scalar node.
pub fn node_u32(n: &Node) -> (r: Option<u32>)
    ensures
        r == u32_of(n@),
{
    match n {
        Node::UInt(u) => if *u < 0x1_0000_0000 {
            Some(*u as u32)
        } else {
            None
        },
        Node::Int(i) => if 0 <= *i && *i < 0x1_0000_0000 {
            Some(*i as u32)
        } else {
            None
        },
        _ => None,
    }
}

/// Reads a signed 32-bit integer out of a scalar node.
pub fn node_i32(n: &Node) -> (r: Option<i32>)
    ensures
        r == i32_of(n@),
{
    match n {
        Node::UInt(u) => if *u < 0x8000_0000 {
            Some(*u as i32)
        } else {
            None
        },
        Node::Int(i) => if -0x8000_0000 <= *i && *i < 0x8000_0000 {
            Some(*i as i32)
        } else {
            None
        },
        _ => None,
    }
}

/// Reads a byte out of a scalar node.
pub fn node_u8(n: &Node) -> (r: Option<u8>)
    ensures
        r == u8_of(n@),
{
    match n {
        Node::UInt(u) => if *u < 0x100 {
            Some(*u as u8)
        } else {
            None
        },
        Node::Int(i) => if 0 <= *i && *i < 0x100 {
            Some(*i as u8)
        } else {
            None
        },
        _ => None,
    }
}

/// Reads the double-precision bit pattern a numeric node denotes.
pub fn node_f64_bits(n: &Node) -> (r: Option<u64>)
    ensures
        r == f64_bits_of(n@),
{
    match n {
        Node::Float(b) => Some(*b),
        Node::UInt(u) => Some(float_bits_of_uint(*u)),
        Node::Int(i) => Some(float_bits_of_int(*i)),
        _ => None,
    }
}

/// The character record a node denotes: a mapping with a text `full_name`,
/// a non-negative 32-bit `emotion_count` and a text `font`.
pub open spec fn character_of(n: NodeView) -> Option<CharacterMetaV> {
    match n {
        NodeView::Mapping(es) => match (
            field_str(es, "full_name"@),
            field_u32(es, "emotion_count"@),
            field_str(es, "font"@),
        ) {
            (Some(full_name), Some(emotion_count), Some(font)) => Some(
                CharacterMetaV { full_name, emotion_count, font },
            ),
            _ => None,
        },
        _ => None,
    }
}

/// The background variant a node denotes: a mapping with a text `name`
/// and a text `file`.
pub open spec fn variant_of(n: NodeView) -> Option<BackgroundVariantV> {
    match n {
        NodeView::Mapping(es) => match (field_str(es, "name"@), field_str(es, "file"@)) {
            (Some(name), Some(file)) => Some(BackgroundVariantV { name, file }),
            _ => None,
        },
        _ => None,
    }
}

/// The font record a node denotes: a mapping with a text `name` and a
/// text `file`.
pub open spec fn font_of(n: NodeView) -> Option<FontV> {
    match n {
        NodeView::Mapping(es) => match (field_str(es, "name"@), field_str(es, "file"@)) {
            (Some(name), Some(file)) => Some(FontV { name, file }),
            _ => None,
        },
        _ => None,
    }
}

/// The background a node denotes: text `name` and `file`, and an optional
/// `variants` mapping that defaults to empty when absent.
pub open spec fn background_of(n: NodeView) -> Option<BackgroundV> {
    match n {
        NodeView::Mapping(es) => {
            let vs = match lookup(es, "variants"@) {
                Some(v) => table_of::<BackgroundVariant>(v),
                None => Some(Map::<Seq<char>, BackgroundVariantV>::empty()),
            };
            match (field_str(es, "name"@), field_str(es, "file"@), vs) {
                (Some(name), Some(file), Some(variants)) => Some(
                    BackgroundV { name, file, variants },
                ),
                _ => None,
            }
        },
        _ => None,
    }
}

/// The pair (x, y) a node denotes: a list of exactly two 32-bit integers.
pub open spec fn position_of(n: NodeView) -> Option<(i32, i32)> {
    match n {
        NodeView::List(vs) => if vs.len() == 2 {
            match (i32_of(vs[0]), i32_of(vs[1])) {
                (Some(a), Some(b)) => Some((a, b)),
                _ => None,
            }
        } else {
            None
        },
        _ => None,
    }
}

/// The color a node denotes: a list of exactly three bytes.
pub open spec fn color_of(n: NodeView) -> Option<(u8, u8, u8)> {
    match n {
        NodeView::List(vs) => if vs.len() == 3 {
            match (u8_of(vs[0]), u8_of(vs[1]), u8_of(vs[2])) {
                (Some(a), Some(b), Some(c)) => Some((a, b, c)),
                _ => None,
            }
        } else {
            None
        },
        _ => None,
    }
}

/// The text overlay a node denotes: text, position, color and size.
pub open spec fn text_item_of(n: NodeView) -> Option<TextConfigItemV> {
    match n {
        NodeView::Mapping(es) => {
            let p = match lookup(es, "position"@) {
                Some(v) => position_of(v),
                None => None,
            };
            let c = match lookup(es, "font_color"@) {
                Some(v) => color_of(v),
                None => None,
            };
            let s = match lookup(es, "font_size"@) {
                Some(v) => f64_bits_of(v),
                None => None,
            };
            match (field_str(es, "text"@), p, c, s) {
                (Some(text), Some(position), Some(font_color), Some(font_size_bits)) => Some(
                    TextConfigItemV { text, position, font_color, font_size_bits },
                ),
                _ => None,
            }
        },
        _ => None,
    }
}

/// The overlay sequence a list's elements denote, in order.
pub open spec fn items_of(xs: Seq<NodeView>) -> Option<Seq<TextConfigItemV>>
    decreases xs.len(),
{
    if xs.len() == 0 {
        Some(Seq::empty())
    } else {
        match items_of(xs.drop_last()) {
            Some(s) => match text_item_of(xs.last()) {
                Some(t) => Some(s.push(t)),
                None => None,
            },
            None => None,
        }
    }
}

/// The overlay sequence a node denotes: the node must be a list.
pub open spec fn text_group_of(n: NodeView) -> Option<Seq<TextConfigItemV>> {
    match n {
        NodeView::List(xs) => items_of(xs),
        _ => None,
    }
}

/// A key stands in the denoted table exactly when some entry binds it.
pub proof fn lemma_entries_table_contains<V: FromNode>(es: Seq<(NodeView, NodeView)>, k: Seq<char>)
    ensures
        match entries_table::<V>(es) {
            Some(m) => m.contains_key(k) <==> exists|i: int|
                0 <= i < es.len() && es[i].0 == NodeView::Text(k),
            None => true,
        },
    decreases es.len(),
{
    if es.len() > 0 {
        lemma_entries_table_contains::<V>(es.drop_last(), k);
        match entries_table::<V>(es) {
            Some(m) => {
                if m.contains_key(k) && es.last().0 != NodeView::Text(k) {
                    let i = choose|i: int|
                        0 <= i < es.drop_last().len() && es.drop_last()[i].0 == NodeView::Text(k);
                    assert(es[i].0 == NodeView::Text(k));
                }
                if exists|i: int| 0 <= i < es.len() && es[i].0 == NodeView::Text(k) {
                    let i = choose|i: int| 0 <= i < es.len() && es[i].0 == NodeView::Text(k);
                    if i < es.len() - 1 {
                        assert(es.drop_last()[i].0 == NodeView::Text(k));
                    }
                }
            },
            None => {},
        }
    }
}

/// A document mapping with pairwise distinct keys denotes a table of
/// exactly as many pairs as the document has entries: nothing is lost
/// and nothing is invented.
pub proof fn lemma_document_table_size<V: FromNode>(es: Seq<(NodeView, NodeView)>)
    requires
        forall|i: int, j: int| 0 <= i < j < es.len() ==> es[i].0 != es[j].0,
    ensures
        match entries_table::<V>(es) {
            Some(m) => m.dom().finite() && m.dom().len() == es.len(),
            None => true,
        },
    decreases es.len(),
{
    match entries_table::<V>(es) {
        Some(m) => {
            if es.len() == 0 {
                assert(m.dom() =~= Set::<Seq<char>>::empty());
            } else {
                assert(forall|i: int, j: int|
                    0 <= i < j < es.drop_last().len() ==> es.drop_last()[i].0
                        != es.drop_last()[j].0);
                lemma_document_table_size::<V>(es.drop_last());
                lemma_entries_table_contains::<V>(es.drop_last(), es.last().0->Text_0);
                let prev = entries_table::<V>(es.drop_last());
                assert(forall|i: int| 0 <= i < es.len() - 1 ==> es.drop_last()[i].0 == es[i].0);
                assert(!prev->Some_0.contains_key(es.last().0->Text_0));
                assert(m.dom() =~= prev->Some_0.dom().insert(es.last().0->Text_0));
            }
        },
        None => {},
    }
}

/// A background entry that omits the variants field is never refused for
/// that: it parses, when its name and file do, with an empty variant
/// mapping.
pub proof fn lemma_background_defaults_variants(es: Seq<(NodeView, NodeView)>)
    requires
        lookup(es, "variants"@) is None,
    ensures
        match background_of(NodeView::Mapping(es)) {
            Some(b) => b.variants == Map::<Seq<char>, BackgroundVariantV>::empty(),
            None => field_str(es, "name"@) is None || field_str(es, "file"@) is None,
        },
{
}

/// A negative emotion count never parses: the whole character entry is
/// refused.
pub proof fn lemma_negative_emotion_count_rejected(es: Seq<(NodeView, NodeView)>, i: i64)
    requires
        lookup(es, "emotion_count"@) == Some(NodeView::Int(i)),
        i < 0,
    ensures
        character_of(NodeView::Mapping(es)) is None,
{
}

/// Reads the text bound to `key` in a mapping's entries.
fn field_text(es: &Vec<(Node, Node)>, key: &str) -> (r: Option<String>)
    ensures
        match r {
            Some(s) => field_str(node_pair_seq_view(es@), key@) == Some(s@),
            None => field_str(node_pair_seq_view(es@), key@) is None,
        },
{
    match lookup_node(es, key) {
        Some(v) => node_str(v),
        None => None,
    }
}

/// Once a prefix of the entries fails, the whole mapping fails.
proof fn lemma_entries_table_prefix_none<V: FromNode>(es: Seq<(NodeView, NodeView)>, i: int)
    requires
        0 <= i <= es.len(),
        entries_table::<V>(es.take(i)) is None,
    ensures
        entries_table::<V>(es) is None,
    decreases es.len() - i,
{
    if i == es.len() {
        assert(es.take(i) =~= es);
    } else {
        assert(es.take(i + 1).drop_last() =~= es.take(i));
        lemma_entries_table_prefix_none::<V>(es, i + 1);
    }
}

/// Once a prefix of the list fails, the whole list fails.
proof fn lemma_items_prefix_none(xs: Seq<NodeView>, i: int)
    requires
        0 <= i <= xs.len(),
        items_of(xs.take(i)) is None,
    ensures
        items_of(xs) is None,
    decreases xs.len() - i,
{
    if i == xs.len() {
        assert(xs.take(i) =~= xs);
    } else {
        assert(xs.take(i + 1).drop_last() =~= xs.take(i));
        lemma_items_prefix_none(xs, i + 1);
    }
}

/// Reads a whole table out of a mapping node, entry by entry, exactly as
/// `table_of` says; the result keeps its keys unique and its values
/// well formed.
pub fn table_from_node<V: FromNode>(n: &Node) -> (r: Option<Table<V>>)
    ensures
        match r {
            Some(t) => t.wf() && (forall|p: int|
                0 <= p < t.entries@.len() ==> (#[trigger] t.entries@[p]).1.inv()) && table_of::<
                V,
            >(n@) == Some(t@),
            None => table_of::<V>(n@) is None,
        },
{
    match n {
        Node::Mapping(es) => {
            let ghost pv = node_pair_seq_view(es@);
            let mut t = Table::<V>::new();
            let mut i: usize = 0;
            let len = es.len();
            proof {
                assert(pv.take(0) =~= Seq::<(NodeView, NodeView)>::empty());
            }
            while i < len
                invariant
                    pv == node_pair_seq_view(es@),
                    n@ == NodeView::Mapping(pv),
                    len == es@.len(),
                    pv.len() == es@.len(),
                    i <= len,
                    t.wf(),
                    forall|p: int|
                        0 <= p < t.entries@.len() ==> (#[trigger] t.entries@[p]).1.inv(),
                    entries_table::<V>(pv.take(i as int)) == Some(t@),
                decreases len - i,
            {
                proof {
                    assert(pv.take(i + 1).drop_last() =~= pv.take(i as int));
                    assert(pv.take(i + 1).last() == pv[i as int]);
                }
                let key = match &es[i].0 {
                    Node::Text(s) => s.clone(),
                    _ => {
                        proof {
                            lemma_entries_table_prefix_none::<V>(pv, i + 1);
                        }
                        return None;
                    },
                };
                let value = match V::of_node(&es[i].1) {
                    Some(v) => v,
                    None => {
                        proof {
                            lemma_entries_table_prefix_none::<V>(pv, i + 1);
                        }
                        return None;
                    },
                };
                t.set(key, value);
                i += 1;
            }
            proof {
                assert(pv.take(len as int) =~= pv);
            }
            Some(t)
        },
        _ => None,
    }
}

impl FromNode for CharacterMeta {
    open spec fn node_spec(n: NodeView) -> Option<CharacterMetaV> {
        character_of(n)
    }

    open spec fn inv(&self) -> bool {
        true
    }

    fn of_node(n: &Node) -> (r: Option<CharacterMeta>) {
        match n {
            Node::Mapping(es) => {
                let full_name = match field_text(es, "full_name") {
                    Some(s) => s,
                    None => { return None },
                };
                let emotion_count = match lookup_node(es, "emotion_count") {
                    Some(v) => match node_u32(v) {
                        Some(u) => u,
                        None => { return None },
                    },
                    None => { return None },
                };
                let font = match field_text(es, "font") {
                    Some(s) => s,
                    None => { return None },
                };
                Some(CharacterMeta { full_name, emotion_count, font })
            },
            _ => None,
        }
    }
}

impl FromNode for BackgroundVariant {
    open spec fn node_spec(n: NodeView) -> Option<BackgroundVariantV> {
        variant_of(n)
    }

    open spec fn inv(&self) -> bool {
        true
    }

    fn of_node(n: &Node) -> (r: Option<BackgroundVariant>) {
        match n {
            Node::Mapping(es) => {
                let name = match field_text(es, "name") {
                    Some(s) => s,
                    None => { return None },
                };
                let file = match field_text(es, "file") {
                    Some(s) => s,
                    None => { return None },
                };
                Some(BackgroundVariant { name, file })
            },
            _ => None,
        }
    }
}

impl FromNode for Font {
    open spec fn node_spec(n: NodeView) -> Option<FontV> {
        font_of(n)
    }

    open spec fn inv(&self) -> bool {
        true
    }

    fn of_node(n: &Node) -> (r: Option<Font>) {
        match n {
            Node::Mapping(es) => {
                let name = match field_text(es, "name") {
                    Some(s) => s,
                    None => { return None },
                };
                let file = match field_text(es, "file") {
                    Some(s) => s,
                    None => { return None },
                };
                Some(Font { name, file })
            },
            _ => None,
        }
    }
}

impl FromNode for Background {
    open spec fn node_spec(n: NodeView) -> Option<BackgroundV> {
        background_of(n)
    }

    open spec fn inv(&self) -> bool {
        self.variants.wf()
    }

    fn of_node(n: &Node) -> (r: Option<Background>) {
        match n {
            Node::Mapping(es) => {
                let name = match field_text(es, "name") {
                    Some(s) => s,
                    None => { return None },
                };
                let file = match field_text(es, "file") {
                    Some(s) => s,
                    None => { return None },
                };
                let variants = match lookup_node(es, "variants") {
                    Some(v) => match table_from_node::<BackgroundVariant>(v) {
                        Some(t) => t,
                        None => { return None },
                    },
                    None => Table::new(),
                };
                Some(Background { name, file, variants })
            },
            _ => None,
        }
    }
}

/// Reads the pair (x, y) out of a list node of exactly two integers.
fn node_position(n: &Node) -> (r: Option<(i32, i32)>)
    ensures
        r == position_of(n@),
{
    match n {
        Node::List(xs) => {
            if xs.len() == 2 {
                let a = match node_i32(&xs[0]) {
                    Some(a) => a,
                    None => { return None },
                };
                let b = match node_i32(&xs[1]) {
                    Some(b) => b,
                    None => { return None },
                };
                Some((a, b))
            } else {
                None
            }
        },
        _ => None,
    }
}

/// Reads the color channels out of a list node of exactly three bytes.
fn node_color(n: &Node) -> (r: Option<(u8, u8, u8)>)
    ensures
        r == color_of(n@),
{
    match n {
        Node::List(xs) => {
            if xs.len() == 3 {
                let a = match node_u8(&xs[0]) {
                    Some(a) => a,
                    None => { return None },
                };
                let b = match node_u8(&xs[1]) {
                    Some(b) => b,
                    None => { return None },
                };
                let c = match node_u8(&xs[2]) {
                    Some(c) => c,
                    None => { return None },
                };
                Some((a, b, c))
            } else {
                None
            }
        },
        _ => None,
    }
}

/// Reads one text overlay out of a mapping node.
fn text_item_from_node(n: &Node) -> (r: Option<TextConfigItem>)
    ensures
        match r {
            Some(v) => text_item_of(n@) == Some(v.deep_view()),
            None => text_item_of(n@) is None,
        },
{
    match n {
        Node::Mapping(es) => {
            let text = match field_text(es, "text") {
                Some(s) => s,
                None => { return None },
            };
            let position = match lookup_node(es, "position") {
                Some(v) => match node_position(v) {
                    Some(p) => p,
                    None => { return None },
                },
                None => { return None },
            };
            let font_color = match lookup_node(es, "font_color") {
                Some(v) => match node_color(v) {
                    Some(c) => c,
                    None => { return None },
                },
                None => { return None },
            };
            let font_size_bits = match lookup_node(es, "font_size") {
                Some(v) => match node_f64_bits(v) {
                    Some(b) => b,
                    None => { return None },
                },
                None => { return None },
            };
            Some(TextConfigItem { text, position, font_color, font_size_bits })
        },
        _ => None,
    }
}

impl FromNode for Vec<TextConfigItem> {
    open spec fn node_spec(n: NodeView) -> Option<Seq<TextConfigItemV>> {
        text_group_of(n)
    }

    open spec fn inv(&self) -> bool {
        true
    }

    fn of_node(n: &Node) -> (r: Option<Vec<TextConfigItem>>) {
        match n {
            Node::List(xs) => {
                let ghost nv = node_seq_view(xs@);
                let mut out: Vec<TextConfigItem> = Vec::new();
                let mut i: usize = 0;
                let len = xs.len();
                proof {
                    assert(nv.take(0) =~= Seq::<NodeView>::empty());
                    assert(out.deep_view() =~= Seq::<TextConfigItemV>::empty());
                }
                while i < len
                    invariant
                        nv == node_seq_view(xs@),
                        n@ == NodeView::List(nv),
                        len == xs@.len(),
                        nv.len() == xs@.len(),
                        i <= len,
                        items_of(nv.take(i as int)) == Some(out.deep_view()),
                    decreases len - i,
                {
                    proof {
                        assert(nv.take(i + 1).drop_last() =~= nv.take(i as int));
                        assert(nv.take(i + 1).last() == nv[i as int]);
                    }
                    let item = match text_item_from_node(&xs[i]) {
                        Some(t) => t,
                        None => {
                            proof {
                                lemma_items_prefix_none(nv, i + 1);
                            }
                            return None;
                        },
                    };
                    let ghost old_out = out.deep_view();
                    out.push(item);
                    proof {
                        assert(out.deep_view() =~= old_out.push(item.deep_view()));
                    }
                    i += 1;
                }
                proof {
                    assert(nv.take(len as int) =~= nv);
                }
                Some(out)
            },
            _ => None,
        }
    }
}

} // verus!
