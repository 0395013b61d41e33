//! An XML document as the sequence of its nodes in document order, and the
//! queries that the OData responses of the service are read with.
//!
//! A node is recorded with its depth (the number of its ancestors, itself
//! included), its local tag name (empty for anything but an element) and its
//! text. In document order the nodes below a node `i` are exactly the nodes
//! that follow it and are deeper than it, up to the first that is not.
use vstd::prelude::*;

use crate::text::{self, owned, trim};

verus! {

/// One node of a parsed XML document.
pub struct XmlNode {
    pub depth: usize,
    pub name: String,
    pub text: Option<String>,
}

/// A node as plain values: depth, local name, text.
pub type NodeView = (nat, Seq<char>, Option<Seq<char>>);

pub open spec fn opt_view(t: Option<String>) -> Option<Seq<char>> {
    match t {
        Some(s) => Some(s@),
        None => None,
    }
}

pub open spec fn node_view(n: XmlNode) -> NodeView {
    (n.depth as nat, n.name@, opt_view(n.text))
}

pub open spec fn nodes_view(v: Seq<XmlNode>) -> Seq<NodeView> {
    v.map_values(|n: XmlNode| node_view(n))
}

#[verifier::external_type_specification]
#[verifier::external_body]
pub struct ExXmlError(roxmltree::Error);

/// The nodes, in document order, of the document that `roxmltree` parses
/// from `text`; `None` where it refuses the text.
pub uninterp spec fn xml_nodes(text: Seq<char>) -> Option<Seq<NodeView>>;

/// Parses `text` with `roxmltree::Document::parse` and lists its nodes in the
/// order of `Document::descendants`, each with `ancestors().count()`,
/// `tag_name().name()` and `text()`. The contract says only that the result
/// is the one named `xml_nodes` for this text: the parser itself is not
/// restated here.
#[verifier::external_body]
fn parse_xml_nodes(text: &str) -> (r: Result<Vec<XmlNode>, roxmltree::Error>)
    ensures
        match r {
            Ok(v) => xml_nodes(text@) == Some(nodes_view(v@)),
            Err(_) => xml_nodes(text@) is None,
        },
{
    let doc = roxmltree::Document::parse(text)?;
    let mut nodes = Vec::new();
    for n in doc.descendants() {
        let text = match n.text() {
            Some(t) => Some(t.to_string()),
            None => None,
        };
        nodes.push(XmlNode { depth: n.ancestors().count(), name: n.tag_name().name().to_string(), text });
    }
    Ok(nodes)
}

/// `roxmltree::Error`'s `Display` text. Nothing is claimed of it.
#[verifier::external_body]
fn xml_error_text(e: &roxmltree::Error) -> String {
    e.to_string()
}

/// A document that `roxmltree` refuses, with its message.
#[derive(Debug)]
pub struct XmlError {
    pub message: String,
}

/// The nodes of the XML document `text`, in document order (see
/// `xml_nodes`), or the parser's message.
pub fn parse_xml(text: &str) -> (r: Result<Vec<XmlNode>, XmlError>)
    ensures
        match r {
            Ok(v) => xml_nodes(text@) == Some(nodes_view(v@)),
            Err(_) => xml_nodes(text@) is None,
        },
{
    match parse_xml_nodes(text) {
        Ok(v) => Ok(v),
        Err(e) => Err(XmlError { message: xml_error_text(&e) }),
    }
}

// ── queries on the node sequence ───────────────────────────────────────────
/// Node `k` is `i` itself or lies below `i`, given that every node strictly
/// between them does (scanning forward from `i`).
pub open spec fn still_in(ns: Seq<NodeView>, i: int, k: int) -> bool {
    k < ns.len() && (k == i || ns[k].0 > ns[i].0)
}

/// The first node at or after `k` in the subtree of `i` (which `i` itself
/// starts) for which `p` holds.
pub open spec fn find_desc_from(
    ns: Seq<NodeView>,
    i: int,
    k: int,
    p: spec_fn(int) -> bool,
) -> Option<int>
    decreases ns.len() - k,
{
    if k < 0 || !still_in(ns, i, k) {
        None
    } else if p(k) {
        Some(k)
    } else {
        find_desc_from(ns, i, k + 1, p)
    }
}

/// `node.descendants().find(p)`.
pub open spec fn find_desc(ns: Seq<NodeView>, i: int, p: spec_fn(int) -> bool) -> Option<int> {
    find_desc_from(ns, i, i, p)
}

/// Node `k` has the local name `name`.
pub open spec fn named(ns: Seq<NodeView>, name: Seq<char>) -> spec_fn(int) -> bool {
    |k: int| 0 <= k < ns.len() && ns[k].1 == name
}

/// Node `k` is a child of node `i` with the local name `name`.
pub open spec fn child_named(ns: Seq<NodeView>, i: int, name: Seq<char>) -> spec_fn(
    int,
) -> bool {
    |k: int| 0 <= i < k < ns.len() && ns[k].0 == ns[i].0 + 1 && ns[k].1 == name
}

/// `node.children().find(|n| n.tag_name().name() == name)`.
pub open spec fn find_child(ns: Seq<NodeView>, i: int, name: Seq<char>) -> Option<int> {
    find_desc(ns, i, child_named(ns, i, name))
}

/// The text of the first child of `i` named `name`, if both exist.
pub open spec fn child_text(ns: Seq<NodeView>, i: int, name: Seq<char>) -> Option<Seq<char>> {
    match find_child(ns, i, name) {
        Some(k) => ns[k].2,
        None => None,
    }
}

/// `...find(name).and_then(|n| n.text()).unwrap_or("").trim().to_string()`.
pub open spec fn child_text_or_empty(ns: Seq<NodeView>, i: int, name: Seq<char>) -> Seq<char> {
    match child_text(ns, i, name) {
        Some(t) => text::trim_spec(t),
        None => Seq::empty(),
    }
}

/// The trimmed text of the first descendant of `i` named `name`, or empty.
pub open spec fn desc_text_or_empty(ns: Seq<NodeView>, i: int, name: Seq<char>) -> Seq<char> {
    match find_desc(ns, i, named(ns, name)) {
        Some(k) => match ns[k].2 {
            Some(t) => text::trim_spec(t),
            None => Seq::empty(),
        },
        None => Seq::empty(),
    }
}

/// Collects `f(k)` over the nodes `k < n` named `entry` for which it is `Some`.
pub open spec fn over_entries<T>(ns: Seq<NodeView>, f: spec_fn(int) -> Option<T>, n: int) -> Seq<
    T,
>
    decreases n,
{
    if n <= 0 {
        Seq::empty()
    } else {
        let prev = over_entries(ns, f, n - 1);
        if ns[n - 1].1 == "entry"@ && f(n - 1) is Some {
            prev.push(f(n - 1).unwrap())
        } else {
            prev
        }
    }
}

// ── executable queries ─────────────────────────────────────────────────────
pub proof fn lemma_find_desc_found(ns: Seq<NodeView>, i: int, k: int, p: spec_fn(int) -> bool)
    ensures
        find_desc_from(ns, i, k, p) matches Some(j) ==> k <= j && 0 <= j < ns.len() && p(j),
    decreases ns.len() - k,
{
    if k >= 0 && still_in(ns, i, k) && !p(k) {
        lemma_find_desc_found(ns, i, k + 1, p);
    }
}

pub proof fn lemma_find_desc_skip(ns: Seq<NodeView>, i: int, k: int, p: spec_fn(int) -> bool)
    requires
        0 <= k,
        still_in(ns, i, k),
        !p(k),
    ensures
        find_desc_from(ns, i, k, p) == find_desc_from(ns, i, k + 1, p),
{
}

/// The first node of the subtree of `i` named `name` (`descendants().find`).
pub fn first_desc_named(ns: &Vec<XmlNode>, i: usize, name: &str) -> (r: Option<usize>)
    requires
        i < ns.len(),
    ensures
        match r {
            Some(k) => k < ns.len() && find_desc(nodes_view(ns@), i as int, named(nodes_view(ns@), name@))
                == Some(k as int),
            None => find_desc(nodes_view(ns@), i as int, named(nodes_view(ns@), name@)) is None,
        },
{
    let ghost nv = nodes_view(ns@);
    let ghost p = named(nv, name@);
    proof {
        lemma_find_desc_found(nv, i as int, i as int, p);
    }
    let tag = owned(name);
    let mut k = i;
    while k < ns.len() && (k == i || ns[k].depth > ns[i].depth)
        invariant
            i <= k <= ns.len(),
            nv == nodes_view(ns@),
            p == named(nv, name@),
            tag@ == name@,
            find_desc(nv, i as int, p) == find_desc_from(nv, i as int, k as int, p),
        decreases ns.len() - k,
    {
        if ns[k].name == tag {
            return Some(k);
        }
        proof {
            lemma_find_desc_skip(nv, i as int, k as int, p);
        }
        k += 1;
    }
    None
}

/// The first child of `i` named `name` (`children().find`).
pub fn first_child_named(ns: &Vec<XmlNode>, i: usize, name: &str) -> (r: Option<usize>)
    requires
        i < ns.len(),
    ensures
        match r {
            Some(k) => k < ns.len() && find_child(nodes_view(ns@), i as int, name@) == Some(k as int),
            None => find_child(nodes_view(ns@), i as int, name@) is None,
        },
{
    let ghost nv = nodes_view(ns@);
    let ghost p = child_named(nv, i as int, name@);
    proof {
        lemma_find_desc_found(nv, i as int, i as int, p);
    }
    let tag = owned(name);
    let mut k = i;
    while k < ns.len() && (k == i || ns[k].depth > ns[i].depth)
        invariant
            i <= k <= ns.len(),
            nv == nodes_view(ns@),
            p == child_named(nv, i as int, name@),
            tag@ == name@,
            find_child(nv, i as int, name@) == find_desc_from(nv, i as int, k as int, p),
        decreases ns.len() - k,
    {
        if k > i && ns[i].depth < usize::MAX && ns[k].depth == ns[i].depth + 1 && ns[k].name
            == tag {
            return Some(k);
        }
        proof {
            lemma_find_desc_skip(nv, i as int, k as int, p);
        }
        k += 1;
    }
    None
}

/// The text of node `k`, trimmed, or empty when it has none.
pub fn node_text_trimmed(ns: &Vec<XmlNode>, k: usize) -> (r: String)
    requires
        k < ns.len(),
    ensures
        r@ == match nodes_view(ns@)[k as int].2 {
            Some(t) => text::trim_spec(t),
            None => Seq::empty(),
        },
{
    match &ns[k].text {
        Some(t) => trim(t.as_str()),
        None => String::new(),
    }
}

/// `props.children().find(name).and_then(text).unwrap_or("").trim()`.
pub fn child_text_trimmed(ns: &Vec<XmlNode>, i: usize, name: &str) -> (r: String)
    requires
        i < ns.len(),
    ensures
        r@ == child_text_or_empty(nodes_view(ns@), i as int, name@),
{
    match first_child_named(ns, i, name) {
        Some(k) => node_text_trimmed(ns, k),
        None => {
            let r = String::new();
            assert(r@ =~= Seq::<char>::empty());
            r
        },
    }
}

/// The same, read from the first descendant named `name`.
pub fn desc_text_trimmed(ns: &Vec<XmlNode>, i: usize, name: &str) -> (r: String)
    requires
        i < ns.len(),
    ensures
        r@ == desc_text_or_empty(nodes_view(ns@), i as int, name@),
{
    match first_desc_named(ns, i, name) {
        Some(k) => node_text_trimmed(ns, k),
        None => {
            let r = String::new();
            assert(r@ =~= Seq::<char>::empty());
            r
        },
    }
}

/// Is node `k` named `entry`?
pub fn is_entry(ns: &Vec<XmlNode>, k: usize) -> (b: bool)
    requires
        k < ns.len(),
    ensures
        b == (nodes_view(ns@)[k as int].1 == "entry"@),
{
    let tag = owned("entry");
    ns[k].name == tag
}

} // verus!
