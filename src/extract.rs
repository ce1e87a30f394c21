//! Applying one schema field to a node: fallback chains, attribute
//! fallbacks, and multi-valued fields.

use vstd::prelude::*;
use crate::dom::{Node, opt_view};
use crate::query::Field;

verus! {

/// Matches of the first selector in `chain[i..]` that matches anything.
pub open spec fn chain_from(n: Node, chain: Seq<String>, i: int) -> Seq<Node>
    decreases chain.len() - i,
{
    if i < 0 || i >= chain.len() {
        seq![]
    } else if n.selected(chain[i]@).len() > 0 {
        n.selected(chain[i]@)
    } else {
        chain_from(n, chain, i + 1)
    }
}

/// Elements a field's fallback chain selects under `n`.
pub open spec fn matched(n: Node, f: Field) -> Seq<Node> {
    chain_from(n, f.chain@, 0)
}

/// The first attribute of `names[i..]` present on `n`.
pub open spec fn attrs_from(n: Node, names: Seq<String>, i: int) -> Option<Seq<char>>
    decreases names.len() - i,
{
    if i < 0 || i >= names.len() {
        None
    } else if n.attribute(names[i]@) is Some {
        n.attribute(names[i]@)
    } else {
        attrs_from(n, names, i + 1)
    }
}

/// What a field reads from one element: its text, or the first present
/// attribute of the list.
pub open spec fn value_of(n: Node, attrs: Seq<String>) -> Option<Seq<char>> {
    if attrs.len() == 0 {
        n.text_view()
    } else {
        attrs_from(n, attrs, 0)
    }
}

/// A single-valued field: read from the first element of the first matching selector.
pub open spec fn single(n: Node, f: Field) -> Option<Seq<char>> {
    let m = matched(n, f);
    if m.len() == 0 {
        None
    } else {
        value_of(m[0], f.attrs@)
    }
}

/// Values of the elements `ns`, in order, skipping those without one.
pub open spec fn values(ns: Seq<Node>, attrs: Seq<String>) -> Seq<Seq<char>>
    decreases ns.len(),
{
    if ns.len() == 0 {
        seq![]
    } else {
        let prev = values(ns.drop_last(), attrs);
        match value_of(ns.last(), attrs) {
            Some(v) => prev.push(v),
            None => prev,
        }
    }
}

/// A multi-valued field: values of every element of the first matching selector.
pub open spec fn multi(n: Node, f: Field) -> Seq<Seq<char>> {
    values(matched(n, f), f.attrs@)
}

/// A fallback chain is not a merge: with selectors `[s1, s2]`, a node that
/// matches nothing through `s1` is read as `s2` alone would read it, and one
/// that matches through `s1` is read as `s1` alone would read it.
pub proof fn lemma_fallback_chain(n: Node, f: Field, first: Field, second: Field)
    requires
        f.chain@.len() == 2,
        first.chain@ == seq![f.chain@[0]],
        second.chain@ == seq![f.chain@[1]],
        first.attrs@ == f.attrs@,
        second.attrs@ == f.attrs@,
    ensures
        n.selected(f.chain@[0]@).len() == 0 ==> single(n, f) == single(n, second) && multi(n, f) == multi(n, second),
        n.selected(f.chain@[0]@).len() > 0 ==> single(n, f) == single(n, first) && multi(n, f) == multi(n, first),
{
    assert(chain_from(n, f.chain@, 2) == Seq::<Node>::empty());
    assert(chain_from(n, first.chain@, 1) == Seq::<Node>::empty());
    assert(chain_from(n, second.chain@, 1) == Seq::<Node>::empty());
    assert(chain_from(n, f.chain@, 1) == chain_from(n, second.chain@, 0));
}

/// With an attribute list, the first listed attribute present on the element wins.
pub proof fn lemma_attribute_order(n: Node, attrs: Seq<String>)
    requires
        attrs.len() >= 1,
        n.attribute(attrs[0]@) is Some,
    ensures
        value_of(n, attrs) == n.attribute(attrs[0]@),
{
}

/// A multi-valued field keeps every matched element, in document order and
/// without deduplication, when each element has a value.
pub proof fn lemma_document_order(n: Node, f: Field)
    requires
        forall|i: int| 0 <= i < matched(n, f).len() ==> (#[trigger] value_of(matched(n, f)[i], f.attrs@)) is Some,
    ensures
        multi(n, f).len() == matched(n, f).len(),
        forall|i: int| 0 <= i < multi(n, f).len() ==> Some(#[trigger] multi(n, f)[i]) == value_of(matched(n, f)[i], f.attrs@),
{
    lemma_values_all(matched(n, f), f.attrs@);
}

proof fn lemma_values_all(ns: Seq<Node>, attrs: Seq<String>)
    requires
        forall|i: int| 0 <= i < ns.len() ==> (#[trigger] value_of(ns[i], attrs)) is Some,
    ensures
        values(ns, attrs).len() == ns.len(),
        forall|i: int| 0 <= i < ns.len() ==> Some(#[trigger] values(ns, attrs)[i]) == value_of(ns[i], attrs),
    decreases ns.len(),
{
    if ns.len() > 0 {
        let p = ns.drop_last();
        assert forall|i: int| 0 <= i < p.len() implies (#[trigger] value_of(p[i], attrs)) is Some by {
            assert(p[i] == ns[i]);
        }
        lemma_values_all(p, attrs);
        assert(value_of(ns[ns.len() - 1], attrs) is Some);
        assert forall|i: int| 0 <= i < ns.len() implies Some(#[trigger] values(ns, attrs)[i]) == value_of(ns[i], attrs) by {
            if i < p.len() {
                assert(p[i] == ns[i]);
            }
        }
    }
}

/// Runs a field's fallback chain; `None` when no selector matches.
pub fn select_chain<'a>(n: &'a Node, f: &Field) -> (r: Option<&'a Vec<Node>>)
    ensures
        match r {
            Some(v) => v@ == matched(*n, *f) && v@.len() > 0,
            None => matched(*n, *f).len() == 0,
        },
{
    let k = f.chain.len();
    let mut i: usize = 0;
    while i < k
        invariant
            k == f.chain@.len(),
            i <= k,
            chain_from(*n, f.chain@, 0) == chain_from(*n, f.chain@, i as int),
        decreases k - i,
    {
        let found = n.select(&f.chain[i]);
        if found.is_some() {
            return found;
        }
        i = i + 1;
    }
    None
}

/// Reads an element's text, or the first present attribute of `attrs`.
pub fn read_value(n: &Node, attrs: &Vec<String>) -> (r: Option<String>)
    ensures
        opt_view(r) == value_of(*n, attrs@),
{
    if attrs.len() == 0 {
        return n.text_content();
    }
    let k = attrs.len();
    let mut i: usize = 0;
    while i < k
        invariant
            k == attrs@.len(),
            i <= k,
            attrs_from(*n, attrs@, 0) == attrs_from(*n, attrs@, i as int),
        decreases k - i,
    {
        let v = n.attr(&attrs[i]);
        if v.is_some() {
            return v;
        }
        i = i + 1;
    }
    None
}

/// Values of the elements `ns` in order, skipping those without one.
pub fn read_values(ns: &Vec<Node>, attrs: &Vec<String>) -> (r: Vec<String>)
    ensures
        r.deep_view() == values(ns@, attrs@),
{
    let mut out: Vec<String> = Vec::new();
    let k = ns.len();
    let mut i: usize = 0;
    while i < k
        invariant
            k == ns@.len(),
            i <= k,
            out.deep_view() == values(ns@.subrange(0, i as int), attrs@),
        decreases k - i,
    {
        let ghost before = out.deep_view();
        let v = read_value(&ns[i], attrs);
        assert(ns@.subrange(0, i + 1).drop_last() =~= ns@.subrange(0, i as int));
        match v {
            Some(s) => {
                let ghost sv = s@;
                out.push(s);
                assert(out.deep_view() =~= before.push(sv));
            },
            None => {},
        }
        i = i + 1;
    }
    assert(ns@.subrange(0, k as int) =~= ns@);
    out
}

/// Extracts a single-valued field under `n`.
pub fn single_value(n: &Node, f: &Field) -> (r: Option<String>)
    ensures
        opt_view(r) == single(*n, *f),
{
    match select_chain(n, f) {
        Some(v) => read_value(&v[0], &f.attrs),
        None => None,
    }
}

/// Extracts a multi-valued field under `n`.
pub fn all_values(n: &Node, f: &Field) -> (r: Vec<String>)
    ensures
        r.deep_view() == multi(*n, *f),
{
    match select_chain(n, f) {
        Some(v) => read_values(v, &f.attrs),
        None => Vec::new(),
    }
}

} // verus!
