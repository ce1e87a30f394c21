//! A document as the selector engine saw it: each node carries its text,
//! its attributes, and the ordered matches of every selector that was run
//! against it.

use vstd::prelude::*;

verus! {

/// One element of a parsed document.
pub struct Node {
    /// Rendered text content, if the element has any.
    pub text: Option<String>,
    /// Attributes as (name, value) pairs, in source order.
    pub attrs: Vec<(String, String)>,
    /// Results of selectors evaluated relative to this element.
    pub selections: Vec<Selection>,
}

/// The elements one selector matched, in document order.
pub struct Selection {
    pub selector: String,
    pub found: Vec<Node>,
}

pub open spec fn opt_view(o: Option<String>) -> Option<Seq<char>> {
    match o {
        Some(s) => Some(s@),
        None => None,
    }
}

/// Matches recorded for `sel` among `sels[i..]`; the first record wins.
pub open spec fn select_from(sels: Seq<Selection>, sel: Seq<char>, i: int) -> Seq<Node>
    decreases sels.len() - i,
{
    if i < 0 || i >= sels.len() {
        seq![]
    } else if sels[i].selector@ == sel {
        sels[i].found@
    } else {
        select_from(sels, sel, i + 1)
    }
}

/// Value of the first attribute pair in `attrs[i..]` named `name` whose value is non-empty.
pub open spec fn attr_from(attrs: Seq<(String, String)>, name: Seq<char>, i: int) -> Option<Seq<char>>
    decreases attrs.len() - i,
{
    if i < 0 || i >= attrs.len() {
        None
    } else if attrs[i].0@ == name && attrs[i].1@.len() > 0 {
        Some(attrs[i].1@)
    } else {
        attr_from(attrs, name, i + 1)
    }
}

impl Node {
    /// Elements matched by `sel` relative to this node, in document order.
    pub open spec fn selected(self, sel: Seq<char>) -> Seq<Node> {
        select_from(self.selections@, sel, 0)
    }

    /// The non-empty value of attribute `name`, if present.
    pub open spec fn attribute(self, name: Seq<char>) -> Option<Seq<char>> {
        attr_from(self.attrs@, name, 0)
    }

    pub open spec fn text_view(self) -> Option<Seq<char>> {
        opt_view(self.text)
    }

    /// Runs `sel` relative to this node; `None` when nothing matched.
    pub fn select(&self, sel: &String) -> (r: Option<&Vec<Node>>)
        ensures
            match r {
                Some(v) => v@ == self.selected(sel@) && v@.len() > 0,
                None => self.selected(sel@).len() == 0,
            },
    {
        let n = self.selections.len();
        let mut i: usize = 0;
        while i < n
            invariant
                n == self.selections@.len(),
                i <= n,
                select_from(self.selections@, sel@, 0) == select_from(self.selections@, sel@, i as int),
            decreases n - i,
        {
            if self.selections[i].selector == *sel {
                if self.selections[i].found.len() > 0 {
                    return Some(&self.selections[i].found);
                }
                return None;
            }
            i = i + 1;
        }
        None
    }

    /// The non-empty value of attribute `name`.
    pub fn attr(&self, name: &String) -> (r: Option<String>)
        ensures
            opt_view(r) == self.attribute(name@),
    {
        let n = self.attrs.len();
        let mut i: usize = 0;
        while i < n
            invariant
                n == self.attrs@.len(),
                i <= n,
                attr_from(self.attrs@, name@, 0) == attr_from(self.attrs@, name@, i as int),
            decreases n - i,
        {
            if self.attrs[i].0 == *name && self.attrs[i].1.unicode_len() > 0 {
                return Some(self.attrs[i].1.clone());
            }
            i = i + 1;
        }
        None
    }

    /// The element's text content.
    pub fn text_content(&self) -> (r: Option<String>)
        ensures
            opt_view(r) == self.text_view(),
    {
        match &self.text {
            Some(t) => Some(t.clone()),
            None => None,
        }
    }
}

} // verus!
