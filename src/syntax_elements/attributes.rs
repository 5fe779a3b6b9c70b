//! Attributes of a whole file, outer (`#[..]`) and inner (`#![..]`).

use vstd::prelude::*;
use crate::pattern::{
    find_all, found, found_views, group_or_empty, group_string, keys, lemma_merge_indices,
    merge_by_key, merge_from, rest_keys, Found, FoundView,
};
use crate::text::{concat_all, lemma_concat_step, lemma_concat_whole, trim, trimmed};

verus! {

/// Where an attribute applies.
#[derive(Clone, Copy, Debug, PartialEq, Eq)]
pub enum AttributeKind {
    /// `#[..]`, on the item that follows.
    Outer,
    /// `#![..]`, on the enclosing item.
    Inner,
}

/// An attribute.
#[derive(Debug)]
pub struct ARSAttribute {
    /// The kind of item it applies to, where known.
    pub target: Option<String>,
    pub attr_type: AttributeKind,
    /// The text between the brackets, trimmed.
    pub content: String,
}

/// `#[`, the content up to the first `]` on the line, `]`.
pub const OUTER_ATTRIBUTE_PATTERN: &'static str = r"(?m)#\[(.*?)\]";

/// `#![`, the content up to the first `]` on the line, `]`.
pub const INNER_ATTRIBUTE_PATTERN: &'static str = r"(?m)#!\[(.*?)\]";

/// Attributes are kept by the items they belong to: there is nothing to
/// extract on their own.
pub fn extract(_source: &str) -> (r: Vec<String>)
    ensures
        r@.len() == 0,
{
    Vec::new()
}

/// The source text of one attribute: an inner one on a line of its own;
/// an outer one comes back with the item it belongs to, so adds nothing.
pub open spec fn attribute_text(a: ARSAttribute) -> Seq<char> {
    match a.attr_type {
        AttributeKind::Inner => "#!["@ + a.content@ + "]\n"@,
        AttributeKind::Outer => ""@,
    }
}

/// The source text of the attributes (see `attribute_text`).
pub fn reconstruct(ars_attributes: &[ARSAttribute]) -> (r: String)
    ensures
        r@ == concat_all(ars_attributes@, |a: ARSAttribute| attribute_text(a)),
{
    let mut out = String::new();
    proof {
        lemma_concat_whole(ars_attributes@, |a: ARSAttribute| attribute_text(a));
    }
    for k in 0..ars_attributes.len()
        invariant
            out@ == concat_all(ars_attributes@.take(k as int), |a: ARSAttribute| attribute_text(a)),
    {
        let a = &ars_attributes[k];
        let ghost o0 = out@;
        match a.attr_type {
            AttributeKind::Inner => {
                out.append("#![");
                out.append(a.content.as_str());
                out.append("]\n");
            },
            AttributeKind::Outer => out.append(""),
        }
        assert(out@ =~= o0 + attribute_text(*a));
        proof {
            lemma_concat_step(ars_attributes@, |a: ARSAttribute| attribute_text(a), k as int);
        }
    }
    out
}

/// `a` is the attribute of kind `kind` that a match `m` describes.
pub open spec fn attribute_fits(a: ARSAttribute, m: FoundView, kind: AttributeKind) -> bool {
    &&& a.target is None
    &&& a.attr_type == kind
    &&& a.content@ == trim(group_or_empty(m, 1))
}

pub fn attribute_from_match(m: &Found, kind: AttributeKind) -> (r: ARSAttribute)
    ensures
        attribute_fits(r, m@, kind),
{
    ARSAttribute { target: None, attr_type: kind, content: trimmed(group_string(m, 1).as_str()) }
}

/// `r` holds what the matches `ms` describe (see `attribute_fits`), and `k` how
/// much text follows each of those matches.
pub open spec fn outer_part(r: Seq<ARSAttribute>, k: Seq<usize>, ms: Seq<FoundView>) -> bool {
    &&& r.len() == ms.len()
    &&& keys(k) == rest_keys(ms)
    &&& forall|i: int| 0 <= i < r.len() ==> attribute_fits(r[i], ms[i], AttributeKind::Outer)
}

/// `r` holds what the matches `ms` describe (see `attribute_fits`), and `k` how
/// much text follows each of those matches.
pub open spec fn inner_part(r: Seq<ARSAttribute>, k: Seq<usize>, ms: Seq<FoundView>) -> bool {
    &&& r.len() == ms.len()
    &&& keys(k) == rest_keys(ms)
    &&& forall|i: int| 0 <= i < r.len() ==> attribute_fits(r[i], ms[i], AttributeKind::Inner)
}

/// The outer attributes of `xs` and the inner ones of `ys`, together in the
/// order in which their matches stand in the source.
pub open spec fn attributes_fit(r: Seq<ARSAttribute>, xs: Seq<FoundView>, ys: Seq<FoundView>) -> bool {
    let ord = merge_from(rest_keys(xs), rest_keys(ys), 0, 0);
    &&& r.len() == ord.len()
    &&& forall|i: int|
        0 <= i < r.len() ==> if ord[i].0 {
            attribute_fits(r[i], xs[ord[i].1], AttributeKind::Outer)
        } else {
            attribute_fits(r[i], ys[ord[i].1], AttributeKind::Inner)
        }
}

/// Every attribute of `source`, outer or inner, in order of appearance.
pub fn encode_rust(source: &str) -> (r: Vec<ARSAttribute>)
    ensures
        attributes_fit(r@, found(OUTER_ATTRIBUTE_PATTERN@, source@), found(INNER_ATTRIBUTE_PATTERN@, source@)),
{
    let xs = find_all(OUTER_ATTRIBUTE_PATTERN, source);
    let ghost xv = found_views(xs@);
    let mut xr: Vec<ARSAttribute> = Vec::new();
    let mut xk: Vec<usize> = Vec::new();
    assert(xv.take(0) =~= Seq::<FoundView>::empty());
    assert(keys(xk@) =~= rest_keys(Seq::<FoundView>::empty()));
    for k in 0..xs.len()
        invariant
            xv == found_views(xs@),
            outer_part(xr@, xk@, xv.take(k as int)),
    {
        assert(xv[k as int] == xs@[k as int]@);
        let x = attribute_from_match(&xs[k], AttributeKind::Outer);
        let key = xs[k].rest.as_str().unicode_len();
        let ghost k0 = xk@;
        xr.push(x);
        xk.push(key);
        assert(keys(xk@) =~= keys(k0).push(key as int));
        assert(rest_keys(xv.take(k + 1)) =~= rest_keys(xv.take(k as int)).push(
            xv[k as int].rest.len() as int,
        ));
        assert(outer_part(xr@, xk@, xv.take(k + 1)));
    }
    assert(xv.take(xs.len() as int) =~= xv);
    let ys = find_all(INNER_ATTRIBUTE_PATTERN, source);
    let ghost yv = found_views(ys@);
    let mut yr: Vec<ARSAttribute> = Vec::new();
    let mut yk: Vec<usize> = Vec::new();
    assert(yv.take(0) =~= Seq::<FoundView>::empty());
    assert(keys(yk@) =~= rest_keys(Seq::<FoundView>::empty()));
    for k in 0..ys.len()
        invariant
            yv == found_views(ys@),
            inner_part(yr@, yk@, yv.take(k as int)),
    {
        assert(yv[k as int] == ys@[k as int]@);
        let y = attribute_from_match(&ys[k], AttributeKind::Inner);
        let key = ys[k].rest.as_str().unicode_len();
        let ghost k0 = yk@;
        yr.push(y);
        yk.push(key);
        assert(keys(yk@) =~= keys(k0).push(key as int));
        assert(rest_keys(yv.take(k + 1)) =~= rest_keys(yv.take(k as int)).push(
            yv[k as int].rest.len() as int,
        ));
        assert(inner_part(yr@, yk@, yv.take(k + 1)));
    }
    assert(yv.take(ys.len() as int) =~= yv);
    assert(keys(xk@).len() == xk@.len());
    assert(keys(yk@).len() == yk@.len());
    assert(rest_keys(xv).len() == xv.len());
    assert(rest_keys(yv).len() == yv.len());
    let r = merge_by_key(xr, xk, yr, yk);
    proof {
        lemma_merge_indices(rest_keys(xv), rest_keys(yv), 0, 0);
    }
    r
}

} // verus!
