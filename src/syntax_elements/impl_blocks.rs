//! Implementation blocks, in trait-implementing and plain form.

use vstd::prelude::*;
use crate::pattern::{
    attribute_list, attributes_in, find_all, found, found_views, group, group_or_empty,
    group_string, group_text, keys, lemma_merge_indices, lemma_select_step, merge_by_key, merge_from,
    rest_keys, select, Found, FoundView,
};
use crate::balancer::{body_members, opt_texts, split_body};
use crate::text::{
    chars_of, concat_all, for_word_from, framed, has_for_word, lemma_concat_step, lemma_concat_whole,
    opt_trim, opt_view, or_empty, push_framed, push_opt, texts, trim, trimmed, trimmed_opt,
};

verus! {

/// An implementation block.
#[derive(Debug)]
pub struct ARSImpl {
    /// The type the block is for.
    pub target: String,
    /// The trait, for `impl Trait for Type`.
    pub trait_name: Option<String>,
    /// The trimmed, non-blank lines of the body.
    pub items: Vec<String>,
    pub generics: Option<String>,
    pub attributes: Vec<String>,
    /// Always `None`: implementation blocks carry no visibility.
    pub visibility: Option<String>,
}

/// Attributes, `impl`, generics, the trait, the word `for`, the type, then
/// `{`; neither the trait nor the type crosses a `{`.
pub const TRAIT_IMPL_PATTERN: &'static str =
    r"(?s)((?:#\[.*?\]\s*)*)\bimpl\s*(<[^>]*>)?\s*([^{]*?)\s+for\s+([^{]*?)\s*\{";

/// Attributes, `impl`, generics, the type, then `{`.
pub const IMPL_PATTERN: &'static str = r"(?s)((?:#\[.*?\]\s*)*)\bimpl\s*(<[^>]*>)?\s*(.*?)\s*\{";

/// The items of the body that starts at `rest`: its trimmed non-blank
/// lines; `None` when the body never closes.
pub fn parse_body(rest: &str) -> (r: Option<Vec<String>>)
    ensures
        opt_texts(r) == body_members(rest@, true, '}', '\n'),
{
    split_body(rest, true, '}', '\n')
}

/// The match describes a block whose body closes.
pub open spec fn impl_closed(m: FoundView) -> bool {
    body_members(m.rest, true, '}', '\n') is Some
}

/// `b` is the trait implementation that a match `m` of `TRAIT_IMPL_PATTERN`
/// describes, given the attributes found in its attribute group.
pub open spec fn trait_impl_fits(b: ARSImpl, m: FoundView, attrs: Seq<Seq<char>>) -> bool {
    &&& b.target@ == trim(group_or_empty(m, 4))
    &&& opt_view(b.trait_name) == opt_trim(group(m, 3))
    &&& body_members(m.rest, true, '}', '\n') == Some(texts(b.items@))
    &&& opt_view(b.generics) == group(m, 2)
    &&& texts(b.attributes@) == attrs
    &&& b.visibility is None
}

/// `b` is the plain implementation that a match `m` of `IMPL_PATTERN`
/// describes, given the attributes found in its attribute group.
pub open spec fn plain_impl_fits(b: ARSImpl, m: FoundView, attrs: Seq<Seq<char>>) -> bool {
    &&& b.target@ == trim(group_or_empty(m, 3))
    &&& b.trait_name is None
    &&& body_members(m.rest, true, '}', '\n') == Some(texts(b.items@))
    &&& opt_view(b.generics) == group(m, 2)
    &&& texts(b.attributes@) == attrs
    &&& b.visibility is None
}

/// The trait implementation that one match describes; `None` when its body
/// never closes.
pub fn trait_impl_from_match(m: &Found, attributes: Vec<String>) -> (r: Option<ARSImpl>)
    ensures
        match r {
            Some(b) => trait_impl_fits(b, m@, texts(attributes@)),
            None => !impl_closed(m@),
        },
{
    match parse_body(m.rest.as_str()) {
        Some(items) => Some(
            ARSImpl {
                target: trimmed(group_string(m, 4).as_str()),
                trait_name: trimmed_opt(group_text(m, 3)),
                items,
                generics: group_text(m, 2),
                attributes,
                visibility: None,
            },
        ),
        None => None,
    }
}

/// The plain implementation that one match describes; `None` when its body
/// never closes.
pub fn plain_impl_from_match(m: &Found, attributes: Vec<String>) -> (r: Option<ARSImpl>)
    ensures
        match r {
            Some(b) => plain_impl_fits(b, m@, texts(attributes@)),
            None => !impl_closed(m@),
        },
{
    match parse_body(m.rest.as_str()) {
        Some(items) => Some(
            ARSImpl {
                target: trimmed(group_string(m, 3).as_str()),
                trait_name: None,
                items,
                generics: group_text(m, 2),
                attributes,
                visibility: None,
            },
        ),
        None => None,
    }
}

/// A match of `IMPL_PATTERN` whose header, after its attributes, holds the
/// word `for` belongs to the trait-implementing form and is not counted
/// again as a plain one.
pub open spec fn is_trait_form(m: FoundView) -> bool {
    has_for_word(group_or_empty(m, 0), group_or_empty(m, 1).len() as int)
}

/// A plain block: not of the trait-implementing form, and closed.
pub open spec fn plain_kept(m: FoundView) -> bool {
    !is_trait_form(m) && impl_closed(m)
}

/// `r` holds the trait implementations of the matches `ms`, and `k` how
/// much text follows each of those matches.
pub open spec fn trait_part(r: Seq<ARSImpl>, k: Seq<usize>, ms: Seq<FoundView>) -> bool {
    &&& r.len() == ms.len()
    &&& keys(k) == rest_keys(ms)
    &&& forall|i: int|
        0 <= i < r.len() ==> trait_impl_fits(r[i], ms[i], attributes_in(group_or_empty(ms[i], 1)))
}

/// `r` holds the plain implementations of the matches `ms`, and `k` how
/// much text follows each of those matches.
pub open spec fn plain_part(r: Seq<ARSImpl>, k: Seq<usize>, ms: Seq<FoundView>) -> bool {
    &&& r.len() == ms.len()
    &&& keys(k) == rest_keys(ms)
    &&& forall|i: int|
        0 <= i < r.len() ==> plain_impl_fits(r[i], ms[i], attributes_in(group_or_empty(ms[i], 1)))
}

/// The closed trait implementations of `ts` and the closed plain ones of
/// `ps`, together in the order in which their matches stand in the source.
pub open spec fn impls_fit(r: Seq<ARSImpl>, ts: Seq<FoundView>, ps: Seq<FoundView>) -> bool {
    let kt = select(ts, |m: FoundView| impl_closed(m));
    let kp = select(ps, |m: FoundView| plain_kept(m));
    let ord = merge_from(rest_keys(kt), rest_keys(kp), 0, 0);
    &&& r.len() == ord.len()
    &&& forall|i: int|
        0 <= i < r.len() ==> if ord[i].0 {
            trait_impl_fits(r[i], kt[ord[i].1], attributes_in(group_or_empty(kt[ord[i].1], 1)))
        } else {
            plain_impl_fits(r[i], kp[ord[i].1], attributes_in(group_or_empty(kp[ord[i].1], 1)))
        }
}

/// Every closed implementation block of `source`, of the form
/// `impl Trait for Type` or plain, in order of appearance.
pub fn extract_ars_impls(source: &str) -> (r: Vec<ARSImpl>)
    ensures
        impls_fit(r@, found(TRAIT_IMPL_PATTERN@, source@), found(IMPL_PATTERN@, source@)),
{
    let ts = find_all(TRAIT_IMPL_PATTERN, source);
    let ghost tv = found_views(ts@);
    let mut tr: Vec<ARSImpl> = Vec::new();
    let mut tk: Vec<usize> = Vec::new();
    assert(tv.take(0) =~= Seq::<FoundView>::empty());
    assert(keys(tk@) =~= rest_keys(Seq::<FoundView>::empty()));
    for k in 0..ts.len()
        invariant
            tv == found_views(ts@),
            tv == found(TRAIT_IMPL_PATTERN@, source@),
            trait_part(tr@, tk@, select(tv.take(k as int), |m: FoundView| impl_closed(m))),
    {
        proof {
            lemma_select_step(tv, |m: FoundView| impl_closed(m), k as int);
        }
        assert(tv[k as int] == ts@[k as int]@);
        let attrs = attribute_list(group_string(&ts[k], 1).as_str());
        match trait_impl_from_match(&ts[k], attrs) {
            Some(b) => {
                let key = ts[k].rest.as_str().unicode_len();
                let ghost k0 = tk@;
                tr.push(b);
                tk.push(key);
                assert(keys(tk@) =~= keys(k0).push(key as int));
                assert(rest_keys(select(tv.take(k + 1), |m: FoundView| impl_closed(m))) =~= rest_keys(
                    select(tv.take(k as int), |m: FoundView| impl_closed(m)),
                ).push(tv[k as int].rest.len() as int));
            },
            None => {},
        }
    }
    assert(tv.take(ts.len() as int) =~= tv);
    let ps = find_all(IMPL_PATTERN, source);
    let ghost pv = found_views(ps@);
    let mut pr: Vec<ARSImpl> = Vec::new();
    let mut pk: Vec<usize> = Vec::new();
    assert(pv.take(0) =~= Seq::<FoundView>::empty());
    assert(keys(pk@) =~= rest_keys(Seq::<FoundView>::empty()));
    for k in 0..ps.len()
        invariant
            pv == found_views(ps@),
            pv == found(IMPL_PATTERN@, source@),
            plain_part(pr@, pk@, select(pv.take(k as int), |m: FoundView| plain_kept(m))),
    {
        proof {
            lemma_select_step(pv, |m: FoundView| plain_kept(m), k as int);
        }
        assert(pv[k as int] == ps@[k as int]@);
        let whole = chars_of(group_string(&ps[k], 0).as_str());
        let attr_len = group_string(&ps[k], 1).as_str().unicode_len();
        if !for_word_from(&whole, attr_len) {
            let attrs = attribute_list(group_string(&ps[k], 1).as_str());
            match plain_impl_from_match(&ps[k], attrs) {
                Some(b) => {
                    let key = ps[k].rest.as_str().unicode_len();
                    let ghost k0 = pk@;
                    pr.push(b);
                    pk.push(key);
                    assert(keys(pk@) =~= keys(k0).push(key as int));
                    assert(rest_keys(select(pv.take(k + 1), |m: FoundView| plain_kept(m)))
                        =~= rest_keys(select(pv.take(k as int), |m: FoundView| plain_kept(m))).push(
                        pv[k as int].rest.len() as int,
                    ));
                },
                None => {},
            }
        }
    }
    assert(pv.take(ps.len() as int) =~= pv);
    let ghost kt = select(tv, |m: FoundView| impl_closed(m));
    let ghost kp = select(pv, |m: FoundView| plain_kept(m));
    let ghost trv = tr@;
    let ghost prv = pr@;
    assert(keys(pk@).len() == pk@.len());
    assert(rest_keys(kp).len() == kp.len());
    assert(keys(tk@).len() == tk@.len());
    assert(rest_keys(kt).len() == kt.len());
    let r = merge_by_key(tr, tk, pr, pk);
    proof {
        lemma_merge_indices(rest_keys(kt), rest_keys(kp), 0, 0);
    }
    r
}

/// The source text of one implementation block: attributes one per line,
/// the header, then one item per line.
pub open spec fn impl_text(b: ARSImpl) -> Seq<char> {
    framed(texts(b.attributes@), ""@, "\n"@) + "impl"@ + or_empty(opt_view(b.generics)) + match b.trait_name {
        Some(t) => " "@ + t@ + " for"@,
        None => Seq::empty(),
    } + " "@ + b.target@ + " {\n"@ + framed(texts(b.items@), "    "@, "\n"@) + "}\n\n"@
}

fn push_impl(out: &mut String, b: &ARSImpl)
    ensures
        final(out)@ == old(out)@ + impl_text(*b),
{
    let ghost o0 = out@;
    push_framed(out, &b.attributes, "", "\n");
    out.append("impl");
    push_opt(out, &b.generics);
    let ghost mid = out@;
    match &b.trait_name {
        Some(t) => {
            out.append(" ");
            out.append(t.as_str());
            out.append(" for");
        },
        None => {
            assert(out@ =~= mid + Seq::<char>::empty());
        },
    }
    out.append(" ");
    out.append(b.target.as_str());
    out.append(" {\n");
    push_framed(out, &b.items, "    ", "\n");
    out.append("}\n\n");
    assert(out@ =~= o0 + impl_text(*b));
}

/// The source text of the implementation blocks, one after another.
pub fn reconstruct(ars_impls: &[ARSImpl]) -> (r: String)
    ensures
        r@ == concat_all(ars_impls@, |b: ARSImpl| impl_text(b)),
{
    let mut out = String::new();
    proof {
        lemma_concat_whole(ars_impls@, |b: ARSImpl| impl_text(b));
    }
    for k in 0..ars_impls.len()
        invariant
            out@ == concat_all(ars_impls@.take(k as int), |b: ARSImpl| impl_text(b)),
    {
        push_impl(&mut out, &ars_impls[k]);
        proof {
            lemma_concat_step(ars_impls@, |b: ARSImpl| impl_text(b), k as int);
        }
    }
    out
}

} // verus!
