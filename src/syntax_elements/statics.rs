//! Statics: single-line declarations ended by `;`, mutable or not.

use vstd::prelude::*;
use crate::pattern::{
    attribute_list, attributes_in, find_all, found, found_views, group, group_or_empty,
    group_string, group_text, lemma_select_step, select, Found, FoundView,
};
use crate::text::{
    concat_all, framed, lemma_concat_step, lemma_concat_whole, opt_trim, opt_view, push_framed,
    push_spaced, spaced, texts, trim, trimmed, trimmed_opt,
};

verus! {

/// A static declaration.
#[derive(Debug)]
pub struct ARSStatic {
    pub name: String,
    /// The declared type.
    pub ty: String,
    /// The value expression, up to the first `;`.
    pub value: String,
    pub mutable: bool,
    pub visibility: Option<String>,
    pub attributes: Vec<String>,
}

/// Attributes, visibility, `static`, `mut`, name, `:`, type, `=`, value, `;`.
pub const STATIC_PATTERN: &'static str =
    r"(?m)((?:#\[.*?\]\s*)*)(pub(?:\(crate\))?\s+)?static\s+(mut\s+)?(\w+)\s*:\s*([^=\s][^=]*)\s*=\s*(.+?);";

/// The match names the static and gives it a type: both are non-empty.
pub open spec fn static_ok(m: FoundView) -> bool {
    group_or_empty(m, 4).len() > 0 && trim(group_or_empty(m, 5)).len() > 0
}

/// `s` is the static that a match `m` of `STATIC_PATTERN` describes, given
/// the attributes found in its attribute group.
pub open spec fn static_fits(s: ARSStatic, m: FoundView, attrs: Seq<Seq<char>>) -> bool {
    &&& s.name@ == group_or_empty(m, 4)
    &&& s.name@.len() > 0
    &&& s.ty@.len() > 0
    &&& s.ty@ == trim(group_or_empty(m, 5))
    &&& s.value@ == trim(group_or_empty(m, 6))
    &&& s.mutable == group(m, 3) is Some
    &&& opt_view(s.visibility) == opt_trim(group(m, 2))
    &&& texts(s.attributes@) == attrs
}

/// The static that one match describes; `None` when its name or type is
/// empty.
pub fn static_from_match(m: &Found, attributes: Vec<String>) -> (r: Option<ARSStatic>)
    ensures
        match r {
            Some(s) => static_fits(s, m@, texts(attributes@)),
            None => !static_ok(m@),
        },
{
    let name = group_string(m, 4);
    let ty = trimmed(group_string(m, 5).as_str());
    if name.as_str().unicode_len() == 0 || ty.as_str().unicode_len() == 0 {
        return None;
    }
    let mutable = match group_text(m, 3) {
        Some(_) => true,
        None => false,
    };
    Some(
        ARSStatic {
            name,
            ty,
            value: trimmed(group_string(m, 6).as_str()),
            mutable,
            visibility: trimmed_opt(group_text(m, 2)),
            attributes,
        },
    )
}

/// The statics of the matches that name one and give it a type, in order.
pub open spec fn statics_fit(r: Seq<ARSStatic>, ms: Seq<FoundView>) -> bool {
    let kept = select(ms, |m: FoundView| static_ok(m));
    &&& r.len() == kept.len()
    &&& forall|i: int|
        0 <= i < r.len() ==> static_fits(r[i], kept[i], attributes_in(group_or_empty(kept[i], 1)))
}

/// Every static of `source`, in order of appearance.
pub fn extract_ars_statics(source: &str) -> (r: Vec<ARSStatic>)
    ensures
        statics_fit(r@, found(STATIC_PATTERN@, source@)),
{
    let ms = find_all(STATIC_PATTERN, source);
    let mut r: Vec<ARSStatic> = Vec::new();
    assert(found_views(ms@).take(0) =~= Seq::<FoundView>::empty());
    for k in 0..ms.len()
        invariant
            found_views(ms@) == found(STATIC_PATTERN@, source@),
            statics_fit(r@, found_views(ms@).take(k as int)),
    {
        let ghost mv = found_views(ms@);
        proof {
            lemma_select_step(mv, |m: FoundView| static_ok(m), k as int);
        }
        assert(mv[k as int] == ms@[k as int]@);
        let attrs = attribute_list(group_string(&ms[k], 1).as_str());
        match static_from_match(&ms[k], attrs) {
            Some(s) => r.push(s),
            None => {},
        }
        assert(statics_fit(r@, mv.take(k + 1)));
    }
    assert(found_views(ms@).take(ms.len() as int) =~= found_views(ms@));
    r
}

/// A static declaration from its parts.
pub open spec fn static_decl(
    attrs: Seq<Seq<char>>,
    vis: Option<Seq<char>>,
    mutable: bool,
    name: Seq<char>,
    ty: Seq<char>,
    value: Seq<char>,
) -> Seq<char> {
    framed(attrs, ""@, "\n"@) + spaced(vis) + "static "@ + (if mutable {
        "mut "@
    } else {
        ""@
    }) + name + ": "@ + ty + " = "@ + value + ";\n\n"@
}

/// The source text of one static.
pub open spec fn static_text(s: ARSStatic) -> Seq<char> {
    static_decl(texts(s.attributes@), opt_view(s.visibility), s.mutable, s.name@, s.ty@, s.value@)
}

fn push_static(out: &mut String, s: &ARSStatic)
    ensures
        final(out)@ == old(out)@ + static_text(*s),
{
    let ghost o0 = out@;
    push_framed(out, &s.attributes, "", "\n");
    push_spaced(out, &s.visibility);
    out.append("static ");
    if s.mutable {
        out.append("mut ");
    } else {
        out.append("");
    }
    out.append(s.name.as_str());
    out.append(": ");
    out.append(s.ty.as_str());
    out.append(" = ");
    out.append(s.value.as_str());
    out.append(";\n\n");
    assert(out@ =~= o0 + static_text(*s));
}

/// The source text of the statics, one after another.
pub fn reconstruct(ars_statics: &[ARSStatic]) -> (r: String)
    ensures
        r@ == concat_all(ars_statics@, |s: ARSStatic| static_text(s)),
{
    let mut out = String::new();
    proof {
        lemma_concat_whole(ars_statics@, |s: ARSStatic| static_text(s));
    }
    for k in 0..ars_statics.len()
        invariant
            out@ == concat_all(ars_statics@.take(k as int), |s: ARSStatic| static_text(s)),
    {
        push_static(&mut out, &ars_statics[k]);
        proof {
            lemma_concat_step(ars_statics@, |s: ARSStatic| static_text(s), k as int);
        }
    }
    out
}

/// The declaration that a match of `STATIC_PATTERN` recognizes, rebuilt
/// from the parts it captured.
pub open spec fn recognized_static(m: FoundView) -> Seq<char> {
    static_decl(
        attributes_in(group_or_empty(m, 1)),
        opt_trim(group(m, 2)),
        group(m, 3) is Some,
        group_or_empty(m, 4),
        trim(group_or_empty(m, 5)),
        trim(group_or_empty(m, 6)),
    )
}

/// Reconstructing what was extracted from `source` gives, for each
/// recognized static with a name and a type, in order, a declaration with
/// the same attributes, visibility, mutability, name, type and value as
/// were recognized.
pub proof fn statics_round_trip(source: Seq<char>, r: Seq<ARSStatic>)
    requires
        statics_fit(r, found(STATIC_PATTERN@, source)),
    ensures
        concat_all(r, |s: ARSStatic| static_text(s)) == concat_all(
            select(found(STATIC_PATTERN@, source), |m: FoundView| static_ok(m)),
            |m: FoundView| recognized_static(m),
        ),
{
    lemma_fit_texts(r, select(found(STATIC_PATTERN@, source), |m: FoundView| static_ok(m)));
}

proof fn lemma_fit_texts(r: Seq<ARSStatic>, ms: Seq<FoundView>)
    requires
        r.len() == ms.len(),
        forall|i: int|
            0 <= i < r.len() ==> static_fits(r[i], ms[i], attributes_in(group_or_empty(ms[i], 1))),
    ensures
        concat_all(r, |s: ARSStatic| static_text(s)) == concat_all(
            ms,
            |m: FoundView| recognized_static(m),
        ),
    decreases r.len(),
{
    if r.len() > 0 {
        let n = r.len() - 1;
        lemma_fit_texts(r.drop_last(), ms.drop_last());
        assert(static_fits(r[n], ms[n], attributes_in(group_or_empty(ms[n], 1))));
    }
}

} // verus!
