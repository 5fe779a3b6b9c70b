//! Constants: single-line declarations ended by `;`.

use vstd::prelude::*;
use crate::pattern::{
    attribute_list, attributes_in, find_all, found, found_views, group, group_or_empty,
    group_string, group_text, lemma_select_step, select, Found, FoundView,
};
use crate::text::{
    concat_all, framed, lemma_concat_step, lemma_concat_whole, opt_trim, opt_view, push_framed,
    push_spaced, spaced, texts, trim, trimmed, trimmed_opt,
};

verus! {

/// A constant declaration.
#[derive(Debug)]
pub struct ARSConst {
    pub name: String,
    /// The declared type.
    pub ty: String,
    /// The value expression, up to the first `;`.
    pub value: String,
    pub visibility: Option<String>,
    pub attributes: Vec<String>,
}

/// Attributes, visibility, `const`, name, `:`, type, `=`, value, then `;`.
pub const CONST_PATTERN: &'static str =
    r"(?m)((?:#\[.*?\]\s*)*)(pub(?:\(crate\))?\s+)?const\s+(\w+)\s*:\s*([^=\s][^=]*)\s*=\s*(.+?);";

/// The match names the constant and gives it a type: both are non-empty.
pub open spec fn const_ok(m: FoundView) -> bool {
    group_or_empty(m, 3).len() > 0 && trim(group_or_empty(m, 4)).len() > 0
}

/// `c` is the constant that a match `m` of `CONST_PATTERN` describes, given
/// the attributes found in its attribute group.
pub open spec fn const_fits(c: ARSConst, m: FoundView, attrs: Seq<Seq<char>>) -> bool {
    &&& c.name@ == group_or_empty(m, 3)
    &&& c.name@.len() > 0
    &&& c.ty@.len() > 0
    &&& c.ty@ == trim(group_or_empty(m, 4))
    &&& c.value@ == trim(group_or_empty(m, 5))
    &&& opt_view(c.visibility) == opt_trim(group(m, 2))
    &&& texts(c.attributes@) == attrs
}

/// The constant that one match describes; `None` when its name or type is
/// empty.
pub fn const_from_match(m: &Found, attributes: Vec<String>) -> (r: Option<ARSConst>)
    ensures
        match r {
            Some(c) => const_fits(c, m@, texts(attributes@)),
            None => !const_ok(m@),
        },
{
    let name = group_string(m, 3);
    let ty = trimmed(group_string(m, 4).as_str());
    if name.as_str().unicode_len() == 0 || ty.as_str().unicode_len() == 0 {
        return None;
    }
    Some(
        ARSConst {
            name,
            ty,
            value: trimmed(group_string(m, 5).as_str()),
            visibility: trimmed_opt(group_text(m, 2)),
            attributes,
        },
    )
}

/// The constants of the matches that name one and give it a type, in order.
pub open spec fn consts_fit(r: Seq<ARSConst>, ms: Seq<FoundView>) -> bool {
    let kept = select(ms, |m: FoundView| const_ok(m));
    &&& r.len() == kept.len()
    &&& forall|i: int|
        0 <= i < r.len() ==> const_fits(r[i], kept[i], attributes_in(group_or_empty(kept[i], 1)))
}

/// Every constant of `source`, in order of appearance.
pub fn extract_ars_consts(source: &str) -> (r: Vec<ARSConst>)
    ensures
        consts_fit(r@, found(CONST_PATTERN@, source@)),
{
    let ms = find_all(CONST_PATTERN, source);
    let mut r: Vec<ARSConst> = Vec::new();
    assert(found_views(ms@).take(0) =~= Seq::<FoundView>::empty());
    for k in 0..ms.len()
        invariant
            found_views(ms@) == found(CONST_PATTERN@, source@),
            consts_fit(r@, found_views(ms@).take(k as int)),
    {
        let ghost mv = found_views(ms@);
        proof {
            lemma_select_step(mv, |m: FoundView| const_ok(m), k as int);
        }
        assert(mv[k as int] == ms@[k as int]@);
        let attrs = attribute_list(group_string(&ms[k], 1).as_str());
        match const_from_match(&ms[k], attrs) {
            Some(c) => r.push(c),
            None => {},
        }
        assert(consts_fit(r@, mv.take(k + 1)));
    }
    assert(found_views(ms@).take(ms.len() as int) =~= found_views(ms@));
    r
}

/// A constant declaration from its parts.
pub open spec fn const_decl(
    attrs: Seq<Seq<char>>,
    vis: Option<Seq<char>>,
    name: Seq<char>,
    ty: Seq<char>,
    value: Seq<char>,
) -> Seq<char> {
    framed(attrs, ""@, "\n"@) + spaced(vis) + "const "@ + name + ": "@ + ty + " = "@ + value
        + ";\n\n"@
}

/// The source text of one constant.
pub open spec fn const_text(c: ARSConst) -> Seq<char> {
    const_decl(texts(c.attributes@), opt_view(c.visibility), c.name@, c.ty@, c.value@)
}

fn push_const(out: &mut String, c: &ARSConst)
    ensures
        final(out)@ == old(out)@ + const_text(*c),
{
    let ghost o0 = out@;
    push_framed(out, &c.attributes, "", "\n");
    push_spaced(out, &c.visibility);
    out.append("const ");
    out.append(c.name.as_str());
    out.append(": ");
    out.append(c.ty.as_str());
    out.append(" = ");
    out.append(c.value.as_str());
    out.append(";\n\n");
    assert(out@ =~= o0 + const_text(*c));
}

/// The source text of the constants, one after another.
pub fn reconstruct(ars_consts: &[ARSConst]) -> (r: String)
    ensures
        r@ == concat_all(ars_consts@, |c: ARSConst| const_text(c)),
{
    let mut out = String::new();
    proof {
        lemma_concat_whole(ars_consts@, |c: ARSConst| const_text(c));
    }
    for k in 0..ars_consts.len()
        invariant
            out@ == concat_all(ars_consts@.take(k as int), |c: ARSConst| const_text(c)),
    {
        push_const(&mut out, &ars_consts[k]);
        proof {
            lemma_concat_step(ars_consts@, |c: ARSConst| const_text(c), k as int);
        }
    }
    out
}

/// The declaration that a match of `CONST_PATTERN` recognizes, rebuilt
/// from the parts it captured.
pub open spec fn recognized_const(m: FoundView) -> Seq<char> {
    const_decl(
        attributes_in(group_or_empty(m, 1)),
        opt_trim(group(m, 2)),
        group_or_empty(m, 3),
        trim(group_or_empty(m, 4)),
        trim(group_or_empty(m, 5)),
    )
}

/// Reconstructing what was extracted from `source` gives, for each
/// recognized constant with a name and a type, in order, a declaration with
/// the same attributes, visibility, name, type and value as were recognized.
pub proof fn consts_round_trip(source: Seq<char>, r: Seq<ARSConst>)
    requires
        consts_fit(r, found(CONST_PATTERN@, source)),
    ensures
        concat_all(r, |c: ARSConst| const_text(c)) == concat_all(
            select(found(CONST_PATTERN@, source), |m: FoundView| const_ok(m)),
            |m: FoundView| recognized_const(m),
        ),
{
    lemma_fit_texts(r, select(found(CONST_PATTERN@, source), |m: FoundView| const_ok(m)));
}

proof fn lemma_fit_texts(r: Seq<ARSConst>, ms: Seq<FoundView>)
    requires
        r.len() == ms.len(),
        forall|i: int|
            0 <= i < r.len() ==> const_fits(r[i], ms[i], attributes_in(group_or_empty(ms[i], 1))),
    ensures
        concat_all(r, |c: ARSConst| const_text(c)) == concat_all(
            ms,
            |m: FoundView| recognized_const(m),
        ),
    decreases r.len(),
{
    if r.len() > 0 {
        let n = r.len() - 1;
        lemma_fit_texts(r.drop_last(), ms.drop_last());
        assert(const_fits(r[n], ms[n], attributes_in(group_or_empty(ms[n], 1))));
    }
}

} // verus!
