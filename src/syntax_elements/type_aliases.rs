//! Type aliases: single-line declarations ended by `;`.

use vstd::prelude::*;
use crate::pattern::{
    attribute_list, attributes_in, find_all, found, found_views, group, group_or_empty,
    group_string, group_text, Found, FoundView,
};
use crate::text::{
    concat_all, framed, lemma_concat_step, lemma_concat_whole, opt_trim, opt_view, push_framed,
    push_spaced, spaced, texts, trim, trimmed, trimmed_opt,
};

verus! {

/// A type alias.
#[derive(Debug)]
pub struct ARSTypeAlias {
    /// The alias, with its own generic parameter list if it has one.
    pub name: String,
    /// The aliased type.
    pub original_type: String,
    pub visibility: Option<String>,
    pub attributes: Vec<String>,
}

/// Attributes, visibility, `type`, name with generics, `=`, type, then `;`.
pub const TYPE_ALIAS_PATTERN: &'static str =
    r"(?m)((?:#\[.*?\]\s*)*)(pub(?:\(crate\))?\s+)?type\s+(\w+(?:<.*?>)?)\s*=\s*(.+?);";

/// `t` is the alias that a match `m` of `TYPE_ALIAS_PATTERN` describes,
/// given the attributes found in its attribute group.
pub open spec fn alias_fits(t: ARSTypeAlias, m: FoundView, attrs: Seq<Seq<char>>) -> bool {
    &&& t.name@ == group_or_empty(m, 3)
    &&& t.original_type@ == trim(group_or_empty(m, 4))
    &&& opt_view(t.visibility) == opt_trim(group(m, 2))
    &&& texts(t.attributes@) == attrs
}

pub fn alias_from_match(m: &Found, attributes: Vec<String>) -> (r: ARSTypeAlias)
    ensures
        alias_fits(r, m@, texts(attributes@)),
{
    ARSTypeAlias {
        name: group_string(m, 3),
        original_type: trimmed(group_string(m, 4).as_str()),
        visibility: trimmed_opt(group_text(m, 2)),
        attributes,
    }
}

pub open spec fn aliases_fit(r: Seq<ARSTypeAlias>, ms: Seq<FoundView>) -> bool {
    &&& r.len() == ms.len()
    &&& forall|i: int|
        0 <= i < r.len() ==> alias_fits(r[i], ms[i], attributes_in(group_or_empty(ms[i], 1)))
}

/// Every type alias of `source`, in order of appearance.
pub fn extract_ars_type_aliases(source: &str) -> (r: Vec<ARSTypeAlias>)
    ensures
        aliases_fit(r@, found(TYPE_ALIAS_PATTERN@, source@)),
{
    let ms = find_all(TYPE_ALIAS_PATTERN, source);
    let mut r: Vec<ARSTypeAlias> = Vec::new();
    for k in 0..ms.len()
        invariant
            found_views(ms@) == found(TYPE_ALIAS_PATTERN@, source@),
            aliases_fit(r@, found_views(ms@).take(k as int)),
    {
        let attrs = attribute_list(group_string(&ms[k], 1).as_str());
        let t = alias_from_match(&ms[k], attrs);
        r.push(t);
        assert(found_views(ms@)[k as int] == ms@[k as int]@);
        assert(aliases_fit(r@, found_views(ms@).take(k + 1)));
    }
    assert(found_views(ms@).take(ms.len() as int) =~= found_views(ms@));
    r
}

/// A type alias declaration from its parts.
pub open spec fn alias_decl(
    attrs: Seq<Seq<char>>,
    vis: Option<Seq<char>>,
    name: Seq<char>,
    ty: Seq<char>,
) -> Seq<char> {
    framed(attrs, ""@, "\n"@) + spaced(vis) + "type "@ + name + " = "@ + ty + ";\n"@
}

/// The source text of one type alias.
pub open spec fn alias_text(t: ARSTypeAlias) -> Seq<char> {
    alias_decl(texts(t.attributes@), opt_view(t.visibility), t.name@, t.original_type@)
}

/// The aliases one after another, and a blank line after them when there
/// are any.
pub open spec fn aliases_text(v: Seq<ARSTypeAlias>) -> Seq<char> {
    concat_all(v, |t: ARSTypeAlias| alias_text(t)) + if v.len() > 0 {
        "\n"@
    } else {
        ""@
    }
}

fn push_alias(out: &mut String, t: &ARSTypeAlias)
    ensures
        final(out)@ == old(out)@ + alias_text(*t),
{
    let ghost o0 = out@;
    push_framed(out, &t.attributes, "", "\n");
    push_spaced(out, &t.visibility);
    out.append("type ");
    out.append(t.name.as_str());
    out.append(" = ");
    out.append(t.original_type.as_str());
    out.append(";\n");
    assert(out@ =~= o0 + alias_text(*t));
}

/// The source text of the type aliases (see `aliases_text`).
pub fn reconstruct(ars_type_aliases: &[ARSTypeAlias]) -> (r: String)
    ensures
        r@ == aliases_text(ars_type_aliases@),
{
    let mut out = String::new();
    proof {
        lemma_concat_whole(ars_type_aliases@, |t: ARSTypeAlias| alias_text(t));
    }
    for k in 0..ars_type_aliases.len()
        invariant
            out@ == concat_all(ars_type_aliases@.take(k as int), |t: ARSTypeAlias| alias_text(t)),
    {
        push_alias(&mut out, &ars_type_aliases[k]);
        proof {
            lemma_concat_step(ars_type_aliases@, |t: ARSTypeAlias| alias_text(t), k as int);
        }
    }
    if ars_type_aliases.len() > 0 {
        out.append("\n");
    } else {
        out.append("");
    }
    out
}

/// The declaration that a match of `TYPE_ALIAS_PATTERN` recognizes,
/// rebuilt from the parts it captured.
pub open spec fn recognized_alias(m: FoundView) -> Seq<char> {
    alias_decl(
        attributes_in(group_or_empty(m, 1)),
        opt_trim(group(m, 2)),
        group_or_empty(m, 3),
        trim(group_or_empty(m, 4)),
    )
}

/// Reconstructing what was extracted from `source` gives, for each
/// recognized alias in order, a declaration with the same attributes,
/// visibility, name and aliased type as were recognized.
pub proof fn aliases_round_trip(source: Seq<char>, r: Seq<ARSTypeAlias>)
    requires
        aliases_fit(r, found(TYPE_ALIAS_PATTERN@, source)),
    ensures
        aliases_text(r) == concat_all(
            found(TYPE_ALIAS_PATTERN@, source),
            |m: FoundView| recognized_alias(m),
        ) + if r.len() > 0 {
            "\n"@
        } else {
            ""@
        },
{
    lemma_fit_texts(r, found(TYPE_ALIAS_PATTERN@, source));
}

proof fn lemma_fit_texts(r: Seq<ARSTypeAlias>, ms: Seq<FoundView>)
    requires
        aliases_fit(r, ms),
    ensures
        concat_all(r, |t: ARSTypeAlias| alias_text(t)) == concat_all(
            ms,
            |m: FoundView| recognized_alias(m),
        ),
    decreases r.len(),
{
    if r.len() > 0 {
        let n = r.len() - 1;
        assert(aliases_fit(r.drop_last(), ms.drop_last()));
        lemma_fit_texts(r.drop_last(), ms.drop_last());
        assert(alias_fits(r[n], ms[n], attributes_in(group_or_empty(ms[n], 1))));
    }
}

} // verus!
