//! Structs: unit, tuple and record shapes.

use vstd::prelude::*;
use crate::pattern::{
    attribute_list, attributes_in, find_all, found, found_views, group, group_or_empty,
    group_string, group_text, lemma_select_step, select, Found, FoundView,
};
use crate::balancer::{body_members, split_body};
use crate::text::{push_spaced, spaced, concat_all, framed, is_char_text, joined, lemma_concat_step, lemma_concat_whole, opt_trim, opt_view, or_empty, push_framed, push_joined, push_opt, texts, trimmed_opt};

verus! {

/// A struct declaration.
#[derive(Debug)]
pub struct ARSStruct {
    pub name: String,
    /// One entry per field (`name: Type`) or tuple element.
    pub fields: Vec<String>,
    pub is_tuple: bool,
    pub is_unit: bool,
    pub visibility: Option<String>,
    /// The generic parameter list with its angle brackets.
    pub generics: Option<String>,
    pub attributes: Vec<String>,
}

impl ARSStruct {
    /// The shapes exclude each other: a struct is not both unit and tuple.
    pub open spec fn wf(self) -> bool {
        !(self.is_unit && self.is_tuple)
    }
}

/// Attributes, visibility, `struct`, name, generics, then `(`, `;` or `{`.
pub const STRUCT_PATTERN: &'static str =
    r"(?s)((?:#\[.*?\]\s*)*)(pub(?:\(\w+\))?\s*)?struct\s+(\w+)\s*(<[^>]*>)?\s*([(;\{])";

/// The members of the struct that a match describes: none for a unit
/// struct, else those split on commas in the body that the balancer (braces, brackets
/// and parentheses) closes; `None` when that body never closes.
pub open spec fn struct_fields(m: FoundView) -> Option<Seq<Seq<char>>> {
    let opener = group_or_empty(m, 5);
    if opener == seq![';'] {
        Some(Seq::empty())
    } else {
        body_members(
            m.rest,
            true,
            if opener == seq!['('] {
                ')'
            } else {
                '}'
            },
            ',',
        )
    }
}

/// The match describes a struct whose body closes (or that has none).
pub open spec fn struct_closed(m: FoundView) -> bool {
    struct_fields(m) is Some
}

/// `s` is the struct that a match `m` of `STRUCT_PATTERN` describes, given
/// the attributes found in its attribute group.
pub open spec fn struct_fits(s: ARSStruct, m: FoundView, attrs: Seq<Seq<char>>) -> bool {
    let opener = group_or_empty(m, 5);
    &&& s.name@ == group_or_empty(m, 3)
    &&& opt_view(s.visibility) == opt_trim(group(m, 2))
    &&& opt_view(s.generics) == group(m, 4)
    &&& s.is_unit == (opener == seq![';'])
    &&& s.is_tuple == (opener == seq!['('])
    &&& s.wf()
    &&& texts(s.attributes@) == attrs
    &&& struct_fields(m) == Some(texts(s.fields@))
}

/// The struct that one match describes; `None` when its body never closes.
pub fn struct_from_match(m: &Found, attributes: Vec<String>) -> (r: Option<ARSStruct>)
    ensures
        match r {
            Some(s) => struct_fits(s, m@, texts(attributes@)),
            None => !struct_closed(m@),
        },
{
    let opener = group_string(m, 5);
    let is_unit = is_char_text(opener.as_str(), ';');
    let is_tuple = is_char_text(opener.as_str(), '(');
    assert(seq![';'][0] != seq!['('][0]);
    let fields = if is_unit {
        let v: Vec<String> = Vec::new();
        assert(texts(v@) =~= Seq::empty());
        v
    } else {
        let closer = if is_tuple {
            ')'
        } else {
            '}'
        };
        match split_body(m.rest.as_str(), true, closer, ',') {
            Some(v) => v,
            None => return None,
        }
    };
    Some(
        ARSStruct {
            name: group_string(m, 3),
            fields,
            is_tuple,
            is_unit,
            visibility: trimmed_opt(group_text(m, 2)),
            generics: group_text(m, 4),
            attributes,
        },
    )
}

/// The structs of the matches whose bodies close, in order.
pub open spec fn structs_fit(r: Seq<ARSStruct>, ms: Seq<FoundView>) -> bool {
    let kept = select(ms, |m: FoundView| struct_closed(m));
    &&& r.len() == kept.len()
    &&& forall|i: int|
        0 <= i < r.len() ==> struct_fits(r[i], kept[i], attributes_in(group_or_empty(kept[i], 1)))
}

/// Every struct of `source` whose body closes, in order of appearance.
pub fn extract_ars_structs(source: &str) -> (r: Vec<ARSStruct>)
    ensures
        structs_fit(r@, found(STRUCT_PATTERN@, source@)),
{
    let ms = find_all(STRUCT_PATTERN, source);
    let mut r: Vec<ARSStruct> = Vec::new();
    assert(found_views(ms@).take(0) =~= Seq::<FoundView>::empty());
    for k in 0..ms.len()
        invariant
            found_views(ms@) == found(STRUCT_PATTERN@, source@),
            structs_fit(r@, found_views(ms@).take(k as int)),
    {
        let ghost mv = found_views(ms@);
        proof {
            lemma_select_step(mv, |m: FoundView| struct_closed(m), k as int);
        }
        assert(mv[k as int] == ms@[k as int]@);
        let attrs = attribute_list(group_string(&ms[k], 1).as_str());
        match struct_from_match(&ms[k], attrs) {
            Some(s) => r.push(s),
            None => {},
        }
        assert(structs_fit(r@, mv.take(k + 1)));
    }
    assert(found_views(ms@).take(ms.len() as int) =~= found_views(ms@));
    r
}

/// The source text of one struct: attributes one per line, then the
/// declaration in the shape its flags give.
pub open spec fn struct_text(s: ARSStruct) -> Seq<char> {
    framed(texts(s.attributes@), ""@, "\n"@) + spaced(opt_view(s.visibility))
        + "struct "@ + s.name@ + or_empty(opt_view(s.generics)) + if s.is_unit {
        ";\n\n"@
    } else if s.is_tuple {
        "("@ + joined(texts(s.fields@), ", "@) + ");\n\n"@
    } else {
        " {\n"@ + framed(texts(s.fields@), "    "@, ",\n"@) + "}\n\n"@
    }
}

pub open spec fn structs_text(v: Seq<ARSStruct>) -> Seq<char> {
    concat_all(v, |s: ARSStruct| struct_text(s))
}

fn push_struct(out: &mut String, s: &ARSStruct)
    ensures
        final(out)@ == old(out)@ + struct_text(*s),
{
    let ghost o0 = out@;
    push_framed(out, &s.attributes, "", "\n");
    push_spaced(out, &s.visibility);
    out.append("struct ");
    out.append(s.name.as_str());
    push_opt(out, &s.generics);
    if s.is_unit {
        out.append(";\n\n");
    } else if s.is_tuple {
        out.append("(");
        push_joined(out, &s.fields, ", ");
        out.append(");\n\n");
    } else {
        out.append(" {\n");
        push_framed(out, &s.fields, "    ", ",\n");
        out.append("}\n\n");
    }
    assert(out@ =~= o0 + struct_text(*s));
}

/// The source text of the structs, one after another.
pub fn reconstruct(ars_structs: &[ARSStruct]) -> (r: String)
    ensures
        r@ == structs_text(ars_structs@),
{
    let mut out = String::new();
    proof {
        lemma_concat_whole(ars_structs@, |s: ARSStruct| struct_text(s));
    }
    for k in 0..ars_structs.len()
        invariant
            out@ == concat_all(ars_structs@.take(k as int), |s: ARSStruct| struct_text(s)),
    {
        let s = &ars_structs[k];
        push_struct(&mut out, s);
        proof {
            lemma_concat_step(ars_structs@, |s: ARSStruct| struct_text(s), k as int);
        }
    }
    out
}

} // verus!
