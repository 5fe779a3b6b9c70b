//! Modules: inline with a body, or declared for a file of their own.

use vstd::prelude::*;
use crate::pattern::{
    attribute_list, attributes_in, find_all, found, found_views, group, group_or_empty,
    group_string, group_text, lemma_select_step, select, Found, FoundView,
};
use crate::balancer::{body_text, trimmed_body};
use crate::text::{framed, joined, opt_trim, opt_view, push_framed, push_joined, push_spaced, spaced, texts, trimmed_opt};

verus! {

/// A module declaration.
#[derive(Debug)]
pub struct ARSModule {
    pub name: String,
    pub visibility: Option<String>,
    pub attributes: Vec<String>,
    /// The module has its body in place (`mod m { .. }`), not in a file.
    pub inline: bool,
    /// The trimmed body text of an inline module.
    pub body: Option<String>,
}

impl ARSModule {
    /// Only an inline module has a body.
    pub open spec fn wf(self) -> bool {
        self.body is Some ==> self.inline
    }
}

/// Attributes, visibility, `mod`, name, then an optional `{`.
pub const MODULE_PATTERN: &'static str =
    r"(?s)((?:#\[.*?\]\s*)*)(pub(?:\(\w+\))?\s*)?mod\s+(\w+)\s*(\{)?";

/// `d` is the module that a match `m` of `MODULE_PATTERN` describes, given
/// the attributes found in its attribute group.
pub open spec fn module_fits(d: ARSModule, m: FoundView, attrs: Seq<Seq<char>>) -> bool {
    &&& d.name@ == group_or_empty(m, 3)
    &&& opt_view(d.visibility) == opt_trim(group(m, 2))
    &&& texts(d.attributes@) == attrs
    &&& d.inline == group(m, 4) is Some
    &&& d.wf()
    &&& (d.inline ==> d.body is Some)
    &&& opt_view(d.body) == if d.inline {
        trimmed_body(m.rest, true, '}')
    } else {
        None
    }
}

/// The match describes a file module, or an inline one whose body closes.
pub open spec fn module_closed(m: FoundView) -> bool {
    group(m, 4) is None || trimmed_body(m.rest, true, '}') is Some
}

/// The module that one match describes; `None` for an inline module whose
/// body never closes.
pub fn module_from_match(m: &Found, attributes: Vec<String>) -> (r: Option<ARSModule>)
    ensures
        match r {
            Some(d) => module_fits(d, m@, texts(attributes@)),
            None => !module_closed(m@),
        },
{
    let inline = match group_text(m, 4) {
        Some(_) => true,
        None => false,
    };
    let body = if inline {
        match body_text(m.rest.as_str(), true, '}') {
            Some(b) => Some(b),
            None => return None,
        }
    } else {
        None
    };
    Some(
        ARSModule {
            name: group_string(m, 3),
            visibility: trimmed_opt(group_text(m, 2)),
            attributes,
            inline,
            body,
        },
    )
}

/// The modules of the matches that are kept (see `module_closed`), in order.
pub open spec fn modules_fit(r: Seq<ARSModule>, ms: Seq<FoundView>) -> bool {
    let kept = select(ms, |m: FoundView| module_closed(m));
    &&& r.len() == kept.len()
    &&& forall|i: int|
        0 <= i < r.len() ==> module_fits(r[i], kept[i], attributes_in(group_or_empty(kept[i], 1)))
}

/// Every module of `source`, but an inline one whose body never closes, in
/// order of appearance.
pub fn extract_ars_modules(source: &str) -> (r: Vec<ARSModule>)
    ensures
        modules_fit(r@, found(MODULE_PATTERN@, source@)),
{
    let ms = find_all(MODULE_PATTERN, source);
    let mut r: Vec<ARSModule> = Vec::new();
    assert(found_views(ms@).take(0) =~= Seq::<FoundView>::empty());
    for k in 0..ms.len()
        invariant
            found_views(ms@) == found(MODULE_PATTERN@, source@),
            modules_fit(r@, found_views(ms@).take(k as int)),
    {
        let ghost mv = found_views(ms@);
        proof {
            lemma_select_step(mv, |m: FoundView| module_closed(m), k as int);
        }
        assert(mv[k as int] == ms@[k as int]@);
        let attrs = attribute_list(group_string(&ms[k], 1).as_str());
        match module_from_match(&ms[k], attrs) {
            Some(d) => r.push(d),
            None => {},
        }
        assert(modules_fit(r@, mv.take(k + 1)));
    }
    assert(found_views(ms@).take(ms.len() as int) =~= found_views(ms@));
    r
}

/// The source text of one module: attributes one per line, then the
/// declaration, with its body between braces when it is inline.
pub open spec fn module_text(d: ARSModule) -> Seq<char> {
    framed(texts(d.attributes@), ""@, "\n"@) + spaced(opt_view(d.visibility)) + "mod "@ + d.name@
        + if d.inline {
        match d.body {
            Some(b) => " {\n"@ + b@ + "\n}\n"@,
            None => " {}\n"@,
        }
    } else {
        ";\n"@
    }
}

fn module_string(d: &ARSModule) -> (r: String)
    ensures
        r@ == module_text(*d),
{
    let mut out = String::new();
    push_framed(&mut out, &d.attributes, "", "\n");
    push_spaced(&mut out, &d.visibility);
    out.append("mod ");
    out.append(d.name.as_str());
    let ghost head = out@;
    if d.inline {
        match &d.body {
            Some(b) => {
                out.append(" {\n");
                out.append(b.as_str());
                out.append("\n}\n");
            },
            None => out.append(" {}\n"),
        }
    } else {
        out.append(";\n");
    }
    assert(out@ =~= module_text(*d));
    out
}

/// The source text of the modules, separated by blank lines.
pub fn reconstruct(modules: &[ARSModule]) -> (r: String)
    ensures
        r@ == joined(modules@.map_values(|d: ARSModule| module_text(d)), "\n"@),
{
    let mut parts: Vec<String> = Vec::new();
    for k in 0..modules.len()
        invariant
            texts(parts@) == modules@.take(k as int).map_values(|d: ARSModule| module_text(d)),
    {
        let t = module_string(&modules[k]);
        let ghost prev = parts@;
        parts.push(t);
        assert(texts(parts@) =~= texts(prev).push(t@));
        assert(texts(parts@) =~= modules@.take(k + 1).map_values(|d: ARSModule| module_text(d)));
    }
    assert(modules@.take(modules.len() as int) =~= modules@);
    let mut out = String::new();
    push_joined(&mut out, &parts, "\n");
    assert(out@ =~= joined(texts(parts@), "\n"@));
    out
}

} // verus!
