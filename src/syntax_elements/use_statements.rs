//! Imports: `use` paths and `extern crate` declarations.

use vstd::prelude::*;
use vstd::string::*;
use crate::pattern::{
    find_all, found, found_views, group_or_empty, group_string, keys, lemma_merge_indices,
    merge_by_key, merge_from, rest_keys, Found, FoundView,
};
use crate::text::{
    chars_of, concat_all, ends_with, ends_with_text, find_next, find_spec,
    lemma_concat_step, lemma_concat_whole, opt_view, trim, trimmed,
};

verus! {

/// What an import declares.
#[derive(Clone, Copy, Debug, PartialEq, Eq)]
pub enum ImportKind {
    /// `use path;`
    Use,
    /// `extern crate name;`
    Extern,
}

/// An import.
#[derive(Debug)]
pub struct ARSUse {
    pub stmt_type: ImportKind,
    /// Everything between the keyword and the `;`, trimmed.
    pub path: String,
    /// The name after ` as `, when the path renames.
    pub alias: Option<String>,
    /// The path ends in `::*`.
    pub is_glob: bool,
}

/// `use` at the start of a line, the path, then `;`.
pub const USE_PATTERN: &'static str = r"(?m)^\s*use\s+([^;]+);";

/// `extern crate` at the start of a line, the name, then `;`.
pub const EXTERN_PATTERN: &'static str = r"(?m)^\s*extern\s+crate\s+([^;]+);";

/// The text after the first ` as ` of `path`, up to the next one, trimmed;
/// `None` when `path` does not rename.
pub open spec fn alias_of(path: Seq<char>) -> Option<Seq<char>> {
    match find_spec(path, " as "@, 0) {
        None => None,
        Some(i) => {
            let from = i + 4;
            Some(
                trim(
                    match find_spec(path, " as "@, from) {
                        Some(j) => path.subrange(from, j),
                        None => path.subrange(from, path.len() as int),
                    },
                ),
            )
        },
    }
}

pub fn alias_in(path: &str) -> (r: Option<String>)
    ensures
        opt_view(r) == alias_of(path@),
{
    let s = chars_of(path);
    let sep = chars_of(" as ");
    proof {
        reveal_strlit(" as ");
    }
    match find_next(&s, &sep, 0) {
        None => None,
        Some(i) => {
            assert(sep@.len() == 4);
            let n = s.len();
            assert(i + sep@.len() <= n);
            let from = i + sep.len();
            let end = match find_next(&s, &sep, from) {
                Some(j) => j,
                None => s.len(),
            };
            proof {
                if let Some(j) = find_spec(s@, sep@, from as int) {
                    assert(from <= j);
                }
            }
            let piece = path.substring_char(from, end);
            Some(trimmed(piece))
        },
    }
}

/// `u` is the `use` import that a match `m` of `USE_PATTERN` describes.
pub open spec fn use_fits(u: ARSUse, m: FoundView) -> bool {
    let path = trim(group_or_empty(m, 1));
    &&& u.stmt_type == ImportKind::Use
    &&& u.path@ == path
    &&& u.is_glob == ends_with(path, "::*"@)
    &&& opt_view(u.alias) == alias_of(path)
}

/// `u` is the `extern crate` import that a match `m` of `EXTERN_PATTERN`
/// describes.
pub open spec fn extern_fits(u: ARSUse, m: FoundView) -> bool {
    &&& u.stmt_type == ImportKind::Extern
    &&& u.path@ == trim(group_or_empty(m, 1))
    &&& u.alias is None
    &&& !u.is_glob
}

pub fn use_from_match(m: &Found) -> (r: ARSUse)
    ensures
        use_fits(r, m@),
{
    let path = trimmed(group_string(m, 1).as_str());
    let is_glob = ends_with_text(path.as_str(), "::*");
    let alias = alias_in(path.as_str());
    ARSUse { stmt_type: ImportKind::Use, path, alias, is_glob }
}

pub fn extern_from_match(m: &Found) -> (r: ARSUse)
    ensures
        extern_fits(r, m@),
{
    ARSUse {
        stmt_type: ImportKind::Extern,
        path: trimmed(group_string(m, 1).as_str()),
        alias: None,
        is_glob: false,
    }
}

/// `r` holds what the matches `ms` describe (see `use_fits`), and `k` how
/// much text follows each of those matches.
pub open spec fn use_part(r: Seq<ARSUse>, k: Seq<usize>, ms: Seq<FoundView>) -> bool {
    &&& r.len() == ms.len()
    &&& keys(k) == rest_keys(ms)
    &&& forall|i: int| 0 <= i < r.len() ==> use_fits(r[i], ms[i])
}

/// `r` holds what the matches `ms` describe (see `extern_fits`), and `k` how
/// much text follows each of those matches.
pub open spec fn extern_part(r: Seq<ARSUse>, k: Seq<usize>, ms: Seq<FoundView>) -> bool {
    &&& r.len() == ms.len()
    &&& keys(k) == rest_keys(ms)
    &&& forall|i: int| 0 <= i < r.len() ==> extern_fits(r[i], ms[i])
}

/// The `use` imports of `xs` and the `extern crate` ones of `ys`, together
/// in the order in which their matches stand in the source.
pub open spec fn uses_fit(r: Seq<ARSUse>, xs: Seq<FoundView>, ys: Seq<FoundView>) -> bool {
    let ord = merge_from(rest_keys(xs), rest_keys(ys), 0, 0);
    &&& r.len() == ord.len()
    &&& forall|i: int|
        0 <= i < r.len() ==> if ord[i].0 {
            use_fits(r[i], xs[ord[i].1])
        } else {
            extern_fits(r[i], ys[ord[i].1])
        }
}

/// Every import of `source`, `use` or `extern crate`, in order of appearance.
pub fn extract_ars_uses(source: &str) -> (r: Vec<ARSUse>)
    ensures
        uses_fit(r@, found(USE_PATTERN@, source@), found(EXTERN_PATTERN@, source@)),
{
    let xs = find_all(USE_PATTERN, source);
    let ghost xv = found_views(xs@);
    let mut xr: Vec<ARSUse> = Vec::new();
    let mut xk: Vec<usize> = Vec::new();
    assert(xv.take(0) =~= Seq::<FoundView>::empty());
    assert(keys(xk@) =~= rest_keys(Seq::<FoundView>::empty()));
    for k in 0..xs.len()
        invariant
            xv == found_views(xs@),
            use_part(xr@, xk@, xv.take(k as int)),
    {
        assert(xv[k as int] == xs@[k as int]@);
        let x = use_from_match(&xs[k]);
        let key = xs[k].rest.as_str().unicode_len();
        let ghost k0 = xk@;
        xr.push(x);
        xk.push(key);
        assert(keys(xk@) =~= keys(k0).push(key as int));
        assert(rest_keys(xv.take(k + 1)) =~= rest_keys(xv.take(k as int)).push(
            xv[k as int].rest.len() as int,
        ));
        assert(use_part(xr@, xk@, xv.take(k + 1)));
    }
    assert(xv.take(xs.len() as int) =~= xv);
    let ys = find_all(EXTERN_PATTERN, source);
    let ghost yv = found_views(ys@);
    let mut yr: Vec<ARSUse> = Vec::new();
    let mut yk: Vec<usize> = Vec::new();
    assert(yv.take(0) =~= Seq::<FoundView>::empty());
    assert(keys(yk@) =~= rest_keys(Seq::<FoundView>::empty()));
    for k in 0..ys.len()
        invariant
            yv == found_views(ys@),
            extern_part(yr@, yk@, yv.take(k as int)),
    {
        assert(yv[k as int] == ys@[k as int]@);
        let y = extern_from_match(&ys[k]);
        let key = ys[k].rest.as_str().unicode_len();
        let ghost k0 = yk@;
        yr.push(y);
        yk.push(key);
        assert(keys(yk@) =~= keys(k0).push(key as int));
        assert(rest_keys(yv.take(k + 1)) =~= rest_keys(yv.take(k as int)).push(
            yv[k as int].rest.len() as int,
        ));
        assert(extern_part(yr@, yk@, yv.take(k + 1)));
    }
    assert(yv.take(ys.len() as int) =~= yv);
    assert(keys(xk@).len() == xk@.len());
    assert(keys(yk@).len() == yk@.len());
    assert(rest_keys(xv).len() == xv.len());
    assert(rest_keys(yv).len() == yv.len());
    let r = merge_by_key(xr, xk, yr, yk);
    proof {
        lemma_merge_indices(rest_keys(xv), rest_keys(yv), 0, 0);
    }
    r
}

/// The source line of one import.
pub open spec fn use_text(u: ARSUse) -> Seq<char> {
    let line = match u.stmt_type {
        ImportKind::Use => "use "@ + u.path@ + ";"@,
        ImportKind::Extern => "extern crate "@ + u.path@ + ";"@,
    };
    line + "\n"@
}

/// The imports one per line, and a blank line after them when there are any.
pub open spec fn uses_text(v: Seq<ARSUse>) -> Seq<char> {
    concat_all(v, |u: ARSUse| use_text(u)) + if v.len() > 0 {
        "\n"@
    } else {
        ""@
    }
}

fn push_use(out: &mut String, u: &ARSUse)
    ensures
        final(out)@ == old(out)@ + use_text(*u),
{
    let ghost o0 = out@;
    match u.stmt_type {
        ImportKind::Use => out.append("use "),
        ImportKind::Extern => out.append("extern crate "),
    }
    out.append(u.path.as_str());
    out.append(";");
    out.append("\n");
    assert(out@ =~= o0 + use_text(*u));
}

/// The source text of the imports (see `uses_text`).
pub fn reconstruct(ars_uses: &[ARSUse]) -> (r: String)
    ensures
        r@ == uses_text(ars_uses@),
{
    let mut out = String::new();
    proof {
        lemma_concat_whole(ars_uses@, |u: ARSUse| use_text(u));
    }
    for k in 0..ars_uses.len()
        invariant
            out@ == concat_all(ars_uses@.take(k as int), |u: ARSUse| use_text(u)),
    {
        push_use(&mut out, &ars_uses[k]);
        proof {
            lemma_concat_step(ars_uses@, |u: ARSUse| use_text(u), k as int);
        }
    }
    if ars_uses.len() > 0 {
        out.append("\n");
    } else {
        out.append("");
    }
    out
}

} // verus!
