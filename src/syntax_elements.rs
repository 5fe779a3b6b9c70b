//! The extractors and reconstructors, one module per construct kind.

pub mod attributes;
pub mod constants;
pub mod enums;
pub mod expressions;
pub mod functions;
pub mod impl_blocks;
pub mod macros;
pub mod modules;
pub mod statements;
pub mod statics;
pub mod structs;
pub mod traits;
pub mod type_aliases;
pub mod use_statements;

use vstd::prelude::*;
use crate::text::{line_list, push_joined, split_lines, texts, trim, trimmed, joined};

verus! {

/// The lines of `source`, each trimmed.
pub fn extract(source: &str) -> (r: Vec<String>)
    ensures
        texts(r@) == line_list(source@).map_values(|l: Seq<char>| trim(l)),
{
    let lines = split_lines(source);
    let mut r: Vec<String> = Vec::new();
    for k in 0..lines.len()
        invariant
            texts(r@) == texts(lines@).take(k as int).map_values(|l: Seq<char>| trim(l)),
    {
        let t = trimmed(lines[k].as_str());
        let ghost r0 = r@;
        r.push(t);
        assert(texts(r@) =~= texts(r0).push(t@));
        assert(texts(r@) =~= texts(lines@).take(k + 1).map_values(|l: Seq<char>| trim(l)));
    }
    assert(texts(lines@).take(lines.len() as int) =~= texts(lines@));
    r
}

/// The lines joined by line breaks.
pub fn reconstruct(lines: &[String]) -> (r: String)
    ensures
        r@ == joined(texts(lines@), "\n"@),
{
    let mut out = String::new();
    push_joined(&mut out, lines, "\n");
    out
}

} // verus!
