//! Anchored pattern scanning over source text, through the `regex` crate.

use vstd::prelude::*;
use crate::text::{opt_view, texts};

verus! {

/// One match of a pattern: the text of each capture group (group zero is
/// the whole match, a group that took no part is `None`) and the text that
/// follows the match in the haystack.
#[derive(Debug)]
pub struct Found {
    pub groups: Vec<Option<String>>,
    pub rest: String,
}

/// What a `Found` holds, as plain text.
pub struct FoundView {
    pub groups: Seq<Option<Seq<char>>>,
    pub rest: Seq<char>,
}

impl View for Found {
    type V = FoundView;

    open spec fn view(&self) -> FoundView {
        FoundView { groups: self.groups@.map_values(|g: Option<String>| opt_view(g)), rest: self.rest@ }
    }
}

pub open spec fn found_views(v: Seq<Found>) -> Seq<FoundView> {
    v.map_values(|f: Found| f@)
}

/// The successive non-overlapping matches, leftmost first, that the
/// `regex` crate finds for `pattern` in `text`, each as the text of its
/// groups and the text after it; `None` when `pattern` does not compile.
pub uninterp spec fn regex_matches(pattern: Seq<char>, text: Seq<char>) -> Option<Seq<FoundView>>;

/// Relies on `regex::Regex::new` to compile `pattern`, and on
/// `Regex::captures_iter` for the matches in `text`.
#[verifier::external_body]
fn captures_all(pattern: &str, text: &str) -> (r: Option<Vec<Found>>)
    ensures
        match r {
            Some(v) => regex_matches(pattern@, text@) == Some(found_views(v@)),
            None => regex_matches(pattern@, text@) is None,
        },
{
    let re = regex::Regex::new(pattern).ok()?;
    Some(re.captures_iter(text).map(|c| Found {
        groups: c.iter().map(|g| g.map(|m| m.as_str().to_string())).collect(),
        rest: text[c.get_match().end()..].to_string(),
    }).collect())
}

/// The matches of `pattern` in `text`; none when it does not compile.
pub open spec fn found(pattern: Seq<char>, text: Seq<char>) -> Seq<FoundView> {
    match regex_matches(pattern, text) {
        Some(v) => v,
        None => Seq::empty(),
    }
}

pub fn find_all(pattern: &str, text: &str) -> (r: Vec<Found>)
    ensures
        found_views(r@) == found(pattern@, text@),
{
    match captures_all(pattern, text) {
        Some(v) => v,
        None => {
            let v: Vec<Found> = Vec::new();
            assert(found_views(v@) =~= Seq::empty());
            v
        },
    }
}

/// Group `i` of a match, if it took part.
pub open spec fn group(m: FoundView, i: int) -> Option<Seq<char>> {
    if 0 <= i < m.groups.len() {
        m.groups[i]
    } else {
        None
    }
}

/// Group `i` of a match, or the empty text where it took no part.
pub open spec fn group_or_empty(m: FoundView, i: int) -> Seq<char> {
    match group(m, i) {
        Some(t) => t,
        None => Seq::empty(),
    }
}

pub fn group_text(f: &Found, i: usize) -> (r: Option<String>)
    ensures
        opt_view(r) == group(f@, i as int),
{
    if i < f.groups.len() {
        match &f.groups[i] {
            Some(t) => Some(t.clone()),
            None => None,
        }
    } else {
        None
    }
}

pub fn group_string(f: &Found, i: usize) -> (r: String)
    ensures
        r@ == group_or_empty(f@, i as int),
{
    match group_text(f, i) {
        Some(t) => t,
        None => String::new(),
    }
}

/// The matches that `keep` accepts, in order.
pub open spec fn select(ms: Seq<FoundView>, keep: spec_fn(FoundView) -> bool) -> Seq<FoundView>
    decreases ms.len(),
{
    if ms.len() == 0 {
        Seq::empty()
    } else if keep(ms.last()) {
        select(ms.drop_last(), keep).push(ms.last())
    } else {
        select(ms.drop_last(), keep)
    }
}

pub proof fn lemma_select_step(ms: Seq<FoundView>, keep: spec_fn(FoundView) -> bool, k: int)
    requires
        0 <= k < ms.len(),
    ensures
        select(ms.take(k + 1), keep) == if keep(ms[k]) {
            select(ms.take(k), keep).push(ms[k])
        } else {
            select(ms.take(k), keep)
        },
{
    assert(ms.take(k + 1).drop_last() =~= ms.take(k));
}

/// The order of a merge of two sequences whose items carry keys: `(true, i)`
/// stands for item `i` of the first, `(false, j)` for item `j` of the second.
/// From `i` and `j` on, the item with the greater key comes first, the first
/// sequence's on a tie.
pub open spec fn merge_from(ka: Seq<int>, kb: Seq<int>, i: int, j: int) -> Seq<(bool, int)>
    decreases (if i < ka.len() {
        ka.len() - i
    } else {
        0
    }) + (if j < kb.len() {
        kb.len() - j
    } else {
        0
    }),
{
    if i >= ka.len() && j >= kb.len() {
        Seq::empty()
    } else if j >= kb.len() || (i < ka.len() && ka[i] >= kb[j]) {
        seq![(true, i)] + merge_from(ka, kb, i + 1, j)
    } else {
        seq![(false, j)] + merge_from(ka, kb, i, j + 1)
    }
}

/// Where a match starts, counted back from the end of the text: the more
/// text follows it, the earlier it stands.
pub open spec fn keys(v: Seq<usize>) -> Seq<int> {
    v.map_values(|k: usize| k as int)
}

/// The items of `a` and `b` merged so that greater keys come first (see
/// `merge_from`).
pub fn merge_by_key<T>(a: Vec<T>, ka: Vec<usize>, b: Vec<T>, kb: Vec<usize>) -> (r: Vec<T>)
    requires
        a@.len() == ka@.len(),
        b@.len() == kb@.len(),
    ensures
        r@.len() == merge_from(keys(ka@), keys(kb@), 0, 0).len(),
        forall|k: int|
            0 <= k < r@.len() ==> r@[k] == {
                let o = merge_from(keys(ka@), keys(kb@), 0, 0)[k];
                if o.0 {
                    a@[o.1]
                } else {
                    b@[o.1]
                }
            },
{
    let ghost a0 = a@;
    let ghost b0 = b@;
    let ghost whole = merge_from(keys(ka@), keys(kb@), 0, 0);
    let mut a = a;
    let mut b = b;
    let mut r: Vec<T> = Vec::new();
    let mut i: usize = 0;
    let mut j: usize = 0;
    let ghost mut done: Seq<(bool, int)> = Seq::empty();
    assert(a0.skip(0) =~= a0);
    assert(b0.skip(0) =~= b0);
    while i < ka.len() || j < kb.len()
        invariant
            a0.len() == ka@.len(),
            b0.len() == kb@.len(),
            i <= ka@.len(),
            j <= kb@.len(),
            a@ == a0.skip(i as int),
            b@ == b0.skip(j as int),
            whole == merge_from(keys(ka@), keys(kb@), 0, 0),
            whole == done + merge_from(keys(ka@), keys(kb@), i as int, j as int),
            r@.len() == done.len(),
            forall|k: int|
                0 <= k < r@.len() ==> r@[k] == if done[k].0 {
                    a0[done[k].1]
                } else {
                    b0[done[k].1]
                },
        decreases ka@.len() - i + kb@.len() - j,
    {
        let ghost rest = merge_from(keys(ka@), keys(kb@), i as int, j as int);
        if j >= kb.len() || (i < ka.len() && ka[i] >= kb[j]) {
            assert(rest == seq![(true, i as int)] + merge_from(keys(ka@), keys(kb@), i + 1, j as int));
            let x = a.remove(0);
            assert(a@ =~= a0.skip(i + 1));
            r.push(x);
            proof {
                assert(done + rest =~= done.push((true, i as int)) + merge_from(
                    keys(ka@),
                    keys(kb@),
                    i + 1,
                    j as int,
                ));
                done = done.push((true, i as int));
            }
            i = i + 1;
        } else {
            assert(rest == seq![(false, j as int)] + merge_from(keys(ka@), keys(kb@), i as int, j + 1));
            let x = b.remove(0);
            assert(b@ =~= b0.skip(j + 1));
            r.push(x);
            proof {
                assert(done + rest =~= done.push((false, j as int)) + merge_from(
                    keys(ka@),
                    keys(kb@),
                    i as int,
                    j + 1,
                ));
                done = done.push((false, j as int));
            }
            j = j + 1;
        }
    }
    assert(merge_from(keys(ka@), keys(kb@), i as int, j as int) == Seq::<(bool, int)>::empty());
    assert(whole =~= done);
    r
}

/// An entry of a merge from `i` and `j` names an item that exists.
pub open spec fn merge_index_ok(ka: Seq<int>, kb: Seq<int>, i: int, j: int, o: (bool, int)) -> bool {
    if o.0 {
        i <= o.1 < ka.len()
    } else {
        j <= o.1 < kb.len()
    }
}

pub proof fn lemma_merge_indices(ka: Seq<int>, kb: Seq<int>, i: int, j: int)
    requires
        0 <= i <= ka.len(),
        0 <= j <= kb.len(),
    ensures
        forall|k: int|
            0 <= k < merge_from(ka, kb, i, j).len() ==> merge_index_ok(
                ka,
                kb,
                i,
                j,
                #[trigger] merge_from(ka, kb, i, j)[k],
            ),
    decreases ka.len() - i + kb.len() - j,
{
    let m = merge_from(ka, kb, i, j);
    if i >= ka.len() && j >= kb.len() {
    } else if j >= kb.len() || (i < ka.len() && ka[i] >= kb[j]) {
        lemma_merge_indices(ka, kb, i + 1, j);
        let rec = merge_from(ka, kb, i + 1, j);
        assert forall|k: int| 0 <= k < m.len() implies merge_index_ok(ka, kb, i, j, m[k]) by {
            if k > 0 {
                assert(m[k] == rec[k - 1]);
                assert(merge_index_ok(ka, kb, i + 1, j, rec[k - 1]));
            }
        }
    } else {
        lemma_merge_indices(ka, kb, i, j + 1);
        let rec = merge_from(ka, kb, i, j + 1);
        assert forall|k: int| 0 <= k < m.len() implies merge_index_ok(ka, kb, i, j, m[k]) by {
            if k > 0 {
                assert(m[k] == rec[k - 1]);
                assert(merge_index_ok(ka, kb, i, j + 1, rec[k - 1]));
            }
        }
    }
}

/// How much text follows each match.
pub open spec fn rest_keys(ms: Seq<FoundView>) -> Seq<int> {
    ms.map_values(|m: FoundView| m.rest.len() as int)
}

/// Attributes in front of an item: `#[` up to the first `]` on its line.
pub const ATTRIBUTE_PATTERN: &'static str = r"#\[.*?\]";

/// The attributes that `ATTRIBUTE_PATTERN` finds in `text`, in order.
pub open spec fn attributes_in(text: Seq<char>) -> Seq<Seq<char>> {
    found(ATTRIBUTE_PATTERN@, text).map_values(|m: FoundView| group_or_empty(m, 0))
}

pub fn attribute_list(text: &str) -> (r: Vec<String>)
    ensures
        texts(r@) == attributes_in(text@),
{
    let ms = find_all(ATTRIBUTE_PATTERN, text);
    let mut r: Vec<String> = Vec::new();
    for k in 0..ms.len()
        invariant
            found_views(ms@) == found(ATTRIBUTE_PATTERN@, text@),
            texts(r@) == attributes_in(text@).take(k as int),
    {
        let a = group_string(&ms[k], 0);
        let ghost r0 = r@;
        proof {
            assert(found_views(ms@)[k as int] == ms@[k as int]@);
            assert(attributes_in(text@)[k as int] == a@);
        }
        r.push(a);
        assert(texts(r@) =~= texts(r0).push(a@));
        assert(texts(r@) =~= attributes_in(text@).take(k + 1));
    }
    assert(attributes_in(text@).take(ms.len() as int) =~= attributes_in(text@));
    r
}

} // verus!
