//! Character-level helpers: whitespace, trimming, splitting, searching and
//! the joins that reconstruction uses.

use vstd::prelude::*;
use vstd::string::*;

verus! {

/// Whitespace in the sense of the Unicode `White_Space` property.
pub open spec fn is_space(c: char) -> bool {
    let u = c as u32;
    (0x9 <= u && u <= 0xd) || u == 0x20 || u == 0x85 || u == 0xa0 || u == 0x1680 || (0x2000 <= u
        && u <= 0x200a) || u == 0x2028 || u == 0x2029 || u == 0x202f || u == 0x205f || u == 0x3000
}

/// `s` without its leading whitespace.
pub open spec fn trim_start(s: Seq<char>) -> Seq<char>
    decreases s.len(),
{
    if s.len() > 0 && is_space(s[0]) {
        trim_start(s.drop_first())
    } else {
        s
    }
}

/// `s` without its trailing whitespace.
pub open spec fn trim_end(s: Seq<char>) -> Seq<char>
    decreases s.len(),
{
    if s.len() > 0 && is_space(s.last()) {
        trim_end(s.drop_last())
    } else {
        s
    }
}

/// `s` without leading and trailing whitespace.
pub open spec fn trim(s: Seq<char>) -> Seq<char> {
    trim_end(trim_start(s))
}

pub fn is_space_char(c: char) -> (r: bool)
    ensures
        r == is_space(c),
{
    let u = c as u32;
    (0x9 <= u && u <= 0xd) || u == 0x20 || u == 0x85 || u == 0xa0 || u == 0x1680 || (0x2000 <= u
        && u <= 0x200a) || u == 0x2028 || u == 0x2029 || u == 0x202f || u == 0x205f || u == 0x3000
}

/// The characters of `text`, in order.
pub fn chars_of(text: &str) -> (r: Vec<char>)
    ensures
        r@ == text@,
{
    let mut r: Vec<char> = Vec::new();
    for c in it: text.chars()
        invariant
            it.seq() == text@,
            r@ == it.seq().take(it.index() as int),
    {
        r.push(c);
    }
    r
}


/// The bounds `(lo, hi)` of `s[a..b]` with its surrounding whitespace removed.
pub fn trim_bounds(s: &Vec<char>, a: usize, b: usize) -> (r: (usize, usize))
    requires
        a <= b <= s@.len(),
    ensures
        a <= r.0 <= r.1 <= b,
        s@.subrange(r.0 as int, r.1 as int) == trim(s@.subrange(a as int, b as int)),
{
    let mut lo = a;
    while lo < b && is_space_char(s[lo])
        invariant
            a <= lo <= b <= s@.len(),
            trim_start(s@.subrange(a as int, b as int)) == trim_start(
                s@.subrange(lo as int, b as int),
            ),
        decreases b - lo,
    {
        assert(s@.subrange(lo as int, b as int).drop_first() =~= s@.subrange(lo + 1, b as int));
        lo = lo + 1;
    }
    assert(trim_start(s@.subrange(lo as int, b as int)) == s@.subrange(lo as int, b as int));
    let mut hi = b;
    while hi > lo && is_space_char(s[hi - 1])
        invariant
            a <= lo <= hi <= b <= s@.len(),
            trim_end(s@.subrange(lo as int, b as int)) == trim_end(
                s@.subrange(lo as int, hi as int),
            ),
        decreases hi - lo,
    {
        assert(s@.subrange(lo as int, hi as int).drop_last() =~= s@.subrange(lo as int, hi - 1));
        hi = hi - 1;
    }
    (lo, hi)
}

/// The text of `s[a..b]` trimmed, as a new string.
pub fn trimmed_piece(text: &str, s: &Vec<char>, a: usize, b: usize) -> (r: String)
    requires
        s@ == text@,
        a <= b <= s@.len(),
    ensures
        r@ == trim(s@.subrange(a as int, b as int)),
{
    let (lo, hi) = trim_bounds(s, a, b);
    text.substring_char(lo, hi).to_owned()
}

/// `text` trimmed, as a new string.
pub fn trimmed(text: &str) -> (r: String)
    ensures
        r@ == trim(text@),
{
    let s = chars_of(text);
    let r = trimmed_piece(text, &s, 0, s.len());
    assert(s@.subrange(0, s@.len() as int) =~= s@);
    r
}

/// The pieces of `s` between occurrences of `sep`, as `str::split` yields them.
pub open spec fn pieces(s: Seq<char>, sep: char) -> Seq<Seq<char>>
    decreases s.len(),
{
    if s.len() == 0 {
        seq![Seq::empty()]
    } else {
        let p = pieces(s.drop_last(), sep);
        if s.last() == sep {
            p.push(Seq::empty())
        } else {
            p.update(p.len() - 1, p.last().push(s.last()))
        }
    }
}

/// The pieces, each trimmed, with the empty ones left out.
pub open spec fn kept(ps: Seq<Seq<char>>) -> Seq<Seq<char>>
    decreases ps.len(),
{
    if ps.len() == 0 {
        Seq::empty()
    } else if trim(ps.last()).len() > 0 {
        kept(ps.drop_last()).push(trim(ps.last()))
    } else {
        kept(ps.drop_last())
    }
}

/// The members of a body: split on `sep`, trimmed, blanks dropped.
pub open spec fn members(s: Seq<char>, sep: char) -> Seq<Seq<char>> {
    kept(pieces(s, sep))
}

proof fn lemma_pieces_nonempty(s: Seq<char>, sep: char)
    ensures
        pieces(s, sep).len() >= 1,
    decreases s.len(),
{
    if s.len() > 0 {
        lemma_pieces_nonempty(s.drop_last(), sep);
    }
}

/// The views of a vector of strings.
pub open spec fn texts(v: Seq<String>) -> Seq<Seq<char>> {
    v.map_values(|x: String| x@)
}

/// The members of `s[a..b]` (see `members`), as new strings.
pub fn split_members(text: &str, s: &Vec<char>, a: usize, b: usize, sep: char) -> (r: Vec<String>)
    requires
        s@ == text@,
        a <= b <= s@.len(),
    ensures
        texts(r@) == members(s@.subrange(a as int, b as int), sep),
{
    let ghost body = s@.subrange(a as int, b as int);
    let mut r: Vec<String> = Vec::new();
    let mut ps: usize = a;
    let mut i: usize = a;
    assert(body.take(0) =~= Seq::<char>::empty());
    while i < b
        invariant
            a <= ps <= i <= b <= s@.len(),
            s@ == text@,
            body == s@.subrange(a as int, b as int),
            pieces(body.take(i - a), sep).len() >= 1,
            pieces(body.take(i - a), sep).last() == s@.subrange(ps as int, i as int),
            texts(r@) == kept(pieces(body.take(i - a), sep).drop_last()),
        decreases b - i,
    {
        let ghost p = pieces(body.take(i - a), sep);
        assert(body.take(i + 1 - a).drop_last() =~= body.take(i - a));
        assert(body.take(i + 1 - a).last() == s@[i as int]);
        let c = s[i];
        if c == sep {
            let (lo, hi) = trim_bounds(s, ps, i);
            let ghost q = pieces(body.take(i + 1 - a), sep);
            assert(q == p.push(Seq::empty()));
            assert(q.drop_last() =~= p);
            assert(kept(p) == if trim(p.last()).len() > 0 {
                kept(p.drop_last()).push(trim(p.last()))
            } else {
                kept(p.drop_last())
            });
            let ghost r0 = r@;
            if lo < hi {
                let t = text.substring_char(lo, hi).to_owned();
                r.push(t);
                assert(texts(r@) =~= texts(r0).push(t@));
            }
            ps = i + 1;
            assert(pieces(body.take(i + 1 - a), sep).last() =~= s@.subrange(ps as int, i + 1));
        } else {
            let ghost q = pieces(body.take(i + 1 - a), sep);
            assert(q.drop_last() =~= p.drop_last());
            assert(q.last() =~= s@.subrange(ps as int, i + 1));
        }
        i = i + 1;
    }
    assert(body.take(b - a) =~= body);
    let ghost p = pieces(body, sep);
    assert(kept(p) == if trim(p.last()).len() > 0 {
        kept(p.drop_last()).push(trim(p.last()))
    } else {
        kept(p.drop_last())
    });
    let (lo, hi) = trim_bounds(s, ps, b);
    let ghost r0 = r@;
    if lo < hi {
        let t = text.substring_char(lo, hi).to_owned();
        r.push(t);
        assert(texts(r@) =~= texts(r0).push(t@));
    }
    r
}

/// `s` is exactly the one character `c`.
pub fn is_char_text(s: &str, c: char) -> (r: bool)
    ensures
        r == (s@ == seq![c]),
{
    let n = s.unicode_len();
    if n == 1 {
        let d = s.get_char(0);
        if d == c {
            assert(s@ =~= seq![c]);
        }
        d == c
    } else {
        false
    }
}


/// Each text between `pre` and `post`, one after another.
pub open spec fn framed(v: Seq<Seq<char>>, pre: Seq<char>, post: Seq<char>) -> Seq<char>
    decreases v.len(),
{
    if v.len() == 0 {
        Seq::empty()
    } else {
        framed(v.drop_last(), pre, post) + pre + v.last() + post
    }
}

/// The texts with `sep` between each two.
pub open spec fn joined(v: Seq<Seq<char>>, sep: Seq<char>) -> Seq<char>
    decreases v.len(),
{
    if v.len() == 0 {
        Seq::empty()
    } else if v.len() == 1 {
        v[0]
    } else {
        joined(v.drop_last(), sep) + sep + v.last()
    }
}

pub fn push_framed(out: &mut String, v: &[String], pre: &str, post: &str)
    ensures
        final(out)@ == old(out)@ + framed(texts(v@), pre@, post@),
{
    let ghost o0 = out@;
    assert(texts(v@).take(0) =~= Seq::<Seq<char>>::empty());
    assert(o0 + framed(Seq::empty(), pre@, post@) =~= o0);
    for k in 0..v.len()
        invariant
            out@ == o0 + framed(texts(v@).take(k as int), pre@, post@),
    {
        let ghost before = out@;
        out.append(pre);
        out.append(v[k].as_str());
        out.append(post);
        assert(texts(v@).take(k + 1).drop_last() =~= texts(v@).take(k as int));
        assert(texts(v@).take(k + 1).last() == v@[k as int]@);
        assert(out@ =~= o0 + framed(texts(v@).take(k + 1), pre@, post@));
    }
    assert(texts(v@).take(v.len() as int) =~= texts(v@));
}

pub fn push_joined(out: &mut String, v: &[String], sep: &str)
    ensures
        final(out)@ == old(out)@ + joined(texts(v@), sep@),
{
    let ghost o0 = out@;
    assert(texts(v@).take(0) =~= Seq::<Seq<char>>::empty());
    assert(o0 + joined(Seq::empty(), sep@) =~= o0);
    for k in 0..v.len()
        invariant
            out@ == o0 + joined(texts(v@).take(k as int), sep@),
    {
        if k > 0 {
            out.append(sep);
        }
        out.append(v[k].as_str());
        assert(texts(v@).take(k + 1).drop_last() =~= texts(v@).take(k as int));
        assert(texts(v@).take(k + 1).last() == v@[k as int]@);
        if k == 0 {
            assert(texts(v@).take(1)[0] == v@[0]@);
        }
        assert(out@ =~= o0 + joined(texts(v@).take(k + 1), sep@));
    }
    assert(texts(v@).take(v.len() as int) =~= texts(v@));
}

/// The text of an optional value, or nothing.
pub open spec fn or_empty(o: Option<Seq<char>>) -> Seq<char> {
    match o {
        Some(t) => t,
        None => Seq::empty(),
    }
}

pub open spec fn opt_view(o: Option<String>) -> Option<Seq<char>> {
    match o {
        Some(t) => Some(t@),
        None => None,
    }
}

pub fn push_opt(out: &mut String, o: &Option<String>)
    ensures
        final(out)@ == old(out)@ + or_empty(opt_view(*o)),
{
    match o {
        Some(t) => out.append(t.as_str()),
        None => {
            assert(out@ + Seq::<char>::empty() =~= out@);
        },
    }
}

/// An optional text, trimmed.
pub open spec fn opt_trim(o: Option<Seq<char>>) -> Option<Seq<char>> {
    match o {
        Some(t) => Some(trim(t)),
        None => None,
    }
}

pub fn trimmed_opt(o: Option<String>) -> (r: Option<String>)
    ensures
        opt_view(r) == opt_trim(opt_view(o)),
{
    match o {
        Some(t) => Some(trimmed(t.as_str())),
        None => None,
    }
}


/// The texts of the items of `v`, one after another.
pub open spec fn concat_all<A>(v: Seq<A>, f: spec_fn(A) -> Seq<char>) -> Seq<char>
    decreases v.len(),
{
    if v.len() == 0 {
        Seq::empty()
    } else {
        concat_all(v.drop_last(), f) + f(v.last())
    }
}

pub proof fn lemma_concat_step<A>(v: Seq<A>, f: spec_fn(A) -> Seq<char>, k: int)
    requires
        0 <= k < v.len(),
    ensures
        concat_all(v.take(k + 1), f) == concat_all(v.take(k), f) + f(v[k]),
{
    assert(v.take(k + 1).drop_last() =~= v.take(k));
}

pub proof fn lemma_concat_whole<A>(v: Seq<A>, f: spec_fn(A) -> Seq<char>)
    ensures
        concat_all(v.take(0), f) == Seq::<char>::empty(),
        concat_all(v.take(v.len() as int), f) == concat_all(v, f),
{
    assert(v.take(0) =~= Seq::<A>::empty());
    assert(v.take(v.len() as int) =~= v);
}


/// `t` occurs in `s` starting at `i`.
pub open spec fn occurs_at(s: Seq<char>, t: Seq<char>, i: int) -> bool {
    0 <= i && i + t.len() <= s.len() && s.subrange(i, i + t.len()) == t
}

pub fn occurs_here(s: &Vec<char>, t: &Vec<char>, i: usize) -> (r: bool)
    ensures
        r == occurs_at(s@, t@, i as int),
{
    if i > s.len() || t.len() > s.len() - i {
        return false;
    }
    let n = s.len();
    let mut k: usize = 0;
    while k < t.len()
        invariant
            n == s@.len(),
            i + t@.len() <= n,
            k <= t@.len(),
            s@.subrange(i as int, i + k) =~= t@.take(k as int),
        decreases t@.len() - k,
    {
        if s[i + k] != t[k] {
            assert(s@.subrange(i as int, i + t@.len())[k as int] != t@[k as int]);
            return false;
        }
        k = k + 1;
    }
    assert(t@.take(t@.len() as int) =~= t@);
    true
}

/// The first occurrence of `t` in `s` at or after `from`.
pub fn find_from(s: &Vec<char>, t: &Vec<char>, from: usize) -> (r: Option<usize>)
    ensures
        match r {
            Some(i) => from <= i && occurs_at(s@, t@, i as int) && forall|j: int|
                from <= j < i ==> !occurs_at(s@, t@, j),
            None => forall|j: int| from <= j ==> !occurs_at(s@, t@, j),
        },
{
    let mut i = from;
    while i < s.len()
        invariant
            from <= i,
            forall|j: int| from <= j < i ==> !occurs_at(s@, t@, j),
        decreases s@.len() - i,
    {
        if occurs_here(s, t, i) {
            return Some(i);
        }
        i = i + 1;
    }
    if occurs_here(s, t, i) {
        return Some(i);
    }
    None
}

/// The text of an optional value followed by a space, or nothing.
pub open spec fn spaced(o: Option<Seq<char>>) -> Seq<char> {
    match o {
        Some(t) => t + " "@,
        None => Seq::empty(),
    }
}

pub fn push_spaced(out: &mut String, o: &Option<String>)
    ensures
        final(out)@ == old(out)@ + spaced(opt_view(*o)),
{
    match o {
        Some(t) => {
            let ghost o0 = out@;
            out.append(t.as_str());
            out.append(" ");
            assert(out@ =~= o0 + (t@ + " "@));
        },
        None => {
            assert(out@ + Seq::<char>::empty() =~= out@);
        },
    }
}


/// The pieces of `text` between occurrences of `sep` (see `pieces`).
pub fn split_pieces(text: &str, sep: char) -> (r: Vec<String>)
    ensures
        texts(r@) == pieces(text@, sep),
{
    let s = chars_of(text);
    let mut r: Vec<String> = Vec::new();
    let mut ps: usize = 0;
    let mut i: usize = 0;
    assert(s@.take(0) =~= Seq::<char>::empty());
    while i < s.len()
        invariant
            ps <= i <= s@.len(),
            s@ == text@,
            pieces(s@.take(i as int), sep).len() >= 1,
            pieces(s@.take(i as int), sep).last() == s@.subrange(ps as int, i as int),
            texts(r@) == pieces(s@.take(i as int), sep).drop_last(),
        decreases s@.len() - i,
    {
        let ghost p = pieces(s@.take(i as int), sep);
        assert(s@.take(i + 1).drop_last() =~= s@.take(i as int));
        assert(s@.take(i + 1).last() == s@[i as int]);
        if s[i] == sep {
            let t = text.substring_char(ps, i).to_owned();
            let ghost r0 = r@;
            r.push(t);
            assert(texts(r@) =~= texts(r0).push(t@));
            let ghost q = pieces(s@.take(i + 1), sep);
            assert(q.drop_last() =~= p.drop_last().push(p.last()));
            ps = i + 1;
            assert(q.last() =~= s@.subrange(ps as int, i + 1));
        } else {
            let ghost q = pieces(s@.take(i + 1), sep);
            assert(q.drop_last() =~= p.drop_last());
            assert(q.last() =~= s@.subrange(ps as int, i + 1));
        }
        i = i + 1;
    }
    assert(s@.take(s@.len() as int) =~= s@);
    let t = text.substring_char(ps, s.len()).to_owned();
    let ghost r0 = r@;
    r.push(t);
    let ghost p = pieces(s@, sep);
    assert(texts(r@) =~= texts(r0).push(t@));
    assert(p =~= p.drop_last().push(p.last()));
    r
}

/// A line without the `\r` of a `\r\n` ending.
pub open spec fn strip_cr(l: Seq<char>) -> Seq<char> {
    if l.len() > 0 && l.last() == '\r' {
        l.drop_last()
    } else {
        l
    }
}

/// The lines of `s` as `str::lines` yields them: split at `\n`, a `\r`
/// before the `\n` dropped, and no empty line after a final `\n`.
pub open spec fn line_list(s: Seq<char>) -> Seq<Seq<char>> {
    let p = pieces(s, '\n');
    let ended = p.drop_last().map_values(|l: Seq<char>| strip_cr(l));
    if p.last().len() == 0 {
        ended
    } else {
        ended.push(p.last())
    }
}

pub fn split_lines(text: &str) -> (r: Vec<String>)
    ensures
        texts(r@) == line_list(text@),
{
    let p = split_pieces(text, '\n');
    proof {
        lemma_pieces_nonempty(text@, '\n');
    }
    let n = p.len();
    let mut r: Vec<String> = Vec::new();
    for k in 0..n - 1
        invariant
            n == p@.len(),
            n >= 1,
            texts(p@) == pieces(text@, '\n'),
            texts(r@) == texts(p@).take(k as int).map_values(|l: Seq<char>| strip_cr(l)),
    {
        let l = p[k].as_str();
        let m = l.unicode_len();
        let t = if m > 0 && l.get_char(m - 1) == '\r' {
            l.substring_char(0, m - 1).to_owned()
        } else {
            l.to_owned()
        };
        assert(t@ == strip_cr(texts(p@)[k as int])) by {
            if m > 0 {
                assert(l@.drop_last() =~= l@.subrange(0, m - 1));
            }
        }
        let ghost r0 = r@;
        r.push(t);
        assert(texts(r@) =~= texts(r0).push(t@));
        assert(texts(r@) =~= texts(p@).take(k + 1).map_values(|l: Seq<char>| strip_cr(l)));
    }
    assert(texts(p@).take(n - 1) =~= texts(p@).drop_last());
    let last = p[n - 1].as_str();
    if last.unicode_len() > 0 {
        let t = last.to_owned();
        let ghost r0 = r@;
        r.push(t);
        assert(texts(r@) =~= texts(r0).push(t@));
    }
    r
}


/// `i` is the first occurrence of `t` in `s` at or after `from`.
pub open spec fn first_from(s: Seq<char>, t: Seq<char>, from: int, i: int) -> bool {
    from <= i && occurs_at(s, t, i) && forall|j: int| from <= j < i ==> !occurs_at(s, t, j)
}

/// Where `t` next occurs in `s` from `from` on, as `str::find` reports it.
pub open spec fn find_spec(s: Seq<char>, t: Seq<char>, from: int) -> Option<int> {
    if exists|i: int| first_from(s, t, from, i) {
        Some(choose|i: int| first_from(s, t, from, i))
    } else {
        None
    }
}

proof fn lemma_find_spec(s: Seq<char>, t: Seq<char>, from: int, i: int)
    requires
        first_from(s, t, from, i),
    ensures
        find_spec(s, t, from) == Some(i),
{
    let k = choose|k: int| first_from(s, t, from, k);
    assert(first_from(s, t, from, k));
    if k < i {
        assert(!occurs_at(s, t, k));
    } else if i < k {
        assert(!occurs_at(s, t, i));
    }
}

pub fn find_next(s: &Vec<char>, t: &Vec<char>, from: usize) -> (r: Option<usize>)
    ensures
        match r {
            Some(i) => find_spec(s@, t@, from as int) == Some(i as int) && i + t@.len() <= s@.len(),
            None => find_spec(s@, t@, from as int) is None,
        },
{
    match find_from(s, t, from) {
        Some(i) => {
            proof {
                lemma_find_spec(s@, t@, from as int, i as int);
            }
            Some(i)
        },
        None => None,
    }
}

/// The word `for`, with whitespace on both sides, starts at `h[i]`.
pub open spec fn for_word_at(h: Seq<char>, i: int) -> bool {
    1 <= i && i + 3 < h.len() && is_space(h[i - 1]) && h[i] == 'f' && h[i + 1] == 'o' && h[i
        + 2] == 'r' && is_space(h[i + 3])
}

/// `h` holds the word `for` at or after `from`.
pub open spec fn has_for_word(h: Seq<char>, from: int) -> bool {
    exists|i: int| from <= i && for_word_at(h, i)
}

pub fn for_word_from(h: &Vec<char>, from: usize) -> (r: bool)
    ensures
        r == has_for_word(h@, from as int),
{
    let n = h.len();
    let mut i: usize = if from < 1 {
        1
    } else {
        from
    };
    while i < n && n - i > 3
        invariant
            n == h@.len(),
            1 <= i,
            from <= i,
            forall|j: int| from <= j < i ==> !for_word_at(h@, j),
        decreases n - i,
    {
        if is_space_char(h[i - 1]) && h[i] == 'f' && h[i + 1] == 'o' && h[i + 2] == 'r'
            && is_space_char(h[i + 3]) {
            assert(for_word_at(h@, i as int));
            return true;
        }
        i = i + 1;
    }
    false
}

/// `s` ends with `t`.
pub open spec fn ends_with(s: Seq<char>, t: Seq<char>) -> bool {
    t.len() <= s.len() && s.subrange(s.len() - t.len(), s.len() as int) == t
}

pub fn ends_with_text(s: &str, t: &str) -> (r: bool)
    ensures
        r == ends_with(s@, t@),
{
    let sc = chars_of(s);
    let tc = chars_of(t);
    if tc.len() > sc.len() {
        false
    } else {
        occurs_here(&sc, &tc, sc.len() - tc.len())
    }
}

} // verus!
