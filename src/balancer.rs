//! The delimiter balancer: given text that starts just past an opening
//! delimiter, find the close that brings the nesting depth back to zero.
//! Delimiters inside literals and comments are counted like any other.

use vstd::prelude::*;
use crate::text::{chars_of, members, opt_view, split_members, texts, trim, trimmed_piece};

verus! {

/// How a character moves the nesting depth: up for an opening delimiter,
/// down for a closing one; with `mixed`, parentheses and brackets count as
/// well as braces.
pub open spec fn delta(c: char, mixed: bool) -> int {
    if c == '{' || (mixed && (c == '(' || c == '[')) {
        1
    } else if c == '}' || (mixed && (c == ')' || c == ']')) {
        -1
    } else {
        0
    }
}

/// The nesting depth after `s[..k]`, starting from depth one.
pub open spec fn depth(s: Seq<char>, k: int, mixed: bool) -> int
    decreases k,
{
    if k <= 0 {
        1
    } else {
        depth(s, k - 1, mixed) + delta(s[k - 1], mixed)
    }
}

/// `i` closes the body: it holds `closer` and brings the depth to zero.
pub open spec fn closes_at(s: Seq<char>, i: int, mixed: bool, closer: char) -> bool {
    0 <= i < s.len() && s[i] == closer && depth(s, i + 1, mixed) == 0
}

/// The delimiter balancer. `s` starts just past an opening delimiter. With
/// `mixed`, parentheses and brackets count as well as braces. The result is the first
/// index that holds `closer` and brings the depth back to zero, if any.
pub fn matching_close(s: &Vec<char>, mixed: bool, closer: char) -> (r: Option<usize>)
    ensures
        match r {
            Some(i) => close_of(s@, mixed, closer) == Some(i as int),
            None => close_of(s@, mixed, closer) is None,
        },
        match r {
            Some(i) => closes_at(s@, i as int, mixed, closer) && forall|j: int|
                0 <= j < i ==> !closes_at(s@, j, mixed, closer),
            None => forall|j: int| 0 <= j < s@.len() ==> !closes_at(s@, j, mixed, closer),
        },
{
    let mut d: i128 = 1;
    let mut i: usize = 0;
    while i < s.len()
        invariant
            i <= s@.len(),
            d == depth(s@, i as int, mixed),
            -(i as int) <= d <= i + 1,
            forall|j: int| 0 <= j < i ==> !closes_at(s@, j, mixed, closer),
        decreases s@.len() - i,
    {
        let c = s[i];
        if c == '{' || (mixed && (c == '(' || c == '[')) {
            d = d + 1;
        } else if c == '}' || (mixed && (c == ')' || c == ']')) {
            d = d - 1;
        }
        if d == 0 && c == closer {
            proof {
                lemma_close_of(s@, mixed, closer, i as int);
            }
            return Some(i);
        }
        i = i + 1;
    }
    None
}



/// The first index that closes the body, if any.
pub open spec fn is_first_close(s: Seq<char>, i: int, mixed: bool, closer: char) -> bool {
    closes_at(s, i, mixed, closer) && forall|j: int| 0 <= j < i ==> !closes_at(s, j, mixed, closer)
}

pub open spec fn close_of(s: Seq<char>, mixed: bool, closer: char) -> Option<int> {
    if exists|i: int| is_first_close(s, i, mixed, closer) {
        Some(choose|i: int| is_first_close(s, i, mixed, closer))
    } else {
        None
    }
}

proof fn lemma_close_of(s: Seq<char>, mixed: bool, closer: char, i: int)
    requires
        is_first_close(s, i, mixed, closer),
    ensures
        close_of(s, mixed, closer) == Some(i),
{
    let k = choose|k: int| is_first_close(s, k, mixed, closer);
    assert(is_first_close(s, k, mixed, closer));
    if k < i {
        assert(!closes_at(s, k, mixed, closer));
    } else if i < k {
        assert(!closes_at(s, i, mixed, closer));
    }
}

/// The text of a body that starts at `s[0]`, up to its first close; `None`
/// when the body never closes.
pub open spec fn body_of(s: Seq<char>, mixed: bool, closer: char) -> Option<Seq<char>> {
    match close_of(s, mixed, closer) {
        Some(i) => Some(s.take(i)),
        None => None,
    }
}

pub fn body_end(s: &Vec<char>, mixed: bool, closer: char) -> (r: Option<usize>)
    ensures
        match r {
            Some(i) => i < s@.len() && body_of(s@, mixed, closer) == Some(s@.take(i as int)),
            None => body_of(s@, mixed, closer) is None,
        },
{
    matching_close(s, mixed, closer)
}

/// The members of the body at the start of `s`; `None` when the body
/// never closes.
pub open spec fn body_members(s: Seq<char>, mixed: bool, closer: char, sep: char) -> Option<
    Seq<Seq<char>>,
> {
    match body_of(s, mixed, closer) {
        Some(b) => Some(members(b, sep)),
        None => None,
    }
}

pub open spec fn opt_texts(o: Option<Vec<String>>) -> Option<Seq<Seq<char>>> {
    match o {
        Some(v) => Some(texts(v@)),
        None => None,
    }
}

pub fn split_body(text: &str, mixed: bool, closer: char, sep: char) -> (r: Option<Vec<String>>)
    ensures
        opt_texts(r) == body_members(text@, mixed, closer, sep),
{
    let s = chars_of(text);
    match body_end(&s, mixed, closer) {
        Some(i) => {
            assert(s@.subrange(0, i as int) =~= s@.take(i as int));
            Some(split_members(text, &s, 0, i, sep))
        },
        None => None,
    }
}

/// The body at the start of `s`, trimmed.
pub open spec fn trimmed_body(s: Seq<char>, mixed: bool, closer: char) -> Option<Seq<char>> {
    match body_of(s, mixed, closer) {
        Some(b) => Some(trim(b)),
        None => None,
    }
}

pub fn body_text(text: &str, mixed: bool, closer: char) -> (r: Option<String>)
    ensures
        match r {
            Some(t) => trimmed_body(text@, mixed, closer) == Some(t@),
            None => trimmed_body(text@, mixed, closer) is None,
        },
{
    let s = chars_of(text);
    match body_end(&s, mixed, closer) {
        Some(i) => {
            assert(s@.subrange(0, i as int) =~= s@.take(i as int));
            Some(trimmed_piece(text, &s, 0, i))
        },
        None => None,
    }
}

/// `s[i]` is a `}` that brings the brace level, counted from zero, back to zero.
pub open spec fn fn_closes_at(s: Seq<char>, i: int) -> bool {
    0 <= i < s.len() && s[i] == '}' && depth(s, i + 1, false) == 1
}

/// `s[j]` is a `{` met at brace level zero.
pub open spec fn fn_opens_at(s: Seq<char>, j: int) -> bool {
    0 <= j < s.len() && s[j] == '{' && depth(s, j, false) == 1
}

pub open spec fn first_fn_close(s: Seq<char>, e: int) -> bool {
    fn_closes_at(s, e) && forall|j: int| 0 <= j < e ==> !fn_closes_at(s, j)
}

pub open spec fn last_open_before(s: Seq<char>, j: int, e: int) -> bool {
    j < e && fn_opens_at(s, j) && forall|k: int| j < k < e ==> !fn_opens_at(s, k)
}

/// A function body in `s`: from just after the last `{` met at level zero
/// to the first `}` that brings the level back to zero; `None` when no
/// such close follows.
pub open spec fn fn_body_of(s: Seq<char>) -> Option<Seq<char>> {
    if exists|e: int| first_fn_close(s, e) {
        let e = choose|e: int| first_fn_close(s, e);
        if exists|j: int| last_open_before(s, j, e) {
            let j = choose|j: int| last_open_before(s, j, e);
            Some(s.subrange(j + 1, e))
        } else {
            None
        }
    } else {
        None
    }
}

proof fn lemma_fn_body_of(s: Seq<char>, j: int, e: int)
    requires
        first_fn_close(s, e),
        last_open_before(s, j, e),
    ensures
        fn_body_of(s) == Some(s.subrange(j + 1, e)),
{
    let e2 = choose|e2: int| first_fn_close(s, e2);
    assert(first_fn_close(s, e2));
    if e2 < e {
        assert(!fn_closes_at(s, e2));
    } else if e < e2 {
        assert(!fn_closes_at(s, e));
    }
    let j2 = choose|j2: int| last_open_before(s, j2, e);
    assert(last_open_before(s, j2, e));
    if j2 < j {
        assert(!fn_opens_at(s, j));
    } else if j < j2 {
        assert(!fn_opens_at(s, j2));
    }
}

/// The bounds of the function body in `s` (see `fn_body_of`).
pub fn fn_body_bounds(s: &Vec<char>) -> (r: Option<(usize, usize)>)
    ensures
        match r {
            Some((a, b)) => a <= b <= s@.len() && fn_body_of(s@) == Some(
                s@.subrange(a as int, b as int),
            ),
            None => fn_body_of(s@) is None,
        },
{
    let mut level: i128 = 0;
    let mut start: Option<usize> = None;
    let mut i: usize = 0;
    while i < s.len()
        invariant
            i <= s@.len(),
            level == depth(s@, i as int, false) - 1,
            -(i as int) <= level <= i,
            forall|j: int| 0 <= j < i ==> !fn_closes_at(s@, j),
            match start {
                Some(a) => 1 <= a <= i && last_open_before(s@, a - 1, i as int),
                None => forall|j: int| 0 <= j < i ==> !fn_opens_at(s@, j),
            },
        decreases s@.len() - i,
    {
        let c = s[i];
        if c == '{' {
            if level == 0 {
                start = Some(i + 1);
            }
            level = level + 1;
        } else if c == '}' {
            level = level - 1;
            if level == 0 {
                assert(first_fn_close(s@, i as int));
                match start {
                    Some(a) => {
                        proof {
                            lemma_fn_body_of(s@, a - 1, i as int);
                        }
                        return Some((a, i));
                    },
                    None => {
                        assert(!exists|j: int| last_open_before(s@, j, i as int));
                        return None;
                    },
                }
            }
        }
        i = i + 1;
    }
    assert(!exists|e: int| first_fn_close(s@, e));
    None
}

/// The text of the function body in `text`, trimmed.
pub open spec fn fn_body_text(s: Seq<char>) -> Option<Seq<char>> {
    match fn_body_of(s) {
        Some(b) => Some(trim(b)),
        None => None,
    }
}

pub fn function_body(text: &str) -> (r: Option<String>)
    ensures
        opt_view(r) == fn_body_text(text@),
{
    let s = chars_of(text);
    match fn_body_bounds(&s) {
        Some((a, b)) => Some(trimmed_piece(text, &s, a, b)),
        None => None,
    }
}

/// How many times `c` occurs in `s`.
pub open spec fn count(s: Seq<char>, c: char) -> int
    decreases s.len(),
{
    if s.len() == 0 {
        0
    } else {
        count(s.drop_last(), c) + if s.last() == c {
            1int
        } else {
            0
        }
    }
}

proof fn lemma_depth_counts(s: Seq<char>, k: int)
    requires
        0 <= k <= s.len(),
    ensures
        depth(s, k, false) == 1 + count(s.take(k), '{') - count(s.take(k), '}'),
    decreases k,
{
    if k > 0 {
        lemma_depth_counts(s, k - 1);
        assert(s.take(k).drop_last() =~= s.take(k - 1));
    }
}

/// For a body closed where the balancer says, the text between the opening
/// brace and the close holds as many `{` as `}`, whatever the nesting, and
/// no prefix of it holds more `}` than `{`.
pub proof fn balanced_between(s: Seq<char>, i: int)
    requires
        closes_at(s, i, false, '}'),
        forall|j: int| 0 <= j < i ==> !closes_at(s, j, false, '}'),
    ensures
        count(s.take(i), '{') == count(s.take(i), '}'),
        forall|k: int| 0 <= k <= i ==> count(s.take(k), '{') >= count(s.take(k), '}'),
{
    assert forall|k: int| 0 <= k <= i implies depth(s, k, false) >= 1 by {
        lemma_depth_positive(s, i, k);
    }
    assert forall|k: int| 0 <= k <= i implies count(s.take(k), '{') >= count(s.take(k), '}') by {
        lemma_depth_counts(s, k);
    }
    lemma_depth_counts(s, i);
}


pub open spec fn is_opener(c: char) -> bool {
    c == '{' || c == '(' || c == '['
}

pub open spec fn is_closer(c: char) -> bool {
    c == '}' || c == ')' || c == ']'
}

/// The opening delimiter that a closing one matches.
pub open spec fn opener_of(c: char) -> char {
    if c == '}' {
        '{'
    } else if c == ')' {
        '('
    } else {
        '['
    }
}

/// The delimiters left open after `m`, innermost last; `None` where a
/// closing delimiter does not match the innermost open one.
pub open spec fn open_stack(m: Seq<char>) -> Option<Seq<char>>
    decreases m.len(),
{
    if m.len() == 0 {
        Some(Seq::empty())
    } else {
        match open_stack(m.drop_last()) {
            None => None,
            Some(st) => {
                let c = m.last();
                if is_opener(c) {
                    Some(st.push(c))
                } else if is_closer(c) {
                    if st.len() > 0 && st.last() == opener_of(c) {
                        Some(st.drop_last())
                    } else {
                        None
                    }
                } else {
                    Some(st)
                }
            },
        }
    }
}

/// `m` is properly nested: each closing delimiter closes the innermost
/// open one, of its own kind, and none is left open.
pub open spec fn nested(m: Seq<char>) -> bool {
    open_stack(m) == Some(Seq::<char>::empty())
}

/// Opening delimiters `o` outnumber closing ones `c` in `x` by as many as
/// `st` holds.
pub open spec fn kind_balance(x: Seq<char>, st: Seq<char>, o: char, c: char) -> bool {
    count(x, o) - count(x, c) == count(st, o)
}

proof fn lemma_stack_prefix(x: Seq<char>, k: int)
    requires
        open_stack(x) is Some,
        0 <= k <= x.len(),
    ensures
        open_stack(x.take(k)) is Some,
    decreases x.len() - k,
{
    if k < x.len() {
        lemma_stack_prefix(x, k + 1);
        assert(x.take(k + 1).drop_last() =~= x.take(k));
    } else {
        assert(x.take(k) =~= x);
    }
}

proof fn lemma_count_push(st: Seq<char>, c: char, o: char)
    ensures
        count(st.push(c), o) == count(st, o) + if c == o {
            1int
        } else {
            0
        },
{
    assert(st.push(c).drop_last() =~= st);
}

proof fn lemma_nest(s: Seq<char>, k: int)
    requires
        0 <= k <= s.len(),
        open_stack(s.take(k)) is Some,
    ensures
        ({
            let st = open_stack(s.take(k))->Some_0;
            &&& depth(s, k, true) == 1 + st.len()
            &&& kind_balance(s.take(k), st, '(', ')')
            &&& kind_balance(s.take(k), st, '[', ']')
            &&& kind_balance(s.take(k), st, '{', '}')
        }),
    decreases k,
{
    if k == 0 {
        assert(s.take(0) =~= Seq::<char>::empty());
    } else {
        let x = s.take(k);
        assert(x.drop_last() =~= s.take(k - 1));
        assert(x.last() == s[k - 1]);
        lemma_nest(s, k - 1);
        let st = open_stack(s.take(k - 1))->Some_0;
        let c = s[k - 1];
        if is_opener(c) {
            lemma_count_push(st, c, '(');
            lemma_count_push(st, c, '[');
            lemma_count_push(st, c, '{');
        } else if is_closer(c) {
            assert(st.drop_last().push(st.last()) =~= st);
            lemma_count_push(st.drop_last(), st.last(), '(');
            lemma_count_push(st.drop_last(), st.last(), '[');
            lemma_count_push(st.drop_last(), st.last(), '{');
        }
    }
}

/// A body that is properly nested in `(`, `[` and `{`, to any depth, and
/// followed by a closing delimiter is closed exactly there by the
/// balancer, and it holds as many opening as closing delimiters of each
/// kind.
pub proof fn nested_body_closes(s: Seq<char>, n: int, closer: char)
    requires
        0 <= n < s.len(),
        nested(s.take(n)),
        s[n] == closer,
        is_closer(closer),
    ensures
        close_of(s, true, closer) == Some(n),
        count(s.take(n), '(') == count(s.take(n), ')'),
        count(s.take(n), '[') == count(s.take(n), ']'),
        count(s.take(n), '{') == count(s.take(n), '}'),
{
    assert forall|j: int| 0 <= j < n implies !closes_at(s, j, true, closer) by {
        lemma_stack_prefix(s.take(n), j + 1);
        assert(s.take(n).take(j + 1) =~= s.take(j + 1));
        lemma_nest(s, j + 1);
    }
    lemma_nest(s, n);
    assert(open_stack(Seq::<char>::empty()) == Some(Seq::<char>::empty()));
    assert(count(Seq::<char>::empty(), '(') == 0);
    assert(closes_at(s, n, true, closer));
    lemma_close_of(s, true, closer, n);
}
proof fn lemma_depth_positive(s: Seq<char>, i: int, k: int)
    requires
        0 <= k <= i < s.len(),
        forall|j: int| 0 <= j < i ==> !closes_at(s, j, false, '}'),
    ensures
        depth(s, k, false) >= 1,
    decreases k,
{
    if k > 0 {
        lemma_depth_positive(s, i, k - 1);
        if depth(s, k - 1, false) == 1 && s[k - 1] == '}' {
            assert(closes_at(s, k - 1, false, '}'));
        }
    }
}

} // verus!
