//! The `page` parameter of a query string.
//!
//! A query string is a run of segments with `&` between them. A segment
//! that holds a `=` is a pair: the key stands before its first `=`, the
//! value after it. Nothing is decoded, trimmed or changed in case.

use vstd::prelude::*;
use vstd::string::*;

verus! {

/// The position of the first `c` in `s`, or the length of `s` where `s`
/// holds no `c`.
pub open spec fn first_index(s: Seq<char>, c: char) -> nat
    decreases s.len(),
{
    if s.len() == 0 || s[0] == c {
        0
    } else {
        1 + first_index(s.drop_first(), c)
    }
}

/// The key and the value of a segment: what stands before its first `=`
/// and what stands after it. A segment without `=` is no pair.
pub open spec fn split_pair(segment: Seq<char>) -> Option<(Seq<char>, Seq<char>)> {
    let eq = first_index(segment, '=') as int;
    if eq < segment.len() {
        Some((segment.take(eq), segment.skip(eq + 1)))
    } else {
        None
    }
}

/// The key that selects the page.
pub open spec fn page_key() -> Seq<char> {
    seq!['p', 'a', 'g', 'e']
}

/// The selector of a query that names no page.
pub open spec fn default_page() -> Seq<char> {
    seq!['1']
}

/// The value of a segment that is a pair with the key `page`.
pub open spec fn page_in_segment(segment: Seq<char>) -> Option<Seq<char>> {
    match split_pair(segment) {
        Some(pair) => if pair.0 == page_key() {
            Some(pair.1)
        } else {
            None
        },
        None => None,
    }
}

/// The value of the first pair of `query` whose key is `page`, the segments
/// taken from left to right; none where no segment is such a pair.
pub open spec fn first_page_value(query: Seq<char>) -> Option<Seq<char>>
    decreases query.len(),
{
    let end = first_index(query, '&') as int;
    match page_in_segment(query.take(end)) {
        Some(value) => Some(value),
        None => if end < query.len() {
            first_page_value(query.skip(end + 1))
        } else {
            None
        },
    }
}

/// The page selector of a query: the value of its first `page` pair, and
/// `1` where it has none.
pub open spec fn page_value(query: Seq<char>) -> Seq<char> {
    match first_page_value(query) {
        Some(value) => value,
        None => default_page(),
    }
}

/// `first_index` is at most the length, no earlier position holds `c`, and
/// where it is a position, that position holds `c`.
pub proof fn lemma_first_index_bounds(s: Seq<char>, c: char)
    ensures
        first_index(s, c) <= s.len(),
        forall|j: int| 0 <= j < first_index(s, c) ==> s[j] != c,
        first_index(s, c) < s.len() ==> s[first_index(s, c) as int] == c,
    decreases s.len(),
{
    if s.len() != 0 && s[0] != c {
        let tail = s.drop_first();
        lemma_first_index_bounds(tail, c);
        assert forall|j: int| 0 <= j < first_index(s, c) implies s[j] != c by {
            if j > 0 {
                assert(s[j] == tail[j - 1]);
            }
        }
    }
}

/// A position that holds `c` or is the length, with no `c` before it, is
/// `first_index`.
pub proof fn lemma_first_index_unique(s: Seq<char>, c: char, at: int)
    requires
        0 <= at <= s.len(),
        forall|j: int| 0 <= j < at ==> s[j] != c,
        at < s.len() ==> s[at] == c,
    ensures
        first_index(s, c) == at,
    decreases s.len(),
{
    if at > 0 {
        let tail = s.drop_first();
        assert(s[0] != c);
        assert forall|j: int| 0 <= j < at - 1 implies tail[j] != c by {
            assert(tail[j] == s[j + 1]);
        }
        lemma_first_index_unique(tail, c, at - 1);
    }
}

/// The characters of `s`, in order.
fn chars_of(s: &str) -> (text: Vec<char>)
    ensures
        text@ == s@,
{
    let mut text: Vec<char> = Vec::new();
    for c in it: s.chars()
        invariant
            it.seq() == s@,
            text@ == it.seq().take(it.index() as int),
    {
        text.push(c);
    }
    text
}

/// The first position in `from..to` that holds `c`, or `to`.
fn find_char(text: &Vec<char>, c: char, from: usize, to: usize) -> (at: usize)
    requires
        from <= to <= text.len(),
    ensures
        from <= at <= to,
        at == from + first_index(text@.subrange(from as int, to as int), c),
{
    let mut at: usize = from;
    while at < to && text[at] != c
        invariant
            from <= at <= to <= text.len(),
            forall|j: int| from <= j < at ==> text@[j] != c,
        decreases to - at,
    {
        at += 1;
    }
    proof {
        lemma_first_index_unique(text@.subrange(from as int, to as int), c, at - from);
    }
    at
}

/// Whether `from..to` of `text` spells the key `page`.
fn is_page_key(text: &Vec<char>, from: usize, to: usize) -> (yes: bool)
    requires
        from <= to <= text.len(),
    ensures
        yes == (text@.subrange(from as int, to as int) == page_key()),
{
    let yes = to - from == 4 && text[from] == 'p' && text[from + 1] == 'a' && text[from + 2] == 'g'
        && text[from + 3] == 'e';
    proof {
        let key = text@.subrange(from as int, to as int);
        if yes {
            assert(key =~= page_key());
        } else if key == page_key() {
            assert(key.len() == 4);
            assert(key[0] == 'p' && key[1] == 'a' && key[2] == 'g' && key[3] == 'e');
        }
    }
    yes
}

/// Looks for the `page` parameter of a query string: the value of the
/// first pair with that key, an empty value included.
pub fn find_page(query: &str) -> (found: Option<String>)
    ensures
        match found {
            Some(value) => first_page_value(query@) == Some(value@),
            None => first_page_value(query@) is None,
        },
{
    let text = chars_of(query);
    let n: usize = text.len();
    let mut start: usize = 0;
    assert(query@.skip(0) =~= query@);
    loop
        invariant
            text@ == query@,
            start <= n == text.len(),
            first_page_value(query@) == first_page_value(query@.skip(start as int)),
        decreases n - start,
    {
        let end: usize = find_char(&text, '&', start, n);
        let eq: usize = find_char(&text, '=', start, end);
        let ghost rest = query@.skip(start as int);
        let ghost segment = rest.take(end - start);
        proof {
            assert(rest =~= text@.subrange(start as int, n as int));
            assert(segment =~= text@.subrange(start as int, end as int));
            assert(segment.take(eq - start) =~= text@.subrange(start as int, eq as int));
        }
        if eq < end && is_page_key(&text, start, eq) {
            let value = query.substring_char(eq + 1, end);
            proof {
                assert(segment.skip(eq - start + 1) =~= value@);
            }
            return Some(String::from_str(value));
        }
        if end == n {
            return None;
        }
        proof {
            assert(rest.skip(end - start + 1) =~= query@.skip(end + 1));
        }
        start = end + 1;
    }
}

/// The page selector of a query string: the value of its first `page`
/// pair, or `1` where it has none.
pub fn get_page(query: &str) -> (page: String)
    ensures
        page@ == page_value(query@),
{
    match find_page(query) {
        Some(value) => value,
        None => {
            proof {
                reveal_strlit("1");
                assert("1"@ =~= default_page());
            }
            String::from_str("1")
        },
    }
}

/// Whether a pair with the key `page` begins at position `at` of `query`:
/// a segment begins there, and it begins with `page=`.
pub open spec fn page_pair_at(query: Seq<char>, at: int) -> bool {
    &&& 0 <= at
    &&& at + 5 <= query.len()
    &&& (at == 0 || query[at - 1] == '&')
    &&& query.subrange(at, at + 5) == page_key().push('=')
}

/// The first segment of `query` is a `page` pair exactly when `query`
/// begins with `page=`, and its value then runs from behind the `=` to the
/// segment's end.
proof fn lemma_first_segment(query: Seq<char>)
    ensures
        page_in_segment(query.take(first_index(query, '&') as int)) is Some <==> page_pair_at(
            query,
            0,
        ),
        page_pair_at(query, 0) ==> first_index(query, '&') >= 5 && page_in_segment(
            query.take(first_index(query, '&') as int),
        ) == Some(query.subrange(5, first_index(query, '&') as int)),
{
    let end = first_index(query, '&') as int;
    let segment = query.take(end);
    let eq = first_index(segment, '=') as int;
    let opening = page_key().push('=');
    lemma_first_index_bounds(query, '&');
    lemma_first_index_bounds(segment, '=');
    if page_in_segment(segment) is Some {
        assert(segment.take(eq) == page_key());
        assert(segment.take(eq).len() == 4);
        assert(forall|j: int| 0 <= j < 4 ==> segment.take(eq)[j] == segment[j]);
        assert(query.subrange(0, 5) =~= opening);
    }
    if page_pair_at(query, 0) {
        assert(forall|j: int| 0 <= j < 5 ==> query.subrange(0, 5)[j] == query[j]);
        assert(forall|j: int| 0 <= j < 5 ==> opening[j] != '&');
        assert(end >= 5);
        assert(forall|j: int| 0 <= j < 4 ==> opening[j] != '=');
        lemma_first_index_unique(segment, '=', 4);
        assert(segment.take(4) =~= page_key());
        assert(segment.skip(5) =~= query.subrange(5, end));
    }
}

/// Behind a `&`, or at the start, a pair begins at the same place whether
/// one counts from there or from the start of the query.
proof fn lemma_page_pair_shift(query: Seq<char>, skipped: int, at: int)
    requires
        0 <= skipped <= query.len(),
        skipped == 0 || query[skipped - 1] == '&',
        0 <= at,
    ensures
        page_pair_at(query.skip(skipped), at) <==> page_pair_at(query, skipped + at),
{
    let rest = query.skip(skipped);
    if at + 5 <= rest.len() {
        assert(rest.subrange(at, at + 5) =~= query.subrange(skipped + at, skipped + at + 5));
    }
}

/// A query that holds a `page` pair names a page.
proof fn lemma_page_present(query: Seq<char>, at: int)
    requires
        page_pair_at(query, at),
    ensures
        first_page_value(query) is Some,
    decreases query.len(),
{
    let end = first_index(query, '&') as int;
    lemma_first_index_bounds(query, '&');
    lemma_first_segment(query);
    if !page_pair_at(query, 0) {
        assert(query[at - 1] == '&');
        assert(end <= at - 1);
        lemma_page_pair_shift(query, end + 1, at - end - 1);
        lemma_page_present(query.skip(end + 1), at - end - 1);
    }
}

/// A query in which no segment begins with `page=` has no `page` pair.
proof fn lemma_no_pair_no_page(query: Seq<char>)
    requires
        forall|at: int| !page_pair_at(query, at),
    ensures
        first_page_value(query) is None,
    decreases query.len(),
{
    let end = first_index(query, '&') as int;
    lemma_first_index_bounds(query, '&');
    lemma_first_segment(query);
    assert(!page_pair_at(query, 0));
    if end < query.len() {
        let rest = query.skip(end + 1);
        assert forall|at: int| !page_pair_at(rest, at) by {
            if 0 <= at {
                lemma_page_pair_shift(query, end + 1, at);
                assert(!page_pair_at(query, end + 1 + at));
            }
        }
        lemma_no_pair_no_page(rest);
    }
}

/// A query names a page exactly when one of its segments begins with
/// `page=`. One in which none does has the default selector, `1`: so the
/// empty query, and so a query whose only `page` stands without `=`, in
/// another case, or inside a longer key or a value.
pub proof fn lemma_page_absent(query: Seq<char>)
    ensures
        first_page_value(query) is None <==> forall|at: int| !page_pair_at(query, at),
        (forall|at: int| !page_pair_at(query, at)) ==> page_value(query) == default_page(),
{
    if forall|at: int| !page_pair_at(query, at) {
        lemma_no_pair_no_page(query);
    } else {
        let at = choose|at: int| page_pair_at(query, at);
        lemma_page_present(query, at);
    }
}

/// Where a `page` pair begins at `at` and none begins before it, the
/// query names what stands behind that pair's `=`, up to the end of the
/// segment.
proof fn lemma_first_pair_value(query: Seq<char>, at: int)
    requires
        page_pair_at(query, at),
        forall|before: int| before < at ==> !page_pair_at(query, before),
    ensures
        first_page_value(query) == Some(
            query.subrange(at + 5, at + 5 + first_index(query.skip(at + 5), '&')),
        ),
    decreases query.len(),
{
    let end = first_index(query, '&') as int;
    lemma_first_index_bounds(query, '&');
    lemma_first_segment(query);
    if at == 0 {
        let tail = query.skip(5);
        assert forall|j: int| 0 <= j < end - 5 implies tail[j] != '&' by {
            assert(tail[j] == query[j + 5]);
        }
        lemma_first_index_unique(tail, '&', end - 5);
    } else {
        assert(!page_pair_at(query, 0));
        assert(query[at - 1] == '&');
        assert(end <= at - 1);
        let rest = query.skip(end + 1);
        let shifted = at - end - 1;
        lemma_page_pair_shift(query, end + 1, shifted);
        assert forall|before: int| before < shifted implies !page_pair_at(rest, before) by {
            if 0 <= before {
                lemma_page_pair_shift(query, end + 1, before);
                assert(!page_pair_at(query, end + 1 + before));
            }
        }
        lemma_first_pair_value(rest, shifted);
        assert(rest.skip(shifted + 5) =~= query.skip(at + 5));
        let span = first_index(query.skip(at + 5), '&') as int;
        lemma_first_index_bounds(query.skip(at + 5), '&');
        assert(rest.subrange(shifted + 5, shifted + 5 + span) =~= query.subrange(
            at + 5,
            at + 5 + span,
        ));
    }
}

/// The first match wins: where a `page` pair begins at `at` and none
/// begins before it, the selector is what stands between that pair's `=`
/// and `end`, the place of the next `&` or the end of the query. Neither a
/// later pair nor a further `=` in the value changes it, and an empty
/// value is a value.
pub proof fn lemma_first_page_pair_wins(query: Seq<char>, at: int, end: int)
    requires
        page_pair_at(query, at),
        forall|before: int| before < at ==> !page_pair_at(query, before),
        at + 5 <= end <= query.len(),
        forall|j: int| at + 5 <= j < end ==> query[j] != '&',
        end < query.len() ==> query[end] == '&',
    ensures
        first_page_value(query) == Some(query.subrange(at + 5, end)),
        page_value(query) == query.subrange(at + 5, end),
{
    let tail = query.skip(at + 5);
    assert forall|j: int| 0 <= j < end - at - 5 implies tail[j] != '&' by {
        assert(tail[j] == query[j + at + 5]);
    }
    lemma_first_index_unique(tail, '&', end - at - 5);
    lemma_first_pair_value(query, at);
}

} // verus!
