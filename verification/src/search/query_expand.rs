//! Temporal query expansion: natural-language time references such as
//! "last week" become date-range filters, and are cut out of the query text.
use vstd::prelude::*;

use crate::search::fts5::lemma_words_nonempty;
use crate::text::{
    is_ws, trim_end_ws, trim_start_ws, words, char_index_at_byte, chars_of, contains_seq, find_seq, lowercase_of, occurs_at, push_char,
    slice_chars, str_contains, string_from_chars, to_lowercase, trim_chars, trim_ws, utf8_len,
    utf8_prefix_len,
};

verus! {

/// A point in time: whole seconds since the Unix epoch, and the nanoseconds
/// past that second.
#[derive(Debug, Clone, Copy, PartialEq, Eq, Structural)]
pub struct Timestamp {
    pub secs: i64,
    pub nanos: u32,
}

/// The point `days` days before `now`.
pub open spec fn days_before(now: Timestamp, days: int) -> Timestamp {
    Timestamp { secs: (now.secs - days * 86400) as i64, nanos: now.nanos }
}

/// Date filter operation.
#[derive(Debug, Clone, Copy, PartialEq, Eq, Structural)]
pub enum FilterOp {
    /// created_at > datetime
    After(Timestamp),
    /// created_at < datetime
    Before(Timestamp),
    /// created_at BETWEEN start AND end
    Between(Timestamp, Timestamp),
}

/// A date range filter extracted from a query.
#[derive(Debug, Clone)]
pub struct DateFilter {
    /// SQL column to filter on.
    pub column: String,
    /// Filter operation.
    pub operator: FilterOp,
}

/// Result of query expansion: cleaned text plus any extracted date filters.
#[derive(Debug, Clone)]
pub struct ExpandedQuery {
    /// The query text with temporal expressions removed.
    pub cleaned_text: String,
    /// SQL date-range filters extracted from temporal expressions.
    pub date_filters: Vec<DateFilter>,
}

/// The temporal expressions, in the order in which they are tried.
pub open spec fn temporal_pattern(k: int) -> Seq<char> {
    if k == 0 {
        "yesterday"@
    } else if k == 1 {
        "last week"@
    } else if k == 2 {
        "last month"@
    } else if k == 3 {
        "last year"@
    } else if k == 4 {
        "today"@
    } else if k == 5 {
        "this week"@
    } else if k == 6 {
        "this month"@
    } else {
        "recently"@
    }
}

/// The filter of the `k`-th expression, relative to `now`.
pub open spec fn filter_for(k: int, now: Timestamp) -> FilterOp {
    if k == 0 {
        FilterOp::Between(days_before(now, 2), days_before(now, 1))
    } else if k == 1 || k == 5 || k == 7 {
        FilterOp::After(days_before(now, 7))
    } else if k == 2 || k == 6 {
        FilterOp::After(days_before(now, 30))
    } else if k == 3 {
        FilterOp::After(days_before(now, 365))
    } else {
        FilterOp::After(days_before(now, 1))
    }
}

/// The first expression, from the `k`-th on, that occurs in `lower`.
pub open spec fn first_pattern_from(lower: Seq<char>, k: int) -> Option<int>
    decreases 8 - k,
{
    if k >= 8 || k < 0 {
        None
    } else if contains_seq(lower, temporal_pattern(k)) {
        Some(k)
    } else {
        first_pattern_from(lower, k + 1)
    }
}

/// The index of the first occurrence of `p` in `s`.
pub open spec fn first_occurrence(s: Seq<char>, p: Seq<char>) -> int {
    choose|i: int| occurs_at(s, p, i) && forall|j: int| 0 <= j < i ==> !occurs_at(s, p, j)
}

/// The number of characters of `s` that take `b` bytes, if there is one.
pub open spec fn char_boundary(s: Seq<char>, b: int) -> Option<int> {
    if exists|j: int| 0 <= j <= s.len() && utf8_len(#[trigger] s.take(j)) == b {
        Some(choose|j: int| 0 <= j <= s.len() && utf8_len(#[trigger] s.take(j)) == b)
    } else {
        None
    }
}

/// Where the matched expression starts and ends in the query: the byte
/// offsets of its first occurrence in the lowercased query, read as
/// character positions of the query itself.
pub open spec fn cut_bounds(query: Seq<char>, lower: Seq<char>, k: int) -> (Option<int>, Option<int>) {
    let p = temporal_pattern(k);
    let pos = utf8_len(lower.take(first_occurrence(lower, p)));
    (char_boundary(query, pos as int), char_boundary(query, (pos + p.len()) as int))
}

/// Whether the expression found in `lower` (the lowercased query) can be
/// cut out of the query: both of its byte offsets are character boundaries
/// of the query (always the case when lowercasing keeps every character's
/// width, as for ASCII text).
pub open spec fn cut_defined_with(query: Seq<char>, lower: Seq<char>) -> bool {
    match first_pattern_from(lower, 0) {
        None => true,
        Some(k) => cut_bounds(query, lower, k).0 is Some && cut_bounds(query, lower, k).1 is Some,
    }
}

/// Whether the expression can be cut out of the query (see
/// [`cut_defined_with`]), for the query's own lowercased text.
pub open spec fn cut_defined(query: Seq<char>) -> bool {
    cut_defined_with(query, lowercase_of(query))
}

/// The query with the characters from `start` to `end` cut out: the parts
/// before and after, trimmed, joined by a space, and trimmed again.
pub open spec fn cleaned_text(query: Seq<char>, start: int, end: int) -> Seq<char> {
    trim_ws(trim_ws(query.take(start)) + seq![' '] + trim_ws(query.skip(end)))
}

/// Words of a text that ends in whitespace, followed by more text, are the
/// words of the two parts.
proof fn lemma_words_concat(a: Seq<char>, y: Seq<char>)
    requires
        a.len() == 0 || is_ws(a.last()),
    ensures
        words(a + y) == words(a) + words(y),
    decreases y.len(),
{
    if y.len() == 0 {
        assert(a + y =~= a);
        assert(words(a) + words(y) =~= words(a));
    } else {
        let y1 = y.drop_last();
        let c = y.last();
        lemma_words_concat(a, y1);
        assert((a + y).drop_last() =~= a + y1);
        assert((a + y).last() == c);
        if is_ws(c) {
        } else if y1.len() > 0 && !is_ws(y1.last()) {
            assert((a + y1).last() == y1.last());
            lemma_words_nonempty(y1);
            let w = words(a) + words(y1);
            assert(w.update(w.len() - 1, w.last().push(c)) =~= words(a) + words(y1).update(
                words(y1).len() - 1,
                words(y1).last().push(c),
            ));
        } else {
            if y1.len() == 0 {
                assert(a + y1 =~= a);
            } else {
                assert((a + y1).last() == y1.last());
            }
            assert((words(a) + words(y1)).push(seq![c]) =~= words(a) + words(y1).push(seq![c]));
        }
    }
}

/// Trimming keeps the words of a text.
proof fn lemma_words_trim_start(x: Seq<char>)
    ensures
        words(trim_start_ws(x)) == words(x),
        trim_start_ws(x).len() > 0 ==> !is_ws(trim_start_ws(x)[0]),
    decreases x.len(),
{
    if x.len() > 0 && is_ws(x[0]) {
        let rest = x.drop_first();
        lemma_words_trim_start(rest);
        let head = seq![x[0]];
        lemma_words_concat(head, rest);
        assert(head + rest =~= x);
        assert(head.drop_last() =~= Seq::<char>::empty());
        assert(head.last() == x[0]);
        assert(head.len() == 1);
        assert(words(Seq::<char>::empty()) =~= Seq::<Seq<char>>::empty());
        assert(words(head) == words(head.drop_last()));
        assert(words(head) =~= Seq::<Seq<char>>::empty());
        assert(words(head) + words(rest) =~= words(rest));
    }
}

/// Trimming the end keeps the words, and what is left is a prefix ending in
/// a character other than whitespace.
proof fn lemma_words_trim_end(x: Seq<char>)
    ensures
        words(trim_end_ws(x)) == words(x),
        trim_end_ws(x).len() <= x.len(),
        trim_end_ws(x) == x.take(trim_end_ws(x).len() as int),
        trim_end_ws(x).len() > 0 ==> !is_ws(trim_end_ws(x).last()),
    decreases x.len(),
{
    if x.len() > 0 && is_ws(x.last()) {
        lemma_words_trim_end(x.drop_last());
        let t = trim_end_ws(x.drop_last());
        assert(x.drop_last().take(t.len() as int) =~= x.take(t.len() as int));
    } else {
        assert(x.take(x.len() as int) =~= x);
    }
}

/// Trimming keeps the words of a text, and leaves no whitespace at either end.
proof fn lemma_words_trim(x: Seq<char>)
    ensures
        words(trim_ws(x)) == words(x),
        trim_ws(x).len() > 0 ==> !is_ws(trim_ws(x)[0]) && !is_ws(trim_ws(x).last()),
{
    let s = trim_start_ws(x);
    lemma_words_trim_start(x);
    lemma_words_trim_end(s);
    let t = trim_end_ws(s);
    if t.len() > 0 {
        assert(t[0] == s.take(t.len() as int)[0]);
    }
}

/// Cutting an expression out of a query keeps the words before it and the
/// words after it, in order, and leaves no whitespace at either end.
pub proof fn lemma_cleaned_text_words(query: Seq<char>, start: int, end: int)
    requires
        0 <= start <= end <= query.len(),
    ensures
        words(cleaned_text(query, start, end)) == words(query.take(start)) + words(query.skip(end)),
        cleaned_text(query, start, end).len() > 0 ==> !is_ws(cleaned_text(query, start, end)[0]) && !is_ws(
            cleaned_text(query, start, end).last(),
        ),
{
    let t1 = trim_ws(query.take(start));
    let t2 = trim_ws(query.skip(end));
    let a = t1 + seq![' '];
    let m = t1 + seq![' '] + t2;
    lemma_words_trim(query.take(start));
    lemma_words_trim(query.skip(end));
    lemma_words_trim(m);
    assert(a.last() == ' ');
    lemma_words_concat(a, t2);
    assert(a.drop_last() =~= t1);
    assert(words(a) == words(t1));
}

/// Whether `r` is the expansion of `query` at `now`, where `lower` is the
/// lowercased query: without a temporal expression in `lower` the text is
/// kept and there is no filter; otherwise the first expression (in the order
/// of [`temporal_pattern`]) found in `lower` gives the one filter, on
/// `created_at`, and is cut out of the text.
pub open spec fn is_expansion_with(query: Seq<char>, lower: Seq<char>, now: Timestamp, r: ExpandedQuery) -> bool {
    match first_pattern_from(lower, 0) {
        None => r.cleaned_text@ == query && r.date_filters@.len() == 0,
        Some(k) => {
            let b = cut_bounds(query, lower, k);
            &&& r.date_filters@.len() == 1
            &&& r.date_filters@[0].column@ == "created_at"@
            &&& r.date_filters@[0].operator == filter_for(k, now)
            &&& r.cleaned_text@ == cleaned_text(query, b.0->0, b.1->0)
        },
    }
}

/// Whether `r` is the expansion of `query` at `now` (see
/// [`is_expansion_with`]), for the query's own lowercased text.
pub open spec fn is_expansion(query: Seq<char>, now: Timestamp, r: ExpandedQuery) -> bool {
    is_expansion_with(query, lowercase_of(query), now, r)
}

/// What an expansion filters on: the expressions are looked for in the
/// lowercased query in the order yesterday, last week, last month, last
/// year, today, this week, this month, recently, and the first one found
/// gives the one filter on `created_at`: yesterday is between two days and
/// one day ago; last week, this week and recently are after seven days ago;
/// last month and this month after thirty days ago; last year after 365
/// days ago; today after one day ago. Without any of them there is no
/// filter and the text is kept.
pub proof fn lemma_expansion_filters(query: Seq<char>, lower: Seq<char>, now: Timestamp, r: ExpandedQuery)
    requires
        is_expansion_with(query, lower, now, r),
    ensures
        contains_seq(lower, "yesterday"@) ==> (r.date_filters@.len() == 1
            && r.date_filters@[0].column@ == "created_at"@ && r.date_filters@[0].operator == FilterOp::Between((Timestamp { secs: (now.secs - 2 * 86400) as i64, nanos: now.nanos }), (Timestamp { secs: (now.secs - 1 * 86400) as i64, nanos: now.nanos }))),
        !contains_seq(lower, "yesterday"@) && contains_seq(lower, "last week"@) ==> (r.date_filters@.len() == 1
            && r.date_filters@[0].column@ == "created_at"@ && r.date_filters@[0].operator == FilterOp::After((Timestamp { secs: (now.secs - 7 * 86400) as i64, nanos: now.nanos }))),
        !contains_seq(lower, "yesterday"@) && !contains_seq(lower, "last week"@) && contains_seq(lower, "last month"@) ==> (r.date_filters@.len() == 1
            && r.date_filters@[0].column@ == "created_at"@ && r.date_filters@[0].operator == FilterOp::After((Timestamp { secs: (now.secs - 30 * 86400) as i64, nanos: now.nanos }))),
        !contains_seq(lower, "yesterday"@) && !contains_seq(lower, "last week"@) && !contains_seq(lower, "last month"@) && contains_seq(lower, "last year"@) ==> (r.date_filters@.len() == 1
            && r.date_filters@[0].column@ == "created_at"@ && r.date_filters@[0].operator == FilterOp::After((Timestamp { secs: (now.secs - 365 * 86400) as i64, nanos: now.nanos }))),
        !contains_seq(lower, "yesterday"@) && !contains_seq(lower, "last week"@) && !contains_seq(lower, "last month"@) && !contains_seq(lower, "last year"@) && contains_seq(lower, "today"@) ==> (r.date_filters@.len() == 1
            && r.date_filters@[0].column@ == "created_at"@ && r.date_filters@[0].operator == FilterOp::After((Timestamp { secs: (now.secs - 1 * 86400) as i64, nanos: now.nanos }))),
        !contains_seq(lower, "yesterday"@) && !contains_seq(lower, "last week"@) && !contains_seq(lower, "last month"@) && !contains_seq(lower, "last year"@) && !contains_seq(lower, "today"@) && contains_seq(lower, "this week"@) ==> (r.date_filters@.len() == 1
            && r.date_filters@[0].column@ == "created_at"@ && r.date_filters@[0].operator == FilterOp::After((Timestamp { secs: (now.secs - 7 * 86400) as i64, nanos: now.nanos }))),
        !contains_seq(lower, "yesterday"@) && !contains_seq(lower, "last week"@) && !contains_seq(lower, "last month"@) && !contains_seq(lower, "last year"@) && !contains_seq(lower, "today"@) && !contains_seq(lower, "this week"@) && contains_seq(lower, "this month"@) ==> (r.date_filters@.len() == 1
            && r.date_filters@[0].column@ == "created_at"@ && r.date_filters@[0].operator == FilterOp::After((Timestamp { secs: (now.secs - 30 * 86400) as i64, nanos: now.nanos }))),
        !contains_seq(lower, "yesterday"@) && !contains_seq(lower, "last week"@) && !contains_seq(lower, "last month"@) && !contains_seq(lower, "last year"@) && !contains_seq(lower, "today"@) && !contains_seq(lower, "this week"@) && !contains_seq(lower, "this month"@) && contains_seq(lower, "recently"@) ==> (r.date_filters@.len() == 1
            && r.date_filters@[0].column@ == "created_at"@ && r.date_filters@[0].operator == FilterOp::After((Timestamp { secs: (now.secs - 7 * 86400) as i64, nanos: now.nanos }))),
        !contains_seq(lower, "yesterday"@) && !contains_seq(lower, "last week"@) && !contains_seq(lower, "last month"@) && !contains_seq(lower, "last year"@) && !contains_seq(lower, "today"@) && !contains_seq(lower, "this week"@) && !contains_seq(lower, "this month"@) && !contains_seq(lower, "recently"@) ==> (r.date_filters@.len() == 0 && r.cleaned_text@ == query),
{
    reveal_with_fuel(first_pattern_from, 9);
}

/// The expression at position `k`.
fn pattern_at(k: usize) -> (s: &'static str)
    requires
        k < 8,
    ensures
        s@ == temporal_pattern(k as int),
{
    if k == 0 {
        "yesterday"
    } else if k == 1 {
        "last week"
    } else if k == 2 {
        "last month"
    } else if k == 3 {
        "last year"
    } else if k == 4 {
        "today"
    } else if k == 5 {
        "this week"
    } else if k == 6 {
        "this month"
    } else {
        "recently"
    }
}

/// The point `days` days before `now`.
fn days_before_exec(now: Timestamp, days: i64) -> (t: Timestamp)
    requires
        0 <= days <= 365,
        now.secs >= i64::MIN + 365 * 86400,
    ensures
        t == days_before(now, days as int),
{
    Timestamp { secs: now.secs - days * 86400, nanos: now.nanos }
}

/// The filter of the `k`-th expression, relative to `now`.
fn filter_for_exec(k: usize, now: Timestamp) -> (f: FilterOp)
    requires
        k < 8,
        now.secs >= i64::MIN + 365 * 86400,
    ensures
        f == filter_for(k as int, now),
{
    if k == 0 {
        FilterOp::Between(days_before_exec(now, 2), days_before_exec(now, 1))
    } else if k == 1 || k == 5 || k == 7 {
        FilterOp::After(days_before_exec(now, 7))
    } else if k == 2 || k == 6 {
        FilterOp::After(days_before_exec(now, 30))
    } else if k == 3 {
        FilterOp::After(days_before_exec(now, 365))
    } else {
        FilterOp::After(days_before_exec(now, 1))
    }
}

/// Only one prefix length takes a given number of bytes.
proof fn lemma_char_boundary_unique(s: Seq<char>, j: int)
    requires
        0 <= j <= s.len(),
    ensures
        char_boundary(s, utf8_len(s.take(j)) as int) == Some(j),
{
    let b = utf8_len(s.take(j)) as int;
    assert(0 <= j <= s.len() && utf8_len(s.take(j)) == b);
    let c = choose|i: int| 0 <= i <= s.len() && utf8_len(#[trigger] s.take(i)) == b;
    if c < j {
        crate::text::lemma_utf8_prefix_increasing(s, c, j);
    } else if c > j {
        crate::text::lemma_utf8_prefix_increasing(s, j, c);
    }
}

/// The first matching expression in `lower` (the lowercased query) and
/// where it lies in the query.
fn locate(query: &str, lower: &str) -> (r: Option<(usize, Option<usize>, Option<usize>)>)
    ensures
        first_pattern_from(lower@, 0) is None ==> r is None,
        first_pattern_from(lower@, 0) matches Some(k) ==> (r matches Some(
            t,
        ) && t.0 == k && t.0 < 8 && ({
            let b = cut_bounds(query@, lower@, k);
            &&& (b.0 matches Some(x) ==> t.1 == Some(x as usize))
            &&& (b.0 is None ==> t.1 is None)
            &&& (b.1 matches Some(x) ==> t.2 == Some(x as usize))
            &&& (b.1 is None ==> t.2 is None)
        })),
{
    let ghost lv = lower@;
    let mut k: usize = 0;
    while k < 8
        invariant
            k <= 8,
            lower@ == lv,
            first_pattern_from(lv, 0) == first_pattern_from(lv, k as int),
        decreases 8 - k,
    {
        let pat = pattern_at(k);
        if str_contains(lower, pat) {
            assert(first_pattern_from(lv, k as int) == Some(k as int));
            let lc = chars_of(lower);
            let pc = chars_of(pat);
            let found = find_seq(&lc, &pc);
            let i = match found {
                Some(i) => i,
                None => {
                    assert(false);
                    0
                },
            };
            assert(first_occurrence(lv, temporal_pattern(k as int)) == i as int) by {
                let p = temporal_pattern(k as int);
                let c = first_occurrence(lv, p);
                assert(occurs_at(lv, p, c) && forall|j: int| 0 <= j < c ==> !occurs_at(lv, p, j));
                if c < i {
                } else if c > i {
                    assert(!occurs_at(lv, p, i as int));
                }
            }
            let pos = utf8_prefix_len(&lc, i);
            let qc = chars_of(query);
            let plen = pc.len() as u128;
            let start = char_index_at_byte(&qc, pos);
            let end = char_index_at_byte(&qc, pos + plen);
            proof {
                let p = temporal_pattern(k as int);
                assert(pos == utf8_len(lv.take(first_occurrence(lv, p))));
                assert(plen == p.len());
                let b = cut_bounds(query@, lv, k as int);
                if let Some(x) = start {
                    assert(utf8_len(query@.take(x as int)) == pos);
                    lemma_char_boundary_unique(query@, x as int);
                    assert(b.0 == Some(x as int));
                } else {
                    assert(!exists|j: int| 0 <= j <= query@.len() && utf8_len(#[trigger] query@.take(j)) == pos);
                    assert(b.0 is None);
                }
                if let Some(x) = end {
                    assert(utf8_len(query@.take(x as int)) == pos + plen);
                    lemma_char_boundary_unique(query@, x as int);
                    assert(b.1 == Some(x as int));
                } else {
                    assert(!exists|j: int| 0 <= j <= query@.len() && utf8_len(#[trigger] query@.take(j)) == pos + plen);
                    assert(b.1 is None);
                }
            }
            return Some((k, start, end));
        }
        k = k + 1;
    }
    None
}

/// Whether the expression found in the query can be cut out of it (see
/// [`cut_defined`]); a query without a temporal expression can always be
/// expanded.
pub fn cut_is_defined(query: &str) -> (r: bool)
    ensures
        r == cut_defined(query@),
{
    let lower = to_lowercase(query);
    cut_is_defined_with(query, lower.as_str())
}

/// Whether the expression found in `lower`, the lowercased query, can be cut
/// out of the query (see [`cut_defined_with`]).
pub fn cut_is_defined_with(query: &str, lower: &str) -> (r: bool)
    ensures
        r == cut_defined_with(query@, lower@),
{
    match locate(query, lower) {
        None => true,
        Some((_, start, end)) => start.is_some() && end.is_some(),
    }
}

/// Expand temporal expressions in a query into date filters.
///
/// Converts natural language time references like "last week", "yesterday",
/// "last month" into date range filters relative to `now`, trying them in a
/// fixed order and applying only the first that occurs in the lowercased
/// query; that expression is cut out of the query text.
pub fn expand_query(query: &str, now: Timestamp) -> (r: ExpandedQuery)
    requires
        cut_defined(query@),
        now.secs >= i64::MIN + 365 * 86400,
    ensures
        is_expansion(query@, now, r),
{
    let lower = to_lowercase(query);
    expand_with_lowercase(query, lower.as_str(), now)
}

/// The expansion of `query` at `now`, given its lowercased text `lower`, in
/// which the temporal expressions are looked for.
pub fn expand_with_lowercase(query: &str, lower: &str, now: Timestamp) -> (r: ExpandedQuery)
    requires
        cut_defined_with(query@, lower@),
        now.secs >= i64::MIN + 365 * 86400,
    ensures
        is_expansion_with(query@, lower@, now, r),
{
    match locate(query, lower) {
        None => ExpandedQuery { cleaned_text: String::from_str(query), date_filters: Vec::new() },
        Some((k, start, end)) => {
            let s = match start {
                Some(s) => s,
                None => {
                    assert(false);
                    0
                },
            };
            let e = match end {
                Some(e) => e,
                None => {
                    assert(false);
                    0
                },
            };
            let qc = chars_of(query);
            let before = trim_chars(&slice_chars(&qc, 0, s));
            let after = trim_chars(&slice_chars(&qc, e, qc.len()));
            let mut joined = before;
            joined.push(' ');
            let mut t: usize = 0;
            let ghost head = joined@;
            while t < after.len()
                invariant
                    t <= after.len(),
                    joined@ == head + after@.take(t as int),
                decreases after.len() - t,
            {
                joined.push(after[t]);
                assert(after@.take(t + 1) =~= after@.take(t as int).push(after@[t as int]));
                t = t + 1;
            }
            assert(after@.take(after@.len() as int) =~= after@);
            assert(qc@.subrange(0, s as int) =~= query@.take(s as int));
            assert(qc@.subrange(e as int, qc@.len() as int) =~= query@.skip(e as int));
            let cleaned = trim_chars(&joined);
            let mut filters: Vec<DateFilter> = Vec::new();
            let column = String::from_str("created_at");
            filters.push(DateFilter { column, operator: filter_for_exec(k, now) });
            let r = ExpandedQuery { cleaned_text: string_from_chars(&cleaned), date_filters: filters };
            proof {
                let b = cut_bounds(query@, lower@, k as int);
                assert(b.0 is Some && b.1 is Some);
                assert(b.0->0 == s as int);
                assert(b.1->0 == e as int);
                assert(joined@ =~= trim_ws(query@.take(s as int)) + seq![' '] + trim_ws(query@.skip(e as int)));
                assert(r.cleaned_text@ == cleaned_text(query@, b.0->0, b.1->0));
                assert(r.date_filters@.len() == 1);
                assert(r.date_filters@[0].column@ == "created_at"@);
                assert(r.date_filters@[0].operator == filter_for(k as int, now));
            }
            r
        },
    }
}

/// [`expand_query`] where the cut is defined, `None` where the matched
/// expression does not fall on character boundaries of the query.
pub fn try_expand_query(query: &str, now: Timestamp) -> (r: Option<ExpandedQuery>)
    requires
        now.secs >= i64::MIN + 365 * 86400,
    ensures
        r is None <==> !cut_defined(query@),
        r matches Some(e) ==> is_expansion(query@, now, e),
{
    let lower = to_lowercase(query);
    if cut_is_defined_with(query, lower.as_str()) {
        Some(expand_with_lowercase(query, lower.as_str(), now))
    } else {
        None
    }
}

} // verus!
