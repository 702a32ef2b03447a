use vstd::prelude::*;

use crate::text::{
    chars_equal, chars_of, lowercase_of, split_words, str_contains_char, to_lowercase, views_of,
    words,
};

verus! {

/// The question words that make a query favor semantic (vector) search.
pub open spec fn is_question_word(w: Seq<char>) -> bool {
    ||| w == "what"@
    ||| w == "how"@
    ||| w == "why"@
    ||| w == "when"@
    ||| w == "where"@
    ||| w == "explain"@
    ||| w == "describe"@
}

/// The RRF k-values `(keyword_k, vector_k)` for a query, given the query and
/// its lowercased text. A lower k favors that source: quoted text favors
/// keyword search, a question word (among the whitespace-separated words of
/// the lowercased query) favors vector search, anything else weighs both
/// equally.
pub open spec fn analyze_lowered_spec(query: Seq<char>, lower: Seq<char>) -> (u32, u32) {
    if query.contains('"') {
        (40, 60)
    } else if exists|i: int|
        0 <= i < words(lower).len() && is_question_word(#[trigger] words(lower)[i]) {
        (60, 40)
    } else {
        (60, 60)
    }
}

/// The RRF k-values `(keyword_k, vector_k)` for a query.
pub open spec fn analyze_query_spec(query: Seq<char>) -> (u32, u32) {
    analyze_lowered_spec(query, lowercase_of(query))
}

/// The question words, listed.
proof fn lemma_question_word_list(w: Seq<char>)
    ensures
        is_question_word(w) <==> seq!["what"@, "how"@, "why"@, "when"@, "where"@, "explain"@, "describe"@].contains(w),
{
    let l = seq!["what"@, "how"@, "why"@, "when"@, "where"@, "explain"@, "describe"@];
    if is_question_word(w) {
        if w == "what"@ {
            assert(l[0] == w);
        } else if w == "how"@ {
            assert(l[1] == w);
        } else if w == "why"@ {
            assert(l[2] == w);
        } else if w == "when"@ {
            assert(l[3] == w);
        } else if w == "where"@ {
            assert(l[4] == w);
        } else if w == "explain"@ {
            assert(l[5] == w);
        } else {
            assert(l[6] == w);
        }
    }
    if l.contains(w) {
        let j = choose|j: int| 0 <= j < l.len() && l[j] == w;
        assert(j == 0 || j == 1 || j == 2 || j == 3 || j == 4 || j == 5 || j == 6);
    }
}

/// How a query weighs the two searches: quoted text favors keyword search
/// (40, 60); otherwise a word of the lowercased query that is one of what,
/// how, why, when, where, explain or describe favors vector search (60, 40);
/// anything else weighs both equally (60, 60).
pub proof fn lemma_analyze_weights(query: Seq<char>, lower: Seq<char>)
    ensures
        query.contains('"') ==> analyze_lowered_spec(query, lower) == (40u32, 60u32),
        !query.contains('"') ==> (analyze_lowered_spec(query, lower) == (60u32, 40u32) <==> exists|i: int|
            0 <= i < words(lower).len() && seq!["what"@, "how"@, "why"@, "when"@, "where"@, "explain"@, "describe"@].contains(
                #[trigger] words(lower)[i],
            )),
        !query.contains('"') && analyze_lowered_spec(query, lower) != (60u32, 40u32) ==> analyze_lowered_spec(
            query,
            lower,
        ) == (60u32, 60u32),
{
    assert forall|w: Seq<char>|
        is_question_word(w) <==> seq!["what"@, "how"@, "why"@, "when"@, "where"@, "explain"@, "describe"@].contains(
            w,
        ) by {
        lemma_question_word_list(w);
    }
}

fn is_question_word_exec(w: &Vec<char>) -> (r: bool)
    ensures
        r == is_question_word(w@),
{
    let qs: [&str; 7] = ["what", "how", "why", "when", "where", "explain", "describe"];
    assert(forall|j: int| 0 <= j < 7 ==> is_question_word(#[trigger] qs@[j]@));
    let mut k: usize = 0;
    while k < 7
        invariant
            k <= 7,
            forall|j: int| 0 <= j < 7 ==> is_question_word(#[trigger] qs@[j]@),
            forall|j: int| 0 <= j < k ==> w@ != qs@[j]@,
        decreases 7 - k,
    {
        let q = chars_of(qs[k]);
        if chars_equal(w, &q) {
            assert(is_question_word(qs@[k as int]@));
            return true;
        }
        k = k + 1;
    }
    assert(!is_question_word(w@)) by {
        assert(w@ != qs@[0]@);
        assert(w@ != qs@[1]@);
        assert(w@ != qs@[2]@);
        assert(w@ != qs@[3]@);
        assert(w@ != qs@[4]@);
        assert(w@ != qs@[5]@);
        assert(w@ != qs@[6]@);
    }
    false
}

/// Analyze a query to determine the RRF k-values `(keyword_k, vector_k)`.
pub fn analyze_query(query: &str) -> (r: (u32, u32))
    ensures
        r == analyze_query_spec(query@),
{
    if str_contains_char(query, '"') {
        return (40, 60);
    }
    let lower = to_lowercase(query);
    analyze_lowered(query, lower.as_str())
}

/// The RRF k-values for a query whose lowercased text is `lower`.
pub fn analyze_lowered(query: &str, lower: &str) -> (r: (u32, u32))
    ensures
        r == analyze_lowered_spec(query@, lower@),
{
    if str_contains_char(query, '"') {
        return (40, 60);
    }
    let lc = chars_of(lower);
    let ws = split_words(&lc);
    let ghost wv = words(lower@);
    assert(views_of(ws@) == wv);
    let mut i: usize = 0;
    while i < ws.len()
        invariant
            i <= ws.len(),
            views_of(ws@) == wv,
            wv == words(lower@),
            !query@.contains('"'),
            forall|j: int| 0 <= j < i ==> !is_question_word(#[trigger] wv[j]),
        decreases ws.len() - i,
    {
        assert(wv[i as int] == ws@[i as int]@);
        if is_question_word_exec(&ws[i]) {
            assert(is_question_word(wv[i as int]));
            return (60, 40);
        }
        i = i + 1;
    }
    (60, 60)
}

} // verus!
