//! When the category boost applies: the memory's category is named in the
//! query, or the query holds a word that hints at it. The boost itself is a
//! floating-point multiplier applied by the caller.
use vstd::prelude::*;

use crate::text::{contains_seq, lowercase_of, str_contains, str_equals, to_lowercase};

verus! {

/// The words that hint at a category (by its lowercase name).
pub open spec fn category_hints(cat: Seq<char>) -> Seq<Seq<char>> {
    if cat == "error"@ {
        seq!["error"@, "fail"@, "crash"@, "bug"@, "broken"@, "exception"@]
    } else if cat == "decision"@ {
        seq!["decided"@, "decision"@, "chose"@, "approach"@, "strategy"@]
    } else if cat == "pattern"@ {
        seq!["pattern"@, "workflow"@, "process"@, "how to"@]
    } else if cat == "lesson"@ {
        seq!["learned"@, "lesson"@, "insight"@, "takeaway"@]
    } else {
        seq![]
    }
}

/// Whether the boost applies, read on the lowercased category and query:
/// the query contains the category, or one of the category's hint words.
pub open spec fn lowered_matches_spec(cl: Seq<char>, q: Seq<char>) -> bool {
    contains_seq(q, cl) || exists|i: int|
        0 <= i < category_hints(cl).len() && contains_seq(q, #[trigger] category_hints(cl)[i])
}

/// Whether the category boost applies to a memory of the given category:
/// the lowercased query contains the lowercased category, or one of the
/// category's hint words.
pub open spec fn category_matches_spec(category: Option<Seq<char>>, query: Seq<char>) -> bool {
    match category {
        None => false,
        Some(c) => lowered_matches_spec(lowercase_of(c), lowercase_of(query)),
    }
}

/// When the boost applies, by category: for `error` when the lowercased
/// query contains error, fail, crash, bug, broken or exception; for
/// `decision` when it contains decided, decision, chose, approach or
/// strategy; for `pattern` when it contains pattern, workflow, process or
/// "how to"; for `lesson` when it contains learned, lesson, insight or
/// takeaway; for any other category when it contains the category's name.
pub proof fn lemma_category_hint_words(cl: Seq<char>, q: Seq<char>)
    ensures
        cl == "error"@ ==> (lowered_matches_spec(cl, q) <==> (contains_seq(q, "error"@) || contains_seq(
            q,
            "fail"@,
        ) || contains_seq(q, "crash"@) || contains_seq(q, "bug"@) || contains_seq(q, "broken"@)
            || contains_seq(q, "exception"@))),
        cl == "decision"@ ==> (lowered_matches_spec(cl, q) <==> (contains_seq(q, "decided"@)
            || contains_seq(q, "decision"@) || contains_seq(q, "chose"@) || contains_seq(q, "approach"@)
            || contains_seq(q, "strategy"@))),
        cl == "pattern"@ ==> (lowered_matches_spec(cl, q) <==> (contains_seq(q, "pattern"@)
            || contains_seq(q, "workflow"@) || contains_seq(q, "process"@) || contains_seq(q, "how to"@))),
        cl == "lesson"@ ==> (lowered_matches_spec(cl, q) <==> (contains_seq(q, "learned"@) || contains_seq(
            q,
            "lesson"@,
        ) || contains_seq(q, "insight"@) || contains_seq(q, "takeaway"@))),
        cl != "error"@ && cl != "decision"@ && cl != "pattern"@ && cl != "lesson"@ ==> (lowered_matches_spec(
            cl,
            q,
        ) <==> contains_seq(q, cl)),
{
    reveal_strlit("error");
    reveal_strlit("decision");
    reveal_strlit("pattern");
    reveal_strlit("lesson");
    assert("error"@.len() == 5 && "decision"@.len() == 8 && "pattern"@.len() == 7 && "lesson"@.len() == 6);
    assert("error"@ != "decision"@ && "error"@ != "pattern"@ && "error"@ != "lesson"@);
    assert("decision"@ != "pattern"@ && "decision"@ != "lesson"@ && "pattern"@ != "lesson"@);
    let h = category_hints(cl);
    if cl == "error"@ {
        assert(h.len() == 6 && h[0] == "error"@ && h[1] == "fail"@ && h[2] == "crash"@ && h[3] == "bug"@
            && h[4] == "broken"@ && h[5] == "exception"@);
    } else if cl == "decision"@ {
        assert(h.len() == 5 && h[0] == "decided"@ && h[1] == "decision"@ && h[2] == "chose"@ && h[3]
            == "approach"@ && h[4] == "strategy"@);
    } else if cl == "pattern"@ {
        assert(h.len() == 4 && h[0] == "pattern"@ && h[1] == "workflow"@ && h[2] == "process"@ && h[3]
            == "how to"@);
    } else if cl == "lesson"@ {
        assert(h.len() == 4 && h[0] == "learned"@ && h[1] == "lesson"@ && h[2] == "insight"@ && h[3]
            == "takeaway"@);
    } else {
        assert(h.len() == 0);
    }
    if lowered_matches_spec(cl, q) && !contains_seq(q, cl) {
        let i = choose|i: int| 0 <= i < h.len() && contains_seq(q, #[trigger] h[i]);
        assert(contains_seq(q, h[i]));
        assert(i == 0 || i == 1 || i == 2 || i == 3 || i == 4 || i == 5);
    }
    assert forall|i: int| 0 <= i < h.len() && contains_seq(q, #[trigger] h[i]) implies lowered_matches_spec(
        cl,
        q,
    ) by {}
}

/// The hint words of a lowercase category name.
fn hints_for(cat: &str) -> (r: Vec<&'static str>)
    ensures
        r@.len() == category_hints(cat@).len(),
        forall|i: int| 0 <= i < r@.len() ==> (#[trigger] r@[i])@ == category_hints(cat@)[i],
{
    let mut r: Vec<&'static str> = Vec::new();
    if str_equals(cat, "error") {
        r.push("error");
        r.push("fail");
        r.push("crash");
        r.push("bug");
        r.push("broken");
        r.push("exception");
    } else if str_equals(cat, "decision") {
        r.push("decided");
        r.push("decision");
        r.push("chose");
        r.push("approach");
        r.push("strategy");
    } else if str_equals(cat, "pattern") {
        r.push("pattern");
        r.push("workflow");
        r.push("process");
        r.push("how to");
    } else if str_equals(cat, "lesson") {
        r.push("learned");
        r.push("lesson");
        r.push("insight");
        r.push("takeaway");
    }
    r
}

/// Whether the category boost applies to a memory of the given category
/// for the query.
pub fn category_matches(category: Option<&str>, query: &str) -> (r: bool)
    ensures
        r == category_matches_spec(
            match category {
                Some(c) => Some(c@),
                None => None,
            },
            query@,
        ),
{
    let c = match category {
        Some(c) => c,
        None => return false,
    };
    let q = to_lowercase(query);
    let cl = to_lowercase(c);
    category_matches_lowered(cl.as_str(), q.as_str())
}

/// Whether the category boost applies, given the memory's category and the
/// query both already lowercased.
pub fn category_matches_lowered(category_lower: &str, query_lower: &str) -> (r: bool)
    ensures
        r == lowered_matches_spec(category_lower@, query_lower@),
{
    if str_contains(query_lower, category_lower) {
        return true;
    }
    let hints = hints_for(category_lower);
    let mut i: usize = 0;
    while i < hints.len()
        invariant
            i <= hints.len(),
            hints@.len() == category_hints(category_lower@).len(),
            forall|j: int| 0 <= j < hints@.len() ==> (#[trigger] hints@[j])@ == category_hints(category_lower@)[j],
            forall|j: int| 0 <= j < i ==> !contains_seq(query_lower@, #[trigger] category_hints(category_lower@)[j]),
        decreases hints.len() - i,
    {
        if str_contains(query_lower, hints[i]) {
            assert(contains_seq(query_lower@, category_hints(category_lower@)[i as int]));
            return true;
        }
        i = i + 1;
    }
    false
}

} // verus!
