//! Token-budget context assembly: which candidates fit, and how the chosen
//! items are rendered in sections.
//!
//! Candidates reach this module already ordered (by priority, then by
//! relevance); the packing keeps that order.
use vstd::prelude::*;

use crate::text::push_char;

verus! {

/// Priority levels: lower number = included first in the context budget.
pub const PRIORITY_BEHAVIORAL: u8 = 0;
pub const PRIORITY_RETRY: u8 = 10;
pub const PRIORITY_SPEC: u8 = 15;
pub const PRIORITY_SIMILAR: u8 = 25;
pub const PRIORITY_LEARNING: u8 = 40;
pub const PRIORITY_HISTORICAL: u8 = 60;

/// The section header of a priority level.
pub open spec fn priority_label_spec(priority: u8) -> Seq<char> {
    if priority == 0 {
        "Critical Context"@
    } else if priority <= 10 {
        "Retry Context"@
    } else if priority <= 15 {
        "Specifications"@
    } else if priority <= 25 {
        "Similar Tasks"@
    } else if priority <= 40 {
        "Learnings"@
    } else {
        "Historical Context"@
    }
}

/// The section header under which items of a priority level are rendered.
pub fn priority_label(priority: u8) -> (s: &'static str)
    ensures
        s@ == priority_label_spec(priority),
{
    if priority == 0 {
        "Critical Context"
    } else if priority <= 10 {
        "Retry Context"
    } else if priority <= 15 {
        "Specifications"
    } else if priority <= 25 {
        "Similar Tasks"
    } else if priority <= 40 {
        "Learnings"
    } else {
        "Historical Context"
    }
}

/// Greedy packing of candidates, read in order: a candidate is taken when it
/// fits in what is left of the budget, and skipped (counted as excluded)
/// otherwise. Gives the taken indices, the tokens they use, and the number
/// skipped.
pub open spec fn pack(tokens: Seq<usize>, max_tokens: int) -> (Seq<int>, int, int)
    decreases tokens.len(),
{
    if tokens.len() == 0 {
        (seq![], 0, 0)
    } else {
        let (inc, total, excl) = pack(tokens.drop_last(), max_tokens);
        let e = tokens.last() as int;
        if total + e <= max_tokens {
            (inc.push(tokens.len() - 1), total + e, excl)
        } else {
            (inc, total, excl + 1)
        }
    }
}

/// The sum of the token counts at the given indices.
pub open spec fn tokens_at(tokens: Seq<usize>, idx: Seq<int>) -> int
    decreases idx.len(),
{
    if idx.len() == 0 {
        0
    } else {
        tokens_at(tokens, idx.drop_last()) + tokens[idx.last()] as int
    }
}

/// Which candidates were included within a token budget.
pub struct BudgetSelection {
    /// Indices of the included candidates, in candidate order.
    pub included: Vec<usize>,
    /// Total tokens used by the included candidates.
    pub total_tokens: usize,
    /// Number of candidates that did not fit.
    pub excluded_count: usize,
    /// The maximum budget that was available.
    pub budget_max: usize,
}

/// The view of a vector of indices as integers.
pub open spec fn indices_view(v: Seq<usize>) -> Seq<int> {
    v.map_values(|i: usize| i as int)
}

/// Selects, in order, the candidates (given by their token counts) that fit
/// in `max_tokens`; a candidate that does not fit is skipped and later ones
/// are still tried.
pub fn select_within_budget(tokens: &Vec<usize>, max_tokens: usize) -> (r: BudgetSelection)
    ensures
        indices_view(r.included@) == pack(tokens@, max_tokens as int).0,
        r.total_tokens == pack(tokens@, max_tokens as int).1,
        r.excluded_count == pack(tokens@, max_tokens as int).2,
        r.budget_max == max_tokens,
{
    let mut included: Vec<usize> = Vec::new();
    let mut total: usize = 0;
    let mut excluded: usize = 0;
    let mut i: usize = 0;
    while i < tokens.len()
        invariant
            i <= tokens.len(),
            (indices_view(included@), total as int, excluded as int) == pack(
                tokens@.subrange(0, i as int),
                max_tokens as int,
            ),
            total <= max_tokens,
            excluded <= i,
        decreases tokens.len() - i,
    {
        let ghost pre = tokens@.subrange(0, i as int);
        let ghost post = tokens@.subrange(0, i + 1);
        assert(post.drop_last() =~= pre);
        assert(post.last() == tokens@[i as int]);
        proof {
            lemma_pack_bounds(pre, max_tokens as int);
        }
        let e = tokens[i];
        if e <= max_tokens - total {
            total = total + e;
            included.push(i);
            assert(indices_view(included@) =~= pack(pre, max_tokens as int).0.push(i as int));
        } else {
            excluded = excluded + 1;
        }
        i = i + 1;
    }
    assert(tokens@.subrange(0, tokens.len() as int) =~= tokens@);
    BudgetSelection { included, total_tokens: total, excluded_count: excluded, budget_max: max_tokens }
}

/// Packing never exceeds the budget, accounts for every candidate, keeps the
/// candidates' order, and its total is the sum of the included token counts.
pub proof fn lemma_pack_bounds(tokens: Seq<usize>, max_tokens: int)
    requires
        max_tokens >= 0,
    ensures
        ({
            let (inc, total, excl) = pack(tokens, max_tokens);
            &&& 0 <= total <= max_tokens
            &&& excl >= 0
            &&& inc.len() + excl == tokens.len()
            &&& total == tokens_at(tokens, inc)
            &&& forall|a: int, b: int| 0 <= a < b < inc.len() ==> inc[a] < inc[b]
            &&& forall|a: int| 0 <= a < inc.len() ==> 0 <= #[trigger] inc[a] < tokens.len()
        }),
    decreases tokens.len(),
{
    if tokens.len() > 0 {
        let t = tokens.drop_last();
        lemma_pack_bounds(t, max_tokens);
        let (inc, total, excl) = pack(t, max_tokens);
        lemma_tokens_at_prefix(tokens, inc);
        let e = tokens.last() as int;
        if total + e <= max_tokens {
            let inc2 = inc.push(tokens.len() - 1);
            assert(inc2.drop_last() =~= inc);
        }
    }
}

/// Sums over indices of a prefix are the same in the whole sequence.
pub proof fn lemma_tokens_at_prefix(tokens: Seq<usize>, idx: Seq<int>)
    requires
        tokens.len() > 0,
        forall|a: int| 0 <= a < idx.len() ==> 0 <= #[trigger] idx[a] < tokens.len() - 1,
    ensures
        tokens_at(tokens.drop_last(), idx) == tokens_at(tokens, idx),
    decreases idx.len(),
{
    if idx.len() > 0 {
        lemma_tokens_at_prefix(tokens, idx.drop_last());
    }
}

impl BudgetSelection {
    /// Whether some candidates were excluded because the budget ran out.
    pub fn is_truncated(&self) -> (r: bool)
        ensures
            r == (self.excluded_count > 0),
    {
        self.excluded_count > 0
    }

    /// Remaining token budget (zero when the total meets the budget).
    pub fn remaining_tokens(&self) -> (r: usize)
        ensures
            r == (if self.total_tokens <= self.budget_max {
                self.budget_max - self.total_tokens
            } else {
                0
            }),
    {
        self.budget_max.saturating_sub(self.total_tokens)
    }
}

/// The rendered text of the items read so far, and the priority of the
/// section last opened.
pub open spec fn render_acc(items: Seq<(u8, Seq<char>)>) -> (Seq<char>, Option<u8>)
    decreases items.len(),
{
    if items.len() == 0 {
        (seq![], None)
    } else {
        let (out, cur) = render_acc(items.drop_last());
        let (p, content) = items.last();
        let opened = if cur != Some(p) {
            (if out.len() > 0 {
                out.push('\n')
            } else {
                out
            }) + "## "@ + priority_label_spec(p) + seq!['\n', '\n']
        } else {
            out
        };
        (opened + content + seq!['\n'], Some(p))
    }
}

/// The view of rendered items.
pub open spec fn items_view(items: Seq<(u8, String)>) -> Seq<(u8, Seq<char>)> {
    items.map_values(|x: (u8, String)| (x.0, x.1@))
}

/// Renders items, in order, as a text with a `## <section>` header each
/// time the priority changes; the empty list renders as the empty text.
pub fn render_sections(items: &Vec<(u8, String)>) -> (r: String)
    ensures
        r@ == render_acc(items_view(items@)).0,
{
    let mut out = String::new();
    let mut current: Option<u8> = None;
    let mut i: usize = 0;
    while i < items.len()
        invariant
            i <= items.len(),
            (out@, current) == render_acc(items_view(items@.subrange(0, i as int))),
        decreases items.len() - i,
    {
        let ghost pre = items_view(items@.subrange(0, i as int));
        let ghost post = items_view(items@.subrange(0, i + 1));
        assert(post.drop_last() =~= pre);
        let p = items[i].0;
        assert(post.last() == (p, items@[i as int].1@));
        let ghost before = out@;
        if current != Some(p) {
            if !out.as_str().is_empty() {
                push_char(&mut out, '\n');
            }
            out.append("## ");
            out.append(priority_label(p));
            push_char(&mut out, '\n');
            push_char(&mut out, '\n');
            current = Some(p);
        }
        out.append(items[i].1.as_str());
        push_char(&mut out, '\n');
        proof {
            let (o, c) = render_acc(pre);
            assert(o == before);
        }
        assert(out@ =~= render_acc(post).0);
        i = i + 1;
    }
    assert(items@.subrange(0, items.len() as int) =~= items@);
    out
}

/// The sum of the token counts.
pub open spec fn tokens_sum(tokens: Seq<usize>) -> int {
    tokens.fold_left(0int, |acc: int, t: usize| acc + t)
}

/// When all candidates fit together, packing takes every one of them; a
/// candidate larger than the whole budget is never taken.
pub proof fn lemma_pack_takes_all_that_fit(tokens: Seq<usize>, max_tokens: int)
    ensures
        tokens_sum(tokens) <= max_tokens ==> pack(tokens, max_tokens).0.len() == tokens.len() && pack(
            tokens,
            max_tokens,
        ).1 == tokens_sum(tokens) && pack(tokens, max_tokens).2 == 0,
        forall|a: int|
            0 <= a < pack(tokens, max_tokens).0.len() ==> tokens[#[trigger] pack(tokens, max_tokens).0[a]]
                <= max_tokens || max_tokens < 0,
    decreases tokens.len(),
{
    if tokens.len() > 0 {
        let t = tokens.drop_last();
        lemma_pack_takes_all_that_fit(t, max_tokens);
        assert(tokens_sum(tokens) == tokens_sum(t) + tokens.last());
        let (inc, total, excl) = pack(t, max_tokens);
        if max_tokens >= 0 {
            lemma_pack_bounds(t, max_tokens);
        }
        let p = pack(tokens, max_tokens);
        if max_tokens >= 0 {
            assert forall|a: int| 0 <= a < p.0.len() implies tokens[#[trigger] p.0[a]] <= max_tokens by {
                if a < inc.len() {
                    assert(p.0[a] == inc[a]);
                    assert(0 <= inc[a] < t.len());
                    assert(tokens[inc[a]] == t[inc[a]]);
                }
            }
        }
    }
}

/// The sections by priority: 0 is critical context, 1 to 10 retry
/// context, 11 to 15 specifications, 16 to 25 similar tasks, 26 to 40
/// learnings, anything above historical context.
pub proof fn lemma_priority_sections(priority: u8)
    ensures
        priority == 0 ==> priority_label_spec(priority) == "Critical Context"@,
        1 <= priority <= 10 ==> priority_label_spec(priority) == "Retry Context"@,
        11 <= priority <= 15 ==> priority_label_spec(priority) == "Specifications"@,
        16 <= priority <= 25 ==> priority_label_spec(priority) == "Similar Tasks"@,
        26 <= priority <= 40 ==> priority_label_spec(priority) == "Learnings"@,
        40 < priority ==> priority_label_spec(priority) == "Historical Context"@,
{
}

} // verus!
