//! The counts behind the benchmark metrics. The accuracies are ratios of
//! these counts, taken in floating point by the report.
use vstd::prelude::*;

use crate::bench::dataset::{
    first_seen, lemma_first_seen, lemma_occurrences_bounds, lemma_sum_occurrences, occurrences,
    sum_occurrences, EvalResult, QuestionType,
};

verus! {

/// Correct and total answers for one question type.
#[derive(Debug, Clone, Copy)]
pub struct TypeCount {
    pub question_type: QuestionType,
    pub correct: usize,
    pub total: usize,
}

/// The counts from which the benchmark metrics are computed.
#[derive(Debug, Clone)]
pub struct MetricCounts {
    /// Per question type that occurs, in the order of its first result.
    pub per_type: Vec<TypeCount>,
    /// Correct answers over all questions.
    pub total_correct: usize,
    /// Correct answers among the abstention questions.
    pub abstention_correct: usize,
    /// Abstention questions.
    pub abstention_total: usize,
    /// Total questions evaluated.
    pub total_questions: usize,
    /// Total tokens used.
    pub total_tokens: u64,
}

/// The question types of the results.
pub open spec fn result_types(rs: Seq<EvalResult>) -> Seq<QuestionType> {
    rs.map_values(|r: EvalResult| r.question_type)
}

/// The question types of the correct results, in order.
pub open spec fn correct_types(rs: Seq<EvalResult>) -> Seq<QuestionType>
    decreases rs.len(),
{
    if rs.len() == 0 {
        seq![]
    } else if rs.last().is_correct {
        correct_types(rs.drop_last()).push(rs.last().question_type)
    } else {
        correct_types(rs.drop_last())
    }
}

/// The number of abstention results.
pub open spec fn abstention_total_spec(rs: Seq<EvalResult>) -> nat
    decreases rs.len(),
{
    if rs.len() == 0 {
        0
    } else {
        abstention_total_spec(rs.drop_last()) + if rs.last().is_abstention {
            1nat
        } else {
            0nat
        }
    }
}

/// The number of correct abstention results.
pub open spec fn abstention_correct_spec(rs: Seq<EvalResult>) -> nat
    decreases rs.len(),
{
    if rs.len() == 0 {
        0
    } else {
        abstention_correct_spec(rs.drop_last()) + if rs.last().is_abstention && rs.last().is_correct {
            1nat
        } else {
            0nat
        }
    }
}

/// The tokens used over all results.
pub open spec fn tokens_total(rs: Seq<EvalResult>) -> nat
    decreases rs.len(),
{
    if rs.len() == 0 {
        0
    } else {
        tokens_total(rs.drop_last()) + rs.last().tokens_used as nat
    }
}

/// The running sums of a prefix are no more than those of the whole.
pub proof fn lemma_tally_prefix(rs: Seq<EvalResult>, k: int)
    requires
        0 <= k <= rs.len(),
    ensures
        tokens_total(rs.subrange(0, k)) <= tokens_total(rs),
    decreases rs.len() - k,
{
    if k < rs.len() {
        lemma_tally_prefix(rs, k + 1);
        assert(rs.subrange(0, k + 1).drop_last() =~= rs.subrange(0, k));
    } else {
        assert(rs.subrange(0, k) =~= rs);
    }
}

/// Correct answers are no more than answers, overall and among abstentions.
pub proof fn lemma_tally_bounds(rs: Seq<EvalResult>)
    ensures
        abstention_correct_spec(rs) <= abstention_total_spec(rs),
        abstention_total_spec(rs) <= rs.len(),
        correct_types(rs).len() <= rs.len(),
    decreases rs.len(),
{
    if rs.len() > 0 {
        lemma_tally_bounds(rs.drop_last());
    }
}

/// Every correct type is among the result types.
pub proof fn lemma_correct_types_occur(rs: Seq<EvalResult>)
    ensures
        forall|i: int|
            0 <= i < correct_types(rs).len() ==> result_types(rs).contains(
                #[trigger] correct_types(rs)[i],
            ),
    decreases rs.len(),
{
    if rs.len() > 0 {
        let pre = rs.drop_last();
        lemma_correct_types_occur(pre);
        assert forall|i: int| 0 <= i < correct_types(rs).len() implies result_types(rs).contains(
            #[trigger] correct_types(rs)[i],
        ) by {
            if i < correct_types(pre).len() {
                assert(correct_types(rs)[i] == correct_types(pre)[i]);
                let j = choose|j: int| 0 <= j < result_types(pre).len() && result_types(pre)[j] == correct_types(pre)[i];
                assert(result_types(rs)[j] == result_types(pre)[j]);
            } else {
                assert(result_types(rs)[rs.len() - 1] == correct_types(rs)[i]);
            }
        }
    }
}

/// Per type, the correct answers are no more than the answers.
pub proof fn lemma_type_correct_le_total(rs: Seq<EvalResult>, t: QuestionType)
    ensures
        occurrences(correct_types(rs), t) <= occurrences(result_types(rs), t),
    decreases rs.len(),
{
    if rs.len() > 0 {
        let pre = rs.drop_last();
        lemma_type_correct_le_total(pre, t);
        assert(result_types(rs).drop_last() =~= result_types(pre));
        if rs.last().is_correct {
            assert(correct_types(rs).drop_last() =~= correct_types(pre));
        }
    }
}

/// The per-type counts account for every result: summed over the types,
/// the totals give the number of results and the correct counts give the
/// number of correct results; no type, and no tally overall, has more
/// correct answers than answers.
pub proof fn lemma_metric_totals(rs: Seq<EvalResult>)
    ensures
        sum_occurrences(result_types(rs), first_seen(result_types(rs))) == rs.len(),
        sum_occurrences(correct_types(rs), first_seen(result_types(rs))) == correct_types(rs).len(),
        correct_types(rs).len() <= rs.len(),
        abstention_correct_spec(rs) <= abstention_total_spec(rs),
        forall|t: QuestionType|
            occurrences(correct_types(rs), t) <= #[trigger] occurrences(result_types(rs), t),
{
    let ts = result_types(rs);
    lemma_first_seen(ts);
    assert forall|i: int| 0 <= i < ts.len() implies first_seen(ts).contains(#[trigger] ts[i]) by {
        assert(ts.contains(ts[i]));
    }
    lemma_sum_occurrences(ts, first_seen(ts));
    lemma_correct_types_occur(rs);
    let cs = correct_types(rs);
    assert forall|i: int| 0 <= i < cs.len() implies first_seen(ts).contains(#[trigger] cs[i]) by {
        assert(ts.contains(cs[i]));
    }
    lemma_sum_occurrences(cs, first_seen(ts));
    lemma_tally_bounds(rs);
    assert forall|t: QuestionType| occurrences(correct_types(rs), t) <= #[trigger] occurrences(
        result_types(rs),
        t,
    ) by {
        lemma_type_correct_le_total(rs, t);
    }
}

/// What each count counts, as the number of results with a property: the
/// correct ones, the abstention ones, the correct abstention ones, and per
/// question type the results of that type and the correct ones among them;
/// the tokens are the sum over all results.
pub proof fn lemma_counts_count(rs: Seq<EvalResult>)
    ensures
        correct_types(rs).len() == rs.filter(|r: EvalResult| r.is_correct).len(),
        abstention_total_spec(rs) == rs.filter(|r: EvalResult| r.is_abstention).len(),
        abstention_correct_spec(rs) == rs.filter(|r: EvalResult| r.is_abstention && r.is_correct).len(),
        forall|t: QuestionType|
            #[trigger] occurrences(result_types(rs), t) == rs.filter(|r: EvalResult| r.question_type == t).len(),
        forall|t: QuestionType|
            #[trigger] occurrences(correct_types(rs), t) == rs.filter(
                |r: EvalResult| r.is_correct && r.question_type == t,
            ).len(),
        tokens_total(rs) == rs.fold_left(0nat, |acc: nat, r: EvalResult| acc + r.tokens_used as nat),
    decreases rs.len(),
{
    reveal(Seq::filter);
    if rs.len() > 0 {
        let pre = rs.drop_last();
        lemma_counts_count(pre);
        assert(result_types(rs).drop_last() =~= result_types(pre));
        assert(result_types(rs).last() == rs.last().question_type);
        if rs.last().is_correct {
            assert(correct_types(rs).drop_last() =~= correct_types(pre));
        }
        assert forall|t: QuestionType|
            #[trigger] occurrences(result_types(rs), t) == rs.filter(|r: EvalResult| r.question_type == t).len() by {
            assert(occurrences(result_types(pre), t) == pre.filter(|r: EvalResult| r.question_type == t).len());
        }
        assert forall|t: QuestionType|
            #[trigger] occurrences(correct_types(rs), t) == rs.filter(
                |r: EvalResult| r.is_correct && r.question_type == t,
            ).len() by {
            assert(occurrences(correct_types(pre), t) == pre.filter(
                |r: EvalResult| r.is_correct && r.question_type == t,
            ).len());
        }
    }
}

/// Compute the metric counts from evaluation results. The token total must
/// fit in a `u64`.
pub fn tally_results(results: &[EvalResult]) -> (m: MetricCounts)
    requires
        tokens_total(results@) <= u64::MAX,
    ensures
        m.per_type@.len() == first_seen(result_types(results@)).len(),
        forall|i: int|
            0 <= i < m.per_type@.len() ==> {
                let t = first_seen(result_types(results@))[i];
                &&& (#[trigger] m.per_type@[i]).question_type == t
                &&& m.per_type@[i].total as int == occurrences(result_types(results@), t)
                &&& m.per_type@[i].correct as int == occurrences(correct_types(results@), t)
            },
        m.total_correct == correct_types(results@).len(),
        m.abstention_correct == abstention_correct_spec(results@),
        m.abstention_total == abstention_total_spec(results@),
        m.total_questions == results@.len(),
        m.total_tokens == tokens_total(results@),
{
    let mut per_type: Vec<TypeCount> = Vec::new();
    let mut abs_correct: usize = 0;
    let mut abs_total: usize = 0;
    let mut total_correct: usize = 0;
    let mut total_tokens: u64 = 0;
    let mut i: usize = 0;
    while i < results.len()
        invariant
            i <= results.len(),
            tokens_total(results@) <= u64::MAX,
            per_type@.len() == first_seen(result_types(results@.subrange(0, i as int))).len(),
            forall|j: int|
                0 <= j < per_type@.len() ==> {
                    let t = first_seen(result_types(results@.subrange(0, i as int)))[j];
                    &&& (#[trigger] per_type@[j]).question_type == t
                    &&& per_type@[j].total as int == occurrences(
                        result_types(results@.subrange(0, i as int)),
                        t,
                    )
                    &&& per_type@[j].correct as int == occurrences(
                        correct_types(results@.subrange(0, i as int)),
                        t,
                    )
                },
            total_correct == correct_types(results@.subrange(0, i as int)).len(),
            abs_correct == abstention_correct_spec(results@.subrange(0, i as int)),
            abs_total == abstention_total_spec(results@.subrange(0, i as int)),
            total_tokens == tokens_total(results@.subrange(0, i as int)),
        decreases results.len() - i,
    {
        let ghost pre = results@.subrange(0, i as int);
        let ghost post = results@.subrange(0, i + 1);
        assert(post.drop_last() =~= pre);
        let r = &results[i];
        assert(post.last() == *r);
        let ghost tpre = result_types(pre);
        let ghost tpost = result_types(post);
        assert(tpost =~= tpre.push(r.question_type));
        assert(tpost.drop_last() =~= tpre);
        proof {
            lemma_tally_prefix(results@, i + 1);
            lemma_tally_bounds(pre);
            lemma_first_seen(tpre);
            lemma_occurrences_bounds(tpre, r.question_type);
            lemma_occurrences_bounds(correct_types(pre), r.question_type);
            lemma_type_correct_le_total(pre, r.question_type);
        }
        total_tokens = total_tokens + r.tokens_used as u64;
        if r.is_abstention {
            abs_total = abs_total + 1;
            if r.is_correct {
                abs_correct = abs_correct + 1;
            }
        }
        let t = r.question_type;
        let ghost cpre = correct_types(pre);
        let ghost cpost = correct_types(post);
        if r.is_correct {
            assert(cpost =~= cpre.push(t));
            assert(cpost.drop_last() =~= cpre);
        } else {
            assert(cpost =~= cpre);
        }
        let mut k: usize = 0;
        while k < per_type.len() && per_type[k].question_type != t
            invariant
                k <= per_type.len(),
                forall|j: int| 0 <= j < k ==> (#[trigger] per_type@[j]).question_type != t,
            decreases per_type.len() - k,
        {
            k = k + 1;
        }
        if k < per_type.len() {
            let old_entry = per_type[k];
            let correct = if r.is_correct {
                old_entry.correct + 1
            } else {
                old_entry.correct
            };
            per_type.set(k, TypeCount { question_type: t, correct, total: old_entry.total + 1 });
            assert(first_seen(tpre)[k as int] == t);
            assert(first_seen(tpre).contains(t));
            assert(first_seen(tpost) == first_seen(tpre));
            assert forall|j: int| 0 <= j < per_type@.len() implies {
                let u = first_seen(tpost)[j];
                &&& (#[trigger] per_type@[j]).question_type == u
                &&& per_type@[j].total as int == occurrences(tpost, u)
                &&& per_type@[j].correct as int == occurrences(cpost, u)
            } by {
                if j != k {
                    assert(first_seen(tpre)[j] != first_seen(tpre)[k as int]);
                }
            }
        } else {
            assert(!first_seen(tpre).contains(t)) by {
                if first_seen(tpre).contains(t) {
                    let j = choose|j: int| 0 <= j < first_seen(tpre).len() && first_seen(tpre)[j] == t;
                    assert(per_type@[j].question_type == t);
                }
            }
            assert(!tpre.contains(t));
            proof {
                lemma_occurrences_bounds_correct(pre, t);
            }
            let correct: usize = if r.is_correct {
                1
            } else {
                0
            };
            per_type.push(TypeCount { question_type: t, correct, total: 1 });
            assert(first_seen(tpost) == first_seen(tpre).push(t));
            assert forall|j: int| 0 <= j < per_type@.len() implies {
                let u = first_seen(tpost)[j];
                &&& (#[trigger] per_type@[j]).question_type == u
                &&& per_type@[j].total as int == occurrences(tpost, u)
                &&& per_type@[j].correct as int == occurrences(cpost, u)
            } by {
                if j < per_type@.len() - 1 {
                    assert(first_seen(tpre)[j] != t) by {
                        assert(first_seen(tpre).contains(first_seen(tpre)[j]));
                    }
                }
            }
        }
        if r.is_correct {
            total_correct = total_correct + 1;
        }
        i = i + 1;
    }
    assert(results@.subrange(0, i as int) =~= results@);
    MetricCounts {
        per_type,
        total_correct,
        abstention_correct: abs_correct,
        abstention_total: abs_total,
        total_questions: results.len(),
        total_tokens,
    }
}

/// A type with no results has no correct results.
proof fn lemma_occurrences_bounds_correct(rs: Seq<EvalResult>, t: QuestionType)
    requires
        !result_types(rs).contains(t),
    ensures
        occurrences(correct_types(rs), t) == 0,
        occurrences(result_types(rs), t) == 0,
{
    lemma_occurrences_bounds(result_types(rs), t);
    lemma_type_correct_le_total(rs, t);
}

} // verus!
