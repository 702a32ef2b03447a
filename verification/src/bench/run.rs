//! Which questions a benchmark run evaluates: the first `limit` of the
//! dataset (all of them for a limit of zero), less those whose results are
//! already recorded, so that an interrupted run resumes where it stopped.
use vstd::prelude::*;

use crate::bench::dataset::Question;
use crate::text::str_equals;

verus! {

/// How many questions of the dataset a run covers.
pub open spec fn evaluation_window(len: nat, limit: nat) -> nat {
    if limit > 0 && limit < len {
        limit
    } else {
        len
    }
}

/// Whether a question id is among the recorded ones.
pub open spec fn is_recorded(id: Seq<char>, recorded: Seq<String>) -> bool {
    exists|j: int| 0 <= j < recorded.len() && (#[trigger] recorded[j])@ == id
}

/// The indices, below `k`, of the questions not yet recorded, in order.
pub open spec fn pending_below(qs: Seq<Question>, recorded: Seq<String>, k: int) -> Seq<usize>
    decreases k,
{
    if k <= 0 {
        seq![]
    } else {
        let rest = pending_below(qs, recorded, k - 1);
        if is_recorded(qs[k - 1].question_id@, recorded) {
            rest
        } else {
            rest.push((k - 1) as usize)
        }
    }
}

/// Whether the question id is among the recorded ones.
fn recorded_contains(recorded: &Vec<String>, id: &str) -> (r: bool)
    ensures
        r == is_recorded(id@, recorded@),
{
    let mut j: usize = 0;
    while j < recorded.len()
        invariant
            j <= recorded.len(),
            forall|i: int| 0 <= i < j ==> (#[trigger] recorded@[i])@ != id@,
        decreases recorded.len() - j,
    {
        if str_equals(recorded[j].as_str(), id) {
            return true;
        }
        j = j + 1;
    }
    false
}

/// The indices of the questions a run evaluates: those among the first
/// `limit` (all for zero) whose id is not among the recorded results.
pub fn questions_to_evaluate(questions: &Vec<Question>, limit: usize, recorded: &Vec<String>) -> (r: Vec<usize>)
    ensures
        r@ == pending_below(
            questions@,
            recorded@,
            evaluation_window(questions@.len(), limit as nat) as int,
        ),
{
    let n: usize = if limit > 0 && limit < questions.len() {
        limit
    } else {
        questions.len()
    };
    let mut r: Vec<usize> = Vec::new();
    let mut i: usize = 0;
    while i < n
        invariant
            i <= n <= questions.len(),
            r@ == pending_below(questions@, recorded@, i as int),
        decreases n - i,
    {
        if !recorded_contains(recorded, questions[i].question_id.as_str()) {
            r.push(i);
        }
        i = i + 1;
    }
    r
}

} // verus!
