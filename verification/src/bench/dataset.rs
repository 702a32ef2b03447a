//! The LongMemEval dataset model: questions, answers, question types,
//! evaluation results, and the counts taken over them.
use vstd::prelude::*;

use crate::text::{contains_seq, join, join_strings, str_contains, string_views, to_lowercase, lowercase_of, str_equals};

verus! {

/// A single conversation turn.
#[derive(Debug, Clone)]
pub struct Turn {
    pub role: String,
    pub content: String,
    /// Evidence turns are marked with this flag.
    pub has_answer: bool,
}

/// A conversation session (list of turns).
pub type Session = Vec<Turn>;

/// The 6 base question types in LongMemEval.
#[derive(Debug, Clone, Copy, PartialEq, Eq, Hash, Structural)]
pub enum QuestionType {
    SingleSessionUser,
    SingleSessionAssistant,
    SingleSessionPreference,
    MultiSession,
    KnowledgeUpdate,
    TemporalReasoning,
}

/// The human-readable name of a question type.
pub open spec fn display_name_spec(t: QuestionType) -> Seq<char> {
    match t {
        QuestionType::SingleSessionUser => "Single-Session (User)"@,
        QuestionType::SingleSessionAssistant => "Single-Session (Assistant)"@,
        QuestionType::SingleSessionPreference => "Single-Session (Preference)"@,
        QuestionType::MultiSession => "Multi-Session"@,
        QuestionType::KnowledgeUpdate => "Knowledge Update"@,
        QuestionType::TemporalReasoning => "Temporal Reasoning"@,
    }
}

impl QuestionType {
    /// The human-readable name of the question type.
    pub fn display_name(&self) -> (s: &'static str)
        ensures
            s@ == display_name_spec(*self),
    {
        match self {
            QuestionType::SingleSessionUser => "Single-Session (User)",
            QuestionType::SingleSessionAssistant => "Single-Session (Assistant)",
            QuestionType::SingleSessionPreference => "Single-Session (Preference)",
            QuestionType::MultiSession => "Multi-Session",
            QuestionType::KnowledgeUpdate => "Knowledge Update",
            QuestionType::TemporalReasoning => "Temporal Reasoning",
        }
    }
}

/// Ground truth answer: a string or a list of strings.
#[derive(Debug, Clone)]
pub enum Answer {
    Single(String),
    Multiple(Vec<String>),
}

/// The answer as one text: a list is joined with `"; "`.
pub open spec fn answer_text(a: Answer) -> Seq<char> {
    match a {
        Answer::Single(s) => s@,
        Answer::Multiple(v) => join(string_views(v@), "; "@),
    }
}

impl Answer {
    /// Flatten to a single string for judge comparison.
    pub fn as_text(&self) -> (r: String)
        ensures
            r@ == answer_text(*self),
    {
        match self {
            Answer::Single(s) => s.clone(),
            Answer::Multiple(v) => join_strings(v, "; "),
        }
    }
}

/// A single LongMemEval question entry.
#[derive(Debug, Clone)]
pub struct Question {
    pub question_id: String,
    pub question_type: QuestionType,
    pub question: String,
    pub answer: Answer,
    pub question_date: String,
    pub haystack_session_ids: Vec<String>,
    pub haystack_dates: Vec<String>,
    pub haystack_sessions: Vec<Session>,
    pub answer_session_ids: Vec<String>,
}

/// The number of turns in the first `k` sessions.
pub open spec fn turns_in(sessions: Seq<Session>) -> nat
    decreases sessions.len(),
{
    if sessions.len() == 0 {
        0
    } else {
        turns_in(sessions.drop_last()) + sessions.last()@.len()
    }
}

/// Whether a question is an abstention question: its id contains `_abs`.
pub open spec fn is_abstention_spec(q: Question) -> bool {
    contains_seq(q.question_id@, "_abs"@)
}

impl Question {
    /// Whether this is an abstention question (should be answered with "I don't know").
    pub fn is_abstention(&self) -> (r: bool)
        ensures
            r == is_abstention_spec(*self),
    {
        str_contains(self.question_id.as_str(), "_abs")
    }

    /// Total number of turns across all haystack sessions.
    pub fn total_turns(&self) -> (n: usize)
        requires
            turns_in(self.haystack_sessions@) <= usize::MAX,
        ensures
            n == turns_in(self.haystack_sessions@),
    {
        let mut n: usize = 0;
        let mut i: usize = 0;
        while i < self.haystack_sessions.len()
            invariant
                i <= self.haystack_sessions.len(),
                n == turns_in(self.haystack_sessions@.subrange(0, i as int)),
                turns_in(self.haystack_sessions@) <= usize::MAX,
            decreases self.haystack_sessions.len() - i,
        {
            let ghost pre = self.haystack_sessions@.subrange(0, i as int);
            let ghost post = self.haystack_sessions@.subrange(0, i + 1);
            assert(post.drop_last() =~= pre);
            proof {
                lemma_turns_in_prefix(self.haystack_sessions@, i + 1);
            }
            n = n + self.haystack_sessions[i].len();
            i = i + 1;
        }
        assert(self.haystack_sessions@.subrange(0, i as int) =~= self.haystack_sessions@);
        n
    }
}

/// The turns of a prefix of the sessions are no more than those of all.
pub proof fn lemma_turns_in_prefix(sessions: Seq<Session>, k: int)
    requires
        0 <= k <= sessions.len(),
    ensures
        turns_in(sessions.subrange(0, k)) <= turns_in(sessions),
    decreases sessions.len() - k,
{
    if k < sessions.len() {
        lemma_turns_in_prefix(sessions, k + 1);
        assert(sessions.subrange(0, k + 1).drop_last() =~= sessions.subrange(0, k));
    } else {
        assert(sessions.subrange(0, k) =~= sessions);
    }
}

/// How many times `t` occurs in `ts`.
pub open spec fn occurrences(ts: Seq<QuestionType>, t: QuestionType) -> nat
    decreases ts.len(),
{
    if ts.len() == 0 {
        0
    } else {
        occurrences(ts.drop_last(), t) + if ts.last() == t {
            1nat
        } else {
            0nat
        }
    }
}

/// The distinct types of `ts`, in the order of their first occurrence.
pub open spec fn first_seen(ts: Seq<QuestionType>) -> Seq<QuestionType>
    decreases ts.len(),
{
    if ts.len() == 0 {
        seq![]
    } else {
        let s = first_seen(ts.drop_last());
        if s.contains(ts.last()) {
            s
        } else {
            s.push(ts.last())
        }
    }
}

/// The sum, over the types of `list`, of their occurrences in `ts`.
pub open spec fn sum_occurrences(ts: Seq<QuestionType>, list: Seq<QuestionType>) -> nat
    decreases list.len(),
{
    if list.len() == 0 {
        0
    } else {
        sum_occurrences(ts, list.drop_last()) + occurrences(ts, list.last())
    }
}

/// The types seen first are distinct and are exactly the types that occur.
pub proof fn lemma_first_seen(ts: Seq<QuestionType>)
    ensures
        first_seen(ts).no_duplicates(),
        forall|t: QuestionType| first_seen(ts).contains(t) <==> ts.contains(t),
    decreases ts.len(),
{
    if ts.len() > 0 {
        let pre = ts.drop_last();
        lemma_first_seen(pre);
        assert forall|t: QuestionType| ts.contains(t) <==> (pre.contains(t) || t == ts.last()) by {
            if ts.contains(t) {
                let i = choose|i: int| 0 <= i < ts.len() && ts[i] == t;
                if i < ts.len() - 1 {
                    assert(pre[i] == t);
                }
            }
            if pre.contains(t) {
                let i = choose|i: int| 0 <= i < pre.len() && pre[i] == t;
                assert(ts[i] == t);
            }
            if t == ts.last() {
                assert(ts[ts.len() - 1] == t);
            }
        }
        let s = first_seen(pre);
        let x = ts.last();
        if !s.contains(x) {
            let s2 = s.push(x);
            assert forall|t: QuestionType| s2.contains(t) <==> (s.contains(t) || t == x) by {
                if s2.contains(t) {
                    let i = choose|i: int| 0 <= i < s2.len() && s2[i] == t;
                    if i < s.len() {
                        assert(s[i] == t);
                    }
                }
                if s.contains(t) {
                    let i = choose|i: int| 0 <= i < s.len() && s[i] == t;
                    assert(s2[i] == t);
                }
                if t == x {
                    assert(s2[s.len() as int] == t);
                }
            }
            assert forall|a: int, b: int| 0 <= a < s2.len() && 0 <= b < s2.len() && a != b implies s2[a]
                != s2[b] by {
                if a < s.len() && b < s.len() {
                    assert(s[a] != s[b]);
                } else if a < s.len() {
                    assert(s.contains(s[a]));
                } else {
                    assert(s.contains(s[b]));
                }
            }
        }
    }
}

/// A type that does not occur has no occurrences, and no type occurs more
/// often than the length.
pub proof fn lemma_occurrences_bounds(ts: Seq<QuestionType>, t: QuestionType)
    ensures
        occurrences(ts, t) <= ts.len(),
        !ts.contains(t) ==> occurrences(ts, t) == 0,
        ts.contains(t) ==> occurrences(ts, t) > 0,
    decreases ts.len(),
{
    if ts.len() > 0 {
        let pre = ts.drop_last();
        lemma_occurrences_bounds(pre, t);
        if !ts.contains(t) {
            assert(!pre.contains(t)) by {
                if pre.contains(t) {
                    let i = choose|i: int| 0 <= i < pre.len() && pre[i] == t;
                    assert(ts[i] == t);
                }
            }
            assert(ts[ts.len() - 1] != t);
        }
        if ts.contains(t) && ts.last() != t {
            let i = choose|i: int| 0 <= i < ts.len() && ts[i] == t;
            assert(i < ts.len() - 1);
            assert(pre[i] == t);
        }
    }
}

/// A type listed once in a list without duplicates occurs there once.
pub proof fn lemma_occurs_once(list: Seq<QuestionType>, x: QuestionType)
    requires
        list.no_duplicates(),
        list.contains(x),
    ensures
        occurrences(list, x) == 1,
    decreases list.len(),
{
    let pre = list.drop_last();
    if list.last() == x {
        assert(!pre.contains(x)) by {
            if pre.contains(x) {
                let i = choose|i: int| 0 <= i < pre.len() && pre[i] == x;
                assert(list[i] == list[list.len() - 1]);
            }
        }
        lemma_occurrences_bounds(pre, x);
    } else {
        let i = choose|i: int| 0 <= i < list.len() && list[i] == x;
        assert(pre[i] == x);
        assert(pre.no_duplicates()) by {
            assert forall|a: int, b: int| 0 <= a < pre.len() && 0 <= b < pre.len() && a != b implies pre[a]
                != pre[b] by {
                assert(list[a] != list[b]);
            }
        }
        lemma_occurs_once(pre, x);
    }
}

/// One more occurrence of `x` adds, to the sum over `list`, the number of
/// times `x` is listed.
pub proof fn lemma_sum_push(ts: Seq<QuestionType>, x: QuestionType, list: Seq<QuestionType>)
    ensures
        sum_occurrences(ts.push(x), list) == sum_occurrences(ts, list) + occurrences(list, x),
    decreases list.len(),
{
    assert(ts.push(x).drop_last() =~= ts);
    if list.len() > 0 {
        lemma_sum_push(ts, x, list.drop_last());
    }
}

/// Summed over a list of distinct types that holds every type of `ts`, the
/// occurrences account for all of `ts`.
pub proof fn lemma_sum_occurrences(ts: Seq<QuestionType>, list: Seq<QuestionType>)
    requires
        list.no_duplicates(),
        forall|i: int| 0 <= i < ts.len() ==> list.contains(#[trigger] ts[i]),
    ensures
        sum_occurrences(ts, list) == ts.len(),
    decreases ts.len(),
{
    if ts.len() == 0 {
        lemma_sum_empty(list);
        assert(ts =~= Seq::<QuestionType>::empty());
    } else {
        let pre = ts.drop_last();
        assert forall|i: int| 0 <= i < pre.len() implies list.contains(#[trigger] pre[i]) by {
            assert(pre[i] == ts[i]);
        }
        lemma_sum_occurrences(pre, list);
        assert(pre.push(ts.last()) =~= ts);
        lemma_sum_push(pre, ts.last(), list);
        assert(list.contains(ts[ts.len() - 1]));
        lemma_occurs_once(list, ts.last());
    }
}

/// Nothing occurs in the empty sequence.
pub proof fn lemma_sum_empty(list: Seq<QuestionType>)
    ensures
        sum_occurrences(Seq::<QuestionType>::empty(), list) == 0,
    decreases list.len(),
{
    if list.len() > 0 {
        lemma_sum_empty(list.drop_last());
    }
}

/// Per-type counts, in the order in which the types first occur, account
/// for every element: their sum is the length.
pub proof fn lemma_type_counts_total(ts: Seq<QuestionType>)
    ensures
        sum_occurrences(ts, first_seen(ts)) == ts.len(),
{
    lemma_first_seen(ts);
    assert forall|i: int| 0 <= i < ts.len() implies first_seen(ts).contains(#[trigger] ts[i]) by {
        assert(ts.contains(ts[i]));
    }
    lemma_sum_occurrences(ts, first_seen(ts));
}

/// Counts the occurrences of each type of `ts`, listing the types in the
/// order in which they first occur.
pub fn count_types(ts: &Vec<QuestionType>) -> (r: Vec<(QuestionType, usize)>)
    ensures
        r@.len() == first_seen(ts@).len(),
        forall|i: int|
            0 <= i < r@.len() ==> (#[trigger] r@[i]).0 == first_seen(ts@)[i] && r@[i].1 as int
                == occurrences(ts@, first_seen(ts@)[i]),
{
    let mut out: Vec<(QuestionType, usize)> = Vec::new();
    let mut i: usize = 0;
    while i < ts.len()
        invariant
            i <= ts.len(),
            out@.len() == first_seen(ts@.subrange(0, i as int)).len(),
            forall|j: int|
                0 <= j < out@.len() ==> (#[trigger] out@[j]).0 == first_seen(ts@.subrange(0, i as int))[j]
                    && out@[j].1 as int == occurrences(ts@.subrange(0, i as int), out@[j].0),
        decreases ts.len() - i,
    {
        let ghost pre = ts@.subrange(0, i as int);
        let ghost post = ts@.subrange(0, i + 1);
        assert(post.drop_last() =~= pre);
        let t = ts[i];
        assert(post.last() == t);
        proof {
            lemma_first_seen(pre);
            lemma_occurrences_bounds(pre, t);
        }
        let mut k: usize = 0;
        while k < out.len() && out[k].0 != t
            invariant
                k <= out.len(),
                forall|j: int| 0 <= j < k ==> (#[trigger] out@[j]).0 != t,
            decreases out.len() - k,
        {
            k = k + 1;
        }
        if k < out.len() {
            let c = out[k].1;
            let ghost old_out = out@;
            out.set(k, (t, c + 1));
            assert forall|j: int| 0 <= j < out@.len() implies (#[trigger] out@[j]).0 == first_seen(post)[j]
                && out@[j].1 as int == occurrences(post, out@[j].0) by {
                assert(first_seen(pre).contains(t)) by {
                    assert(first_seen(pre)[k as int] == t);
                }
                if j != k {
                    assert(first_seen(pre)[j] != first_seen(pre)[k as int]);
                }
            }
        } else {
            assert(!first_seen(pre).contains(t)) by {
                if first_seen(pre).contains(t) {
                    let j = choose|j: int| 0 <= j < first_seen(pre).len() && first_seen(pre)[j] == t;
                    assert(out@[j].0 == t);
                }
            }
            out.push((t, 1));
        }
        i = i + 1;
    }
    assert(ts@.subrange(0, ts.len() as int) =~= ts@);
    out
}

/// The types of a sequence of questions.
pub open spec fn question_types(qs: Seq<Question>) -> Seq<QuestionType> {
    qs.map_values(|q: Question| q.question_type)
}

/// The number of abstention questions.
pub open spec fn abstention_count_spec(qs: Seq<Question>) -> nat
    decreases qs.len(),
{
    if qs.len() == 0 {
        0
    } else {
        abstention_count_spec(qs.drop_last()) + if is_abstention_spec(qs.last()) {
            1nat
        } else {
            0nat
        }
    }
}

/// The full LongMemEval dataset.
#[derive(Debug, Clone)]
pub struct Dataset {
    pub questions: Vec<Question>,
}

impl Dataset {
    /// Count by question type: each type that occurs, in the order of its
    /// first question, with its number of questions.
    pub fn count_by_type(&self) -> (r: Vec<(QuestionType, usize)>)
        ensures
            r@.len() == first_seen(question_types(self.questions@)).len(),
            forall|i: int|
                0 <= i < r@.len() ==> (#[trigger] r@[i]).0 == first_seen(
                    question_types(self.questions@),
                )[i] && r@[i].1 as int == occurrences(question_types(self.questions@), r@[i].0),
    {
        let mut ts: Vec<QuestionType> = Vec::new();
        let mut i: usize = 0;
        while i < self.questions.len()
            invariant
                i <= self.questions.len(),
                ts@ == question_types(self.questions@.subrange(0, i as int)),
            decreases self.questions.len() - i,
        {
            ts.push(self.questions[i].question_type);
            assert(ts@ =~= question_types(self.questions@.subrange(0, i + 1)));
            i = i + 1;
        }
        assert(self.questions@.subrange(0, i as int) =~= self.questions@);
        count_types(&ts)
    }

    /// Count abstention questions.
    pub fn abstention_count(&self) -> (n: usize)
        ensures
            n == abstention_count_spec(self.questions@),
            n <= self.questions@.len(),
    {
        let mut n: usize = 0;
        let mut i: usize = 0;
        while i < self.questions.len()
            invariant
                i <= self.questions.len(),
                n == abstention_count_spec(self.questions@.subrange(0, i as int)),
                n <= i,
            decreases self.questions.len() - i,
        {
            let ghost pre = self.questions@.subrange(0, i as int);
            let ghost post = self.questions@.subrange(0, i + 1);
            assert(post.drop_last() =~= pre);
            if self.questions[i].is_abstention() {
                n = n + 1;
            }
            i = i + 1;
        }
        assert(self.questions@.subrange(0, i as int) =~= self.questions@);
        n
    }
}

/// Result of evaluating a single question.
#[derive(Debug, Clone)]
pub struct EvalResult {
    pub question_id: String,
    pub question_type: QuestionType,
    pub is_abstention: bool,
    pub hypothesis: String,
    pub ground_truth: String,
    pub is_correct: bool,
    pub tokens_used: u32,
}

/// Dataset variant (oracle, S, M).
#[derive(Debug, Clone, Copy, PartialEq, Eq, Structural)]
pub enum DatasetVariant {
    /// Oracle: evidence sessions only (~15MB)
    Oracle,
    /// S: ~40 sessions, ~115K tokens (~277MB)
    Small,
    /// M: ~500 sessions, ~1.5M tokens (~2.7GB)
    Medium,
}

/// The file name of a dataset variant.
pub open spec fn variant_filename(v: DatasetVariant) -> Seq<char> {
    match v {
        DatasetVariant::Oracle => "longmemeval_oracle.json"@,
        DatasetVariant::Small => "longmemeval_s_cleaned.json"@,
        DatasetVariant::Medium => "longmemeval_m_cleaned.json"@,
    }
}

/// Where the dataset files are published.
pub open spec fn dataset_base_url() -> Seq<char> {
    "https://huggingface.co/datasets/xiaowu0162/longmemeval-cleaned/resolve/main/"@
}

impl DatasetVariant {
    /// The file name of the variant.
    pub fn filename(&self) -> (s: &'static str)
        ensures
            s@ == variant_filename(*self),
    {
        match self {
            DatasetVariant::Oracle => "longmemeval_oracle.json",
            DatasetVariant::Small => "longmemeval_s_cleaned.json",
            DatasetVariant::Medium => "longmemeval_m_cleaned.json",
        }
    }

    /// The URL the variant is downloaded from.
    pub fn download_url(&self) -> (s: String)
        ensures
            s@ == dataset_base_url() + variant_filename(*self),
    {
        let mut url = String::from_str(
            "https://huggingface.co/datasets/xiaowu0162/longmemeval-cleaned/resolve/main/",
        );
        url.append(self.filename());
        url
    }
}

/// Whether a cached dataset file of `size` bytes is complete enough to be
/// used instead of downloading the dataset again: more than 1000 bytes.
pub fn cache_is_complete(size: u64) -> (r: bool)
    ensures
        r == (size > 1000),
{
    size > 1000
}

/// The variant named by a command-line argument, read case-insensitively:
/// `oracle` or `o`, `small` or `s`, `medium` or `m`.
pub open spec fn variant_by_name(lower: Seq<char>) -> Option<DatasetVariant> {
    if lower == "oracle"@ || lower == "o"@ {
        Some(DatasetVariant::Oracle)
    } else if lower == "small"@ || lower == "s"@ {
        Some(DatasetVariant::Small)
    } else if lower == "medium"@ || lower == "m"@ {
        Some(DatasetVariant::Medium)
    } else {
        None
    }
}

/// The variant named by `s` (after lowercasing), or `None` for an unknown
/// name, which the command line reports before falling back to the oracle
/// variant.
pub fn parse_variant(s: &str) -> (r: Option<DatasetVariant>)
    ensures
        r == variant_by_name(lowercase_of(s@)),
{
    let lower = to_lowercase(s);
    variant_by_lowercase(lower.as_str())
}

/// The variant named by an already lowercased name, or `None` for an
/// unknown one.
pub fn variant_by_lowercase(l: &str) -> (r: Option<DatasetVariant>)
    ensures
        r == variant_by_name(l@),
{
    if str_equals(l, "oracle") || str_equals(l, "o") {
        Some(DatasetVariant::Oracle)
    } else if str_equals(l, "small") || str_equals(l, "s") {
        Some(DatasetVariant::Small)
    } else if str_equals(l, "medium") || str_equals(l, "m") {
        Some(DatasetVariant::Medium)
    } else {
        None
    }
}

/// The names of the variants on the command line, in any case: oracle or
/// o, small or s, medium or m; no other name names a variant.
pub proof fn lemma_variant_names(lower: Seq<char>)
    ensures
        variant_by_name(lower) == Some(DatasetVariant::Oracle) <==> (lower == "oracle"@ || lower == "o"@),
        variant_by_name(lower) == Some(DatasetVariant::Small) <==> (lower == "small"@ || lower == "s"@),
        variant_by_name(lower) == Some(DatasetVariant::Medium) <==> (lower == "medium"@ || lower == "m"@),
{
    reveal_strlit("oracle");
    reveal_strlit("o");
    reveal_strlit("small");
    reveal_strlit("s");
    reveal_strlit("medium");
    reveal_strlit("m");
    assert("oracle"@.len() == 6 && "small"@.len() == 5 && "medium"@.len() == 6);
    assert("o"@.len() == 1 && "s"@.len() == 1 && "m"@.len() == 1);
    assert("oracle"@[0] == 'o' && "medium"@[0] == 'm' && "o"@[0] == 'o' && "s"@[0] == 's' && "m"@[0] == 'm');
    assert("oracle"@ != "small"@ && "oracle"@ != "s"@ && "oracle"@ != "medium"@ && "oracle"@ != "m"@);
    assert("o"@ != "small"@ && "o"@ != "s"@ && "o"@ != "medium"@ && "o"@ != "m"@);
    assert("small"@ != "medium"@ && "small"@ != "m"@ && "s"@ != "medium"@ && "s"@ != "m"@);
}

} // verus!
