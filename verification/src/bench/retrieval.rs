//! Context building for a benchmark question, and the prompt that asks for
//! an answer.
use vstd::prelude::*;

use crate::bench::dataset::{turns_in, Question, QuestionType, Turn};
use crate::error::Result;
use crate::numeric::{lemma_round_24_monotone, round_24, round_to_24_bits, saturate};
use crate::text::{join, join_strings, string_views, utf8_len, utf8_len_of};

verus! {

/// Context retrieved for answering a question.
#[derive(Debug, Clone)]
pub struct RetrievedContext {
    /// The assembled context text for LLM prompt.
    pub context_text: String,
    /// Number of memories stored for this question.
    pub memories_stored: usize,
    /// Number of context items included.
    pub items_included: usize,
    /// Total tokens used.
    pub tokens_used: usize,
}

/// The line of a conversation turn: `role: content`.
pub open spec fn turn_line(t: Turn) -> Seq<char> {
    t.role@ + ": "@ + t.content@ + "\n"@
}

/// The lines of the turns of a session, in order.
pub open spec fn turn_lines(ts: Seq<Turn>) -> Seq<char>
    decreases ts.len(),
{
    if ts.len() == 0 {
        seq![]
    } else {
        turn_lines(ts.drop_last()) + turn_line(ts.last())
    }
}

/// The date of the `i`-th session, or `unknown date` when none is given.
pub open spec fn session_date(q: Question, i: int) -> Seq<char> {
    if 0 <= i < q.haystack_dates@.len() {
        q.haystack_dates@[i]@
    } else {
        "unknown date"@
    }
}

/// The text of the `i`-th session: a header with its date, then its turns.
pub open spec fn session_text(q: Question, i: int) -> Seq<char> {
    "[Session from "@ + session_date(q, i) + "]\n"@ + turn_lines(q.haystack_sessions@[i]@)
}

/// The texts of all sessions of a question.
pub open spec fn session_texts(q: Question) -> Seq<Seq<char>> {
    Seq::new(q.haystack_sessions@.len(), |i: int| session_text(q, i))
}

/// The UTF-8 bytes of the first `k` texts.
pub open spec fn bytes_before(texts: Seq<Seq<char>>, k: int) -> nat
    decreases k,
{
    if k <= 0 {
        0
    } else {
        bytes_before(texts, k - 1) + utf8_len(texts[k - 1])
    }
}

/// The context budget in characters: unlimited for a budget of zero, else
/// four characters per token.
pub open spec fn budget_chars(context_budget: usize) -> nat {
    if context_budget == 0 {
        usize::MAX as nat
    } else {
        saturate(round_24(context_budget as nat) * 4)
    }
}

/// The estimated tokens of a text of `bytes` bytes: a quarter per byte.
pub open spec fn tokens_for(bytes: nat) -> nat {
    saturate(round_24(bytes) / 4)
}

/// The bytes taken by more texts are never fewer.
pub proof fn lemma_bytes_before_monotone(texts: Seq<Seq<char>>, a: int, b: int)
    requires
        a <= b,
    ensures
        bytes_before(texts, a) <= bytes_before(texts, b),
    decreases b - a,
{
    if a < b {
        lemma_bytes_before_monotone(texts, a, b - 1);
    }
}

/// With a budget of zero, the budget is unlimited: the only number of
/// sessions that meets the contract of [`process_question`] is all of
/// them, whenever all of them together fit in `usize::MAX` bytes.
pub proof fn lemma_unlimited_budget_includes_all(texts: Seq<Seq<char>>, n: int)
    requires
        0 <= n <= texts.len(),
        bytes_before(texts, texts.len() as int) <= usize::MAX,
        n < texts.len() ==> bytes_before(texts, n + 1) > budget_chars(0),
    ensures
        n == texts.len(),
{
    if n < texts.len() {
        lemma_bytes_before_monotone(texts, n + 1, texts.len() as int);
    }
}

/// A larger budget is never fewer characters; the unlimited budget (zero)
/// is at least any other.
pub proof fn lemma_budget_chars_monotone(b1: usize, b2: usize)
    requires
        (0 < b1 <= b2) || b2 == 0,
    ensures
        budget_chars(b1) <= budget_chars(b2),
{
    if b2 != 0 {
        lemma_round_24_monotone(b1 as nat, b2 as nat);
    }
}

/// Joining the first `m` texts gives a prefix of joining the first `n`, for
/// `m <= n`.
pub proof fn lemma_join_take_prefix(texts: Seq<Seq<char>>, sep: Seq<char>, m: int, n: int)
    requires
        0 <= m <= n <= texts.len(),
    ensures
        join(texts.take(m), sep).is_prefix_of(join(texts.take(n), sep)),
    decreases n - m,
{
    if m < n {
        lemma_join_take_prefix(texts, sep, m, n - 1);
        let jm = join(texts.take(m), sep);
        let j1 = join(texts.take(n - 1), sep);
        let j2 = join(texts.take(n), sep);
        assert(texts.take(n).drop_last() =~= texts.take(n - 1));
        if n == 1 {
            assert(m == 0);
            assert(jm =~= seq![]);
        } else {
            assert(j2 == j1 + sep + texts.take(n).last());
            assert(jm =~= j2.subrange(0, jm.len() as int));
        }
    }
}

/// A larger context budget includes at least as many sessions, and its
/// context text begins with the text of the smaller budget: for two results
/// of [`process_question`] on the same sessions, with budgets `b1` and `b2`
/// where `0 < b1 <= b2` or `b2` is zero (unlimited), and `n1`, `n2` the
/// numbers of sessions included, `n1 <= n2` and the first context is a
/// prefix of the second.
pub proof fn lemma_budget_monotone(texts: Seq<Seq<char>>, b1: usize, b2: usize, n1: int, n2: int)
    requires
        (0 < b1 <= b2) || b2 == 0,
        0 <= n1 <= texts.len(),
        bytes_before(texts, n1) <= budget_chars(b1),
        n1 < texts.len() ==> bytes_before(texts, n1 + 1) > budget_chars(b1),
        0 <= n2 <= texts.len(),
        bytes_before(texts, n2) <= budget_chars(b2),
        n2 < texts.len() ==> bytes_before(texts, n2 + 1) > budget_chars(b2),
    ensures
        n1 <= n2,
        join(texts.take(n1), "\n"@).is_prefix_of(join(texts.take(n2), "\n"@)),
{
    lemma_budget_chars_monotone(b1, b2);
    if n2 < n1 {
        lemma_bytes_before_monotone(texts, n2 + 1, n1);
    }
    lemma_join_take_prefix(texts, "\n"@, n1, n2);
}

/// The header and turns of one session.
fn format_session(date: &str, session: &Vec<Turn>) -> (s: String)
    ensures
        s@ == "[Session from "@ + date@ + "]\n"@ + turn_lines(session@),
{
    let mut s = String::from_str("[Session from ");
    s.append(date);
    s.append("]\n");
    let ghost head = s@;
    let mut k: usize = 0;
    while k < session.len()
        invariant
            k <= session.len(),
            head == "[Session from "@ + date@ + "]\n"@,
            s@ == head + turn_lines(session@.subrange(0, k as int)),
        decreases session.len() - k,
    {
        let ghost pre = session@.subrange(0, k as int);
        let ghost post = session@.subrange(0, k + 1);
        assert(post.drop_last() =~= pre);
        assert(post.last() == session@[k as int]);
        s.append(session[k].role.as_str());
        s.append(": ");
        s.append(session[k].content.as_str());
        s.append("\n");
        assert(s@ =~= head + turn_lines(post));
        k = k + 1;
    }
    assert(session@.subrange(0, k as int) =~= session@);
    s
}

/// Process a single question: format the haystack sessions, in order, as
/// context, as long as their total size stays within the budget.
///
/// Pass `context_budget = 0` for unlimited (recommended for oracle).
pub fn process_question(question: &Question, context_budget: usize) -> (r: Result<RetrievedContext>)
    requires
        turns_in(question.haystack_sessions@) <= usize::MAX,
    ensures
        r matches Ok(c) && {
            let texts = session_texts(*question);
            let n = c.items_included as int;
            &&& n <= texts.len()
            &&& bytes_before(texts, n) <= budget_chars(context_budget)
            &&& (n < texts.len() ==> bytes_before(texts, n + 1) > budget_chars(context_budget))
            &&& c.context_text@ == join(texts.take(n), "\n"@)
            &&& c.tokens_used as nat == tokens_for(utf8_len(c.context_text@))
            &&& c.memories_stored as nat == turns_in(question.haystack_sessions@)
        },
{
    let budget: u128 = if context_budget == 0 {
        usize::MAX as u128
    } else {
        let rounded = round_to_24_bits(context_budget as u128);
        let chars = rounded * 4;
        if chars > usize::MAX as u128 {
            usize::MAX as u128
        } else {
            chars
        }
    };
    assert(budget == budget_chars(context_budget));
    let ghost texts = session_texts(*question);
    let mut parts: Vec<String> = Vec::new();
    let mut total: u128 = 0;
    let mut i: usize = 0;
    while i < question.haystack_sessions.len()
        invariant
            i <= question.haystack_sessions.len(),
            texts == session_texts(*question),
            budget == budget_chars(context_budget),
            total == bytes_before(texts, i as int),
            total <= budget,
            string_views(parts@) == texts.take(i as int),
        ensures
            i <= question.haystack_sessions.len(),
            total == bytes_before(texts, i as int),
            total <= budget,
            string_views(parts@) == texts.take(i as int),
            i < question.haystack_sessions.len() ==> bytes_before(texts, i + 1) > budget,
        decreases question.haystack_sessions.len() - i,
    {
        let date: &str = if i < question.haystack_dates.len() {
            question.haystack_dates[i].as_str()
        } else {
            "unknown date"
        };
        let text = format_session(date, &question.haystack_sessions[i]);
        assert(text@ == texts[i as int]);
        let len = utf8_len_of(text.as_str());
        if total + len > budget {
            break;
        }
        total = total + len;
        let ghost before = parts@;
        parts.push(text);
        assert(string_views(parts@) =~= string_views(before).push(texts[i as int]));
        assert(texts.take(i + 1) =~= texts.take(i as int).push(texts[i as int]));
        i = i + 1;
    }
    let context_text = join_strings(&parts, "\n");
    let bytes = utf8_len_of(context_text.as_str());
    proof {
        crate::text::lemma_utf8_len_bound(context_text@);
    }
    let rounded = round_to_24_bits(bytes);
    let quarter = rounded / 4;
    let tokens_used: usize = if quarter > usize::MAX as u128 {
        usize::MAX
    } else {
        quarter as usize
    };
    let memories_stored = question.total_turns();
    let items_included = parts.len();
    Ok(RetrievedContext { context_text, memories_stored, items_included, tokens_used })
}

/// The opening of every generation prompt, up to the chat history.
pub const GENERATION_HEAD: &'static str = "I will give you several history chats between a user and an AI assistant. \
    Based on the chat history, answer the question at the end.\n\n\
    History Chats:\n\n";

/// The instruction for abstention questions.
pub const ABSTENTION_INSTRUCTION: &'static str = "Instructions: If the chat history does not contain information that DIRECTLY answers \
    this question, you MUST respond with \"I don't know\" or \"The information is not \
    available in the chat history.\" Do NOT attempt to infer, extrapolate, or guess. \
    Only answer if the information is explicitly stated in the conversations. \
    If you can answer, provide the answer concisely.";

/// The instruction for preference questions.
pub const PREFERENCE_INSTRUCTION: &'static str = "Instructions: Based on the chat history, describe what the user's CONTENT \
    preferences would be when responding to this question. Focus on the TOPICS, \
    SUBJECTS, and SPECIFIC INTERESTS the user has expressed — NOT on response \
    formatting or structure.\n\n\
    Your answer MUST be in the format: \"The user would prefer responses that...\"\n\n\
    Example 1:\n\
    Question: Can you recommend some accessories for my camera?\n\
    Good answer: The user would prefer suggestions of Sony-compatible accessories \
    that enhance their landscape photography, based on their discussion of the \
    Sony Alpha camera and recent mountain photography trips. They might not prefer \
    suggestions for other camera brands or studio photography gear.\n\n\
    Example 2:\n\
    Question: Can you suggest some new recipes to try?\n\
    Good answer: The user would prefer recipes that incorporate quinoa and roasted \
    vegetables, building on their recent success with Mediterranean-style meal prep. \
    They might not prefer recipes with dairy, given their mention of lactose \
    intolerance.\n\n\
    BAD answers describe formatting preferences like \"well-organized with bullet \
    points\" or \"detailed and comprehensive.\" Focus on WHAT the user wants to \
    hear about, not HOW it should be formatted.\n\n\
    Now describe the user's content preferences for the question above:";

/// The instruction for temporal-reasoning questions, up to the current date.
pub const TEMPORAL_INSTRUCTION: &'static str = "Instructions: Answer this question step by step. Pay close attention to \
    dates and timestamps on each session. \
    IMPORTANT: Before computing any count or duration, list EVERY relevant \
    event with its exact date. Then count them explicitly (1, 2, 3...) or \
    compute the date arithmetic step by step. Do not estimate or shortcut. \
    When counting days between dates, enumerate each step. \
    Current Date: ";

/// The instruction for knowledge-update questions.
pub const KNOWLEDGE_UPDATE_INSTRUCTION: &'static str = "Instructions: Answer this question step by step. When information has been \
    updated across sessions, use the MOST RECENT value as the primary answer. \
    IMPORTANT: List ALL versions of the relevant information chronologically with \
    their session dates. Then clearly state the latest/most recent value as your \
    final answer.";

/// The instruction for multi-session questions.
pub const MULTI_SESSION_INSTRUCTION: &'static str = "Instructions: This question requires synthesizing information across multiple \
    sessions. Answer step by step. \
    IMPORTANT: Before giving your final answer, enumerate ALL relevant items/facts \
    from EVERY session. Number each one explicitly. Do not skip any session. \
    Then compile your final answer from the complete list.";

/// The instruction for single-session questions about the user or the assistant.
pub const DEFAULT_INSTRUCTION: &'static str = "Instructions: Answer the question based on the chat history. \
    First extract the relevant information, then provide a concise answer.";

/// The type-specific instruction of a generation prompt.
pub open spec fn generation_instruction(question_date: Seq<char>, question_type: QuestionType, is_abstention: bool) -> Seq<char> {
    if is_abstention {
        ABSTENTION_INSTRUCTION@
    } else {
        match question_type {
            QuestionType::SingleSessionPreference => PREFERENCE_INSTRUCTION@,
            QuestionType::TemporalReasoning => TEMPORAL_INSTRUCTION@ + question_date,
            QuestionType::KnowledgeUpdate => KNOWLEDGE_UPDATE_INSTRUCTION@,
            QuestionType::MultiSession => MULTI_SESSION_INSTRUCTION@,
            _ => DEFAULT_INSTRUCTION@,
        }
    }
}

/// The generation prompt: the chat history, the current date and the
/// question, then the type-specific instruction, then `Answer:`.
pub open spec fn generation_prompt(
    context: Seq<char>,
    question: Seq<char>,
    question_date: Seq<char>,
    question_type: QuestionType,
    is_abstention: bool,
) -> Seq<char> {
    GENERATION_HEAD@ + context + "\n\nCurrent Date: "@ + question_date + "\nQuestion: "@ + question
        + "\n\n"@ + generation_instruction(question_date, question_type, is_abstention)
        + "\n\nAnswer:"@
}

/// Build the generation prompt with type-specific instructions.
pub fn build_generation_prompt(
    context: &str,
    question: &str,
    question_date: &str,
    question_type: QuestionType,
    is_abstention: bool,
) -> (r: String)
    ensures
        r@ == generation_prompt(context@, question@, question_date@, question_type, is_abstention),
{
    let mut p = String::from_str(GENERATION_HEAD);
    p.append(context);
    p.append("\n\nCurrent Date: ");
    p.append(question_date);
    p.append("\nQuestion: ");
    p.append(question);
    p.append("\n\n");
    if is_abstention {
        p.append(ABSTENTION_INSTRUCTION);
    } else {
        match question_type {
            QuestionType::SingleSessionPreference => p.append(PREFERENCE_INSTRUCTION),
            QuestionType::TemporalReasoning => {
                p.append(TEMPORAL_INSTRUCTION);
                p.append(question_date);
            },
            QuestionType::KnowledgeUpdate => p.append(KNOWLEDGE_UPDATE_INSTRUCTION),
            QuestionType::MultiSession => p.append(MULTI_SESSION_INSTRUCTION),
            _ => p.append(DEFAULT_INSTRUCTION),
        }
    }
    p.append("\n\nAnswer:");
    p
}

/// The budget in characters is four per token: exactly, for budgets below
/// 2^24 tokens; a budget of zero is unlimited. A text of fewer than 2^24
/// bytes is estimated at a quarter token per byte, rounded down.
pub proof fn lemma_budget_four_chars_per_token(context_budget: usize, bytes: nat)
    ensures
        context_budget == 0 ==> budget_chars(context_budget) == usize::MAX,
        0 < context_budget < 0x100_0000 ==> budget_chars(context_budget) == 4 * context_budget,
        bytes < 0x100_0000 ==> tokens_for(bytes) == bytes / 4,
{
    crate::numeric::lemma_bit_len_bounds(0x100_0000);
    assert(crate::numeric::pow2(24) == 0x100_0000) by {
        reveal_with_fuel(crate::numeric::pow2, 25);
    }
    if 0 < context_budget < 0x100_0000 {
        crate::numeric::lemma_bit_len_monotone(context_budget as nat, 0xFF_FFFF);
        lemma_bit_len_small();
    }
    if 0 < bytes < 0x100_0000 {
        crate::numeric::lemma_bit_len_monotone(bytes, 0xFF_FFFF);
        lemma_bit_len_small();
    }
}

/// Numbers below 2^24 have at most 24 binary digits.
proof fn lemma_bit_len_small()
    ensures
        crate::numeric::bit_len(0xFF_FFFF) == 24,
{
    reveal_with_fuel(crate::numeric::bit_len, 26);
}

} // verus!
