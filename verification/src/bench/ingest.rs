//! Which conversation turns of a question become memories, and with which
//! fields. Storing them, and stamping their creation time, is the caller's
//! part.
use vstd::prelude::*;

use crate::bench::dataset::{Question, Session, Turn};
use crate::memory::store::StoreResult;
use crate::text::{all_ws, decimal, str_equals, str_is_blank, u64_to_decimal};

verus! {

/// A conversation turn to be stored as a memory.
#[derive(Debug, Clone)]
pub struct ConversationTurn {
    pub content: String,
    pub role: String,
    pub session_index: usize,
    pub turn_index: usize,
    pub session_date: String,
}

/// The positions (session, turn) of the turns of one session that are kept:
/// those whose content is not blank.
pub open spec fn kept_in_session(turns: Seq<Turn>, session: int) -> Seq<(int, int)>
    decreases turns.len(),
{
    if turns.len() == 0 {
        seq![]
    } else {
        let rest = kept_in_session(turns.drop_last(), session);
        if all_ws(turns.last().content@) {
            rest
        } else {
            rest.push((session, turns.len() - 1))
        }
    }
}

/// The positions of the kept turns of all sessions, session by session.
pub open spec fn kept_turns(sessions: Seq<Session>) -> Seq<(int, int)>
    decreases sessions.len(),
{
    if sessions.len() == 0 {
        seq![]
    } else {
        kept_turns(sessions.drop_last()) + kept_in_session(sessions.last()@, sessions.len() - 1)
    }
}

/// The date of a session, empty when none is given.
pub open spec fn ingest_date(q: Question, session: int) -> Seq<char> {
    if 0 <= session < q.haystack_dates@.len() {
        q.haystack_dates@[session]@
    } else {
        seq![]
    }
}

/// The kept positions of one session are exactly its turns whose content is
/// not blank.
pub proof fn lemma_kept_in_session(turns: Seq<Turn>, session: int)
    ensures
        forall|p: (int, int)|
            kept_in_session(turns, session).contains(p) <==> (p.0 == session && 0 <= p.1 < turns.len()
                && !all_ws(turns[p.1].content@)),
    decreases turns.len(),
{
    if turns.len() > 0 {
        let pre = turns.drop_last();
        lemma_kept_in_session(pre, session);
        let rest = kept_in_session(pre, session);
        let k = kept_in_session(turns, session);
        let last = (session, turns.len() - 1);
        assert forall|p: (int, int)| k.contains(p) <==> (p.0 == session && 0 <= p.1 < turns.len() && !all_ws(
            turns[p.1].content@,
        )) by {
            if p.1 < turns.len() - 1 && 0 <= p.1 {
                assert(turns[p.1] == pre[p.1]);
            }
            if all_ws(turns.last().content@) {
                assert(k == rest);
                if rest.contains(p) {
                    assert(p.1 < pre.len());
                }
            } else {
                assert(k == rest.push(last));
                if k.contains(p) {
                    let i = choose|i: int| 0 <= i < k.len() && k[i] == p;
                    if i < rest.len() {
                        assert(rest[i] == p);
                        assert(rest.contains(p));
                    }
                }
                if rest.contains(p) {
                    let i = choose|i: int| 0 <= i < rest.len() && rest[i] == p;
                    assert(k[i] == p);
                }
                if p == last {
                    assert(k[rest.len() as int] == p);
                }
            }
        }
    }
}

/// The turns stored for a question are exactly its turns whose content is
/// not blank: a position is kept if and only if it names a turn of a
/// session and that turn's content is not blank.
pub proof fn lemma_kept_turns(sessions: Seq<Session>)
    ensures
        forall|p: (int, int)|
            kept_turns(sessions).contains(p) <==> (0 <= p.0 < sessions.len() && 0 <= p.1
                < sessions[p.0]@.len() && !all_ws(sessions[p.0]@[p.1].content@)),
    decreases sessions.len(),
{
    if sessions.len() > 0 {
        let pre = sessions.drop_last();
        let n = sessions.len() - 1;
        lemma_kept_turns(pre);
        lemma_kept_in_session(sessions.last()@, n);
        let a = kept_turns(pre);
        let b = kept_in_session(sessions.last()@, n);
        let k = kept_turns(sessions);
        assert(k == a + b);
        assert forall|p: (int, int)| k.contains(p) <==> (0 <= p.0 < sessions.len() && 0 <= p.1
            < sessions[p.0]@.len() && !all_ws(sessions[p.0]@[p.1].content@)) by {
            if 0 <= p.0 < n {
                assert(sessions[p.0] == pre[p.0]);
            }
            if k.contains(p) {
                let i = choose|i: int| 0 <= i < k.len() && k[i] == p;
                if i < a.len() {
                    assert(a[i] == p);
                    assert(a.contains(p));
                } else {
                    assert(b[i - a.len()] == p);
                    assert(b.contains(p));
                }
            }
            if a.contains(p) {
                let i = choose|i: int| 0 <= i < a.len() && a[i] == p;
                assert(k[i] == p);
            }
            if b.contains(p) {
                let i = choose|i: int| 0 <= i < b.len() && b[i] == p;
                assert(k[a.len() + i] == p);
            }
            if p.0 == n && 0 <= p.1 < sessions[p.0]@.len() && !all_ws(sessions[p.0]@[p.1].content@) {
                assert(sessions[p.0] == sessions.last());
                assert(b.contains(p));
            }
        }
    }
}

/// Whether a stored turn matches the turn at a position.
pub open spec fn turn_at(q: Question, pos: (int, int), t: ConversationTurn) -> bool {
    &&& t.session_index == pos.0
    &&& t.turn_index == pos.1
    &&& 0 <= pos.0 < q.haystack_sessions@.len()
    &&& 0 <= pos.1 < q.haystack_sessions@[pos.0]@.len()
    &&& t.content@ == q.haystack_sessions@[pos.0]@[pos.1].content@
    &&& t.role@ == q.haystack_sessions@[pos.0]@[pos.1].role@
    &&& t.session_date@ == ingest_date(q, pos.0)
}

/// The turns of a question's haystack sessions that are stored as memories:
/// every turn whose content is not blank, in session order, with its
/// session and turn index and its session's date.
pub fn conversation_turns(question: &Question) -> (r: Vec<ConversationTurn>)
    ensures
        r@.len() == kept_turns(question.haystack_sessions@).len(),
        forall|i: int|
            0 <= i < r@.len() ==> turn_at(
                *question,
                kept_turns(question.haystack_sessions@)[i],
                #[trigger] r@[i],
            ),
{
    let mut out: Vec<ConversationTurn> = Vec::new();
    let mut s: usize = 0;
    while s < question.haystack_sessions.len()
        invariant
            s <= question.haystack_sessions.len(),
            out@.len() == kept_turns(question.haystack_sessions@.subrange(0, s as int)).len(),
            forall|i: int|
                0 <= i < out@.len() ==> turn_at(
                    *question,
                    kept_turns(question.haystack_sessions@.subrange(0, s as int))[i],
                    #[trigger] out@[i],
                ),
        decreases question.haystack_sessions.len() - s,
    {
        let ghost spre = question.haystack_sessions@.subrange(0, s as int);
        let ghost spost = question.haystack_sessions@.subrange(0, s + 1);
        assert(spost.drop_last() =~= spre);
        let session = &question.haystack_sessions[s];
        assert(spost.last() == *session);
        let date = if s < question.haystack_dates.len() {
            question.haystack_dates[s].clone()
        } else {
            String::new()
        };
        assert(date@ == ingest_date(*question, s as int));
        let ghost base = out@;
        let ghost kbase = kept_turns(spre);
        let mut t: usize = 0;
        while t < session.len()
            invariant
                t <= session.len(),
                s < question.haystack_sessions.len(),
                *session == question.haystack_sessions@[s as int],
                date@ == ingest_date(*question, s as int),
                base.len() == kbase.len(),
                out@.len() == base.len() + kept_in_session(session@.subrange(0, t as int), s as int).len(),
                forall|i: int| 0 <= i < base.len() ==> out@[i] == base[i],
                forall|i: int| 0 <= i < base.len() ==> turn_at(*question, kbase[i], #[trigger] base[i]),
                forall|i: int|
                    0 <= i < kept_in_session(session@.subrange(0, t as int), s as int).len() ==> turn_at(
                        *question,
                        kept_in_session(session@.subrange(0, t as int), s as int)[i],
                        #[trigger] out@[base.len() + i],
                    ),
            decreases session.len() - t,
        {
            let ghost tpre = session@.subrange(0, t as int);
            let ghost tpost = session@.subrange(0, t + 1);
            assert(tpost.drop_last() =~= tpre);
            assert(tpost.last() == session@[t as int]);
            let turn = &session[t];
            if !str_is_blank(turn.content.as_str()) {
                let ghost before = out@;
                out.push(
                    ConversationTurn {
                        content: turn.content.clone(),
                        role: turn.role.clone(),
                        session_index: s,
                        turn_index: t,
                        session_date: date.clone(),
                    },
                );
                assert(kept_in_session(tpost, s as int) == kept_in_session(tpre, s as int).push(
                    (s as int, t as int),
                ));
                assert forall|i: int|
                    0 <= i < kept_in_session(tpost, s as int).len() implies turn_at(
                    *question,
                    kept_in_session(tpost, s as int)[i],
                    #[trigger] out@[base.len() + i],
                ) by {
                    if i < kept_in_session(tpre, s as int).len() {
                        assert(out@[base.len() + i] == before[base.len() + i]);
                    }
                }
            }
            t = t + 1;
        }
        assert(session@.subrange(0, t as int) =~= session@);
        assert(kept_turns(spost) == kbase + kept_in_session(session@, s as int));
        assert forall|i: int| 0 <= i < out@.len() implies turn_at(
            *question,
            kept_turns(spost)[i],
            #[trigger] out@[i],
        ) by {
            if i < base.len() {
                assert(out@[i] == base[i]);
            } else {
                assert(out@[base.len() + (i - base.len())] == out@[i]);
            }
        }
        s = s + 1;
    }
    assert(question.haystack_sessions@.subrange(0, s as int) =~= question.haystack_sessions@);
    out
}

/// User messages are slightly more important: they carry preferences and facts.
pub fn turn_importance(role: &str) -> (r: u8)
    ensures
        r == (if role@ == "user"@ {
            6u8
        } else {
            5u8
        }),
{
    if str_equals(role, "user") {
        6
    } else {
        5
    }
}

impl ConversationTurn {
    /// The metadata of the memory: its session index, turn index and session
    /// date, as key-value pairs.
    pub fn metadata_entries(&self) -> (r: Vec<(String, String)>)
        ensures
            r@.len() == 3,
            r@[0].0@ == "session_index"@ && r@[0].1@ == decimal(self.session_index as nat),
            r@[1].0@ == "turn_index"@ && r@[1].1@ == decimal(self.turn_index as nat),
            r@[2].0@ == "session_date"@ && r@[2].1@ == self.session_date@,
    {
        let mut r: Vec<(String, String)> = Vec::new();
        r.push((String::from_str("session_index"), u64_to_decimal(self.session_index as u64)));
        r.push((String::from_str("turn_index"), u64_to_decimal(self.turn_index as u64)));
        r.push((String::from_str("session_date"), self.session_date.clone()));
        r
    }
}

/// The number of results that stored a new memory (duplicates are skipped).
pub open spec fn added_count(results: Seq<Option<StoreResult>>) -> nat
    decreases results.len(),
{
    if results.len() == 0 {
        0
    } else {
        added_count(results.drop_last()) + if results.last() matches Some(StoreResult::Added(_)) {
            1nat
        } else {
            0nat
        }
    }
}

/// Counts the turns stored as new memories, given the outcome of each store
/// (`None` for a store that failed).
pub fn count_added(results: &Vec<Option<StoreResult>>) -> (n: usize)
    ensures
        n == added_count(results@),
        n <= results@.len(),
{
    let mut n: usize = 0;
    let mut i: usize = 0;
    while i < results.len()
        invariant
            i <= results.len(),
            n == added_count(results@.subrange(0, i as int)),
            n <= i,
        decreases results.len() - i,
    {
        let ghost pre = results@.subrange(0, i as int);
        assert(results@.subrange(0, i + 1).drop_last() =~= pre);
        match results[i] {
            Some(StoreResult::Added(_)) => {
                n = n + 1;
            },
            _ => {},
        }
        i = i + 1;
    }
    assert(results@.subrange(0, i as int) =~= results@);
    n
}

} // verus!
