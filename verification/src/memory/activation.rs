//! The integer side of the activation model: the stored type that picks a
//! decay rate, and the compacted access-log rows that stand for many old
//! accesses. The activation formula itself is floating point and is
//! computed by the caller.
use vstd::prelude::*;

use crate::text::{
    chars_of, decimal, lemma_decimal_digits, parse_i64, parse_i64_exec, string_from_chars,
    string_views, trim_end_chars, trim_end_seq, trim_start_chars, trim_start_seq,
};
use crate::traits::record::{memory_type_parse, MemoryType};

verus! {

/// The prefix of a compacted access-log row.
pub open spec fn compacted_prefix() -> Seq<char> {
    "[compacted: "@
}

/// The suffix of a compacted access-log row.
pub open spec fn compacted_suffix() -> Seq<char> {
    " accesses]"@
}

/// The text that compaction writes for `n` old accesses:
/// `[compacted: N accesses]`.
pub open spec fn compacted_marker(n: nat) -> Seq<char> {
    compacted_prefix() + decimal(n) + compacted_suffix()
}

/// The access count read back from a compacted row: the text with the
/// leading prefixes and trailing suffixes trimmed, parsed as an `i64`; zero
/// when that does not parse.
pub open spec fn compacted_count_spec(text: Seq<char>) -> i64 {
    match parse_i64(trim_end_seq(trim_start_seq(text, compacted_prefix()), compacted_suffix())) {
        Some(n) => n,
        None => 0,
    }
}

/// Parse "[compacted: N accesses]" into N (zero when it does not parse).
pub fn compacted_count(text: &str) -> (n: i64)
    ensures
        n == compacted_count_spec(text@),
{
    let s = chars_of(text);
    let pre = chars_of("[compacted: ");
    let suf = chars_of(" accesses]");
    let a = trim_start_chars(&s, &pre);
    let b = trim_end_chars(&a, &suf);
    let t = string_from_chars(&b);
    match parse_i64_exec(t.as_str()) {
        Some(n) => n,
        None => 0,
    }
}

/// The sum of the counts of the compacted rows.
pub open spec fn compacted_total_spec(texts: Seq<Seq<char>>) -> int
    decreases texts.len(),
{
    if texts.len() == 0 {
        0
    } else {
        compacted_total_spec(texts.drop_last()) + compacted_count_spec(texts.last()) as int
    }
}

/// The total count of the compacted rows of a memory. The running sum must
/// stay within `i64`.
pub fn compacted_total(texts: &Vec<String>) -> (t: i64)
    requires
        forall|k: int|
            0 <= k <= texts@.len() ==> i64::MIN <= #[trigger] compacted_total_spec(
                string_views(texts@).subrange(0, k),
            ) <= i64::MAX,
    ensures
        t == compacted_total_spec(string_views(texts@)),
{
    let mut total: i64 = 0;
    let mut i: usize = 0;
    assert(string_views(texts@).subrange(0, 0) =~= Seq::<Seq<char>>::empty());
    while i < texts.len()
        invariant
            i <= texts.len(),
            total == compacted_total_spec(string_views(texts@).subrange(0, i as int)),
            forall|k: int|
                0 <= k <= texts@.len() ==> i64::MIN <= #[trigger] compacted_total_spec(
                    string_views(texts@).subrange(0, k),
                ) <= i64::MAX,
        decreases texts.len() - i,
    {
        let ghost pre = string_views(texts@).subrange(0, i as int);
        let ghost post = string_views(texts@).subrange(0, i + 1);
        assert(post.drop_last() =~= pre);
        assert(post.last() == texts@[i as int]@);
        let c = compacted_count(texts[i].as_str());
        assert(i64::MIN <= compacted_total_spec(post) <= i64::MAX);
        total = total + c;
        i = i + 1;
    }
    assert(string_views(texts@).subrange(0, texts.len() as int) =~= string_views(texts@));
    total
}

/// The memory type stored under a name, Episodic when the name is unknown.
pub open spec fn stored_type_spec(s: Seq<char>) -> MemoryType {
    match memory_type_parse(s) {
        Some(t) => t,
        None => MemoryType::Episodic,
    }
}

/// The memory type whose decay rate applies to a stored row.
pub fn stored_type(s: &str) -> (t: MemoryType)
    ensures
        t == stored_type_spec(s@),
{
    match MemoryType::from_str(s) {
        Some(t) => t,
        None => MemoryType::Episodic,
    }
}

/// Reading a compacted row gives back the count that compaction wrote into
/// it, for every count that fits in an `i64`.
pub proof fn lemma_compacted_roundtrip(n: nat)
    requires
        n <= i64::MAX,
    ensures
        compacted_count_spec(compacted_marker(n)) == n,
{
    reveal_strlit("[compacted: ");
    reveal_strlit(" accesses]");
    let p = compacted_prefix();
    let q = compacted_suffix();
    let d = decimal(n);
    lemma_decimal_digits(n);
    let m = compacted_marker(n);
    // The prefix comes off once; what remains starts with a digit.
    assert(m.subrange(0, p.len() as int) =~= p);
    assert(m.skip(p.len() as int) =~= d + q);
    let r1 = d + q;
    assert(r1[0] == d[0]);
    assert(crate::text::is_digit(d[0]));
    assert(!(r1.len() >= p.len() && r1.subrange(0, p.len() as int) == p)) by {
        if r1.len() >= p.len() {
            assert(r1.subrange(0, p.len() as int)[0] == d[0]);
            assert(p[0] == '[');
        }
    }
    assert(trim_start_seq(r1, p) == r1);
    assert(trim_start_seq(m, p) == r1);
    // The suffix comes off once; what remains ends with a digit.
    assert(r1.subrange(r1.len() - q.len(), r1.len() as int) =~= q);
    assert(r1.subrange(0, r1.len() - q.len()) =~= d);
    assert(crate::text::is_digit(d[d.len() - 1]));
    assert(!(d.len() >= q.len() && d.subrange(d.len() - q.len(), d.len() as int) == q)) by {
        if d.len() >= q.len() {
            assert(d.subrange(d.len() - q.len(), d.len() as int)[q.len() - 1] == d[d.len() - 1]);
            assert(q[q.len() - 1] == ']');
        }
    }
    assert(trim_end_seq(d, q) == d);
    assert(trim_end_seq(r1, q) == d);
}

} // verus!
