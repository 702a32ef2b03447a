use vstd::prelude::*;

use crate::text::str_equals;

verus! {

/// Cognitive memory type classification (CoALA framework).
///
/// Determines decay rate, scoring behavior, and pruning eligibility.
#[derive(Debug, Clone, Copy, PartialEq, Eq, Hash, Structural)]
pub enum MemoryType {
    /// What happened: events, sessions, iteration logs.
    Episodic,
    /// What I know: facts, preferences, project context.
    Semantic,
    /// How to do things: workflows, error patterns, solutions.
    Procedural,
}

/// The name under which a memory type is stored.
pub open spec fn memory_type_name(t: MemoryType) -> Seq<char> {
    match t {
        MemoryType::Episodic => "episodic"@,
        MemoryType::Semantic => "semantic"@,
        MemoryType::Procedural => "procedural"@,
    }
}

/// The memory type stored under a name, if any.
pub open spec fn memory_type_parse(s: Seq<char>) -> Option<MemoryType> {
    if s == "episodic"@ {
        Some(MemoryType::Episodic)
    } else if s == "semantic"@ {
        Some(MemoryType::Semantic)
    } else if s == "procedural"@ {
        Some(MemoryType::Procedural)
    } else {
        None
    }
}

impl MemoryType {
    /// Convert to the string stored in SQLite.
    pub fn as_str(&self) -> (s: &'static str)
        ensures
            s@ == memory_type_name(*self),
    {
        match self {
            MemoryType::Episodic => "episodic",
            MemoryType::Semantic => "semantic",
            MemoryType::Procedural => "procedural",
        }
    }

    /// Parse from the string stored in SQLite.
    pub fn from_str(s: &str) -> (r: Option<MemoryType>)
        ensures
            r == memory_type_parse(s@),
    {
        if str_equals(s, "episodic") {
            Some(MemoryType::Episodic)
        } else if str_equals(s, "semantic") {
            Some(MemoryType::Semantic)
        } else if str_equals(s, "procedural") {
            Some(MemoryType::Procedural)
        } else {
            None
        }
    }

    /// The display form of the type: its stored name.
    pub fn to_string(&self) -> (s: String)
        ensures
            s@ == memory_type_name(*self),
    {
        String::from_str(self.as_str())
    }
}

/// Parsing the stored name of a memory type gives the type back.
pub proof fn lemma_memory_type_roundtrip(t: MemoryType)
    ensures
        memory_type_parse(memory_type_name(t)) == Some(t),
{
    reveal_strlit("episodic");
    reveal_strlit("semantic");
    reveal_strlit("procedural");
    assert("episodic"@[0] != "semantic"@[0]);
    assert("episodic"@.len() != "procedural"@.len());
    assert("semantic"@.len() != "procedural"@.len());
}

/// A name that parses to a memory type is that type's stored name.
pub proof fn lemma_memory_type_parse_is_name(s: Seq<char>)
    ensures
        memory_type_parse(s) matches Some(t) ==> memory_type_name(t) == s,
{
}

/// The stored names of the memory types: `episodic`, `semantic` and
/// `procedural`; no other name parses as a memory type.
pub proof fn lemma_memory_type_names(s: Seq<char>)
    ensures
        memory_type_name(MemoryType::Episodic) == "episodic"@,
        memory_type_name(MemoryType::Semantic) == "semantic"@,
        memory_type_name(MemoryType::Procedural) == "procedural"@,
        memory_type_parse(s) is Some <==> (s == "episodic"@ || s == "semantic"@ || s == "procedural"@),
{
}

} // verus!
