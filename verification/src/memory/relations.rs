//! Relationship types between memories and the nodes of a graph walk.
//! The relationship table itself is read and written by the caller.
use vstd::prelude::*;

use crate::text::str_equals;

verus! {

/// Standard relationship types between memories.
#[derive(Debug, Clone, PartialEq, Eq)]
pub enum RelationType {
    /// "X caused Y" (error → root cause)
    CausedBy,
    /// "X was solved by Y" (error → fix)
    SolvedBy,
    /// "X depends on Y" (task → prerequisite)
    DependsOn,
    /// "X was replaced by Y" (old → new approach)
    SupersededBy,
    /// Generic association
    RelatedTo,
    /// "X is part of Y" (subtask → parent)
    PartOf,
    /// "X contradicts Y" (opposing learnings)
    ConflictsWith,
    /// "X was confirmed by Y" (learning → evidence)
    ValidatedBy,
    /// User-defined relationship type
    Custom(String),
}

/// The stored name of a relationship type; a custom type is stored as its own text.
pub open spec fn relation_name(r: RelationType) -> Seq<char> {
    match r {
        RelationType::CausedBy => "caused_by"@,
        RelationType::SolvedBy => "solved_by"@,
        RelationType::DependsOn => "depends_on"@,
        RelationType::SupersededBy => "superseded_by"@,
        RelationType::RelatedTo => "related_to"@,
        RelationType::PartOf => "part_of"@,
        RelationType::ConflictsWith => "conflicts_with"@,
        RelationType::ValidatedBy => "validated_by"@,
        RelationType::Custom(s) => s@,
    }
}

/// The standard relationship type stored under a name, if there is one.
pub open spec fn standard_relation(s: Seq<char>) -> Option<RelationType> {
    if s == "caused_by"@ {
        Some(RelationType::CausedBy)
    } else if s == "solved_by"@ {
        Some(RelationType::SolvedBy)
    } else if s == "depends_on"@ {
        Some(RelationType::DependsOn)
    } else if s == "superseded_by"@ {
        Some(RelationType::SupersededBy)
    } else if s == "related_to"@ {
        Some(RelationType::RelatedTo)
    } else if s == "part_of"@ {
        Some(RelationType::PartOf)
    } else if s == "conflicts_with"@ {
        Some(RelationType::ConflictsWith)
    } else if s == "validated_by"@ {
        Some(RelationType::ValidatedBy)
    } else {
        None
    }
}

impl RelationType {
    /// Convert to string for storage.
    pub fn as_str(&self) -> (s: &str)
        ensures
            s@ == relation_name(*self),
    {
        match self {
            RelationType::CausedBy => "caused_by",
            RelationType::SolvedBy => "solved_by",
            RelationType::DependsOn => "depends_on",
            RelationType::SupersededBy => "superseded_by",
            RelationType::RelatedTo => "related_to",
            RelationType::PartOf => "part_of",
            RelationType::ConflictsWith => "conflicts_with",
            RelationType::ValidatedBy => "validated_by",
            RelationType::Custom(s) => s.as_str(),
        }
    }

    /// Parse from stored string: a standard name gives its type, any other
    /// text a custom type holding that text.
    pub fn from_str(s: &str) -> (r: RelationType)
        ensures
            standard_relation(s@) matches Some(t) ==> r == t,
            standard_relation(s@) is None ==> (r matches RelationType::Custom(x) && x@ == s@),
    {
        if str_equals(s, "caused_by") {
            RelationType::CausedBy
        } else if str_equals(s, "solved_by") {
            RelationType::SolvedBy
        } else if str_equals(s, "depends_on") {
            RelationType::DependsOn
        } else if str_equals(s, "superseded_by") {
            RelationType::SupersededBy
        } else if str_equals(s, "related_to") {
            RelationType::RelatedTo
        } else if str_equals(s, "part_of") {
            RelationType::PartOf
        } else if str_equals(s, "conflicts_with") {
            RelationType::ConflictsWith
        } else if str_equals(s, "validated_by") {
            RelationType::ValidatedBy
        } else {
            RelationType::Custom(String::from_str(s))
        }
    }
}

/// Parsing the stored name of a relationship type gives the type back; for
/// a custom type, one holding the same text. The law leaves out a custom
/// type whose text is a standard name, which parses as that standard type.
pub proof fn lemma_relation_roundtrip(r: RelationType)
    requires
        !(r matches RelationType::Custom(x) && standard_relation(x@) is Some),
    ensures
        standard_relation(relation_name(r)) matches Some(t) ==> t == r,
        standard_relation(relation_name(r)) is None ==> (r matches RelationType::Custom(x)
            && x@ == relation_name(r)),
{
    reveal_strlit("caused_by");
    reveal_strlit("solved_by");
    reveal_strlit("depends_on");
    reveal_strlit("superseded_by");
    reveal_strlit("related_to");
    reveal_strlit("part_of");
    reveal_strlit("conflicts_with");
    reveal_strlit("validated_by");
    assert("caused_by"@.len() == 9);
    assert("solved_by"@.len() == 9);
    assert("depends_on"@.len() == 10);
    assert("superseded_by"@.len() == 13);
    assert("related_to"@.len() == 10);
    assert("part_of"@.len() == 7);
    assert("conflicts_with"@.len() == 14);
    assert("validated_by"@.len() == 12);
    assert("caused_by"@ != "solved_by"@) by {
        assert("caused_by"@[0] != "solved_by"@[0]);
    }
    assert("caused_by"@ != "conflicts_with"@) by {
        assert("caused_by"@[1] != "conflicts_with"@[1]);
    }
    assert("solved_by"@ != "superseded_by"@) by {
        assert("solved_by"@.len() != "superseded_by"@.len());
    }
    assert("depends_on"@ != "related_to"@) by {
        assert("depends_on"@[0] != "related_to"@[0]);
    }
    assert("superseded_by"@ != "related_to"@) by {
        assert("superseded_by"@.len() != "related_to"@.len());
    }
    assert("related_to"@ != "validated_by"@) by {
        assert("related_to"@[0] != "validated_by"@[0]);
    }
}

/// Graph relationship operations on memories.
pub struct GraphMemory;

/// A node in the memory graph.
#[derive(Debug, Clone)]
pub struct GraphNode {
    /// Memory ID of the connected memory.
    pub memory_id: i64,
    /// Relationship type from the source.
    pub relation: RelationType,
    /// Number of hops from the starting memory.
    pub depth: u32,
}

impl GraphNode {
    /// The node read from a relationship row: the connected memory, the
    /// stored relationship name, and the hop distance.
    pub fn from_row(memory_id: i64, relation: &str, depth: u32) -> (n: GraphNode)
        ensures
            n.memory_id == memory_id,
            n.depth == depth,
            relation_name(n.relation) == relation@,
            standard_relation(relation@) matches Some(t) ==> n.relation == t,
            standard_relation(relation@) is None ==> n.relation is Custom,
    {
        let rel = RelationType::from_str(relation);
        proof {
            if standard_relation(relation@) is Some {
                lemma_standard_name(relation@);
            }
        }
        GraphNode { memory_id, relation: rel, depth }
    }
}

/// A name that parses as a standard type is that type's stored name.
pub proof fn lemma_standard_name(s: Seq<char>)
    ensures
        standard_relation(s) matches Some(t) ==> relation_name(t) == s,
{
}

/// The stored names of the standard relationship types.
pub proof fn lemma_relation_names()
    ensures
        relation_name(RelationType::CausedBy) == "caused_by"@,
        relation_name(RelationType::SolvedBy) == "solved_by"@,
        relation_name(RelationType::DependsOn) == "depends_on"@,
        relation_name(RelationType::SupersededBy) == "superseded_by"@,
        relation_name(RelationType::RelatedTo) == "related_to"@,
        relation_name(RelationType::PartOf) == "part_of"@,
        relation_name(RelationType::ConflictsWith) == "conflicts_with"@,
        relation_name(RelationType::ValidatedBy) == "validated_by"@,
{
}

} // verus!
