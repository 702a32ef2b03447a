//! Pruning decisions: which old, low-activation memories are pruned and
//! which are spared, and how a pruned memory is removed.
//!
//! Pruning alternates database queries with decisions. The queries (and the
//! activation threshold, a float bound into the candidate query) belong to
//! the caller; this module builds the query text and decides, step by step,
//! what happens to each candidate.
use vstd::prelude::*;

use crate::text::{chars_of, contains_seq, decimal, lemma_contains_middle, digits_value, is_digit, join, join_strings, string_views, u64_to_decimal};
use crate::traits::record::{memory_type_name, MemoryType};

verus! {

/// The policy fields that decide which memories are pruned.
#[derive(Debug, Clone)]
pub struct PruningRules {
    /// Minimum age in days before eligible for pruning.
    pub min_age_days: u32,
    /// Only prune these memory types (default: Episodic only).
    pub pruneable_types: Vec<MemoryType>,
    /// Never prune memories with graph relationships.
    pub respect_graph_links: bool,
    /// Never prune memories referenced by higher-tier summaries.
    pub respect_hierarchy: bool,
    /// Never prune memories with importance >= this value.
    pub min_importance_exempt: u8,
    /// Soft delete (set tier to -1, keeping the row) vs hard delete.
    pub soft_delete: bool,
}

impl Default for PruningRules {
    fn default() -> (r: Self)
        ensures
            r.min_age_days == 30,
            r.pruneable_types@ == seq![MemoryType::Episodic],
            r.respect_graph_links,
            r.respect_hierarchy,
            r.min_importance_exempt == 8,
            r.soft_delete,
    {
        let mut types: Vec<MemoryType> = Vec::new();
        types.push(MemoryType::Episodic);
        PruningRules {
            min_age_days: 30,
            pruneable_types: types,
            respect_graph_links: true,
            respect_hierarchy: true,
            min_importance_exempt: 8,
            soft_delete: true,
        }
    }
}

/// A memory type's stored name in single quotes, as a SQL literal.
pub open spec fn quoted_type(t: MemoryType) -> Seq<char> {
    seq!['\''] + memory_type_name(t) + seq!['\'']
}

/// The SQL list of the pruneable types: their quoted names joined by commas.
pub open spec fn type_list_spec(types: Seq<MemoryType>) -> Seq<char> {
    join(types.map_values(|t: MemoryType| quoted_type(t)), seq![','])
}

/// The query that selects the pruning candidates (id and importance): memories
/// of a pruneable type, older than the minimum age, not already pruned (tier
/// at least 0), whose cached activation is missing or below the threshold
/// bound as `?1`.
pub open spec fn candidates_query_spec(types: Seq<MemoryType>, min_age_days: u32) -> Seq<char> {
    "SELECT id, importance FROM memories\n             WHERE memory_type IN ("@
        + type_list_spec(types)
        + ")\n               AND created_at < datetime('now', '-"@
        + decimal(min_age_days as nat)
        + " days')\n               AND tier >= 0\n               AND (activation_cache IS NULL OR activation_cache < ?1)"@
}

/// What the candidate query selects: memories whose type is in the list
/// of pruneable types, created before `min_age_days` days ago (a younger
/// memory is never a candidate), not pruned already (tier at least 0), and
/// whose cached activation is missing or below the threshold `?1`.
pub proof fn lemma_candidates_query_clauses(types: Seq<MemoryType>, min_age_days: u32)
    ensures
        "SELECT id, importance FROM memories\n             WHERE "@.is_prefix_of(candidates_query_spec(types, min_age_days)),
        contains_seq(candidates_query_spec(types, min_age_days), "memory_type IN ("@ + type_list_spec(types) + ")"@),
        contains_seq(
            candidates_query_spec(types, min_age_days),
            "created_at < datetime('now', '-"@ + decimal(min_age_days as nat) + " days')"@,
        ),
        contains_seq(candidates_query_spec(types, min_age_days), "tier >= 0"@),
        contains_seq(candidates_query_spec(types, min_age_days), "(activation_cache IS NULL OR activation_cache < ?1)"@),
{
    reveal_strlit("SELECT id, importance FROM memories\n             WHERE memory_type IN (");
    reveal_strlit(")\n               AND created_at < datetime('now', '-");
    reveal_strlit(" days')\n               AND tier >= 0\n               AND (activation_cache IS NULL OR activation_cache < ?1)");
    reveal_strlit("SELECT id, importance FROM memories\n             WHERE ");
    reveal_strlit("memory_type IN (");
    reveal_strlit(")");
    reveal_strlit("\n               AND ");
    reveal_strlit("created_at < datetime('now', '-");
    reveal_strlit(" days')");
    reveal_strlit("tier >= 0");
    reveal_strlit("(activation_cache IS NULL OR activation_cache < ?1)");
    let q = candidates_query_spec(types, min_age_days);
    let l = type_list_spec(types);
    let d = decimal(min_age_days as nat);
    let a1 = "SELECT id, importance FROM memories\n             WHERE "@;
    let a2 = "memory_type IN ("@;
    let b1 = ")"@;
    let b2 = "\n               AND "@;
    let b3 = "created_at < datetime('now', '-"@;
    let c1 = " days')"@;
    let c3 = "tier >= 0"@;
    let c5 = "(activation_cache IS NULL OR activation_cache < ?1)"@;
    assert("SELECT id, importance FROM memories\n             WHERE memory_type IN ("@ =~= a1 + a2);
    assert(")\n               AND created_at < datetime('now', '-"@ =~= b1 + b2 + b3);
    assert(" days')\n               AND tier >= 0\n               AND (activation_cache IS NULL OR activation_cache < ?1)"@ =~= c1 + b2 + c3 + b2 + c5);
    let mid1 = a2 + l + b1;
    let mid2 = b3 + d + c1;
    assert(q =~= a1 + mid1 + (b2 + mid2 + b2 + c3 + b2 + c5));
    lemma_contains_middle(a1, mid1, b2 + mid2 + b2 + c3 + b2 + c5);
    assert(q =~= (a1 + mid1 + b2) + mid2 + (b2 + c3 + b2 + c5));
    lemma_contains_middle(a1 + mid1 + b2, mid2, b2 + c3 + b2 + c5);
    assert(q =~= (a1 + mid1 + b2 + mid2 + b2) + c3 + (b2 + c5));
    lemma_contains_middle(a1 + mid1 + b2 + mid2 + b2, c3, b2 + c5);
    assert(q =~= (a1 + mid1 + b2 + mid2 + b2 + c3 + b2) + c5 + Seq::<char>::empty());
    lemma_contains_middle(a1 + mid1 + b2 + mid2 + b2 + c3 + b2, c5, Seq::<char>::empty());
    assert(q.subrange(0, a1.len() as int) =~= a1);
}

/// The comma-separated list of quoted type names.
pub fn pruneable_type_list(types: &Vec<MemoryType>) -> (r: String)
    ensures
        r@ == type_list_spec(types@),
{
    let mut quoted: Vec<String> = Vec::new();
    let mut i: usize = 0;
    while i < types.len()
        invariant
            i <= types.len(),
            string_views(quoted@) == types@.subrange(0, i as int).map_values(
                |t: MemoryType| quoted_type(t),
            ),
        decreases types.len() - i,
    {
        let mut q = String::from_str("'");
        q.append(types[i].as_str());
        q.append("'");
        proof {
            reveal_strlit("'");
        }
        assert(q@ =~= quoted_type(types@[i as int]));
        let ghost before = quoted@;
        quoted.push(q);
        assert(string_views(quoted@) =~= string_views(before).push(quoted_type(types@[i as int])));
        assert(types@.subrange(0, i + 1).map_values(|t: MemoryType| quoted_type(t)) =~= types@.subrange(
            0,
            i as int,
        ).map_values(|t: MemoryType| quoted_type(t)).push(quoted_type(types@[i as int])));
        i = i + 1;
    }
    assert(types@.subrange(0, types.len() as int) =~= types@);
    let r = join_strings(&quoted, ",");
    proof {
        reveal_strlit(",");
    }
    assert(","@ =~= seq![',']);
    r
}

/// The text of the candidate query for the given rules.
pub fn candidates_query(rules: &PruningRules) -> (r: String)
    ensures
        r@ == candidates_query_spec(rules.pruneable_types@, rules.min_age_days),
{
    let list = pruneable_type_list(&rules.pruneable_types);
    let age = u64_to_decimal(rules.min_age_days as u64);
    let mut sql = String::from_str("SELECT id, importance FROM memories\n             WHERE memory_type IN (");
    sql.append(list.as_str());
    sql.append(")\n               AND created_at < datetime('now', '-");
    sql.append(age.as_str());
    sql.append(" days')\n               AND tier >= 0\n               AND (activation_cache IS NULL OR activation_cache < ?1)");
    sql
}

/// The query that tells whether a memory takes part in a relationship.
pub open spec fn graph_links_query_spec() -> Seq<char> {
    "SELECT EXISTS(SELECT 1 FROM memory_relations WHERE source_id = ?1 OR target_id = ?1)"@
}

/// The query that fetches the source-id texts of all memories that have one
/// and are not pruned.
pub open spec fn hierarchy_query_spec() -> Seq<char> {
    "SELECT source_ids FROM memories WHERE source_ids IS NOT NULL AND tier >= 0"@
}

/// The query that tells whether a memory takes part in a relationship,
/// with the memory's id bound as `?1`.
pub fn graph_links_query() -> (r: &'static str)
    ensures
        r@ == graph_links_query_spec(),
{
    "SELECT EXISTS(SELECT 1 FROM memory_relations WHERE source_id = ?1 OR target_id = ?1)"
}

/// The query that fetches the list of source ids (the memories a higher-tier
/// summary was built from) of every memory that is not pruned.
pub fn hierarchy_query() -> (r: &'static str)
    ensures
        r@ == hierarchy_query_spec(),
{
    "SELECT source_ids FROM memories WHERE source_ids IS NOT NULL AND tier >= 0"
}

/// The maximal runs of decimal digits of `s`, read from left to right.
pub open spec fn digit_runs(s: Seq<char>) -> Seq<Seq<char>>
    decreases s.len(),
{
    if s.len() == 0 {
        seq![]
    } else {
        let t = s.drop_last();
        let c = s.last();
        let w = digit_runs(t);
        if !is_digit(c) {
            w
        } else if t.len() > 0 && is_digit(t.last()) {
            w.update(w.len() - 1, w.last().push(c))
        } else {
            w.push(seq![c])
        }
    }
}

/// The ids listed in a memory's source-id text: each maximal run of decimal
/// digits, read as a number. So `[1,12]`, `1,12` and `1 12` all list the ids
/// 1 and 12, and none of them lists 2.
pub open spec fn source_id_list(source_ids: Seq<char>) -> Seq<int> {
    digit_runs(source_ids).map_values(|r: Seq<char>| digits_value(r) as int)
}

/// Whether one of the first `n` runs reads as `id`.
pub open spec fn run_reads(runs: Seq<Seq<char>>, n: int, id: int) -> bool {
    exists|k: int| 0 <= k < n && digits_value(#[trigger] runs[k]) == id
}

/// Whether a memory's source-id text lists `id` as one of its elements.
pub fn lists_source_id(source_ids: &str, id: i64) -> (r: bool)
    ensures
        r == source_id_list(source_ids@).contains(id as int),
{
    let s = chars_of(source_ids);
    let mut found = false;
    let mut in_run = false;
    let mut big = false;
    let mut cur: u64 = 0;
    let mut i: usize = 0;
    while i < s.len()
        invariant
            i <= s.len(),
            s@ == source_ids@,
            in_run == (i > 0 && is_digit(s@[i - 1])),
            in_run ==> digit_runs(s@.take(i as int)).len() > 0,
            found == run_reads(
                digit_runs(s@.take(i as int)),
                digit_runs(s@.take(i as int)).len() - (if in_run { 1int } else { 0int }),
                id as int,
            ),
            in_run && !big ==> cur == digits_value(digit_runs(s@.take(i as int)).last()),
            in_run && big ==> digits_value(digit_runs(s@.take(i as int)).last()) > i64::MAX,
            cur <= i64::MAX,
        decreases s.len() - i,
    {
        let ghost p = s@.take(i as int);
        let ghost rp = digit_runs(p);
        let ghost q = s@.take(i + 1);
        assert(q.drop_last() =~= p);
        assert(q.last() == s@[i as int]);
        if i > 0 {
            assert(p.last() == s@[i - 1]);
        }
        let c = s[i];
        let u = c as u32;
        if !(48 <= u && u <= 57) {
            assert(digit_runs(q) == rp);
            if in_run && !big && id >= 0 && cur == id as u64 {
                assert(digits_value(rp[rp.len() - 1]) == id as int);
                assert(run_reads(rp, rp.len() as int, id as int));
                found = true;
            } else if in_run {
                assert(digits_value(rp[rp.len() - 1]) != id as int);
                assert(run_reads(rp, rp.len() as int, id as int) == run_reads(rp, rp.len() - 1, id as int)) by {
                    if run_reads(rp, rp.len() as int, id as int) {
                        let k = choose|k: int| 0 <= k < rp.len() && digits_value(#[trigger] rp[k]) == id as int;
                        assert(k < rp.len() - 1);
                    }
                }
            } else if found {
                assert(run_reads(rp, rp.len() as int, id as int));
            }
            in_run = false;
        } else if in_run {
            let ghost rq = digit_runs(q);
            assert(rq == rp.update(rp.len() - 1, rp.last().push(c)));
            assert(rq.last().drop_last() =~= rp.last());
            assert(rq.last().last() == c);
            assert(digits_value(rq.last()) == digits_value(rp.last()) * 10 + (u - 48));
            assert forall|k: int| 0 <= k < rp.len() - 1 implies #[trigger] rq[k] == rp[k] by {}
            assert(run_reads(rq, rq.len() - 1, id as int) == run_reads(rp, rp.len() - 1, id as int)) by {
                if run_reads(rq, rq.len() - 1, id as int) {
                    let k = choose|k: int| 0 <= k < rq.len() - 1 && digits_value(#[trigger] rq[k]) == id as int;
                    assert(rq[k] == rp[k]);
                }
                if run_reads(rp, rp.len() - 1, id as int) {
                    let k = choose|k: int| 0 <= k < rp.len() - 1 && digits_value(#[trigger] rp[k]) == id as int;
                    assert(rq[k] == rp[k]);
                }
            }
            if !big {
                let next: u128 = cur as u128 * 10 + (u - 48) as u128;
                if next > i64::MAX as u128 {
                    big = true;
                } else {
                    cur = next as u64;
                }
            }
        } else {
            let ghost rq = digit_runs(q);
            assert(rq == rp.push(seq![c]));
            assert(rq.last() == seq![c]);
            assert(seq![c].drop_last() =~= Seq::<char>::empty());
            assert(seq![c].last() == c);
            assert(digits_value(Seq::<char>::empty()) == 0);
            assert(digits_value(seq![c]) == (u - 48) as nat);
            assert forall|k: int| 0 <= k < rp.len() implies #[trigger] rq[k] == rp[k] by {}
            assert(run_reads(rq, rq.len() - 1, id as int) == run_reads(rp, rp.len() as int, id as int)) by {
                if run_reads(rq, rq.len() - 1, id as int) {
                    let k = choose|k: int| 0 <= k < rq.len() - 1 && digits_value(#[trigger] rq[k]) == id as int;
                    assert(rq[k] == rp[k]);
                }
                if run_reads(rp, rp.len() as int, id as int) {
                    let k = choose|k: int| 0 <= k < rp.len() && digits_value(#[trigger] rp[k]) == id as int;
                    assert(rq[k] == rp[k]);
                }
            }
            in_run = true;
            big = false;
            cur = (u - 48) as u64;
        }
        i = i + 1;
    }
    let ghost runs = digit_runs(s@.take(i as int));
    assert(s@.take(i as int) =~= source_ids@);
    let r = found || (in_run && !big && id >= 0 && cur == id as u64);
    proof {
        let l = source_id_list(source_ids@);
        if r {
            let k = if found {
                choose|k: int|
                    0 <= k < runs.len() - (if in_run { 1int } else { 0int }) && digits_value(#[trigger] runs[k])
                        == id as int
            } else {
                runs.len() - 1
            };
            assert(l[k] == id as int);
        } else {
            assert forall|k: int| 0 <= k < l.len() implies l[k] != id as int by {
                assert(l[k] == digits_value(runs[k]) as int);
            }
        }
    }
    r
}

/// Whether any of the fetched source-id texts lists `id`: whether the memory
/// `id` is among the sources of another memory.
pub fn any_lists_source_id(rows: &Vec<String>, id: i64) -> (r: bool)
    ensures
        r == exists|k: int| 0 <= k < rows@.len() && source_id_list(#[trigger] rows@[k]@).contains(id as int),
{
    let mut i: usize = 0;
    while i < rows.len()
        invariant
            i <= rows.len(),
            forall|k: int| 0 <= k < i ==> !source_id_list(#[trigger] rows@[k]@).contains(id as int),
        decreases rows.len() - i,
    {
        if lists_source_id(rows[i].as_str(), id) {
            return true;
        }
        i = i + 1;
    }
    false
}

/// What happens next to a pruning candidate.
#[derive(Debug, Clone, Copy, PartialEq, Eq, Structural)]
pub enum PruneStep {
    /// The candidate is spared.
    Exempt,
    /// Ask whether the candidate takes part in a relationship.
    CheckGraphLinks,
    /// Ask whether the candidate is a source of another memory.
    CheckHierarchy,
    /// Prune the candidate, with the statement of [`prune_statement`].
    Prune,
}

/// Whether the importance alone spares a candidate. The stored importance
/// is read as a byte, as the database gives it.
pub open spec fn importance_exempts(min_importance_exempt: u8, importance: i32) -> bool {
    (importance as u8) >= min_importance_exempt
}

/// The first step for a candidate with the given importance.
pub open spec fn first_step_spec(rules: PruningRules, importance: i32) -> PruneStep {
    if importance_exempts(rules.min_importance_exempt, importance) {
        PruneStep::Exempt
    } else if rules.respect_graph_links {
        PruneStep::CheckGraphLinks
    } else if rules.respect_hierarchy {
        PruneStep::CheckHierarchy
    } else {
        PruneStep::Prune
    }
}

/// The step after the relationship query answered `has_links`.
pub open spec fn after_graph_links_spec(rules: PruningRules, has_links: bool) -> PruneStep {
    if has_links {
        PruneStep::Exempt
    } else if rules.respect_hierarchy {
        PruneStep::CheckHierarchy
    } else {
        PruneStep::Prune
    }
}

/// The step after the hierarchy query answered `is_source`.
pub open spec fn after_hierarchy_spec(is_source: bool) -> PruneStep {
    if is_source {
        PruneStep::Exempt
    } else {
        PruneStep::Prune
    }
}

/// The first step for a candidate with the given importance.
pub fn first_step(rules: &PruningRules, importance: i32) -> (s: PruneStep)
    ensures
        s == first_step_spec(*rules, importance),
{
    if (importance as u8) >= rules.min_importance_exempt {
        PruneStep::Exempt
    } else if rules.respect_graph_links {
        PruneStep::CheckGraphLinks
    } else if rules.respect_hierarchy {
        PruneStep::CheckHierarchy
    } else {
        PruneStep::Prune
    }
}

/// The step after the relationship query answered `has_links`.
pub fn after_graph_links(rules: &PruningRules, has_links: bool) -> (s: PruneStep)
    ensures
        s == after_graph_links_spec(*rules, has_links),
{
    if has_links {
        PruneStep::Exempt
    } else if rules.respect_hierarchy {
        PruneStep::CheckHierarchy
    } else {
        PruneStep::Prune
    }
}

/// The step after the hierarchy query answered `is_source`.
pub fn after_hierarchy(is_source: bool) -> (s: PruneStep)
    ensures
        s == after_hierarchy_spec(is_source),
{
    if is_source {
        PruneStep::Exempt
    } else {
        PruneStep::Prune
    }
}

/// The final step for a candidate when the relationship query answers
/// `has_links` and the hierarchy query answers `is_source`, each asked only
/// where a step calls for it.
pub open spec fn final_step(rules: PruningRules, importance: i32, has_links: bool, is_source: bool) -> PruneStep {
    match first_step_spec(rules, importance) {
        PruneStep::CheckGraphLinks => match after_graph_links_spec(rules, has_links) {
            PruneStep::CheckHierarchy => after_hierarchy_spec(is_source),
            s => s,
        },
        PruneStep::CheckHierarchy => after_hierarchy_spec(is_source),
        s => s,
    }
}

/// Whether the policy spares a candidate: its importance reaches the exempt
/// level, or it has graph links and links are respected, or it is a source
/// of another memory and the hierarchy is respected.
pub open spec fn is_exempt(rules: PruningRules, importance: i32, has_links: bool, is_source: bool) -> bool {
    ||| importance_exempts(rules.min_importance_exempt, importance)
    ||| (rules.respect_graph_links && has_links)
    ||| (rules.respect_hierarchy && is_source)
}

/// Following the steps always ends in `Exempt` or `Prune`, and it ends in
/// `Prune` exactly when the policy spares nothing about the candidate.
pub proof fn lemma_prune_steps_decide(rules: PruningRules, importance: i32, has_links: bool, is_source: bool)
    ensures
        final_step(rules, importance, has_links, is_source) == PruneStep::Exempt
            || final_step(rules, importance, has_links, is_source) == PruneStep::Prune,
        final_step(rules, importance, has_links, is_source) == PruneStep::Prune
            <==> !is_exempt(rules, importance, has_links, is_source),
{
}

/// The statement that removes a pruned memory, with its id bound as `?1`: a
/// soft delete keeps the row and sets its tier to -1; a hard delete removes
/// the row.
pub open spec fn prune_statement_spec(soft_delete: bool) -> Seq<char> {
    if soft_delete {
        "UPDATE memories SET tier = -1 WHERE id = ?1"@
    } else {
        "DELETE FROM memories WHERE id = ?1"@
    }
}

/// The statement that removes a pruned memory under the given rules.
pub fn prune_statement(rules: &PruningRules) -> (r: &'static str)
    ensures
        r@ == prune_statement_spec(rules.soft_delete),
{
    if rules.soft_delete {
        "UPDATE memories SET tier = -1 WHERE id = ?1"
    } else {
        "DELETE FROM memories WHERE id = ?1"
    }
}

/// Report from a pruning operation.
#[derive(Debug)]
pub struct PruneReport {
    /// Number of memories pruned.
    pub pruned: u64,
    /// Number of memories that matched age/activation criteria but were exempt.
    pub exempt: u64,
}

impl Default for PruneReport {
    fn default() -> (r: Self)
        ensures
            r.pruned == 0,
            r.exempt == 0,
    {
        PruneReport { pruned: 0, exempt: 0 }
    }
}

impl PruneReport {
    /// Counts the final step of one candidate: `Prune` as pruned, any other
    /// step as exempt.
    pub fn count(&mut self, step: PruneStep)
        requires
            step == PruneStep::Prune ==> old(self).pruned < u64::MAX,
            step != PruneStep::Prune ==> old(self).exempt < u64::MAX,
        ensures
            step == PruneStep::Prune ==> final(self).pruned == old(self).pruned + 1
                && final(self).exempt == old(self).exempt,
            step != PruneStep::Prune ==> final(self).exempt == old(self).exempt + 1
                && final(self).pruned == old(self).pruned,
    {
        if step == PruneStep::Prune {
            self.pruned = self.pruned + 1;
        } else {
            self.exempt = self.exempt + 1;
        }
    }
}

/// Whether a candidate is pruned, in terms of the policy: it is pruned
/// exactly when its importance (read as a byte) is below the exempt level,
/// it has no graph links or links are not respected, and it is no source of
/// another memory or the hierarchy is not respected; otherwise it is exempt.
pub proof fn lemma_prune_decision(rules: PruningRules, importance: i32, has_links: bool, is_source: bool)
    ensures
        final_step(rules, importance, has_links, is_source) == PruneStep::Prune <==> ((importance as u8)
            < rules.min_importance_exempt && !(rules.respect_graph_links && has_links) && !(
        rules.respect_hierarchy && is_source)),
        final_step(rules, importance, has_links, is_source) != PruneStep::Prune ==> final_step(
            rules,
            importance,
            has_links,
            is_source,
        ) == PruneStep::Exempt,
{
}

/// How a pruned memory is removed: a soft delete sets its tier to -1 and
/// keeps the row; a hard delete removes the row.
pub proof fn lemma_prune_statements()
    ensures
        prune_statement_spec(true) == "UPDATE memories SET tier = -1 WHERE id = ?1"@,
        prune_statement_spec(false) == "DELETE FROM memories WHERE id = ?1"@,
{
}

} // verus!
