use mindcore::memory::activation::{compacted_count, compacted_total, stored_type};
use mindcore::memory::hash_dedup::HashDedup;
use mindcore::memory::pruning::{
    after_graph_links, after_hierarchy, any_lists_source_id, candidates_query, first_step, lists_source_id, prune_statement,
    pruneable_type_list, PruneReport, PruneStep, PruningRules,
};
use mindcore::memory::relations::{GraphNode, RelationType};
use mindcore::memory::store::{content_hash, duplicate_of, StoreResult};
use mindcore::traits::consolidation::ConsolidationAction;
use mindcore::traits::record::MemoryType;

#[test]
fn relation_type_roundtrip() {
    let types = vec![
        RelationType::CausedBy,
        RelationType::SolvedBy,
        RelationType::DependsOn,
        RelationType::SupersededBy,
        RelationType::RelatedTo,
        RelationType::PartOf,
        RelationType::ConflictsWith,
        RelationType::ValidatedBy,
        RelationType::Custom("my_custom".to_string()),
    ];
    for rt in &types {
        let s = rt.as_str();
        let parsed = RelationType::from_str(s);
        assert_eq!(&parsed, rt, "roundtrip failed for {s}");
    }
}

#[test]
fn custom_relation_with_standard_name_parses_as_standard() {
    let rt = RelationType::Custom("caused_by".to_string());
    assert_eq!(RelationType::from_str(rt.as_str()), RelationType::CausedBy);
}

#[test]
fn graph_node_from_row() {
    let n = GraphNode::from_row(7, "part_of", 2);
    assert_eq!(n.memory_id, 7);
    assert_eq!(n.relation, RelationType::PartOf);
    assert_eq!(n.depth, 2);
    let c = GraphNode::from_row(8, "inspired_by", 1);
    assert_eq!(c.relation, RelationType::Custom("inspired_by".into()));
}

#[test]
fn hash_dedup_no_existing_adds() {
    let dedup = HashDedup;
    let actions = dedup.consolidate(&[]);
    assert_eq!(actions, vec![ConsolidationAction::Add]);
}

#[test]
fn existing_match_noops() {
    let dedup = HashDedup;
    let actions = dedup.consolidate(&[42]);
    assert_eq!(actions, vec![ConsolidationAction::Noop]);
}

#[test]
fn hash_deterministic() {
    let h1 = content_hash("same content");
    let h2 = content_hash("same content");
    let h3 = content_hash("different content");
    assert_eq!(h1, h2);
    assert_ne!(h1, h3);
}

#[test]
fn hash_known_value() {
    assert_eq!(
        content_hash("hello world"),
        "b94d27b9934d3e08a52e52d7da7dabfac484efe37a5380ee9088f7ace2efcde9"
    );
    assert_eq!(
        content_hash(""),
        "e3b0c44298fc1c149afbf4c8996fb92427ae41e4649b934ca495991b7852b855"
    );
}

#[test]
fn duplicate_lookup_outcome() {
    assert_eq!(duplicate_of(Some(5)), Some(StoreResult::Duplicate(5)));
    assert_eq!(duplicate_of(None), None);
}

#[test]
fn default_rules() {
    let r = PruningRules::default();
    assert_eq!(r.min_age_days, 30);
    assert_eq!(r.pruneable_types, vec![MemoryType::Episodic]);
    assert!(r.respect_graph_links && r.respect_hierarchy && r.soft_delete);
    assert_eq!(r.min_importance_exempt, 8);
}

#[test]
fn candidate_query_text() {
    let mut r = PruningRules::default();
    assert_eq!(pruneable_type_list(&r.pruneable_types), "'episodic'");
    r.pruneable_types = vec![MemoryType::Episodic, MemoryType::Procedural];
    assert_eq!(pruneable_type_list(&r.pruneable_types), "'episodic','procedural'");
    r.min_age_days = 45;
    let sql = candidates_query(&r);
    assert!(sql.contains("WHERE memory_type IN ('episodic','procedural')"));
    assert!(sql.contains("datetime('now', '-45 days')"));
    assert!(sql.contains("AND tier >= 0"));
    assert!(sql.ends_with("(activation_cache IS NULL OR activation_cache < ?1)"));
    assert_eq!(pruneable_type_list(&vec![]), "");
}

#[test]
fn prune_steps_follow_policy() {
    let r = PruningRules::default();
    // High importance is exempt before any query.
    assert_eq!(first_step(&r, 9), PruneStep::Exempt);
    assert_eq!(first_step(&r, 8), PruneStep::Exempt);
    assert_eq!(first_step(&r, 3), PruneStep::CheckGraphLinks);
    // The importance is read as a byte.
    assert_eq!(first_step(&r, 264), PruneStep::Exempt);
    assert_eq!(first_step(&r, 256), PruneStep::CheckGraphLinks);
    assert_eq!(after_graph_links(&r, true), PruneStep::Exempt);
    assert_eq!(after_graph_links(&r, false), PruneStep::CheckHierarchy);
    assert_eq!(after_hierarchy(true), PruneStep::Exempt);
    assert_eq!(after_hierarchy(false), PruneStep::Prune);
    let loose = PruningRules { respect_graph_links: false, respect_hierarchy: false, ..PruningRules::default() };
    assert_eq!(first_step(&loose, 3), PruneStep::Prune);
    let only_hierarchy = PruningRules { respect_graph_links: false, ..PruningRules::default() };
    assert_eq!(first_step(&only_hierarchy, 3), PruneStep::CheckHierarchy);
}

#[test]
fn source_ids_match_whole_elements() {
    assert!(lists_source_id("[1,12]", 1));
    assert!(lists_source_id("[1,12]", 12));
    assert!(!lists_source_id("[12]", 1));
    assert!(!lists_source_id("[12]", 2));
    assert!(lists_source_id("3, 45 ,6", 45));
    assert!(lists_source_id("7", 7));
    assert!(!lists_source_id("", 0));
    assert!(!lists_source_id("[1]", -1));
    assert!(lists_source_id("[007]", 7));
    assert!(!lists_source_id("[99999999999999999999]", 9));
    let rows = vec!["[12,34]".to_string(), "[5]".to_string()];
    assert!(!any_lists_source_id(&rows, 1));
    assert!(any_lists_source_id(&rows, 34));
    assert!(any_lists_source_id(&rows, 5));
    assert!(!any_lists_source_id(&Vec::new(), 5));
}

#[test]
fn prune_statement_follows_soft_delete() {
    let soft = PruningRules::default();
    assert_eq!(prune_statement(&soft), "UPDATE memories SET tier = -1 WHERE id = ?1");
    let hard = PruningRules { soft_delete: false, ..PruningRules::default() };
    assert_eq!(prune_statement(&hard), "DELETE FROM memories WHERE id = ?1");
}

#[test]
fn prune_report_counts() {
    let mut report = PruneReport::default();
    report.count(PruneStep::Prune);
    report.count(PruneStep::Exempt);
    report.count(PruneStep::Prune);
    assert_eq!(report.pruned, 2);
    assert_eq!(report.exempt, 1);
}

#[test]
fn compacted_rows_parse() {
    assert_eq!(compacted_count("[compacted: 17 accesses]"), 17);
    assert_eq!(compacted_count("[compacted: [compacted: 3 accesses] accesses]"), 3);
    assert_eq!(compacted_count("[compacted: many accesses]"), 0);
    assert_eq!(compacted_count("[compacted: -4 accesses]"), -4);
    assert_eq!(
        compacted_total(&vec!["[compacted: 2 accesses]".into(), "[compacted: 40 accesses]".into(), "junk".into()]),
        42
    );
    assert_eq!(compacted_total(&vec![]), 0);
}

#[test]
fn stored_type_falls_back_to_episodic() {
    assert_eq!(stored_type("semantic"), MemoryType::Semantic);
    assert_eq!(stored_type("procedural"), MemoryType::Procedural);
    assert_eq!(stored_type("unknown"), MemoryType::Episodic);
}
