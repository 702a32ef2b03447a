use mindcore::callbacks::llm::LlmCallback;
use mindcore::context::budget::{priority_label, render_sections, select_within_budget};
use mindcore::embeddings::noop::NoopBackend;
use mindcore::error::{MindCoreError, Result};
use mindcore::numeric::round_to_24_bits;
use mindcore::search::builder::SearchDepth;
use mindcore::traits::record::MemoryType;

#[test]
fn memory_type_roundtrip() {
    for mt in [MemoryType::Episodic, MemoryType::Semantic, MemoryType::Procedural] {
        let s = mt.as_str();
        let parsed = MemoryType::from_str(s);
        assert_eq!(parsed, Some(mt), "roundtrip failed for {s}");
    }
}

#[test]
fn memory_type_display() {
    assert_eq!(MemoryType::Episodic.to_string(), "episodic");
    assert_eq!(MemoryType::Semantic.to_string(), "semantic");
    assert_eq!(MemoryType::Procedural.to_string(), "procedural");
}

#[test]
fn memory_type_from_invalid() {
    assert_eq!(MemoryType::from_str("invalid"), None);
    assert_eq!(MemoryType::from_str(""), None);
}

struct MockLlm {
    response: String,
}

impl LlmCallback for MockLlm {
    fn complete(&self, _prompt: &str) -> Result<String> {
        Ok(self.response.clone())
    }
}

#[test]
fn mock_llm_works() {
    let llm = MockLlm { response: "This is a test response".into() };
    let result = llm.complete("test prompt").expect("complete");
    assert_eq!(result, "This is a test response");
}

#[test]
fn llm_trait_object_works() {
    let llm: Box<dyn LlmCallback> = Box::new(MockLlm { response: "trait object response".into() });
    let result = llm.complete("test").expect("complete");
    assert_eq!(result, "trait object response");
}

#[test]
fn error_texts() {
    assert_eq!(MindCoreError::Migration("m".into()).to_string(), "migration error: m");
    assert_eq!(MindCoreError::ModelNotAvailable("x".into()).to_string(), "model not available: x");
}

#[test]
fn noop_backend_properties() {
    let b = NoopBackend::new(384);
    assert_eq!(b.dimensions(), 384);
    assert!(b.is_available());
    assert_eq!(b.model_name(), "noop");
}

#[test]
fn search_depth_default() {
    assert_eq!(SearchDepth::default(), SearchDepth::Standard);
}

#[test]
fn priority_labels() {
    assert_eq!(priority_label(0), "Critical Context");
    assert_eq!(priority_label(1), "Retry Context");
    assert_eq!(priority_label(10), "Retry Context");
    assert_eq!(priority_label(15), "Specifications");
    assert_eq!(priority_label(25), "Similar Tasks");
    assert_eq!(priority_label(40), "Learnings");
    assert_eq!(priority_label(41), "Historical Context");
}

#[test]
fn assemble_within_budget() {
    let sel = select_within_budget(&vec![30, 30, 30], 100);
    assert_eq!(sel.included.len(), 3);
    assert_eq!(sel.total_tokens, 90);
    assert_eq!(sel.excluded_count, 0);
    assert!(!sel.is_truncated());
}

#[test]
fn assemble_exceeds_budget() {
    let sel = select_within_budget(&vec![30, 30, 30], 50);
    assert_eq!(sel.included.len(), 1);
    assert_eq!(sel.total_tokens, 30);
    assert_eq!(sel.excluded_count, 2);
    assert!(sel.is_truncated());
}

#[test]
fn skip_too_large_items() {
    let sel = select_within_budget(&vec![20, 100, 20], 50);
    assert_eq!(sel.included, vec![0, 2]);
    assert_eq!(sel.excluded_count, 1);
    assert_eq!(sel.remaining_tokens(), 10);
}

#[test]
fn empty_assembly() {
    let sel = select_within_budget(&vec![], 1000);
    assert!(sel.included.is_empty());
    assert_eq!(render_sections(&vec![]), "");
    assert!(!sel.is_truncated());
    assert_eq!(sel.remaining_tokens(), 1000);
}

#[test]
fn render_with_sections() {
    let rendered = render_sections(&vec![(0, "critical info".to_string()), (40, "a learning".to_string())]);
    assert!(rendered.contains("## Critical Context"));
    assert!(rendered.contains("## Learnings"));
    assert!(rendered.contains("critical info"));
    assert!(rendered.contains("a learning"));
    assert_eq!(rendered, "## Critical Context\n\ncritical info\n\n## Learnings\n\na learning\n");
}

#[test]
fn render_groups_items_of_a_section() {
    let rendered = render_sections(&vec![
        (0, "critical info".to_string()),
        (0, "more critical".to_string()),
        (40, "a learning".to_string()),
    ]);
    assert_eq!(
        rendered,
        "## Critical Context\n\ncritical info\nmore critical\n\n## Learnings\n\na learning\n"
    );
}

#[test]
fn rounding_to_single_precision() {
    assert_eq!(round_to_24_bits(0), 0);
    assert_eq!(round_to_24_bits(16_777_215), 16_777_215);
    assert_eq!(round_to_24_bits(16_777_217), 16_777_216);
    assert_eq!(round_to_24_bits(16_777_218), 16_777_218);
    assert_eq!(round_to_24_bits(16_777_219), 16_777_220);
    assert_eq!(round_to_24_bits(u64::MAX as u128), 1u128 << 64);
}
