use mindcore::bench::dataset::{Answer, Question, QuestionType, Turn};
use mindcore::bench::ingest::{conversation_turns, count_added, turn_importance};
use mindcore::ingest::{IngestStrategy, PassthroughIngest};
use mindcore::memory::store::StoreResult;
use mindcore::traits::record::MemoryType;

#[test]
fn passthrough_returns_input() {
    let ingest = PassthroughIngest;
    let facts = ingest.extract("hello world").expect("extract");
    assert_eq!(facts.len(), 1);
    assert_eq!(facts[0].text, "hello world");
    assert_eq!(facts[0].memory_type, MemoryType::Episodic);
}

#[test]
fn passthrough_trait_object_works() {
    let ingest: Box<dyn IngestStrategy> = Box::new(PassthroughIngest);
    let facts = ingest.extract("test").expect("extract");
    assert_eq!(facts.len(), 1);
}

#[test]
fn passthrough_fields() {
    let facts = PassthroughIngest.extract("").expect("extract");
    assert_eq!(facts[0].text, "");
    assert_eq!(facts[0].category, None);
    assert_eq!(facts[0].importance, 5);
}

fn test_question() -> Question {
    Question {
        question_id: "test_q1".into(),
        question_type: QuestionType::SingleSessionUser,
        question: "What is the user's name?".into(),
        answer: Answer::Single("John".into()),
        question_date: "2024/01/15 (Mon) 14:30".into(),
        haystack_session_ids: vec!["s1".into()],
        haystack_dates: vec!["2024/01/15 (Mon) 10:00".into()],
        haystack_sessions: vec![
            vec![
                Turn { role: "user".into(), content: "My name is John".into(), has_answer: true },
                Turn { role: "assistant".into(), content: "Nice to meet you, John!".into(), has_answer: false },
                Turn { role: "user".into(), content: "   ".into(), has_answer: false },
                Turn { role: "assistant".into(), content: "It's sunny today.".into(), has_answer: false },
            ],
            vec![Turn { role: "user".into(), content: "Second session".into(), has_answer: false }],
        ],
        answer_session_ids: vec!["s1".into()],
    }
}

#[test]
fn conversation_turns_skip_blank_turns() {
    let turns = conversation_turns(&test_question());
    let positions: Vec<(usize, usize)> = turns.iter().map(|t| (t.session_index, t.turn_index)).collect();
    assert_eq!(positions, vec![(0, 0), (0, 1), (0, 3), (1, 0)]);
    assert_eq!(turns[0].content, "My name is John");
    assert_eq!(turns[2].role, "assistant");
    assert_eq!(turns[0].session_date, "2024/01/15 (Mon) 10:00");
    assert_eq!(turns[3].session_date, "");
    assert_eq!(turns[3].content, "Second session");
}

#[test]
fn conversation_turn_metadata() {
    let turns = conversation_turns(&test_question());
    let meta = turns[2].metadata_entries();
    assert_eq!(
        meta,
        vec![
            ("session_index".to_string(), "0".to_string()),
            ("turn_index".to_string(), "3".to_string()),
            ("session_date".to_string(), "2024/01/15 (Mon) 10:00".to_string()),
        ]
    );
}

#[test]
fn user_turns_weigh_more() {
    assert_eq!(turn_importance("user"), 6);
    assert_eq!(turn_importance("assistant"), 5);
    assert_eq!(turn_importance("User"), 5);
}

#[test]
fn added_count_skips_duplicates_and_failures() {
    let results = vec![
        Some(StoreResult::Added(1)),
        Some(StoreResult::Duplicate(1)),
        None,
        Some(StoreResult::Added(2)),
    ];
    assert_eq!(count_added(&results), 2);
    assert_eq!(count_added(&vec![]), 0);
}
