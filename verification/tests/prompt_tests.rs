use agile_inc::json::JsonValue;
use agile_inc::prompts::{
    generate_dev_prompt, generate_fix_prompt, generate_po_prompt, generate_qa_prompt,
    generate_story_creation_prompt, generate_verification_prompt,
};
use agile_inc::types::{Doc, DocType, Role};

const RULE: &str = "===========================================\n";

fn story() -> Doc {
    let mut d = Doc::new("s-1", DocType::Story, "Login", "Users log in.", "draft", Role::Po);
    d.fields = JsonValue::Object(vec![
        (
            "acceptance_criteria".to_string(),
            JsonValue::Array(vec![JsonValue::string("form shows"), JsonValue::Bool(true), JsonValue::string("works")]),
        ),
        ("definition_of_done".to_string(), JsonValue::Array(vec![JsonValue::string("cargo test")])),
    ]);
    d
}

#[test]
fn story_creation_prompt_text() {
    let p = generate_story_creation_prompt("T", "D", "alice");
    let expected = format!(
        "{RULE}        CREATE NEW STORY\n{RULE}\nTitle: T\nDescription: D\nRequested by: alice\n\n\
Please create a well-structured story with:\n  1. Clear title and description\n  2. Specific acceptance criteria\n  3. Definition of Done (DoD) gates\n\n"
    );
    assert_eq!(p, expected);
}

#[test]
fn po_prompt_text() {
    let mut s = story();
    s.links = vec!["d-9".to_string()];
    let p = generate_po_prompt(&s);
    let expected = format!(
        "{RULE}        PO AGENT - STORY ANALYSIS\n{RULE}\nStory ID: s-1\nTitle: Login\n\nDescription:\nUsers log in.\n\n\
Acceptance Criteria:\n  1. form shows\n  3. works\n\n\
Definition of Done (DoD):\n  1. cargo test\n\n\
Linked Documents: [\"d-9\"]\n\n\
{RULE}        NEXT ACTIONS FOR PO\n{RULE}\
1. Review the story for completeness\n2. Ensure acceptance criteria are testable\n3. Verify DoD gates are machine-executable\n4. Publish 'story.ready' event when ready\n{RULE}"
    );
    assert_eq!(p, expected);
}

#[test]
fn dev_prompt_lists_gates() {
    let s = story();
    let p = generate_dev_prompt(&s, &["cargo test".to_string(), "cargo clippy".to_string()]);
    assert!(p.starts_with(&format!("{RULE}        DEV AGENT - IMPLEMENTATION\n{RULE}\nStory ID: s-1\n")));
    assert!(p.contains("Acceptance Criteria:\n  1. form shows\n  3. works\n\n"));
    assert!(p.contains("Definition of Done (must pass):\n  1. cargo test\n  2. cargo clippy\n\n"));
    assert!(p.ends_with("6. If budget exceeded → emit 'dev.needs_approval'\n===========================================\n"));
}

#[test]
fn fix_prompt_shows_repro_as_json() {
    let mut b = Doc::new("b-1", DocType::Bug, "Crash", "It crashes", "open", Role::Qa);
    b.fields = JsonValue::Object(vec![("repro_steps".to_string(), JsonValue::string("run \"x\""))]);
    let p = generate_fix_prompt(&b);
    assert!(p.contains("Bug ID: b-1\nTitle: Crash\n\nDescription:\nIt crashes\n\nReproduction Steps:\n\"run \\\"x\\\"\"\n\n"));
    let plain = generate_fix_prompt(&Doc::new("b-2", DocType::Bug, "T", "B", "open", Role::Qa));
    assert!(!plain.contains("Reproduction Steps"));
}

#[test]
fn qa_prompt_marks_results() {
    let s = story();
    let results = vec![
        ("cargo test".to_string(), true, "ok".to_string()),
        ("cargo fmt --check".to_string(), false, "diff".to_string()),
    ];
    let p = generate_qa_prompt(&s, &results);
    assert!(p.contains("DoD Gate Results:\n  ✓ PASS cargo test\n    ok\n  ✗ FAIL cargo fmt --check\n    diff\n\n"));
    assert!(p.contains("Result: SOME GATES FAILED\nAction: Create bug document, emit 'bug.new' to Dev\n"));
    let ok = generate_qa_prompt(&s, &results[..1]);
    assert!(ok.contains("Result: ALL GATES PASSED\nAction: Emit 'test.pass' event to PO\n"));
}

#[test]
fn verification_prompt_names_the_story() {
    let mut b = Doc::new("b-1", DocType::Bug, "T", "B", "open", Role::Qa);
    b.fields = JsonValue::Object(vec![("story_id".to_string(), JsonValue::string("s-1"))]);
    let p = generate_verification_prompt(&b);
    assert!(p.contains("Bug ID: b-1\nTitle: T\n\nDescription:\nB\n\nRelated Story: \"s-1\"\n"));
}

#[test]
fn linked_documents_are_listed_in_debug_form() {
    let mut s = story();
    s.links = vec!["a".to_string(), "b\"c".to_string()];
    let p = generate_po_prompt(&s);
    assert!(p.contains("Linked Documents: [\"a\", \"b\\\"c\"]\n\n"));
    assert!(!generate_po_prompt(&story()).contains("Linked Documents"));
}
