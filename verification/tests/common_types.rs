use agile_inc::json::JsonValue;
use agile_inc::types::{
    AuditEntry, AutonomyLevel, ChangeBudget, DedupScope, Doc, DocQuery, DocType, EventEnvelope,
    ExecJob, OutputLimits, Policy, Role, SortDir, SortField,
};

#[test]
fn test_doc_type_from_str() {
    assert_eq!("story".parse::<DocType>().unwrap(), DocType::Story);
    assert_eq!("bug".parse::<DocType>().unwrap(), DocType::Bug);
    assert!("invalid".parse::<DocType>().is_err());
}

#[test]
fn test_role_from_str() {
    assert_eq!("po".parse::<Role>().unwrap(), Role::Po);
    assert_eq!("dev".parse::<Role>().unwrap(), Role::Dev);
    assert!("admin".parse::<Role>().is_err());
}

#[test]
fn test_event_envelope_creation() {
    let env = EventEnvelope::new(
        "evt-123",
        "trace-456",
        "story.ready",
        "po",
        "dev",
        JsonValue::Object(Vec::new()),
        JsonValue::Object(vec![("summary".to_string(), JsonValue::string("test story"))]),
    );
    assert_eq!(env.event_id, "evt-123");
    assert_eq!(env.trace_id, "trace-456");
    assert!(!env.ts.is_empty());
}

#[test]
fn test_doc_creation() {
    let doc = Doc::new("doc-123", DocType::Story, "Test Story", "Story body", "draft", Role::Po);
    assert_eq!(doc.id, "doc-123");
    assert_eq!(doc.doc_type, DocType::Story);
    assert_eq!(doc.status, "draft");
    assert_eq!(doc.owner_role, Role::Po);
    assert_eq!(doc.version, 1);
}

#[test]
fn doc_type_names_round_trip() {
    let all = [
        DocType::Story,
        DocType::Task,
        DocType::Bug,
        DocType::Testplan,
        DocType::Policy,
        DocType::Artifact,
        DocType::Runlog,
    ];
    let names = ["story", "task", "bug", "testplan", "policy", "artifact", "runlog"];
    for (t, n) in all.iter().zip(names.iter()) {
        assert_eq!(t.as_str(), *n);
        assert_eq!(t.to_string(), *n);
        assert_eq!(DocType::parse(n).unwrap(), *t);
    }
}

#[test]
fn unknown_doc_type_error_names_the_input() {
    assert_eq!(DocType::parse("epic").unwrap_err(), "unknown doc type: epic");
    assert_eq!(DocType::parse("StOrY").unwrap(), DocType::Story);
}

#[test]
fn role_names_round_trip() {
    let all = [Role::Po, Role::Dev, Role::Qa, Role::System];
    let names = ["po", "dev", "qa", "system"];
    for (r, n) in all.iter().zip(names.iter()) {
        assert_eq!(r.as_str(), *n);
        assert_eq!(r.to_string(), *n);
        assert_eq!(Role::parse(n).unwrap(), *r);
    }
    assert_eq!(Role::parse("admin").unwrap_err(), "unknown role: admin");
    assert_eq!(Role::parse("QA").unwrap(), Role::Qa);
}

#[test]
fn new_doc_defaults() {
    let doc = Doc::new("d1", DocType::Bug, "T", "B", "open", Role::Qa);
    assert!(doc.tags.is_empty());
    assert!(doc.links.is_empty());
    assert!(doc.trace_id.is_none());
    assert_eq!(doc.created_at, doc.updated_at);
    assert!(!doc.created_at.is_empty());
    assert!(matches!(doc.fields, JsonValue::Object(ref e) if e.is_empty()));
}

#[test]
fn timestamps_are_rfc3339() {
    let env = EventEnvelope::new("e", "t", "x", "a", "b", JsonValue::Null, JsonValue::Null);
    let ts = env.ts;
    assert!(ts.len() >= 20);
    assert_eq!(&ts[4..5], "-");
    assert_eq!(&ts[10..11], "T");
    let doc = Doc::new("d", DocType::Task, "T", "B", "s", Role::System);
    assert_eq!(&doc.created_at[10..11], "T");
}

#[test]
fn audit_entry_creation() {
    let a = AuditEntry::new("tr", "ev", Role::Dev, "build.attempt", "did it");
    assert_eq!(a.trace_id, "tr");
    assert_eq!(a.event_id, "ev");
    assert_eq!(a.actor_role, Role::Dev);
    assert_eq!(a.action, "build.attempt");
    assert_eq!(a.summary, "did it");
    assert!(a.refs.doc_ids.is_empty());
    assert!(!a.ts.is_empty());
}

#[test]
fn policy_defaults() {
    let p = Policy::default();
    assert_eq!(p.policy_id, "default");
    assert_eq!(p.autonomy_level, AutonomyLevel::L1);
    assert_eq!(p.required_gates, vec!["cargo test".to_string(), "cargo fmt --check".to_string()]);
    let b = ChangeBudget::default();
    assert_eq!((b.max_files, b.max_insertions, b.max_deletions), (20, 500, 500));
    assert_eq!(b.protected_paths, vec!["infra/".to_string()]);
    assert_eq!(AutonomyLevel::default(), AutonomyLevel::L1);
    assert_eq!(DedupScope::default(), DedupScope::Global);
}

#[test]
fn query_and_job_defaults() {
    let q = DocQuery::default();
    assert_eq!(q.limit, 50);
    assert_eq!(q.sort_by, SortField::UpdatedAt);
    assert_eq!(q.sort_dir, SortDir::Desc);
    assert!(q.search.is_none() && q.cursor.is_none());
    assert_eq!(SortDir::default(), SortDir::Asc);
    let j = ExecJob::default();
    assert_eq!(j.command, "opencode");
    assert_eq!(j.workdir, "./");
    assert_eq!(j.timeout_seconds, 1800);
    assert!(j.args.is_empty() && j.env.is_empty());
    let l = OutputLimits::new(64);
    assert_eq!((l.max_stdout_kb, l.max_stderr_kb), (64, 64));
}
