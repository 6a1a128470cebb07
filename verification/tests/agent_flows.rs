use agile_inc::agent::{copy_doc, Effect, Outcome};
use agile_inc::config::Config;
use agile_inc::dev::{check_change_budget, dev_bug_step, dev_route, story_ready_step, DevBugState, DevTask, StoryReadyState};
use agile_inc::json::JsonValue;
use agile_inc::prompts::{generate_dev_prompt, generate_fix_prompt, generate_qa_prompt};
use agile_inc::qa::{build_done_step, qa_bug_step, qa_route, BuildDoneState, QaBugState, QaTask};
use agile_inc::runner::RunnerError;
use agile_inc::types::{AutonomyLevel, ChangeBudget, DiffStat, Doc, DocType, EventEnvelope, ExecResult, Policy, Role};

fn config() -> Config {
    let mut c = Config::default();
    c.redis.dedupe_ttl_seconds = 86400;
    c.opencode.command = "opencode".to_string();
    c.opencode.default_args = vec!["--quiet".to_string()];
    c.opencode.workdir = "/work".to_string();
    c.opencode.timeout_seconds = 1800;
    c.opencode.max_output_kb = 64;
    c
}

fn event(event_type: &str, refs: Vec<(&str, &str)>) -> EventEnvelope {
    let refs = JsonValue::Object(refs.into_iter().map(|(k, v)| (k.to_string(), JsonValue::string(v))).collect());
    EventEnvelope::new("ev-1", "tr-1", event_type, "po", "dev", refs, JsonValue::Object(vec![]))
}

fn story() -> Doc {
    let mut d = Doc::new("s-1", DocType::Story, "Login", "Users log in.", "ready", Role::Po);
    d.fields = JsonValue::Object(vec![(
        "definition_of_done".to_string(),
        JsonValue::Array(vec![JsonValue::string("cargo test"), JsonValue::string("cargo fmt --check")]),
    )]);
    d
}

fn ran(code: i32, ms: u128) -> Result<ExecResult, RunnerError> {
    Ok(ExecResult { exit_code: code, stdout: String::new(), stderr: String::new(), duration_ms: ms, artifacts: vec![] })
}

fn text_of(v: &JsonValue, key: &str) -> String {
    v.get_str(key).unwrap()
}

#[test]
fn dev_and_qa_routing() {
    assert_eq!(dev_route("story.ready"), DevTask::StoryReady);
    assert_eq!(dev_route("bug.new"), DevTask::BugNew);
    assert_eq!(dev_route("build.done"), DevTask::Unhandled);
    assert_eq!(qa_route("build.done"), QaTask::BuildDone);
    assert_eq!(qa_route("bug.new"), QaTask::BugNew);
    assert_eq!(qa_route("story.ready"), QaTask::Unhandled);
}

#[test]
fn change_budget_limits() {
    let b = ChangeBudget::default();
    let d = |f, i, del| Ok(DiffStat { files_changed: f, insertions: i, deletions: del, files: vec![] });
    assert!(check_change_budget(&d(20, 500, 500), &b));
    assert!(!check_change_budget(&d(21, 0, 0), &b));
    assert!(!check_change_budget(&d(1, 501, 0), &b));
    assert!(!check_change_budget(&d(1, 0, 501), &b));
    assert!(check_change_budget(&Err(RunnerError::Timeout(1)), &b));
    let touching = Ok(DiffStat {
        files_changed: 2,
        insertions: 1,
        deletions: 1,
        files: vec!["src/a.rs".to_string(), "infra/compose.yml".to_string()],
    });
    assert!(!check_change_budget(&touching, &b));
    let near = Ok(DiffStat { files_changed: 1, insertions: 1, deletions: 0, files: vec!["src/infra/x".to_string()] });
    assert!(check_change_budget(&near, &b));
}

#[test]
fn redelivered_story_is_skipped() {
    let c = config();
    let e = event("story.ready", vec![("storyId", "s-1")]);
    let (s, eff) = story_ready_step(&c, &Policy::default(), &e, StoryReadyState::Start, Outcome::Started);
    match eff {
        Effect::CheckDedupe(req) => {
            assert_eq!(req.key, "ev-1");
            assert_eq!(req.ttl_seconds, 86400);
        },
        _ => panic!("expected a dedupe check"),
    }
    assert!(matches!(s, StoryReadyState::AwaitDedupe));
    let (s, eff) = story_ready_step(&c, &Policy::default(), &e, StoryReadyState::AwaitDedupe, Outcome::Deduped(false));
    assert!(matches!(s, StoryReadyState::Finished) && matches!(eff, Effect::Done));
    let no_story = event("story.ready", vec![]);
    let (s, _) = story_ready_step(&c, &Policy::default(), &no_story, StoryReadyState::AwaitDedupe, Outcome::Deduped(true));
    assert!(matches!(s, StoryReadyState::Finished));
}

#[test]
fn story_over_budget_asks_for_approval() {
    let c = config();
    let e = event("story.ready", vec![("storyId", "s-1")]);
    let (s, eff) = story_ready_step(&c, &Policy::default(), &e, StoryReadyState::AwaitDedupe, Outcome::Deduped(true));
    assert!(matches!(eff, Effect::GetDoc(ref id) if id == "s-1"));
    let st = story();
    let expected_prompt = generate_dev_prompt(&st, &["cargo test".to_string(), "cargo fmt --check".to_string()]);
    let (s, eff) = story_ready_step(&c, &Policy::default(), &e, s, Outcome::Fetched(Ok(copy_doc(&st))));
    match &eff {
        Effect::Generate(p) => assert_eq!(*p, expected_prompt),
        _ => panic!("expected a model request"),
    }
    let (s, eff) = story_ready_step(&c, &Policy::default(), &e, s, Outcome::Generated(Ok("plan".to_string())));
    let runlog = match eff {
        Effect::PutDoc(d, None) => d,
        _ => panic!("expected the run log"),
    };
    assert_eq!(runlog.title, "Dev Agent - Story s-1");
    assert_eq!(runlog.status, "in_progress");
    assert_eq!(runlog.body, format!("PROMPT:\n{}\n\nLLM RESPONSE:\nplan", expected_prompt));
    assert_eq!(text_of(&runlog.fields, "action"), "story.processing");
    let (s, eff) = story_ready_step(&c, &Policy::default(), &e, s, Outcome::Stored(Ok(copy_doc(&runlog))));
    match &eff {
        Effect::Execute(job) => {
            assert_eq!(job.command, "opencode");
            assert_eq!(job.args, vec!["--quiet".to_string(), "--run".to_string(), expected_prompt.clone()]);
            assert_eq!(job.workdir, "/work");
            assert_eq!(job.timeout_seconds, 1800);
            assert_eq!(job.output_limits.max_stdout_kb, 64);
        },
        _ => panic!("expected a run"),
    }
    let (s, eff) = story_ready_step(&c, &Policy::default(), &e, s, Outcome::Executed(ran(0, 5)));
    match &eff {
        Effect::PutDoc(d, None) => {
            assert_eq!(d.status, "completed");
            assert!(d.body.ends_with("\n\nOutput: exit_code=0, duration=5ms"));
        },
        _ => panic!("expected the run-log update"),
    }
    let (s, eff) = story_ready_step(&c, &Policy::default(), &e, s, Outcome::Stored(Ok(copy_doc(&runlog))));
    assert!(matches!(eff, Effect::DiffStat(ref dir) if dir == "/work"));
    let diff = DiffStat { files_changed: 25, insertions: 1, deletions: 2, files: vec![] };
    let (s, eff) = story_ready_step(&c, &Policy::default(), &e, s, Outcome::Diffed(Ok(diff)));
    match &eff {
        Effect::AppendAudit(stream, a) => {
            assert_eq!(stream, "events");
            assert_eq!(a.action, "build.attempt");
            assert_eq!(a.summary, "Story s-1 - opencode executed, within_budget=false");
        },
        _ => panic!("expected an audit entry"),
    }
    let (s, eff) = story_ready_step(&c, &Policy::default(), &e, s, Outcome::Acked);
    match &eff {
        Effect::PublishToRole(role, env) => {
            assert_eq!(role, "po");
            assert_eq!(env.event_type, "dev.needs_approval");
            assert_eq!(env.to, "po");
            assert_eq!(
                text_of(&env.payload, "summary"),
                "Change budget exceeded for story 'Login': files=25, ins=1, del=2"
            );
            assert_eq!(text_of(&env.refs, "storyId"), "s-1");
        },
        _ => panic!("expected a publication"),
    }
    let (s, eff) = story_ready_step(&c, &Policy::default(), &e, s, Outcome::Acked);
    assert!(matches!(s, StoryReadyState::Finished) && matches!(eff, Effect::Done));
}

#[test]
fn story_within_budget_goes_to_qa() {
    let c = config();
    let e = event("story.ready", vec![("storyId", "s-1")]);
    let st = story();
    let s = StoryReadyState::AwaitDiff { story: st, job_id: "j".to_string(), exit_code: 1 };
    let diff = DiffStat { files_changed: 2, insertions: 10, deletions: 3, files: vec![] };
    let (s, _) = story_ready_step(&c, &Policy::default(), &e, s, Outcome::Diffed(Ok(diff)));
    let (_, eff) = story_ready_step(&c, &Policy::default(), &e, s, Outcome::Acked);
    match &eff {
        Effect::PublishToRole(role, env) => {
            assert_eq!(role, "qa");
            assert_eq!(env.event_type, "build.done");
            assert_eq!(text_of(&env.payload, "summary"), "Build completed for story 'Login'");
            assert!(matches!(env.payload.get("exit_code"), Some(JsonValue::Number(n)) if n == "1"));
        },
        _ => panic!("expected a publication"),
    }
}

#[test]
fn failed_model_call_asks_for_retry() {
    let c = config();
    let e = event("story.ready", vec![("storyId", "s-1")]);
    let s = StoryReadyState::AwaitReply { story: story(), prompt: "p".to_string(), job_id: "j".to_string() };
    let (_, eff) = story_ready_step(&c, &Policy::default(), &e, s, Outcome::Generated(Err("offline".to_string())));
    match &eff {
        Effect::PublishToRole(role, env) => {
            assert_eq!(role, "dev");
            assert_eq!(env.event_type, "story.retry");
            assert_eq!(text_of(&env.payload, "summary"), "Story s-1 needs retry: offline");
        },
        _ => panic!("expected a retry"),
    }
}

#[test]
fn bug_acknowledgement() {
    let c = config();
    let e = event("bug.new", vec![("bugId", "b-1")]);
    let (s, eff) = dev_bug_step(&c, &e, DevBugState::Start, Outcome::Started);
    assert!(matches!(eff, Effect::CheckDedupe(ref req) if req.key == "ev-1"));
    let (s, eff) = dev_bug_step(&c, &e, s, Outcome::Deduped(true));
    assert!(matches!(eff, Effect::GetDoc(ref id) if id == "b-1"));
    let bug = Doc::new("b-1", DocType::Bug, "Crash", "It crashes", "open", Role::Qa);
    let prompt = generate_fix_prompt(&bug);
    let (s, eff) = dev_bug_step(&c, &e, s, Outcome::Fetched(Ok(copy_doc(&bug))));
    assert!(matches!(eff, Effect::Generate(ref p) if *p == prompt));
    let (s, eff) = dev_bug_step(&c, &e, s, Outcome::Generated(Ok("fix".to_string())));
    match &eff {
        Effect::PutDoc(d, None) => assert_eq!(d.title, "Dev Agent - Bug Fix b-1"),
        _ => panic!("expected the run log"),
    }
    let (s, eff) = dev_bug_step(&c, &e, s, Outcome::Stored(Ok(copy_doc(&bug))));
    match &eff {
        Effect::PublishToRole(role, env) => {
            assert_eq!(role, "qa");
            assert_eq!(env.event_type, "bug.acknowledged");
            assert_eq!(text_of(&env.payload, "summary"), "Bug 'Crash' acknowledged, fix in progress");
        },
        _ => panic!("expected a publication"),
    }
    let (s, _) = dev_bug_step(&c, &e, s, Outcome::Acked);
    assert!(matches!(s, DevBugState::Finished));
    let (s, _) = dev_bug_step(&c, &event("bug.new", vec![]), DevBugState::AwaitDedupe, Outcome::Deduped(true));
    assert!(matches!(s, DevBugState::Finished));
    let (s, eff) = dev_bug_step(&c, &e, DevBugState::AwaitDedupe, Outcome::Deduped(false));
    assert!(matches!(s, DevBugState::Finished) && matches!(eff, Effect::Done));
}

#[test]
fn failing_gate_files_a_bug() {
    let c = config();
    let e = event("build.done", vec![("storyId", "s-1")]);
    let (s, eff) = build_done_step(&c, &e, BuildDoneState::AwaitDedupe, Outcome::Deduped(true));
    assert!(matches!(eff, Effect::GetDoc(ref id) if id == "s-1"));
    let st = story();
    let (s, eff) = build_done_step(&c, &e, s, Outcome::Fetched(Ok(copy_doc(&st))));
    match &eff {
        Effect::Execute(job) => {
            assert_eq!(job.command, "cargo");
            assert_eq!(job.args, vec!["test".to_string()]);
            assert_eq!(job.timeout_seconds, 300);
            assert_eq!(job.workdir, "/work");
        },
        _ => panic!("expected the first gate"),
    }
    let (s, eff) = build_done_step(&c, &e, s, Outcome::Executed(ran(0, 7)));
    match &eff {
        Effect::Execute(job) => assert_eq!(job.args, vec!["fmt".to_string(), "--check".to_string()]),
        _ => panic!("expected the second gate"),
    }
    let (s, eff) = build_done_step(&c, &e, s, Outcome::Executed(ran(1, 3)));
    let results = vec![
        ("cargo test".to_string(), true, "exit=0, 7ms".to_string()),
        ("cargo fmt --check".to_string(), false, "exit=1, 3ms".to_string()),
    ];
    match &eff {
        Effect::Generate(p) => assert_eq!(*p, generate_qa_prompt(&st, &results)),
        _ => panic!("expected a model request"),
    }
    let (s, eff) = build_done_step(&c, &e, s, Outcome::Generated(Ok("looks bad".to_string())));
    match &eff {
        Effect::PutDoc(d, None) => {
            assert_eq!(d.title, "QA Agent - Story s-1");
            assert_eq!(d.status, "failed");
        },
        _ => panic!("expected the run log"),
    }
    let (s, eff) = build_done_step(&c, &e, s, Outcome::Stored(Ok(copy_doc(&st))));
    match &eff {
        Effect::AppendAudit(_, a) => {
            assert_eq!(a.action, "test.completed");
            assert_eq!(a.summary, "Story s-1 - gates: failed");
        },
        _ => panic!("expected an audit entry"),
    }
    let (s, eff) = build_done_step(&c, &e, s, Outcome::Acked);
    match &eff {
        Effect::PublishToRole(role, env) => {
            assert_eq!(role, "po");
            assert_eq!(env.event_type, "test.result");
            assert_eq!(text_of(&env.payload, "result"), "fail");
        },
        _ => panic!("expected the report"),
    }
    let (s, eff) = build_done_step(&c, &e, s, Outcome::Acked);
    let plan = match eff {
        Effect::PutDoc(d, None) => d,
        _ => panic!("expected the regression plan"),
    };
    assert_eq!(plan.doc_type, DocType::Testplan);
    assert_eq!(plan.title, "Regression plan: Login");
    assert_eq!(plan.body, "Regression case: cargo fmt --check");
    assert_eq!(plan.fields.get_string_list("cases"), Some(vec!["cargo fmt --check".to_string()]));
    let (s, eff) = build_done_step(&c, &e, s, Outcome::Stored(Ok(copy_doc(&plan))));
    let bug = match eff {
        Effect::PutDoc(d, None) => d,
        _ => panic!("expected a bug"),
    };
    assert_eq!(bug.doc_type, DocType::Bug);
    assert_eq!(bug.title, "Test failure: Login");
    assert_eq!(bug.body, "Story: Login\n\nFailed gates:\ncargo fmt --check: exit=1, 3ms");
    assert_eq!(bug.status, "open");
    assert_eq!(bug.links, vec!["s-1".to_string()]);
    assert_eq!(text_of(&bug.fields, "testplan_id"), plan.id);
    assert_eq!(text_of(&bug.fields, "regression_case_id"), "cargo fmt --check");
    assert_eq!(text_of(&plan.fields, "bug_id"), bug.id);
    let (s, eff) = build_done_step(&c, &e, s, Outcome::Stored(Ok(copy_doc(&bug))));
    match &eff {
        Effect::PublishToRole(role, env) => {
            assert_eq!(role, "dev");
            assert_eq!(env.event_type, "bug.new");
            assert_eq!(text_of(&env.refs, "bugId"), bug.id);
            assert_eq!(text_of(&env.payload, "summary"), "Bug created for story 'Login'");
        },
        _ => panic!("expected bug.new"),
    }
    let (s, _) = build_done_step(&c, &e, s, Outcome::Acked);
    assert!(matches!(s, BuildDoneState::Finished));
}

#[test]
fn passing_gates_file_no_bug() {
    let c = config();
    let e = event("build.done", vec![("storyId", "s-1")]);
    let results = vec![("cargo test".to_string(), true, "exit=0, 1ms".to_string())];
    let s = BuildDoneState::AwaitAudit { story: story(), results };
    let (s, eff) = build_done_step(&c, &e, s, Outcome::Acked);
    assert!(matches!(eff, Effect::PublishToRole(_, ref env)
        if env.event_type == "test.result" && env.payload.get_str("result") == Some("pass".to_string())));
    let (s, eff) = build_done_step(&c, &e, s, Outcome::Acked);
    assert!(matches!(s, BuildDoneState::Finished) && matches!(eff, Effect::Done));
}

#[test]
fn redelivered_build_is_skipped() {
    let c = config();
    let e = event("build.done", vec![("storyId", "s-1")]);
    let (s, eff) = build_done_step(&c, &e, BuildDoneState::AwaitDedupe, Outcome::Deduped(false));
    assert!(matches!(s, BuildDoneState::Finished) && matches!(eff, Effect::Done));
}

#[test]
fn bug_verification() {
    let c = config();
    let e = event("bug.new", vec![("bugId", "b-1")]);
    let (s, eff) = qa_bug_step(&c, &e, QaBugState::Start, Outcome::Started);
    assert!(matches!(eff, Effect::CheckDedupe(ref req) if req.key == "ev-1"));
    let (r, eff2) = qa_bug_step(&c, &e, QaBugState::AwaitDedupe, Outcome::Deduped(false));
    assert!(matches!(r, QaBugState::Finished) && matches!(eff2, Effect::Done));
    let (s, _) = qa_bug_step(&c, &e, s, Outcome::Deduped(true));
    let bug = Doc::new("b-1", DocType::Bug, "Crash", "It crashes", "open", Role::Qa);
    let (s, _) = qa_bug_step(&c, &e, s, Outcome::Fetched(Ok(copy_doc(&bug))));
    let (s, eff) = qa_bug_step(&c, &e, s, Outcome::Generated(Ok("verify".to_string())));
    assert!(matches!(eff, Effect::PutDoc(ref d, None) if d.title == "QA Agent - Bug Verification b-1"));
    let (_, eff) = qa_bug_step(&c, &e, s, Outcome::Stored(Ok(copy_doc(&bug))));
    match &eff {
        Effect::PublishToRole(role, env) => {
            assert_eq!(role, "po");
            assert_eq!(env.event_type, "bug.verifying");
            assert_eq!(text_of(&env.payload, "summary"), "Verifying bug fix for 'Crash'");
        },
        _ => panic!("expected a publication"),
    }
}

#[test]
fn bug_filed_even_when_plan_store_fails() {
    let c = config();
    let e = event("build.done", vec![("storyId", "s-1")]);
    let results = vec![("cargo test".to_string(), false, "exit=101, 9ms".to_string())];
    let s = BuildDoneState::AwaitReported { story: story(), results };
    let (s, eff) = build_done_step(&c, &e, s, Outcome::Acked);
    let plan_id = match &eff {
        Effect::PutDoc(d, None) => {
            assert_eq!(d.doc_type, DocType::Testplan);
            d.id.clone()
        },
        _ => panic!("expected the regression plan"),
    };
    let (s, eff) = build_done_step(&c, &e, s, Outcome::Stored(Err("down".to_string())));
    let bug_id = match &eff {
        Effect::PutDoc(d, None) => {
            assert_eq!(d.doc_type, DocType::Bug);
            assert_eq!(text_of(&d.fields, "testplan_id"), plan_id);
            assert_eq!(text_of(&d.fields, "regression_case_id"), "cargo test");
            d.id.clone()
        },
        _ => panic!("expected the bug"),
    };
    let (_s, eff) = build_done_step(&c, &e, s, Outcome::Stored(Err("down".to_string())));
    match &eff {
        Effect::PublishToRole(role, env) => {
            assert_eq!(role, "dev");
            assert_eq!(env.event_type, "bug.new");
            assert_eq!(text_of(&env.refs, "bugId"), bug_id);
        },
        _ => panic!("expected bug.new"),
    }
}

#[test]
fn suggest_only_policy_runs_nothing() {
    let c = config();
    let mut policy = Policy::default();
    policy.autonomy_level = AutonomyLevel::L0;
    let e = event("story.ready", vec![("storyId", "s-1")]);
    let body = "PROMPT:\np\n\nLLM RESPONSE:\nplan";
    let runlog = Doc::new("r-1", DocType::Runlog, "Dev Agent - Story s-1", body, "in_progress", Role::Dev);
    let s = StoryReadyState::AwaitRunlogSaved {
        story: story(),
        prompt: "p".to_string(),
        job_id: "j".to_string(),
        runlog: copy_doc(&runlog),
    };
    let (s, eff) = story_ready_step(&c, &policy, &e, s, Outcome::Stored(Ok(runlog)));
    match &eff {
        Effect::PutDoc(d, None) => {
            assert_eq!(d.doc_type, DocType::Artifact);
            assert_eq!(d.status, "proposed");
            assert_eq!(d.title, "Dev Proposal - Story s-1");
            assert_eq!(d.body, body);
            assert_eq!(d.links, vec!["s-1".to_string()]);
            assert_eq!(text_of(&d.fields, "runlog_id"), "r-1");
        },
        _ => panic!("expected a proposal"),
    }
    let (s, eff) = story_ready_step(&c, &policy, &e, s, Outcome::Stored(Err("x".to_string())));
    assert!(matches!(s, StoryReadyState::Finished) && matches!(eff, Effect::Done));
}
