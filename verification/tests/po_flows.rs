use agile_inc::agent::{copy_doc, Effect, Outcome};
use agile_inc::config::Config;
use agile_inc::json::JsonValue;
use agile_inc::po::{
    analyze_for_continuation, begin_dialogue, build_refinement_prompt, create_step, dialogue_step, po_route,
    po_run_step, refine_step, refined_status, replace_all, story_is_ready, CreateState, DialoguePhase, DialogueStep,
    PoPrompts, PoRunState, PoTask, RefineState,
};
use agile_inc::prompts::generate_po_prompt;
use agile_inc::types::{Doc, DocType, EventEnvelope, Role};

fn config(rounds: u32) -> Config {
    let mut c = Config::default();
    c.prompts.max_llm_rounds = rounds;
    c.mqtt.base_topic = "agileinc".to_string();
    c
}

fn prompts() -> PoPrompts {
    PoPrompts {
        system: "SYS".to_string(),
        refinement: "T={title} D={description} AC={acceptance_criteria} DOD={definition_of_done}".to_string(),
        criteria: "CRIT".to_string(),
    }
}

fn obj(entries: Vec<(&str, JsonValue)>) -> JsonValue {
    JsonValue::Object(entries.into_iter().map(|(k, v)| (k.to_string(), v)).collect())
}

fn event(event_type: &str, refs: JsonValue, payload: JsonValue) -> EventEnvelope {
    EventEnvelope::new("ev-1", "tr-1", event_type, "boss", "po", refs, payload)
}

fn runlog(id: &str) -> Doc {
    Doc::new(id, DocType::Runlog, "r", "b", "in_progress", Role::Po)
}

fn text_of(v: &JsonValue, key: &str) -> String {
    v.get_str(key).unwrap()
}

#[test]
fn po_routing() {
    assert_eq!(po_route("po.run"), PoTask::Run);
    assert_eq!(po_route("po.refine"), PoTask::Refine);
    assert_eq!(po_route("story.new"), PoTask::Create);
    assert_eq!(po_route("story.create"), PoTask::Create);
    assert_eq!(po_route("policy.changed"), PoTask::PolicyChanged);
    assert_eq!(po_route("other"), PoTask::Unhandled);
}

#[test]
fn reading_replies() {
    assert!(!analyze_for_continuation("All DONE here"));
    assert!(!analyze_for_continuation("task completed"));
    assert!(!analyze_for_continuation("Finished."));
    assert!(analyze_for_continuation("next step: write tests"));
    assert!(story_is_ready("Looks great"));
    assert!(!story_is_ready("This is NOT READY yet"));
    assert!(!story_is_ready("please return to backlog"));
    assert!(!story_is_ready("Do Not Publish"));
    assert!(!story_is_ready("status: not_ready"));
}

#[test]
fn refinement_statuses() {
    assert_eq!(refined_status("Readiness Status:\nREADY"), "ready");
    assert_eq!(refined_status("readiness status: fine\n ready to go"), "ready");
    assert_eq!(refined_status("Readiness status: READY"), "ready");
    assert_eq!(refined_status("Readiness status: not ready"), "refining");
    assert_eq!(refined_status("ready"), "refining");
    assert_eq!(refined_status("Readiness status: maybe"), "refining");
}

#[test]
fn replacing() {
    assert_eq!(replace_all("a{x}b{x}", "{x}", "Y"), "aYbY");
    assert_eq!(replace_all("aaa", "aa", "b"), "ba");
    assert_eq!(replace_all("none", "{x}", "Y"), "none");
    assert_eq!(replace_all("{x}", "{x}", "{x}{x}"), "{x}{x}");
    assert_eq!(replace_all("abc", "", "-"), "abc".replace("", "-"));
    assert_eq!(replace_all("", "", "-"), "-");
}

#[test]
fn refinement_prompt_fills_the_template() {
    let mut story = Doc::new("s-1", DocType::Story, "Login", "Body", "draft", Role::Po);
    story.fields = obj(vec![(
        "acceptance_criteria",
        JsonValue::Array(vec![JsonValue::string("one"), JsonValue::string("two")]),
    )]);
    let p = build_refinement_prompt(&prompts(), &story);
    assert_eq!(p, "T=Login D=Body\n\nCRIT AC=1. one\n2. two DOD=None provided");
}

#[test]
fn dialogue_ends_when_the_model_is_done() {
    let c = config(3);
    let p = prompts();
    let (phase, eff) = begin_dialogue(&c, &p, "run-1".to_string(), "do it".to_string());
    assert!(matches!(eff, Effect::Generate(ref t) if t == "SYS\n\n---\n\ndo it"));
    let step = dialogue_step(&c, &p, phase, Outcome::Generated(Ok("step one".to_string())));
    let (phase, eff) = match step {
        DialogueStep::Continue(ph, e) => (ph, e),
        _ => panic!("expected a round read"),
    };
    assert!(matches!(eff, Effect::GetDoc(ref id) if id == "run-1"));
    let log = runlog("run-1");
    let step = dialogue_step(&c, &p, phase, Outcome::Fetched(Ok(copy_doc(&log))));
    let (phase, eff) = match step {
        DialogueStep::Continue(ph, e) => (ph, e),
        _ => panic!("expected the round record"),
    };
    match &eff {
        Effect::PutDoc(d, None) => {
            assert!(matches!(d.fields.get("llm_rounds"), Some(JsonValue::Number(n)) if n == "1"));
            assert_eq!(text_of(&d.fields, "llm_response"), "step one");
        },
        _ => panic!("expected the round record"),
    }
    let step = dialogue_step(&c, &p, phase, Outcome::Stored(Ok(copy_doc(&log))));
    let (phase, eff) = match step {
        DialogueStep::Continue(ph, e) => (ph, e),
        _ => panic!("expected a second round"),
    };
    assert!(matches!(eff, Effect::Generate(ref t)
        if t == "do it\n\n---\n\nPrevious response:\nstep one\n\nDo you need to continue? If yes, provide the next step. If done, say DONE."));
    let step = dialogue_step(&c, &p, phase, Outcome::Generated(Ok("DONE".to_string())));
    let phase = match step {
        DialogueStep::Continue(ph, _) => ph,
        _ => panic!(),
    };
    // the run log cannot be read: the round is not recorded, the reply still ends the dialogue
    let step = dialogue_step(&c, &p, phase, Outcome::Fetched(Err("gone".to_string())));
    let phase = match step {
        DialogueStep::Continue(ph @ DialoguePhase::AwaitFinalRead { .. }, _) => ph,
        _ => panic!("expected the result to be recorded"),
    };
    let step = dialogue_step(&c, &p, phase, Outcome::Fetched(Ok(copy_doc(&log))));
    let (phase, eff) = match step {
        DialogueStep::Continue(ph, e) => (ph, e),
        _ => panic!(),
    };
    match &eff {
        Effect::PutDoc(d, None) => {
            assert_eq!(d.status, "completed");
            assert_eq!(text_of(&d.fields, "final_status"), "completed");
            assert_eq!(text_of(&d.fields, "llm_response"), "DONE");
        },
        _ => panic!("expected the result record"),
    }
    match dialogue_step(&c, &p, phase, Outcome::Stored(Ok(log))) {
        DialogueStep::Ended(id, r) => {
            assert_eq!(id, "run-1");
            assert_eq!(r, Ok("DONE".to_string()));
        },
        _ => panic!("expected the end"),
    }
}

#[test]
fn dialogue_stops_after_the_configured_rounds() {
    let c = config(1);
    let p = prompts();
    let (phase, _) = begin_dialogue(&c, &p, "run-1".to_string(), "go".to_string());
    let phase = match dialogue_step(&c, &p, phase, Outcome::Generated(Ok("more to do".to_string()))) {
        DialogueStep::Continue(ph, _) => ph,
        _ => panic!(),
    };
    let phase = match dialogue_step(&c, &p, phase, Outcome::Fetched(Err("x".to_string()))) {
        DialogueStep::Continue(ph, eff) => {
            assert!(matches!(eff, Effect::GetDoc(_)));
            ph
        },
        _ => panic!(),
    };
    match dialogue_step(&c, &p, phase, Outcome::Fetched(Err("x".to_string()))) {
        DialogueStep::Ended(_, r) => assert_eq!(r, Err("Max rounds (1) reached".to_string())),
        _ => panic!("expected the end"),
    }
    let none = config(0);
    let (phase, eff) = begin_dialogue(&none, &p, "run-2".to_string(), "go".to_string());
    assert!(matches!(eff, Effect::GetDoc(_)));
    assert!(matches!(phase, DialoguePhase::AwaitFinalRead { result: Err(ref m), .. } if m == "Max rounds (0) reached"));
}

#[test]
fn free_form_run() {
    let c = config(2);
    let p = prompts();
    let e = event("po.run", obj(vec![]), obj(vec![("prompt", JsonValue::string("plan it"))]));
    let (s, eff) = po_run_step(&c, &p, &e, PoRunState::AwaitDedupe, Outcome::Deduped(true));
    let run_id = match &s {
        PoRunState::AwaitRunlogSaved { run_id, prompt } => {
            assert_eq!(prompt, "plan it");
            assert_eq!(run_id.len(), 36);
            run_id.clone()
        },
        _ => panic!("expected the run log"),
    };
    match &eff {
        Effect::PutDoc(d, None) => {
            assert_eq!(d.id, run_id);
            assert_eq!(d.title, format!("PO Run {}", &run_id[..8]));
            assert_eq!(d.body, "plan it");
            assert_eq!(d.status, "in_progress");
            assert_eq!(d.trace_id, Some("tr-1".to_string()));
            assert_eq!(text_of(&d.fields, "system_prompt"), "SYS");
            assert!(matches!(d.fields.get("context"), Some(JsonValue::Null)));
        },
        _ => panic!("expected the run log"),
    }
    let (s, eff) = po_run_step(&c, &p, &e, s, Outcome::Stored(Ok(runlog(&run_id))));
    assert!(matches!(eff, Effect::Generate(ref t) if t == "SYS\n\n---\n\nplan it"));
    let (s, eff) = po_run_step(&c, &p, &e, s, Outcome::Generated(Err("down".to_string())));
    assert!(matches!(eff, Effect::GetDoc(ref id) if *id == run_id));
    let (s, eff) = po_run_step(&c, &p, &e, s, Outcome::Fetched(Err("gone".to_string())));
    assert!(matches!(s, PoRunState::Finishing));
    match &eff {
        Effect::Publish(topic, env) => {
            assert_eq!(topic, "agileinc/role/boss/inbox");
            assert_eq!(env.event_type, "po.completed");
            assert_eq!(env.from, "po");
            assert_eq!(env.to, "boss");
            assert_eq!(text_of(&env.payload, "status"), "failed");
            assert_eq!(text_of(&env.payload, "response"), "");
            assert!(env.refs.get_str("runId").is_some());
        },
        _ => panic!("expected the reply"),
    }
    let empty = event("po.run", obj(vec![]), obj(vec![]));
    let (s, eff) = po_run_step(&c, &p, &empty, PoRunState::AwaitDedupe, Outcome::Deduped(true));
    assert!(matches!(s, PoRunState::Finished) && matches!(eff, Effect::Done));
}

#[test]
fn refinement_marks_the_story() {
    let c = config(2);
    let p = prompts();
    let e = event("po.refine", obj(vec![]), obj(vec![("storyId", JsonValue::string("story-0001"))]));
    let (s, eff) = refine_step(&c, &p, &e, RefineState::AwaitDedupe, Outcome::Deduped(true));
    assert!(matches!(eff, Effect::GetDoc(ref id) if id == "story-0001"));
    let story = Doc::new("story-0001", DocType::Story, "Login", "Body", "draft", Role::Po);
    let (s, eff) = refine_step(&c, &p, &e, s, Outcome::Fetched(Ok(copy_doc(&story))));
    let run_id = match &eff {
        Effect::PutDoc(d, None) => {
            assert_eq!(d.title, "PO Refinement story-00");
            assert_eq!(d.body, "T=Login D=Body\n\nCRIT AC=None provided DOD=None provided");
            assert_eq!(text_of(&d.fields, "story_id"), "story-0001");
            d.id.clone()
        },
        _ => panic!("expected the run log"),
    };
    let (s, _) = refine_step(&c, &p, &e, s, Outcome::Stored(Ok(runlog(&run_id))));
    let reply = "Readiness Status:\nREADY - done".to_string();
    let (s, _) = refine_step(&c, &p, &e, s, Outcome::Generated(Ok(reply.clone())));
    let (s, _) = refine_step(&c, &p, &e, s, Outcome::Fetched(Err("x".to_string())));
    let (s, eff) = refine_step(&c, &p, &e, s, Outcome::Fetched(Err("x".to_string())));
    assert!(matches!(eff, Effect::GetDoc(ref id) if id == "story-0001"));
    let (s, eff) = refine_step(&c, &p, &e, s, Outcome::Fetched(Ok(copy_doc(&story))));
    match &eff {
        Effect::PutDoc(d, None) => {
            assert_eq!(d.id, "story-0001");
            assert_eq!(d.status, "ready");
            assert_eq!(text_of(&d.fields, "refinement_response"), reply);
        },
        _ => panic!("expected the refined story"),
    }
    let (s, eff) = refine_step(&c, &p, &e, s, Outcome::Stored(Ok(story)));
    match &eff {
        Effect::Publish(topic, env) => {
            assert_eq!(topic, "agileinc/role/boss/inbox");
            assert_eq!(env.event_type, "po.refinement.completed");
            assert_eq!(text_of(&env.refs, "storyId"), "story-0001");
            assert_eq!(text_of(&env.payload, "status"), "completed");
            assert_eq!(text_of(&env.payload, "response"), reply);
        },
        _ => panic!("expected the reply"),
    }
    let (s, _) = refine_step(&c, &p, &e, s, Outcome::Acked);
    assert!(matches!(s, RefineState::Finished));
    let none = event("po.refine", obj(vec![]), obj(vec![]));
    let (s, _) = refine_step(&c, &p, &none, RefineState::AwaitDedupe, Outcome::Deduped(true));
    assert!(matches!(s, RefineState::Finished));
}

#[test]
fn story_creation_publishes_ready_stories() {
    let refs = obj(vec![("docIds", JsonValue::Array(vec![JsonValue::string("d-1"), JsonValue::Bool(true)]))]);
    let e = event("story.new", refs, obj(vec![("title", JsonValue::string("Login"))]));
    let (s, eff) = create_step(&e, CreateState::Start, Outcome::Started);
    let draft = match eff {
        Effect::PutDoc(d, Some(key)) => {
            assert_eq!(key, "ev-1");
            d
        },
        _ => panic!("expected the draft"),
    };
    assert_eq!(draft.id.len(), 36);
    assert_eq!(draft.title, "Login");
    assert_eq!(draft.body, "No description provided");
    assert_eq!(draft.status, "draft");
    assert_eq!(draft.links, vec!["d-1".to_string()]);
    assert_eq!(draft.fields.get_string_list("acceptance_criteria"), Some(vec![]));
    assert_eq!(
        draft.fields.get_string_list("definition_of_done"),
        Some(vec!["cargo test".to_string(), "cargo fmt --check".to_string()])
    );
    let (s, eff) = create_step(&e, s, Outcome::Stored(Ok(copy_doc(&draft))));
    assert!(matches!(eff, Effect::Generate(ref p) if *p == generate_po_prompt(&draft)));
    let (s, eff) = create_step(&e, s, Outcome::Generated(Ok("Looks good".to_string())));
    match &eff {
        Effect::AppendAudit(stream, a) => {
            assert_eq!(stream, "events");
            assert_eq!(a.action, "story.created");
            assert_eq!(a.summary, "Created story: Login");
        },
        _ => panic!("expected the audit"),
    }
    let (s, eff) = create_step(&e, s, Outcome::Acked);
    match &eff {
        Effect::PutDoc(d, None) => {
            assert_eq!(d.title, format!("PO Agent - Story {}", draft.id));
            assert_eq!(d.status, "completed");
            assert_eq!(text_of(&d.fields, "action"), "story.created");
        },
        _ => panic!("expected the run log"),
    }
    let (s, eff) = create_step(&e, s, Outcome::Stored(Ok(runlog("r"))));
    assert!(matches!(eff, Effect::PutDoc(ref d, None) if d.status == "ready"));
    let (s, eff) = create_step(&e, s, Outcome::Stored(Ok(runlog("r"))));
    match &eff {
        Effect::PublishToRole(role, env) => {
            assert_eq!(role, "dev");
            assert_eq!(env.event_type, "story.ready");
            assert_eq!(text_of(&env.refs, "storyId"), draft.id);
            assert_eq!(text_of(&env.payload, "summary"), "Story 'Login' is ready for development");
        },
        _ => panic!("expected story.ready"),
    }
    let (s, _) = create_step(&e, s, Outcome::Acked);
    assert!(matches!(s, CreateState::Finished));
}

#[test]
fn story_creation_keeps_unready_stories() {
    let e = event("story.new", obj(vec![]), obj(vec![]));
    let saved = Doc::new("s-9", DocType::Story, "New Story", "No description provided", "draft", Role::Po);
    let s = CreateState::AwaitRunlogSaved { title: "New Story".to_string(), saved, response: "NOT READY".to_string() };
    let (s, eff) = create_step(&e, s, Outcome::Stored(Ok(runlog("r"))));
    assert!(matches!(eff, Effect::PutDoc(ref d, None) if d.status == "refining"));
    let (s, eff) = create_step(&e, s, Outcome::Stored(Ok(runlog("r"))));
    assert!(matches!(s, CreateState::Finished) && matches!(eff, Effect::Done));
}

#[test]
fn story_creation_failure_is_reported() {
    let e = event("story.new", obj(vec![]), obj(vec![("body", JsonValue::string("B"))]));
    let saved = Doc::new("s-9", DocType::Story, "New Story", "B", "draft", Role::Po);
    let s = CreateState::AwaitReply {
        story_id: "s-9".to_string(),
        title: "New Story".to_string(),
        body: "B".to_string(),
        saved,
        prompt: "p".to_string(),
    };
    let (s, eff) = create_step(&e, s, Outcome::Generated(Err("timeout".to_string())));
    match &eff {
        Effect::PutDoc(d, None) => {
            assert_eq!(d.id, "s-9");
            assert_eq!(d.status, "failed");
            assert!(d.trace_id.is_none());
        },
        _ => panic!("expected the failed story"),
    }
    let (_, eff) = create_step(&e, s, Outcome::Stored(Err("x".to_string())));
    match &eff {
        Effect::PublishToRole(role, env) => {
            assert_eq!(role, "system");
            assert_eq!(env.event_type, "story.failed");
            assert_eq!(env.to, "system");
            assert_eq!(text_of(&env.refs, "storyId"), "s-9");
            assert_eq!(text_of(&env.payload, "summary"), "Story creation failed: timeout");
        },
        _ => panic!("expected story.failed"),
    }
}

#[test]
fn redelivered_po_events_are_skipped() {
    let c = config(2);
    let p = prompts();
    let e = event("po.run", obj(vec![]), obj(vec![("prompt", JsonValue::string("x"))]));
    let (s, eff) = po_run_step(&c, &p, &e, PoRunState::Start, Outcome::Started);
    assert!(matches!(s, PoRunState::AwaitDedupe));
    assert!(matches!(eff, Effect::CheckDedupe(ref req) if req.key == "ev-1"));
    let (s, eff) = po_run_step(&c, &p, &e, s, Outcome::Deduped(false));
    assert!(matches!(s, PoRunState::Finished) && matches!(eff, Effect::Done));
    let r = event("po.refine", obj(vec![]), obj(vec![("storyId", JsonValue::string("story-0001"))]));
    let (s, eff) = refine_step(&c, &p, &r, RefineState::Start, Outcome::Started);
    assert!(matches!(eff, Effect::CheckDedupe(ref req) if req.key == "ev-1"));
    let (s, eff) = refine_step(&c, &p, &r, s, Outcome::Deduped(false));
    assert!(matches!(s, RefineState::Finished) && matches!(eff, Effect::Done));
}

#[test]
fn replies_follow_the_configured_base_topic() {
    let mut c = config(0);
    c.mqtt.base_topic = "acme".to_string();
    let p = prompts();
    let e = event("po.run", obj(vec![]), obj(vec![("prompt", JsonValue::string("x"))]));
    let (s, _) = po_run_step(&c, &p, &e, PoRunState::AwaitDedupe, Outcome::Deduped(true));
    let id = match &s { PoRunState::AwaitRunlogSaved { run_id, .. } => run_id.clone(), _ => panic!() };
    let (s, _) = po_run_step(&c, &p, &e, s, Outcome::Stored(Ok(runlog(&id))));
    let (_, eff) = po_run_step(&c, &p, &e, s, Outcome::Fetched(Err("x".to_string())));
    assert!(matches!(eff, Effect::Publish(ref topic, _) if topic == "acme/role/boss/inbox"));
}
