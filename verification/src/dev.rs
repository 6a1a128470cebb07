//! The developer agent: implements ready stories with the executor and
//! acknowledges new bugs.
use vstd::prelude::*;
use std::collections::HashMap;
use crate::agent::{Effect, Outcome, dedupe_asked, dedupe_effect, runner_error_text, envelope_is, obj1, jstr, add_entry, object, single,
    text_object4, text_fields4, summary_event, dod_gates_of, dod_gates, ref_or_empty, ref_string, exchange_body,
    exchange_text, text2, text4, runlog_is, new_runlog, copy_doc};
use crate::config::Config;
use crate::json::{Json, JsonValue, entry_views, lemma_entry_views_len};
use crate::prompts::{dev_prompt, fix_prompt, generate_dev_prompt, generate_fix_prompt};
use crate::runner::RunnerError;
use crate::text::{chars_of, starts_with, starts_with_seq, decimal, push_decimal, push_signed, push_str, signed_decimal};
use crate::types::{AuditEntry, AutonomyLevel, ChangeBudget, DocType, Policy, DedupRequest, DedupScope, DiffStat, Doc, EventEnvelope,
    ExecJob, OutputLimits, Role, new_id};

verus! {

// ---------------------------------------------------------------- routing

/// What the developer agent does with an event.
#[derive(Clone, Copy, Debug, PartialEq, Eq, Structural)]
pub enum DevTask {
    StoryReady,
    BugNew,
    Unhandled,
}

/// `story.ready` starts an implementation, `bug.new` a bug acknowledgement;
/// other events are not handled.
pub fn dev_route(event_type: &str) -> (res: DevTask)
    ensures
        res == (if event_type@ == "story.ready"@ { DevTask::StoryReady }
            else if event_type@ == "bug.new"@ { DevTask::BugNew } else { DevTask::Unhandled }),
{
    let t = String::from_str(event_type);
    if t == String::from_str("story.ready") {
        DevTask::StoryReady
    } else if t == String::from_str("bug.new") {
        DevTask::BugNew
    } else {
        DevTask::Unhandled
    }
}

// ---------------------------------------------------------------- change budget

/// A change is within the limits when its files, insertions and deletions all
/// are; an unmeasured change counts as within them.
pub open spec fn diff_within(diff: Result<DiffStat, RunnerError>, max_files: u32, max_insertions: u32, max_deletions: u32) -> bool {
    match diff {
        Ok(d) => d.files_changed <= max_files && d.insertions <= max_insertions && d.deletions <= max_deletions,
        Err(_) => true,
    }
}

/// Some changed path lies under a protected path (starts with it).
pub open spec fn touches_protected(files: Seq<Seq<char>>, protected: Seq<Seq<char>>) -> bool {
    exists|i: int, j: int| 0 <= i < files.len() && 0 <= j < protected.len()
        && #[trigger] starts_with_seq(files[i], protected[j])
}

/// A change keeps to a budget: its counts are within the limits and it
/// touches no protected path; an unmeasured change counts as within it.
pub open spec fn within_budget(diff: Result<DiffStat, RunnerError>, budget: ChangeBudget) -> bool {
    &&& diff_within(diff, budget.max_files, budget.max_insertions, budget.max_deletions)
    &&& diff matches Ok(d) ==> !touches_protected(d.files.deep_view(), budget.protected_paths.deep_view())
}

fn touches(files: &Vec<String>, protected: &Vec<String>) -> (res: bool)
    ensures
        res == touches_protected(files.deep_view(), protected.deep_view()),
{
    let ghost fv = files.deep_view();
    let ghost pv = protected.deep_view();
    let mut i: usize = 0;
    while i < files.len()
        invariant
            i <= files@.len(),
            fv == files.deep_view(),
            pv == protected.deep_view(),
            forall|a: int, b: int| 0 <= a < i && 0 <= b < pv.len() ==> !#[trigger] starts_with_seq(fv[a], pv[b]),
        decreases files.len() - i,
    {
        let f = chars_of(files[i].as_str());
        let mut j: usize = 0;
        while j < protected.len()
            invariant
                i < files@.len(),
                j <= protected@.len(),
                fv == files.deep_view(),
                pv == protected.deep_view(),
                f@ == fv[i as int],
                forall|a: int, b: int| 0 <= a < i && 0 <= b < pv.len() ==> !#[trigger] starts_with_seq(fv[a], pv[b]),
                forall|b: int| 0 <= b < j ==> !#[trigger] starts_with_seq(fv[i as int], pv[b]),
            decreases protected.len() - j,
        {
            let q = chars_of(protected[j].as_str());
            if starts_with(&f, &q) {
                assert(starts_with_seq(fv[i as int], pv[j as int]));
                return true;
            }
            j += 1;
        }
        i += 1;
    }
    false
}

/// Whether a change keeps to the budget: the counts within the limits and no
/// changed path under a protected path (an unmeasured change keeps to it).
pub fn check_change_budget(diff: &Result<DiffStat, RunnerError>, budget: &ChangeBudget) -> (res: bool)
    ensures
        res == within_budget(*diff, *budget),
{
    let d = match diff {
        Ok(d) => d,
        Err(_) => return true,
    };
    d.files_changed <= budget.max_files && d.insertions <= budget.max_insertions
        && d.deletions <= budget.max_deletions && !touches(&d.files, &budget.protected_paths)
}

// ---------------------------------------------------------------- story.ready

/// Where the implementation of a ready story stands.
pub enum StoryReadyState {
    Start,
    AwaitDedupe,
    AwaitStory,
    AwaitReply { story: Doc, prompt: String, job_id: String },
    AwaitRunlogSaved { story: Doc, prompt: String, job_id: String, runlog: Doc },
    AwaitRun { story: Doc, job_id: String, runlog: Doc },
    AwaitRunlogUpdated { story: Doc, job_id: String, exit_code: i32 },
    AwaitDiff { story: Doc, job_id: String, exit_code: i32 },
    AwaitAudit { story: Doc, job_id: String, exit_code: i32, within: bool, files: u32, insertions: u32, deletions: u32 },
    Finishing,
    Finished,
}

/// The run-log fields of a story implementation.
pub open spec fn story_runlog_fields(event_id: Seq<char>, story_id: Seq<char>, response: Seq<char>) -> Json {
    Json::Object(seq![
        ("event_id"@, jstr(event_id)),
        ("action"@, jstr("story.processing"@)),
        ("story_id"@, jstr(story_id)),
        ("llm_response"@, jstr(response)),
    ])
}

/// The executor job of a story: the configured command with its default
/// arguments, then `--run` and the prompt.
pub open spec fn story_job_is(job: ExecJob, config: Config, trace: Seq<char>, job_id: Seq<char>, prompt: Seq<char>) -> bool {
    &&& job.trace_id@ == trace
    &&& job.job_id@ == job_id
    &&& job.command@ == config.opencode.command@
    &&& job.args.deep_view() == config.opencode.default_args.deep_view() + seq!["--run"@, prompt]
    &&& job.workdir@ == config.opencode.workdir@
    &&& job.timeout_seconds == config.opencode.timeout_seconds
    &&& job.env@.len() == 0
    &&& job.output_limits.max_stdout_kb == config.opencode.max_output_kb
    &&& job.output_limits.max_stderr_kb == config.opencode.max_output_kb
}

/// The proposal a developer at autonomy level L0 writes instead of running the
/// executor: the logged exchange with the model as a proposed artifact linked
/// to the story.
pub open spec fn proposal_is(d: Doc, story: Doc, runlog: Doc, trace: Seq<char>) -> bool {
    &&& d@.id.len() == 36
    &&& d@.doc_type == DocType::Artifact
    &&& d@.title == "Dev Proposal - Story "@ + story@.id
    &&& d@.body == runlog@.body
    &&& d@.status == "proposed"@
    &&& d@.owner_role == Role::Dev
    &&& d@.trace_id == Some(trace)
    &&& d@.version == 1
    &&& d@.tags.len() == 0
    &&& d@.links == seq![story@.id]
    &&& d@.fields == Json::Object(seq![("story_id"@, jstr(story@.id)), ("runlog_id"@, jstr(runlog@.id))])
}

/// The outcome line of a run.
pub open spec fn run_summary(r: Result<crate::types::ExecResult, RunnerError>, m: Seq<char>) -> bool {
    match r {
        Ok(x) => m == "exit_code="@ + signed_decimal(x.exit_code as int) + ", duration="@
            + decimal(x.duration_ms as nat) + "ms"@,
        Err(e) => exists|t: Seq<char>| runner_error_text(e, t) && m == "error: "@ + t,
    }
}

/// The run-log status after a run.
pub open spec fn run_status(r: Result<crate::types::ExecResult, RunnerError>) -> Seq<char> {
    match r {
        Ok(x) => if x.exit_code == 0 { "completed"@ } else { "failed"@ },
        Err(_) => "error"@,
    }
}

/// The text of `true` or `false`.
pub open spec fn bool_text(b: bool) -> Seq<char> {
    if b { "true"@ } else { "false"@ }
}

/// The summary of the developer's response event.
pub open spec fn build_summary(title: Seq<char>, within: bool, files: u32, ins: u32, del: u32) -> Seq<char> {
    if within {
        "Build completed for story '"@ + title + "'"@
    } else {
        "Change budget exceeded for story '"@ + title + "': files="@ + decimal(files as nat) + ", ins="@
            + decimal(ins as nat) + ", del="@ + decimal(del as nat)
    }
}

/// The transitions of the story implementation.
pub open spec fn story_ready_next(config: Config, policy: Policy, event: EventEnvelope, state: StoryReadyState, outcome: Outcome,
    next: StoryReadyState, eff: Effect) -> bool
{
    match (state, outcome) {
        (StoryReadyState::Start, Outcome::Started) => {
            &&& next is AwaitDedupe
            &&& eff matches Effect::CheckDedupe(req) && req.key@ == event.event_id@
                && req.ttl_seconds == config.redis.dedupe_ttl_seconds && req.scope == DedupScope::Global
                && req.role is None
        },
        (StoryReadyState::AwaitDedupe, Outcome::Deduped(first)) => {
            let story_id = ref_or_empty(event.refs@, "storyId"@);
            if !first || story_id.len() == 0 {
                next is Finished && eff is Done
            } else {
                &&& next is AwaitStory
                &&& eff matches Effect::GetDoc(id) && id@ == story_id
            }
        },
        (StoryReadyState::AwaitStory, Outcome::Fetched(r)) => match r {
            Err(_) => next is Finished && eff is Done,
            Ok(story) => {
                &&& next matches StoryReadyState::AwaitReply { story: s, prompt, job_id }
                    && s == story && job_id@.len() == 36
                    && prompt@ == dev_prompt(story, dod_gates_of(story.fields@))
                    && eff == Effect::Generate(prompt)
            },
        },
        (StoryReadyState::AwaitReply { story, prompt, job_id }, Outcome::Generated(r)) => match r {
            Err(e) => {
                &&& next is Finishing
                &&& eff matches Effect::PublishToRole(role, env)
                    && role@ == "dev"@
                    && envelope_is(env, event.trace_id@, "story.retry"@, "dev"@, "dev"@,
                        obj1("storyId"@, jstr(story.id@)),
                        obj1("summary"@, jstr("Story "@ + story.id@ + " needs retry: "@ + e@)))
            },
            Ok(resp) => {
                &&& next matches StoryReadyState::AwaitRunlogSaved { story: s, prompt: p, job_id: j, runlog }
                    && s == story && p == prompt && j == job_id
                    && runlog_is(runlog, "Dev Agent - Story "@ + story.id@, exchange_body(prompt@, resp@),
                        "in_progress"@, Role::Dev, event.trace_id@,
                        story_runlog_fields(event.event_id@, story.id@, resp@))
                    && (eff matches Effect::PutDoc(d, None) && d@ == runlog@)
            },
        },
        (StoryReadyState::AwaitRunlogSaved { story, prompt, job_id, runlog }, Outcome::Stored(_)) => {
            if policy.autonomy_level == AutonomyLevel::L0 {
                &&& next is Finishing
                &&& eff matches Effect::PutDoc(d, key)
                &&& key is None
                &&& proposal_is(d, story, runlog, event.trace_id@)
            } else {
                &&& next == StoryReadyState::AwaitRun { story, job_id, runlog }
                &&& eff matches Effect::Execute(job) && story_job_is(job, config, event.trace_id@, job_id@, prompt@)
            }
        },
        (StoryReadyState::AwaitRun { story, job_id, runlog }, Outcome::Executed(r)) => {
            &&& next == StoryReadyState::AwaitRunlogUpdated {
                story, job_id, exit_code: match r { Ok(x) => x.exit_code, Err(_) => -1i32 } }
            &&& eff matches Effect::PutDoc(d, None) && d@.id == runlog@.id && d@.title == runlog@.title
                && d@.doc_type == runlog@.doc_type && d@.owner_role == runlog@.owner_role
                && d@.trace_id == runlog@.trace_id && d@.fields == runlog@.fields
                && d@.version == runlog@.version && d@.created_at == runlog@.created_at
                && d@.updated_at == runlog@.updated_at && d@.tags == runlog@.tags && d@.links == runlog@.links
                && d@.status == run_status(r)
                && (exists|m: Seq<char>| run_summary(r, m) && d@.body == runlog@.body + "\n\nOutput: "@ + m)
        },
        (StoryReadyState::AwaitRunlogUpdated { story, job_id, exit_code }, Outcome::Stored(_)) => {
            &&& next == StoryReadyState::AwaitDiff { story, job_id, exit_code }
            &&& eff matches Effect::DiffStat(dir) && dir@ == config.opencode.workdir@
        },
        (StoryReadyState::AwaitDiff { story, job_id, exit_code }, Outcome::Diffed(r)) => {
            let within = within_budget(r, policy.change_budget);
            let (files, ins, del) = match r { Ok(d) => (d.files_changed, d.insertions, d.deletions), Err(_) => (0u32, 0u32, 0u32) };
            &&& next == StoryReadyState::AwaitAudit { story, job_id, exit_code, within, files, insertions: ins, deletions: del }
            &&& eff matches Effect::AppendAudit(stream, a) && stream@ == "events"@
                && a.trace_id@ == event.trace_id@ && a.event_id@ == event.event_id@ && a.actor_role == Role::Dev
                && a.action@ == "build.attempt"@
                && a.summary@ == "Story "@ + story.id@ + " - opencode executed, within_budget="@ + bool_text(within)
        },
        (StoryReadyState::AwaitAudit { story, job_id, exit_code, within, files, insertions, deletions }, Outcome::Acked) => {
            let to = if within { "qa"@ } else { "po"@ };
            &&& next is Finishing
            &&& eff matches Effect::PublishToRole(role, env) && role@ == to
                && envelope_is(env, event.trace_id@, if within { "build.done"@ } else { "dev.needs_approval"@ },
                    "dev"@, to,
                    Json::Object(seq![("storyId"@, jstr(story.id@)), ("title"@, jstr(story.title@)), ("jobId"@, jstr(job_id@))]),
                    Json::Object(seq![
                        ("summary"@, jstr(build_summary(story.title@, within, files, insertions, deletions))),
                        ("exit_code"@, Json::Number(signed_decimal(exit_code as int))),
                        ("within_budget"@, Json::Bool(within)),
                    ]))
        },
        (StoryReadyState::Finishing, Outcome::Acked) => next is Finished && eff is Done,
        _ => next is Finished && eff is Done,
    }
}

fn bool_string(b: bool) -> (res: &'static str)
    ensures
        res@ == bool_text(b),
{
    if b { "true" } else { "false" }
}

fn number(n: String) -> (res: JsonValue)
    ensures
        res@ == Json::Number(n@),
{
    JsonValue::Number(n)
}

fn signed_number(i: i32) -> (res: JsonValue)
    ensures
        res@ == Json::Number(signed_decimal(i as int)),
{
    let mut s = String::new();
    push_signed(&mut s, i as i64);
    assert(s@ =~= signed_decimal(i as int));
    JsonValue::Number(s)
}

fn run_summary_text(r: &Result<crate::types::ExecResult, RunnerError>) -> (res: String)
    ensures
        run_summary(*r, res@),
{
    match r {
        Ok(x) => {
            let mut s = String::from_str("exit_code=");
            push_signed(&mut s, x.exit_code as i64);
            push_str(&mut s, ", duration=");
            push_decimal(&mut s, x.duration_ms);
            push_str(&mut s, "ms");
            s
        },
        Err(e) => {
            let m = e.message();
            let s = text2("error: ", m.as_str());
            assert(runner_error_text(*e, m@));
            s
        },
    }
}

fn build_summary_text(title: &str, within: bool, files: u32, ins: u32, del: u32) -> (res: String)
    ensures
        res@ == build_summary(title@, within, files, ins, del),
{
    if within {
        let mut s = String::from_str("Build completed for story '");
        push_str(&mut s, title);
        push_str(&mut s, "'");
        s
    } else {
        let mut s = String::from_str("Change budget exceeded for story '");
        push_str(&mut s, title);
        push_str(&mut s, "': files=");
        push_decimal(&mut s, files as u128);
        push_str(&mut s, ", ins=");
        push_decimal(&mut s, ins as u128);
        push_str(&mut s, ", del=");
        push_decimal(&mut s, del as u128);
        s
    }
}

/// One step of implementing a ready story: takes the answer to the previous
/// request and gives the next state and request. The story is skipped when the
/// event was seen before, names no story, or the story cannot be read; a model
/// failure asks the developer inbox to retry; otherwise the prompt and reply
/// are logged; under a suggest-only policy (`L0`) the plan is stored as a
/// proposal and nothing runs; otherwise the executor runs, the log is updated
/// with the outcome, the change is measured against the active policy's budget
/// and protected paths, audited, and reported to QA (`build.done`) or, over
/// budget or touching a protected path, to the product owner
/// (`dev.needs_approval`).
pub fn story_ready_step(config: &Config, policy: &Policy, event: &EventEnvelope, state: StoryReadyState, outcome: Outcome)
    -> (res: (StoryReadyState, Effect))
    ensures
        story_ready_next(*config, *policy, *event, state, outcome, res.0, res.1),
{
    match (state, outcome) {
        (StoryReadyState::Start, Outcome::Started) => {
            let req = DedupRequest {
                key: event.event_id.clone(),
                ttl_seconds: config.redis.dedupe_ttl_seconds,
                scope: DedupScope::Global,
                role: None,
            };
            (StoryReadyState::AwaitDedupe, Effect::CheckDedupe(req))
        },
        (StoryReadyState::AwaitDedupe, Outcome::Deduped(first)) => {
            let story_id = ref_string(&event.refs, "storyId");
            if !first || story_id.as_str().is_empty() {
                proof { if first { assert(story_id@.len() == 0); } }
                (StoryReadyState::Finished, Effect::Done)
            } else {
                (StoryReadyState::AwaitStory, Effect::GetDoc(story_id))
            }
        },
        (StoryReadyState::AwaitStory, Outcome::Fetched(r)) => match r {
            Err(_) => (StoryReadyState::Finished, Effect::Done),
            Ok(story) => {
                let job_id = new_id();
                let gates = dod_gates(&story.fields);
                assert(gates@.map_values(|g: String| g@) =~= gates.deep_view());
                let prompt = generate_dev_prompt(&story, gates.as_slice());
                let p2 = prompt.clone();
                (StoryReadyState::AwaitReply { story, prompt, job_id }, Effect::Generate(p2))
            },
        },
        (StoryReadyState::AwaitReply { story, prompt, job_id }, Outcome::Generated(r)) => match r {
            Err(e) => {
                let refs = single("storyId", JsonValue::Str(story.id.clone()));
                let mut summary = text4("Story ", story.id.as_str(), " needs retry: ", e.as_str());
                let payload = single("summary", JsonValue::Str(summary));
                let eid = new_id();
                let env = EventEnvelope::new(eid.as_str(), event.trace_id.as_str(), "story.retry", "dev", "dev", refs, payload);
                (StoryReadyState::Finishing, Effect::PublishToRole(String::from_str("dev"), env))
            },
            Ok(resp) => {
                let title = text2("Dev Agent - Story ", story.id.as_str());
                let body = exchange_text(prompt.as_str(), resp.as_str());
                let mut entries: Vec<(String, JsonValue)> = Vec::new();
                proof { lemma_entry_views_len(entries@, 0); }
                add_entry(&mut entries, "event_id", JsonValue::Str(event.event_id.clone()));
                add_entry(&mut entries, "action", JsonValue::string("story.processing"));
                add_entry(&mut entries, "story_id", JsonValue::Str(story.id.clone()));
                add_entry(&mut entries, "llm_response", JsonValue::Str(resp.clone()));
                assert(entry_views(entries@, entries@.len()) =~= seq![
                    ("event_id"@, jstr(event.event_id@)),
                    ("action"@, jstr("story.processing"@)),
                    ("story_id"@, jstr(story.id@)),
                    ("llm_response"@, jstr(resp@)),
                ]);
                let fields = object(entries);
                assert(fields@ == story_runlog_fields(event.event_id@, story.id@, resp@));
                let runlog = new_runlog(title.as_str(), body.as_str(), "in_progress", Role::Dev, event.trace_id.as_str(), fields);
                let copy = copy_doc(&runlog);
                (StoryReadyState::AwaitRunlogSaved { story, prompt, job_id, runlog }, Effect::PutDoc(copy, None))
            },
        },
        (StoryReadyState::AwaitRunlogSaved { story, prompt, job_id, runlog }, Outcome::Stored(_)) => {
            if policy.autonomy_level == AutonomyLevel::L0 {
                let pid = new_id();
                let title = text2("Dev Proposal - Story ", story.id.as_str());
                let mut d = Doc::new(pid.as_str(), DocType::Artifact, title.as_str(), runlog.body.as_str(), "proposed",
                    Role::Dev);
                d.trace_id = Some(event.trace_id.clone());
                let mut links: Vec<String> = Vec::new();
                links.push(story.id.clone());
                assert(links.deep_view() =~= seq![story@.id]);
                d.links = links;
                let mut entries: Vec<(String, JsonValue)> = Vec::new();
                proof { lemma_entry_views_len(entries@, 0); }
                add_entry(&mut entries, "story_id", JsonValue::Str(story.id.clone()));
                add_entry(&mut entries, "runlog_id", JsonValue::Str(runlog.id.clone()));
                assert(entry_views(entries@, entries@.len())
                    =~= seq![("story_id"@, jstr(story@.id)), ("runlog_id"@, jstr(runlog@.id))]);
                d.fields = object(entries);
                return (StoryReadyState::Finishing, Effect::PutDoc(d, None));
            }
            let mut args: Vec<String> = Vec::new();
            let mut i: usize = 0;
            while i < config.opencode.default_args.len()
                invariant
                    i <= config.opencode.default_args@.len(),
                    args.deep_view() == config.opencode.default_args.deep_view().take(i as int),
                    args@.len() == i,
                decreases config.opencode.default_args.len() - i,
            {
                let c = config.opencode.default_args[i].clone();
                args.push(c);
                assert(args.deep_view()[i as int] == config.opencode.default_args.deep_view()[i as int]);
                assert(args.deep_view() =~= config.opencode.default_args.deep_view().take(i + 1));
                i += 1;
            }
            assert(config.opencode.default_args.deep_view().take(i as int) =~= config.opencode.default_args.deep_view());
            let ghost base = args.deep_view();
            args.push(String::from_str("--run"));
            args.push(prompt.clone());
            assert(args.deep_view() =~= base + seq!["--run"@, prompt@]);
            let job = ExecJob {
                trace_id: event.trace_id.clone(),
                job_id: job_id.clone(),
                command: config.opencode.command.clone(),
                args,
                workdir: config.opencode.workdir.clone(),
                timeout_seconds: config.opencode.timeout_seconds,
                env: HashMap::new(),
                output_limits: OutputLimits::new(config.opencode.max_output_kb),
            };
            (StoryReadyState::AwaitRun { story, job_id, runlog }, Effect::Execute(job))
        },
        (StoryReadyState::AwaitRun { story, job_id, runlog }, Outcome::Executed(r)) => {
            let summary = run_summary_text(&r);
            let mut updated = runlog;
            let mut body = updated.body.clone();
            push_str(&mut body, "\n\nOutput: ");
            push_str(&mut body, summary.as_str());
            updated.body = body;
            let exit_code = match &r {
                Ok(x) => x.exit_code,
                Err(_) => -1,
            };
            updated.status = match &r {
                Ok(x) => if x.exit_code == 0 { String::from_str("completed") } else { String::from_str("failed") },
                Err(_) => String::from_str("error"),
            };
            (StoryReadyState::AwaitRunlogUpdated { story, job_id, exit_code }, Effect::PutDoc(updated, None))
        },
        (StoryReadyState::AwaitRunlogUpdated { story, job_id, exit_code }, Outcome::Stored(_)) => {
            (StoryReadyState::AwaitDiff { story, job_id, exit_code }, Effect::DiffStat(config.opencode.workdir.clone()))
        },
        (StoryReadyState::AwaitDiff { story, job_id, exit_code }, Outcome::Diffed(r)) => {
            let within = check_change_budget(&r, &policy.change_budget);
            let (files, insertions, deletions) = match &r {
                Ok(d) => (d.files_changed, d.insertions, d.deletions),
                Err(_) => (0, 0, 0),
            };
            let mut summary = text4("Story ", story.id.as_str(), " - opencode executed, within_budget=", bool_string(within));
            let audit = AuditEntry::new(event.trace_id.as_str(), event.event_id.as_str(), Role::Dev, "build.attempt", summary.as_str());
            (StoryReadyState::AwaitAudit { story, job_id, exit_code, within, files, insertions, deletions },
                Effect::AppendAudit(String::from_str("events"), audit))
        },
        (StoryReadyState::AwaitAudit { story, job_id, exit_code, within, files, insertions, deletions }, Outcome::Acked) => {
            let to = if within { "qa" } else { "po" };
            let event_type = if within { "build.done" } else { "dev.needs_approval" };
            let mut refs: Vec<(String, JsonValue)> = Vec::new();
            proof { lemma_entry_views_len(refs@, 0); }
            add_entry(&mut refs, "storyId", JsonValue::Str(story.id.clone()));
            add_entry(&mut refs, "title", JsonValue::Str(story.title.clone()));
            add_entry(&mut refs, "jobId", JsonValue::Str(job_id.clone()));
            let mut payload: Vec<(String, JsonValue)> = Vec::new();
            proof { lemma_entry_views_len(payload@, 0); }
            let summary = build_summary_text(story.title.as_str(), within, files, insertions, deletions);
            add_entry(&mut payload, "summary", JsonValue::Str(summary));
            add_entry(&mut payload, "exit_code", signed_number(exit_code));
            add_entry(&mut payload, "within_budget", JsonValue::Bool(within));
            assert(entry_views(refs@, refs@.len()) =~= seq![("storyId"@, jstr(story.id@)),
                ("title"@, jstr(story.title@)), ("jobId"@, jstr(job_id@))]);
            assert(entry_views(payload@, payload@.len()) =~= seq![
                ("summary"@, jstr(build_summary(story.title@, within, files, insertions, deletions))),
                ("exit_code"@, Json::Number(signed_decimal(exit_code as int))),
                ("within_budget"@, Json::Bool(within)),
            ]);
            let refs_v = object(refs);
            let payload_v = object(payload);
            let eid = new_id();
            let env = EventEnvelope::new(eid.as_str(), event.trace_id.as_str(), event_type, "dev", to, refs_v, payload_v);
            (StoryReadyState::Finishing, Effect::PublishToRole(String::from_str(to), env))
        },
        _ => (StoryReadyState::Finished, Effect::Done),
    }
}

// ---------------------------------------------------------------- bug.new

/// Where the acknowledgement of a new bug stands.
pub enum DevBugState {
    Start,
    AwaitDedupe,
    AwaitBug,
    AwaitReply { bug: Doc, prompt: String },
    AwaitRunlogSaved { bug: Doc },
    Finishing,
    Finished,
}

/// The transitions of a bug acknowledgement.
pub open spec fn dev_bug_next(config: Config, event: EventEnvelope, state: DevBugState, outcome: Outcome, next: DevBugState, eff: Effect) -> bool {
    match (state, outcome) {
        (DevBugState::Start, Outcome::Started) => {
            &&& next is AwaitDedupe
            &&& dedupe_asked(config, event, eff)
        },
        (DevBugState::AwaitDedupe, Outcome::Deduped(first)) => if !first {
            next is Finished && eff is Done
        } else {
            let bug_id = ref_or_empty(event.refs@, "bugId"@);
            if bug_id.len() == 0 {
                next is Finished && eff is Done
            } else {
                &&& next is AwaitBug
                &&& eff matches Effect::GetDoc(id) && id@ == bug_id
            }
        },
        (DevBugState::AwaitBug, Outcome::Fetched(r)) => match r {
            Err(_) => next is Finished && eff is Done,
            Ok(bug) => {
                &&& next matches DevBugState::AwaitReply { bug: b, prompt } && b == bug
                    && prompt@ == fix_prompt(bug) && eff == Effect::Generate(prompt)
            },
        },
        (DevBugState::AwaitReply { bug, prompt }, Outcome::Generated(r)) => match r {
            Err(e) => {
                &&& next is Finishing
                &&& eff matches Effect::PublishToRole(role, env) && role@ == "dev"@
                    && envelope_is(env, event.trace_id@, "bug.retry"@, "dev"@, "dev"@, obj1("bugId"@, jstr(bug.id@)),
                        obj1("summary"@, jstr("Bug "@ + bug.id@ + " needs retry: "@ + e@)))
            },
            Ok(resp) => {
                &&& next matches DevBugState::AwaitRunlogSaved { bug: b } && b == bug
                &&& eff matches Effect::PutDoc(d, None)
                    && runlog_is(d, "Dev Agent - Bug Fix "@ + bug.id@, exchange_body(prompt@, resp@), "in_progress"@,
                        Role::Dev, event.trace_id@,
                        text_object4("event_id"@, event.event_id@, "action"@, "bug.fix"@, "bug_id"@, bug.id@,
                            "llm_response"@, resp@))
            },
        },
        (DevBugState::AwaitRunlogSaved { bug }, Outcome::Stored(_)) => {
            &&& next is Finishing
            &&& eff matches Effect::PublishToRole(role, env) && role@ == "qa"@
                && envelope_is(env, event.trace_id@, "bug.acknowledged"@, "dev"@, "qa"@, obj1("bugId"@, jstr(bug.id@)),
                    obj1("summary"@, jstr("Bug '"@ + bug.title@ + "' acknowledged, fix in progress"@)))
        },
        (DevBugState::Finishing, Outcome::Acked) => next is Finished && eff is Done,
        _ => next is Finished && eff is Done,
    }
}

/// One step of acknowledging a new bug: read the bug named by the event, ask
/// the model for a fix plan (a failure asks the developer inbox to retry), log
/// the exchange, and tell QA the fix is in progress.
pub fn dev_bug_step(config: &Config, event: &EventEnvelope, state: DevBugState, outcome: Outcome) -> (res: (DevBugState, Effect))
    ensures
        dev_bug_next(*config, *event, state, outcome, res.0, res.1),
{
    match (state, outcome) {
        (DevBugState::Start, Outcome::Started) => (DevBugState::AwaitDedupe, dedupe_effect(config, event)),
        (DevBugState::AwaitDedupe, Outcome::Deduped(first)) => if !first {
            (DevBugState::Finished, Effect::Done)
        } else {
            let bug_id = ref_string(&event.refs, "bugId");
            if bug_id.as_str().is_empty() {
                (DevBugState::Finished, Effect::Done)
            } else {
                (DevBugState::AwaitBug, Effect::GetDoc(bug_id))
            }
        },
        (DevBugState::AwaitBug, Outcome::Fetched(r)) => match r {
            Err(_) => (DevBugState::Finished, Effect::Done),
            Ok(bug) => {
                let prompt = generate_fix_prompt(&bug);
                let p2 = prompt.clone();
                (DevBugState::AwaitReply { bug, prompt }, Effect::Generate(p2))
            },
        },
        (DevBugState::AwaitReply { bug, prompt }, Outcome::Generated(r)) => match r {
            Err(e) => {
                let summary = text4("Bug ", bug.id.as_str(), " needs retry: ", e.as_str());
                let env = summary_event(event.trace_id.as_str(), "bug.retry", "dev", "dev", "bugId", bug.id.as_str(),
                    summary.as_str());
                (DevBugState::Finishing, Effect::PublishToRole(String::from_str("dev"), env))
            },
            Ok(resp) => {
                let title = text2("Dev Agent - Bug Fix ", bug.id.as_str());
                let body = exchange_text(prompt.as_str(), resp.as_str());
                let fields = text_fields4("event_id", event.event_id.as_str(), "action", "bug.fix", "bug_id",
                    bug.id.as_str(), "llm_response", resp.as_str());
                let runlog = new_runlog(title.as_str(), body.as_str(), "in_progress", Role::Dev, event.trace_id.as_str(), fields);
                (DevBugState::AwaitRunlogSaved { bug }, Effect::PutDoc(runlog, None))
            },
        },
        (DevBugState::AwaitRunlogSaved { bug }, Outcome::Stored(_)) => {
            let mut summary = text2("Bug '", bug.title.as_str());
            push_str(&mut summary, "' acknowledged, fix in progress");
            let env = summary_event(event.trace_id.as_str(), "bug.acknowledged", "dev", "qa", "bugId", bug.id.as_str(),
                summary.as_str());
            (DevBugState::Finishing, Effect::PublishToRole(String::from_str("qa"), env))
        },
        _ => (DevBugState::Finished, Effect::Done),
    }
}

// ---------------------------------------------------------------- laws

/// An event delivered again (its idempotency key already marked) is not worked
/// on a second time: the implementation stops at once.
pub proof fn lemma_story_ready_redelivery_skipped(config: Config, policy: Policy, event: EventEnvelope, next: StoryReadyState,
    eff: Effect)
    requires
        story_ready_next(config, policy, event, StoryReadyState::AwaitDedupe, Outcome::Deduped(false), next, eff),
    ensures
        next is Finished,
        eff is Done,
{
}

/// The measured change decides the receiver: within the policy's change budget
/// (counts within limits, no protected path touched) the build goes to QA as
/// `build.done`; otherwise to the product owner as `dev.needs_approval`.
pub proof fn lemma_budget_decides_receiver(config: Config, policy: Policy, event: EventEnvelope, story: Doc, job_id: String,
    exit_code: i32, diff: Result<DiffStat, RunnerError>, mid: StoryReadyState, first: Effect, next: StoryReadyState,
    eff: Effect)
    requires
        story_ready_next(config, policy, event, StoryReadyState::AwaitDiff { story, job_id, exit_code },
            Outcome::Diffed(diff), mid, first),
        story_ready_next(config, policy, event, mid, Outcome::Acked, next, eff),
    ensures
        eff is PublishToRole,
        eff->PublishToRole_0@ == "qa"@ <==> within_budget(diff, policy.change_budget),
        eff->PublishToRole_1.event_type@ == "build.done"@ <==> within_budget(diff, policy.change_budget),
{
    reveal_strlit("qa");
    reveal_strlit("po");
    reveal_strlit("build.done");
    reveal_strlit("dev.needs_approval");
    assert("qa"@[0] != "po"@[0]);
    assert("build.done"@.len() != "dev.needs_approval"@.len());
}

/// After the executor was asked to run, the run log is updated with a status
/// that follows the outcome: `completed` exactly when the run finished with
/// exit code 0, `failed` when it finished with another code, `error` when it
/// could not be run.
pub proof fn lemma_runlog_status_follows_exit_code(config: Config, policy: Policy, event: EventEnvelope,
    story: Doc, job_id: String, runlog: Doc, r: Result<crate::types::ExecResult, RunnerError>, next: StoryReadyState, eff: Effect)
    requires
        story_ready_next(config, policy, event, StoryReadyState::AwaitRun { story, job_id, runlog },
            Outcome::Executed(r), next, eff),
    ensures
        eff is PutDoc,
        eff->PutDoc_0@.status == "completed"@ <==> (r matches Ok(x) && x.exit_code == 0),
        r matches Ok(x) && x.exit_code != 0 ==> eff->PutDoc_0@.status == "failed"@,
        r is Err ==> eff->PutDoc_0@.status == "error"@,
{
    reveal_strlit("completed");
    reveal_strlit("failed");
    reveal_strlit("error");
    assert("failed"@ != "completed"@) by { assert("failed"@[0] != "completed"@[0]); }
    assert("error"@ != "completed"@) by { assert("error"@[0] != "completed"@[0]); }
}

/// At autonomy level L0 the developer never runs the executor: once the
/// exchange with the model is logged it writes a proposal and stops.
pub proof fn lemma_l0_runs_nothing(config: Config, policy: Policy, event: EventEnvelope, story: Doc, prompt: String,
    job_id: String, runlog: Doc, stored: Result<Doc, String>, next: StoryReadyState, eff: Effect)
    requires
        policy.autonomy_level == AutonomyLevel::L0,
        story_ready_next(config, policy, event, StoryReadyState::AwaitRunlogSaved { story, prompt, job_id, runlog },
            Outcome::Stored(stored), next, eff),
    ensures
        !(eff is Execute),
        eff is PutDoc && eff->PutDoc_0@.doc_type == DocType::Artifact && eff->PutDoc_0@.status == "proposed"@,
        next is Finishing,
{
}

/// A bug is acknowledged once: the handler first checks the event id, and a
/// redelivered event stops at once.
pub proof fn lemma_dev_bug_redelivery_skipped(config: Config, event: EventEnvelope, first: DevBugState,
    first_eff: Effect, next: DevBugState, eff: Effect)
    requires
        dev_bug_next(config, event, DevBugState::Start, Outcome::Started, first, first_eff),
        dev_bug_next(config, event, DevBugState::AwaitDedupe, Outcome::Deduped(false), next, eff),
    ensures
        first is AwaitDedupe,
        dedupe_asked(config, event, first_eff),
        next is Finished,
        eff is Done,
{
}

} // verus!
