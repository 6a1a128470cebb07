//! The QA agent: runs the definition-of-done gates of built stories, reports
//! the results, files bugs for failures, and verifies bug fixes.
use vstd::prelude::*;
use std::collections::HashMap;
use crate::agent::{Effect, Outcome, dedupe_asked, dedupe_effect, runner_error_text, envelope_is, obj1, jstr, add_entry, object, single,
    summary_event, text_object4, text_fields4, dod_gates_of, dod_gates, ref_or_empty, ref_string, exchange_body,
    exchange_text, text2, text4, runlog_is, new_runlog};
use crate::config::Config;
use crate::json::{Json, JsonValue, json_strings, string_array, entry_views, json_views, lemma_entry_views_len, lemma_json_views_len};
use crate::prompts::{all_gates_passed, debug_list, debug_string_list, gate_results_view, generate_qa_prompt,
    generate_verification_prompt, qa_prompt, verification_prompt};
use crate::runner::RunnerError;
use crate::text::{decimal, push_decimal, push_signed, push_str, signed_decimal, split_whitespace, string_views, words};
use crate::types::{AuditEntry, DedupRequest, DedupScope, Doc, DocType, EventEnvelope, ExecJob, ExecResult,
    OutputLimits, Role, new_id};

verus! {

// ---------------------------------------------------------------- routing

/// What the QA agent does with an event.
#[derive(Clone, Copy, Debug, PartialEq, Eq, Structural)]
pub enum QaTask {
    BuildDone,
    BugNew,
    Unhandled,
}

/// `build.done` starts a test run, `bug.new` a bug verification; other events
/// are not handled.
pub fn qa_route(event_type: &str) -> (res: QaTask)
    ensures
        res == (if event_type@ == "build.done"@ { QaTask::BuildDone }
            else if event_type@ == "bug.new"@ { QaTask::BugNew } else { QaTask::Unhandled }),
{
    let t = String::from_str(event_type);
    if t == String::from_str("build.done") {
        QaTask::BuildDone
    } else if t == String::from_str("bug.new") {
        QaTask::BugNew
    } else {
        QaTask::Unhandled
    }
}

// ---------------------------------------------------------------- gates

/// The command of a gate: its first word, or `cargo` when it has none.
pub open spec fn gate_command(gate: Seq<char>) -> Seq<char> {
    if words(gate).len() > 0 { words(gate)[0] } else { "cargo"@ }
}

/// The arguments of a gate: its words after the first.
pub open spec fn gate_args(gate: Seq<char>) -> Seq<Seq<char>> {
    if words(gate).len() > 0 { words(gate).drop_first() } else { Seq::empty() }
}

/// The job running one gate: its command and arguments in the configured
/// working directory, for at most 300 s, with no environment and zero output caps.
pub open spec fn gate_job_is(job: ExecJob, config: Config, trace: Seq<char>, gate: Seq<char>) -> bool {
    &&& job.trace_id@ == trace
    &&& job.job_id@.len() == 36
    &&& job.command@ == gate_command(gate)
    &&& string_views(job.args@) == gate_args(gate)
    &&& job.workdir@ == config.opencode.workdir@
    &&& job.timeout_seconds == 300
    &&& job.env@.len() == 0
    &&& job.output_limits.max_stdout_kb == 0
    &&& job.output_limits.max_stderr_kb == 0
}

/// A gate passes when its command ran and exited with 0.
pub open spec fn gate_passed(r: Result<ExecResult, RunnerError>) -> bool {
    match r {
        Ok(x) => x.exit_code == 0,
        Err(_) => false,
    }
}

/// The reported output of a gate.
pub open spec fn gate_output(r: Result<ExecResult, RunnerError>, m: Seq<char>) -> bool {
    match r {
        Ok(x) => m == "exit="@ + signed_decimal(x.exit_code as int) + ", "@ + decimal(x.duration_ms as nat) + "ms"@,
        Err(e) => exists|t: Seq<char>| runner_error_text(e, t) && m == "error: "@ + t,
    }
}

fn gate_job(config: &Config, trace: &str, gate: &str) -> (res: ExecJob)
    ensures
        gate_job_is(res, *config, trace@, gate@),
{
    let ws = split_whitespace(gate);
    let command = if ws.len() > 0 { ws[0].clone() } else { String::from_str("cargo") };
    let mut args: Vec<String> = Vec::new();
    if ws.len() > 0 {
        let mut i: usize = 1;
        assert(string_views(args@) =~= string_views(ws@).subrange(1, 1));
        while i < ws.len()
            invariant
                1 <= i <= ws@.len(),
                string_views(ws@) == words(gate@),
                string_views(args@) == string_views(ws@).subrange(1, i as int),
                args@.len() == i - 1,
            decreases ws.len() - i,
        {
            let ghost before = args@;
            let w = ws[i].clone();
            args.push(w);
            assert(args@[i - 1] == ws@[i as int]);
            assert(forall|k: int| 0 <= k < i - 1 ==> args@[k] == before[k]);
            assert(string_views(args@) =~= string_views(ws@).subrange(1, i + 1));
            i += 1;
        }
        assert(string_views(args@) =~= words(gate@).drop_first());
    } else {
        assert(string_views(args@) =~= Seq::<Seq<char>>::empty());
    }
    assert(ws@.len() > 0 ==> command@ == words(gate@)[0]);
    ExecJob {
        trace_id: String::from_str(trace),
        job_id: new_id(),
        command,
        args,
        workdir: config.opencode.workdir.clone(),
        timeout_seconds: 300,
        env: HashMap::new(),
        output_limits: OutputLimits::default(),
    }
}

fn gate_output_text(r: &Result<ExecResult, RunnerError>) -> (res: String)
    ensures
        gate_output(*r, res@),
{
    match r {
        Ok(x) => {
            let mut s = String::from_str("exit=");
            push_signed(&mut s, x.exit_code as i64);
            push_str(&mut s, ", ");
            push_decimal(&mut s, x.duration_ms);
            push_str(&mut s, "ms");
            s
        },
        Err(e) => {
            let m = e.message();
            assert(runner_error_text(*e, m@));
            text2("error: ", m.as_str())
        },
    }
}

/// The outcomes of the gates, one array per gate: its name, its success flag and its report.
pub open spec fn gate_results_json(results: Seq<(Seq<char>, bool, Seq<char>)>) -> Json {
    Json::Array(Seq::new(results.len(), |i: int|
        Json::Array(seq![jstr(results[i].0), Json::Bool(results[i].1), jstr(results[i].2)])))
}

fn gate_results_value(results: &Vec<(String, bool, String)>) -> (res: JsonValue)
    ensures
        res@ == gate_results_json(gate_results_view(results@)),
{
    let mut items: Vec<JsonValue> = Vec::new();
    let ghost target = gate_results_json(gate_results_view(results@));
    let mut i: usize = 0;
    while i < results.len()
        invariant
            i <= results@.len(),
            items@.len() == i,
            target == gate_results_json(gate_results_view(results@)),
            json_views(items@, items@.len()) == target->Array_0.take(i as int),
        decreases results.len() - i,
    {
        let (g, p, o) = &results[i];
        let mut triple: Vec<JsonValue> = Vec::new();
        triple.push(JsonValue::Str(g.clone()));
        triple.push(JsonValue::Bool(*p));
        triple.push(JsonValue::Str(o.clone()));
        proof {
            lemma_json_views_len(triple@, triple@.len());
            assert(json_views(triple@, triple@.len()) =~= seq![jstr(g@), Json::Bool(*p), jstr(o@)]);
        }
        let ghost before = items@;
        items.push(JsonValue::Array(triple));
        proof {
            lemma_json_views_len(before, before.len());
            lemma_json_views_len(items@, items@.len());
            assert(json_views(items@, items@.len()) =~= target->Array_0.take(i + 1));
        }
        i += 1;
    }
    proof {
        lemma_json_views_len(items@, items@.len());
        assert(target->Array_0.take(i as int) =~= target->Array_0);
    }
    JsonValue::Array(items)
}

/// The names of the failed gates, in order.
pub open spec fn failed_gates(results: Seq<(Seq<char>, bool, Seq<char>)>) -> Seq<Seq<char>>
    decreases results.len(),
{
    if results.len() == 0 {
        Seq::empty()
    } else {
        let rest = failed_gates(results.drop_last());
        if results.last().1 { rest } else { rest.push(results.last().0) }
    }
}

/// `gate: output` for each failed gate, joined by `; `.
pub open spec fn failure_description(results: Seq<(Seq<char>, bool, Seq<char>)>) -> Seq<char>
    decreases results.len(),
{
    if results.len() == 0 {
        Seq::empty()
    } else {
        let rest = failure_description(results.drop_last());
        let (g, p, o) = results.last();
        if p { rest } else if rest.len() == 0 && failed_gates(results.drop_last()).len() == 0 {
            g + ": "@ + o
        } else {
            rest + "; "@ + g + ": "@ + o
        }
    }
}

/// Some gate failed exactly when there is a failed gate to name.
proof fn lemma_failed_gates_nonempty(results: Seq<(Seq<char>, bool, Seq<char>)>)
    ensures
        !all_gates_passed(results) <==> failed_gates(results).len() > 0,
    decreases results.len(),
{
    if results.len() > 0 {
        lemma_failed_gates_nonempty(results.drop_last());
        assert forall|i: int| 0 <= i < results.len() - 1 implies #[trigger] results.drop_last()[i] == results[i] by {}
        if all_gates_passed(results.drop_last()) && results.last().1 {
            assert forall|i: int| 0 <= i < results.len() implies (#[trigger] results[i]).1 by {
                if i < results.len() - 1 { assert(results.drop_last()[i] == results[i]); }
            }
        }
    }
}

proof fn lemma_failure_description_empty(results: Seq<(Seq<char>, bool, Seq<char>)>)
    ensures
        failed_gates(results).len() == 0 ==> failure_description(results).len() == 0,
    decreases results.len(),
{
    if results.len() > 0 {
        lemma_failure_description_empty(results.drop_last());
    }
}

proof fn lemma_all_passed_concat(a: Seq<(Seq<char>, bool, Seq<char>)>, b: Seq<(Seq<char>, bool, Seq<char>)>)
    ensures
        all_gates_passed(a + b) <==> all_gates_passed(a) && all_gates_passed(b),
{
    if all_gates_passed(a + b) {
        assert forall|i: int| 0 <= i < a.len() implies (#[trigger] a[i]).1 by { assert((a + b)[i] == a[i]); }
        assert forall|i: int| 0 <= i < b.len() implies (#[trigger] b[i]).1 by { assert((a + b)[a.len() + i] == b[i]); }
    }
    if all_gates_passed(a) && all_gates_passed(b) {
        assert forall|i: int| 0 <= i < (a + b).len() implies (#[trigger] (a + b)[i]).1 by {
            if i < a.len() { assert((a + b)[i] == a[i]); } else { assert((a + b)[i] == b[i - a.len()]); }
        }
    }
}

proof fn lemma_passed_description_empty(results: Seq<(Seq<char>, bool, Seq<char>)>)
    ensures
        all_gates_passed(results) ==> failure_description(results) == Seq::<char>::empty(),
{
    lemma_failed_gates_nonempty(results);
    lemma_failure_description_empty(results);
    if all_gates_passed(results) {
        assert(failure_description(results) =~= Seq::<char>::empty());
    }
}

/// The description of one gate result: `gate: output` when it failed, nothing
/// when it passed.
pub proof fn lemma_failure_description_single(g: Seq<char>, p: bool, o: Seq<char>)
    ensures
        failure_description(seq![(g, p, o)]) == if p { Seq::<char>::empty() } else { g + ": "@ + o },
{
    let r = seq![(g, p, o)];
    let none = Seq::<(Seq<char>, bool, Seq<char>)>::empty();
    assert(r.drop_last() =~= none);
    assert(r.last() == (g, p, o));
    assert(failure_description(none) == Seq::<char>::empty());
    assert(failed_gates(none).len() == 0);
    if p {
        assert(failure_description(r) == failure_description(none));
    } else {
        assert(failure_description(r) == g + ": "@ + o);
    }
}

/// Describing two runs of gates one after the other: the failures of the first,
/// then those of the second, separated by `; ` when both have some.
pub proof fn lemma_failure_description_concat(a: Seq<(Seq<char>, bool, Seq<char>)>,
    b: Seq<(Seq<char>, bool, Seq<char>)>)
    ensures
        failure_description(a + b) == if all_gates_passed(a) {
            failure_description(b)
        } else if all_gates_passed(b) {
            failure_description(a)
        } else {
            failure_description(a) + "; "@ + failure_description(b)
        },
    decreases b.len(),
{
    lemma_passed_description_empty(a);
    lemma_passed_description_empty(b);
    if b.len() == 0 {
        assert(a + b =~= a);
    } else {
        let b1 = b.drop_last();
        let (g, p, o) = b.last();
        let e = g + ": "@ + o;
        assert((a + b).drop_last() =~= a + b1);
        assert((a + b).last() == b.last());
        lemma_failure_description_concat(a, b1);
        lemma_all_passed_concat(a, b1);
        lemma_all_passed_concat(b1, seq![b.last()]);
        assert(b1 + seq![b.last()] =~= b);
        lemma_failed_gates_nonempty(a + b1);
        lemma_failed_gates_nonempty(b1);
        lemma_passed_description_empty(a + b1);
        lemma_passed_description_empty(b1);
        if !p && !all_gates_passed(a) && !all_gates_passed(b1) {
            assert(failure_description(a) + "; "@ + failure_description(b1) + "; "@ + e
                =~= failure_description(a) + "; "@ + (failure_description(b1) + "; "@ + e));
        }
    }
}

/// Every failed gate is described: `gate: output` occurs in the description of
/// the results, for each result that did not pass.
pub proof fn lemma_failure_description_names_each_failure(results: Seq<(Seq<char>, bool, Seq<char>)>, i: int)
    requires
        0 <= i < results.len(),
        !results[i].1,
    ensures
        exists|k: int| 0 <= k && k + (results[i].0 + ": "@ + results[i].2).len() <= failure_description(results).len()
            && #[trigger] failure_description(results).subrange(k, k + (results[i].0 + ": "@ + results[i].2).len())
                == results[i].0 + ": "@ + results[i].2,
{
    let x = results.take(i);
    let y = seq![results[i]];
    let z = results.skip(i + 1);
    let e = results[i].0 + ": "@ + results[i].2;
    assert(results =~= x + (y + z));
    lemma_failure_description_single(results[i].0, results[i].1, results[i].2);
    assert(y == seq![(results[i].0, results[i].1, results[i].2)]);
    lemma_failure_description_concat(y, z);
    lemma_failure_description_concat(x, y + z);
    lemma_all_passed_concat(y, z);
    assert(!all_gates_passed(y)) by { assert(!y[0].1); }
    let dyz = failure_description(y + z);
    assert(dyz.subrange(0, e.len() as int) =~= e);
    let d = failure_description(results);
    reveal_strlit("; ");
    let k: int = if all_gates_passed(x) { 0 } else { failure_description(x).len() as int + 2 };
    if !all_gates_passed(x) {
        assert(d =~= failure_description(x) + "; "@ + dyz);
    }
    assert(d.subrange(k, k + e.len()) =~= dyz.subrange(0, e.len() as int));
    assert(d.subrange(k, k + e.len()) == e);
}

fn failures(results: &Vec<(String, bool, String)>) -> (res: (Vec<String>, String))
    ensures
        res.0.deep_view() == failed_gates(gate_results_view(results@)),
        res.1@ == failure_description(gate_results_view(results@)),
{
    let ghost rv = gate_results_view(results@);
    let mut names: Vec<String> = Vec::new();
    let mut desc = String::new();
    let mut i: usize = 0;
    while i < results.len()
        invariant
            i <= results@.len(),
            rv == gate_results_view(results@),
            names.deep_view() == failed_gates(rv.take(i as int)),
            desc@ == failure_description(rv.take(i as int)),
        decreases results.len() - i,
    {
        let (g, p, o) = &results[i];
        assert(rv.take(i + 1).drop_last() =~= rv.take(i as int));
        assert(rv.take(i + 1).last() == (g@, *p, o@));
        proof { lemma_failure_description_empty(rv.take(i as int)); }
        if !*p {
            if names.len() > 0 {
                push_str(&mut desc, "; ");
            }
            push_str(&mut desc, g.as_str());
            push_str(&mut desc, ": ");
            push_str(&mut desc, o.as_str());
            let ghost nb = names.deep_view();
            names.push(g.clone());
            assert(names.deep_view() =~= nb.push(g@));
        }
        i += 1;
    }
    assert(rv.take(i as int) =~= rv);
    (names, desc)
}

// ---------------------------------------------------------------- build.done

/// Where the test run of a built story stands.
pub enum BuildDoneState {
    Start,
    AwaitDedupe,
    AwaitStory,
    AwaitGate { story: Doc, gates: Vec<String>, index: usize, results: Vec<(String, bool, String)> },
    AwaitReply { story: Doc, results: Vec<(String, bool, String)>, prompt: String },
    AwaitRunlogSaved { story: Doc, results: Vec<(String, bool, String)> },
    AwaitAudit { story: Doc, results: Vec<(String, bool, String)> },
    AwaitReported { story: Doc, results: Vec<(String, bool, String)> },
    /// The regression test plan of the bug about to be filed is being stored; the
    /// bug follows whatever the store answers, as after every other store of the run.
    AwaitPlanSaved { story: Doc, results: Vec<(String, bool, String)>, bug_id: String, plan_id: String,
        case_id: String },
    AwaitBugSaved { story: Doc, bug_id: String },
    Finishing,
    Finished,
}

/// The text of the test run's overall result.
pub open spec fn gates_summary_word(all: bool) -> Seq<char> {
    if all { "all passed"@ } else { "failed"@ }
}

/// The summary of the test result event.
pub open spec fn test_summary(title: Seq<char>, results: Seq<(Seq<char>, bool, Seq<char>)>) -> Seq<char> {
    if all_gates_passed(results) {
        "All DoD gates passed for story '"@ + title + "'"@
    } else {
        "DoD gates failed for story '"@ + title + "': "@ + debug_string_list(failed_gates(results))
    }
}

/// The overall result of a test run as the `test.result` event reports it.
pub open spec fn test_result_word(all: bool) -> Seq<char> {
    if all { "pass"@ } else { "fail"@ }
}

/// The regression case of a failed run: its first failed gate.
pub open spec fn regression_case(results: Seq<(Seq<char>, bool, Seq<char>)>) -> Seq<char> {
    failed_gates(results)[0]
}

/// The fields of a regression test plan: the bug it covers, the story, and its one case.
pub open spec fn testplan_fields(bug_id: Seq<char>, story_id: Seq<char>, case_id: Seq<char>) -> Json {
    Json::Object(seq![
        ("bug_id"@, jstr(bug_id)),
        ("story_id"@, jstr(story_id)),
        ("cases"@, json_strings(seq![case_id])),
    ])
}

/// The fields of a bug filed for failed gates: the story, the outcome of each gate,
/// its regression test plan and regression case.
pub open spec fn bug_fields(story_id: Seq<char>, results: Seq<(Seq<char>, bool, Seq<char>)>, plan_id: Seq<char>,
    case_id: Seq<char>) -> Json
{
    Json::Object(seq![
        ("story_id"@, jstr(story_id)),
        ("gate_results"@, gate_results_json(results)),
        ("testplan_id"@, jstr(plan_id)),
        ("regression_case_id"@, jstr(case_id)),
    ])
}

/// The request once the gates `results` have run: the next gate's job, or the
/// model prompt reporting them.
pub open spec fn after_gates(config: Config, event: EventEnvelope, story: Doc, gates: Seq<Seq<char>>,
    results: Seq<(Seq<char>, bool, Seq<char>)>, next: BuildDoneState, eff: Effect) -> bool
{
    if results.len() < gates.len() {
        &&& next matches BuildDoneState::AwaitGate { story: s, gates: g, index, results: r }
            && s == story && g.deep_view() == gates && index == results.len() && gate_results_view(r@) == results
        &&& eff matches Effect::Execute(job) && gate_job_is(job, config, event.trace_id@, gates[results.len() as int])
    } else {
        &&& next matches BuildDoneState::AwaitReply { story: s, results: r, prompt }
            && s == story && gate_results_view(r@) == results && prompt@ == qa_prompt(story, results)
            && eff == Effect::Generate(prompt)
    }
}

/// The transitions of a test run.
pub open spec fn build_done_next(config: Config, event: EventEnvelope, state: BuildDoneState, outcome: Outcome,
    next: BuildDoneState, eff: Effect) -> bool
{
    match (state, outcome) {
        (BuildDoneState::Start, Outcome::Started) => {
            &&& next is AwaitDedupe
            &&& eff matches Effect::CheckDedupe(req) && req.key@ == event.event_id@
                && req.ttl_seconds == config.redis.dedupe_ttl_seconds && req.scope == DedupScope::Global
                && req.role is None
        },
        (BuildDoneState::AwaitDedupe, Outcome::Deduped(first)) => {
            let story_id = ref_or_empty(event.refs@, "storyId"@);
            if !first || story_id.len() == 0 {
                next is Finished && eff is Done
            } else {
                &&& next is AwaitStory
                &&& eff matches Effect::GetDoc(id) && id@ == story_id
            }
        },
        (BuildDoneState::AwaitStory, Outcome::Fetched(r)) => match r {
            Err(_) => next is Finished && eff is Done,
            Ok(story) => after_gates(config, event, story, dod_gates_of(story.fields@), Seq::empty(), next, eff),
        },
        (BuildDoneState::AwaitGate { story, gates, index, results }, Outcome::Executed(r)) => {
            if index < gates@.len() && index == results@.len() {
                exists|m: Seq<char>| gate_output(r, m) && after_gates(config, event, story, gates.deep_view(),
                    gate_results_view(results@).push((gates@[index as int]@, gate_passed(r), m)), next, eff)
            } else {
                next is Finished && eff is Done
            }
        },
        (BuildDoneState::AwaitReply { story, results, prompt }, Outcome::Generated(r)) => match r {
            Err(e) => {
                &&& next is Finishing
                &&& eff matches Effect::PublishToRole(role, env) && role@ == "qa"@
                    && envelope_is(env, event.trace_id@, "build.done.retry"@, "qa"@, "qa"@, obj1("storyId"@, jstr(story.id@)),
                        obj1("summary"@, jstr("Build "@ + story.id@ + " needs retry: "@ + e@)))
            },
            Ok(resp) => {
                let rv = gate_results_view(results@);
                &&& next matches BuildDoneState::AwaitRunlogSaved { story: s, results: r2 } && s == story
                    && gate_results_view(r2@) == rv
                &&& eff matches Effect::PutDoc(d, None)
                    && runlog_is(d, "QA Agent - Story "@ + story.id@, exchange_body(prompt@, resp@),
                        if all_gates_passed(rv) { "passed"@ } else { "failed"@ }, Role::Qa, event.trace_id@,
                        Json::Object(seq![
                            ("event_id"@, jstr(event.event_id@)),
                            ("action"@, jstr("test.execution"@)),
                            ("story_id"@, jstr(story.id@)),
                            ("gate_results"@, gate_results_json(rv)),
                            ("llm_response"@, jstr(resp@)),
                        ]))
            },
        },
        (BuildDoneState::AwaitRunlogSaved { story, results }, Outcome::Stored(_)) => {
            let rv = gate_results_view(results@);
            &&& next matches BuildDoneState::AwaitAudit { story: s, results: r2 } && s == story && gate_results_view(r2@) == rv
            &&& eff matches Effect::AppendAudit(stream, a) && stream@ == "events"@
                && a.trace_id@ == event.trace_id@ && a.event_id@ == event.event_id@ && a.actor_role == Role::Qa
                && a.action@ == "test.completed"@
                && a.summary@ == "Story "@ + story.id@ + " - gates: "@ + gates_summary_word(all_gates_passed(rv))
        },
        (BuildDoneState::AwaitAudit { story, results }, Outcome::Acked) => {
            let rv = gate_results_view(results@);
            &&& next matches BuildDoneState::AwaitReported { story: s, results: r2 } && s == story && gate_results_view(r2@) == rv
            &&& eff matches Effect::PublishToRole(role, env) && role@ == "po"@
                && envelope_is(env, event.trace_id@, "test.result"@, "qa"@, "po"@,
                    Json::Object(seq![("storyId"@, jstr(story.id@)), ("title"@, jstr(story.title@))]),
                    Json::Object(seq![
                        ("result"@, jstr(test_result_word(all_gates_passed(rv)))),
                        ("summary"@, jstr(test_summary(story.title@, rv))),
                        ("gate_results"@, gate_results_json(rv)),
                    ]))
        },
        (BuildDoneState::AwaitReported { story, results }, Outcome::Acked) => {
            let rv = gate_results_view(results@);
            if all_gates_passed(rv) {
                next is Finished && eff is Done
            } else {
                &&& next matches BuildDoneState::AwaitPlanSaved { story: s, results: r2, bug_id, plan_id, case_id }
                &&& s == story
                &&& gate_results_view(r2@) == rv
                &&& bug_id@.len() == 36
                &&& case_id@ == regression_case(rv)
                &&& eff matches Effect::PutDoc(d, key)
                &&& key is None
                &&& d@.id == plan_id@
                &&& plan_id@.len() == 36
                &&& d@.doc_type == DocType::Testplan
                &&& d@.title == "Regression plan: "@ + story.title@
                &&& d@.body == "Regression case: "@ + regression_case(rv)
                &&& d@.status == "open"@
                &&& d@.owner_role == Role::Qa
                &&& d@.trace_id == Some(event.trace_id@)
                &&& d@.version == 1
                &&& d@.tags.len() == 0
                &&& d@.links == seq![story.id@]
                &&& d@.fields == testplan_fields(bug_id@, story.id@, regression_case(rv))
            }
        },
        (BuildDoneState::AwaitPlanSaved { story, results, bug_id, plan_id, case_id }, Outcome::Stored(_)) => {
            let rv = gate_results_view(results@);
            &&& next matches BuildDoneState::AwaitBugSaved { story: s, bug_id: b }
            &&& s == story
            &&& b == bug_id
            &&& eff matches Effect::PutDoc(d, key)
            &&& key is None
            &&& d@.id == bug_id@
            &&& d@.doc_type == DocType::Bug
            &&& d@.title == "Test failure: "@ + story.title@
            &&& d@.body == "Story: "@ + story.title@ + "\n\nFailed gates:\n"@ + failure_description(rv)
            &&& d@.status == "open"@
            &&& d@.owner_role == Role::Qa
            &&& d@.trace_id == Some(event.trace_id@)
            &&& d@.version == 1
            &&& d@.tags.len() == 0
            &&& d@.links == seq![story.id@]
            &&& d@.fields == bug_fields(story.id@, rv, plan_id@, case_id@)
        },
        (BuildDoneState::AwaitBugSaved { story, bug_id }, Outcome::Stored(_)) => {
            &&& next is Finishing
            &&& eff matches Effect::PublishToRole(role, env) && role@ == "dev"@
                && envelope_is(env, event.trace_id@, "bug.new"@, "qa"@, "dev"@,
                    Json::Object(seq![("bugId"@, jstr(bug_id@)), ("storyId"@, jstr(story.id@))]),
                    obj1("summary"@, jstr("Bug created for story '"@ + story.title@ + "'"@)))
        },
        (BuildDoneState::Finishing, Outcome::Acked) => next is Finished && eff is Done,
        _ => next is Finished && eff is Done,
    }
}

fn next_after_gates(config: &Config, event: &EventEnvelope, story: Doc, gates: Vec<String>,
    results: Vec<(String, bool, String)>) -> (res: (BuildDoneState, Effect))
    requires
        results@.len() <= gates@.len(),
    ensures
        after_gates(*config, *event, story, gates.deep_view(), gate_results_view(results@), res.0, res.1),
{
    if results.len() < gates.len() {
        let job = gate_job(config, event.trace_id.as_str(), gates[results.len()].as_str());
        let index = results.len();
        (BuildDoneState::AwaitGate { story, gates, index, results }, Effect::Execute(job))
    } else {
        let prompt = generate_qa_prompt(&story, results.as_slice());
        let p2 = prompt.clone();
        (BuildDoneState::AwaitReply { story, results, prompt }, Effect::Generate(p2))
    }
}

fn all_passed(results: &Vec<(String, bool, String)>) -> (res: bool)
    ensures
        res == all_gates_passed(gate_results_view(results@)),
{
    let mut i: usize = 0;
    while i < results.len()
        invariant
            i <= results@.len(),
            forall|j: int| 0 <= j < i ==> (#[trigger] results@[j]).1,
        decreases results.len() - i,
    {
        if !results[i].1 {
            assert(!gate_results_view(results@)[i as int].1);
            return false;
        }
        i += 1;
    }
    assert forall|j: int| 0 <= j < results@.len() implies (#[trigger] gate_results_view(results@)[j]).1 by {
        assert(results@[j].1);
    }
    true
}

/// One step of testing a built story: skip events seen before or naming no
/// readable story; run each definition-of-done gate in turn; ask the model for
/// a report (a failure asks the QA inbox to retry); log, audit and report the
/// result to the product owner; when a gate failed, store a regression test
/// plan, then file a bug linked to the story and naming that plan, and announce
/// it to the developer. A store that fails does not stop the run: the bug names
/// the plan's id even where the plan could not be stored.
pub fn build_done_step(config: &Config, event: &EventEnvelope, state: BuildDoneState, outcome: Outcome)
    -> (res: (BuildDoneState, Effect))
    ensures
        build_done_next(*config, *event, state, outcome, res.0, res.1),
{
    match (state, outcome) {
        (BuildDoneState::Start, Outcome::Started) => {
            let req = DedupRequest {
                key: event.event_id.clone(),
                ttl_seconds: config.redis.dedupe_ttl_seconds,
                scope: DedupScope::Global,
                role: None,
            };
            (BuildDoneState::AwaitDedupe, Effect::CheckDedupe(req))
        },
        (BuildDoneState::AwaitDedupe, Outcome::Deduped(first)) => {
            let story_id = ref_string(&event.refs, "storyId");
            if !first || story_id.as_str().is_empty() {
                (BuildDoneState::Finished, Effect::Done)
            } else {
                (BuildDoneState::AwaitStory, Effect::GetDoc(story_id))
            }
        },
        (BuildDoneState::AwaitStory, Outcome::Fetched(r)) => match r {
            Err(_) => (BuildDoneState::Finished, Effect::Done),
            Ok(story) => {
                let gates = dod_gates(&story.fields);
                let results: Vec<(String, bool, String)> = Vec::new();
                assert(gate_results_view(results@) =~= Seq::empty());
                next_after_gates(config, event, story, gates, results)
            },
        },
        (BuildDoneState::AwaitGate { story, gates, index, results }, Outcome::Executed(r)) => {
            if index < gates.len() && index == results.len() {
                let passed = match &r {
                    Ok(x) => x.exit_code == 0,
                    Err(_) => false,
                };
                let output = gate_output_text(&r);
                let mut results = results;
                let ghost before = gate_results_view(results@);
                results.push((gates[index].clone(), passed, output));
                assert(gate_results_view(results@) =~= before.push((gates@[index as int]@, gate_passed(r), output@)));
                next_after_gates(config, event, story, gates, results)
            } else {
                (BuildDoneState::Finished, Effect::Done)
            }
        },
        (BuildDoneState::AwaitReply { story, results, prompt }, Outcome::Generated(r)) => match r {
            Err(e) => {
                let summary = text4("Build ", story.id.as_str(), " needs retry: ", e.as_str());
                let env = summary_event(event.trace_id.as_str(), "build.done.retry", "qa", "qa", "storyId",
                    story.id.as_str(), summary.as_str());
                (BuildDoneState::Finishing, Effect::PublishToRole(String::from_str("qa"), env))
            },
            Ok(resp) => {
                let all = all_passed(&results);
                let title = text2("QA Agent - Story ", story.id.as_str());
                let body = exchange_text(prompt.as_str(), resp.as_str());
                let mut entries: Vec<(String, JsonValue)> = Vec::new();
                proof { lemma_entry_views_len(entries@, 0); }
                add_entry(&mut entries, "event_id", JsonValue::Str(event.event_id.clone()));
                add_entry(&mut entries, "action", JsonValue::string("test.execution"));
                add_entry(&mut entries, "story_id", JsonValue::Str(story.id.clone()));
                add_entry(&mut entries, "gate_results", gate_results_value(&results));
                add_entry(&mut entries, "llm_response", JsonValue::Str(resp.clone()));
                let ghost rv = gate_results_view(results@);
                assert(entry_views(entries@, entries@.len()) =~= seq![
                    ("event_id"@, jstr(event.event_id@)),
                    ("action"@, jstr("test.execution"@)),
                    ("story_id"@, jstr(story.id@)),
                    ("gate_results"@, gate_results_json(rv)),
                    ("llm_response"@, jstr(resp@)),
                ]);
                let fields = object(entries);
                let status = if all { "passed" } else { "failed" };
                let runlog = new_runlog(title.as_str(), body.as_str(), status, Role::Qa, event.trace_id.as_str(), fields);
                (BuildDoneState::AwaitRunlogSaved { story, results }, Effect::PutDoc(runlog, None))
            },
        },
        (BuildDoneState::AwaitRunlogSaved { story, results }, Outcome::Stored(_)) => {
            let all = all_passed(&results);
            let word = if all { "all passed" } else { "failed" };
            let summary = text4("Story ", story.id.as_str(), " - gates: ", word);
            let audit = AuditEntry::new(event.trace_id.as_str(), event.event_id.as_str(), Role::Qa, "test.completed",
                summary.as_str());
            (BuildDoneState::AwaitAudit { story, results }, Effect::AppendAudit(String::from_str("events"), audit))
        },
        (BuildDoneState::AwaitAudit { story, results }, Outcome::Acked) => {
            let all = all_passed(&results);
            let ghost rv = gate_results_view(results@);
            let summary = if all {
                let mut s = String::from_str("All DoD gates passed for story '");
                push_str(&mut s, story.title.as_str());
                push_str(&mut s, "'");
                s
            } else {
                let (names, _desc) = failures(&results);
                let mut s = String::from_str("DoD gates failed for story '");
                push_str(&mut s, story.title.as_str());
                push_str(&mut s, "': ");
                let l = debug_list(&names);
                push_str(&mut s, l.as_str());
                s
            };
            let mut refs: Vec<(String, JsonValue)> = Vec::new();
            proof { lemma_entry_views_len(refs@, 0); }
            add_entry(&mut refs, "storyId", JsonValue::Str(story.id.clone()));
            add_entry(&mut refs, "title", JsonValue::Str(story.title.clone()));
            assert(entry_views(refs@, refs@.len()) =~= seq![("storyId"@, jstr(story.id@)), ("title"@, jstr(story.title@))]);
            let mut payload: Vec<(String, JsonValue)> = Vec::new();
            proof { lemma_entry_views_len(payload@, 0); }
            add_entry(&mut payload, "result", JsonValue::string(if all { "pass" } else { "fail" }));
            add_entry(&mut payload, "summary", JsonValue::Str(summary));
            add_entry(&mut payload, "gate_results", gate_results_value(&results));
            assert(entry_views(payload@, payload@.len()) =~= seq![
                ("result"@, jstr(test_result_word(all_gates_passed(rv)))),
                ("summary"@, jstr(test_summary(story.title@, rv))),
                ("gate_results"@, gate_results_json(rv))]);
            let eid = new_id();
            let env = EventEnvelope::new(eid.as_str(), event.trace_id.as_str(), "test.result", "qa", "po",
                object(refs), object(payload));
            (BuildDoneState::AwaitReported { story, results }, Effect::PublishToRole(String::from_str("po"), env))
        },
        (BuildDoneState::AwaitReported { story, results }, Outcome::Acked) => {
            if all_passed(&results) {
                (BuildDoneState::Finished, Effect::Done)
            } else {
                let ghost rv = gate_results_view(results@);
                let (names, _desc) = failures(&results);
                proof { lemma_failed_gates_nonempty(rv); }
                let case_id = names[0].clone();
                let bug_id = new_id();
                let plan_id = new_id();
                let ptitle = text2("Regression plan: ", story.title.as_str());
                let pbody = text2("Regression case: ", case_id.as_str());
                let mut plan = Doc::new(plan_id.as_str(), DocType::Testplan, ptitle.as_str(), pbody.as_str(), "open",
                    Role::Qa);
                plan.trace_id = Some(event.trace_id.clone());
                let mut cases: Vec<String> = Vec::new();
                cases.push(case_id.clone());
                assert(cases.deep_view() =~= seq![case_id@]);
                let mut pentries: Vec<(String, JsonValue)> = Vec::new();
                proof { lemma_entry_views_len(pentries@, 0); }
                add_entry(&mut pentries, "bug_id", JsonValue::Str(bug_id.clone()));
                add_entry(&mut pentries, "story_id", JsonValue::Str(story.id.clone()));
                add_entry(&mut pentries, "cases", string_array(&cases));
                assert(entry_views(pentries@, pentries@.len()) =~= testplan_fields(bug_id@, story.id@, case_id@)->Object_0);
                plan.fields = object(pentries);
                let mut plinks: Vec<String> = Vec::new();
                plinks.push(story.id.clone());
                assert(plinks.deep_view() =~= seq![story.id@]);
                plan.links = plinks;
                (BuildDoneState::AwaitPlanSaved { story, results, bug_id, plan_id, case_id }, Effect::PutDoc(plan, None))
            }
        },
        (BuildDoneState::AwaitPlanSaved { story, results, bug_id, plan_id, case_id }, Outcome::Stored(_)) => {
            let ghost rv = gate_results_view(results@);
            let (_names, desc) = failures(&results);
            let title = text2("Test failure: ", story.title.as_str());
            let body = text4("Story: ", story.title.as_str(), "\n\nFailed gates:\n", desc.as_str());
            let mut bug = Doc::new(bug_id.as_str(), DocType::Bug, title.as_str(), body.as_str(), "open", Role::Qa);
            bug.trace_id = Some(event.trace_id.clone());
            let mut entries: Vec<(String, JsonValue)> = Vec::new();
            proof { lemma_entry_views_len(entries@, 0); }
            add_entry(&mut entries, "story_id", JsonValue::Str(story.id.clone()));
            add_entry(&mut entries, "gate_results", gate_results_value(&results));
            add_entry(&mut entries, "testplan_id", JsonValue::Str(plan_id.clone()));
            add_entry(&mut entries, "regression_case_id", JsonValue::Str(case_id.clone()));
            assert(entry_views(entries@, entries@.len()) =~= bug_fields(story.id@, rv, plan_id@, case_id@)->Object_0);
            bug.fields = object(entries);
            let mut links: Vec<String> = Vec::new();
            links.push(story.id.clone());
            assert(links.deep_view() =~= seq![story.id@]);
            bug.links = links;
            (BuildDoneState::AwaitBugSaved { story, bug_id }, Effect::PutDoc(bug, None))
        },
        (BuildDoneState::AwaitBugSaved { story, bug_id }, Outcome::Stored(_)) => {
            let mut refs: Vec<(String, JsonValue)> = Vec::new();
            proof { lemma_entry_views_len(refs@, 0); }
            add_entry(&mut refs, "bugId", JsonValue::Str(bug_id.clone()));
            add_entry(&mut refs, "storyId", JsonValue::Str(story.id.clone()));
            assert(entry_views(refs@, refs@.len()) =~= seq![("bugId"@, jstr(bug_id@)), ("storyId"@, jstr(story.id@))]);
            let summary = text4("Bug created for story '", story.title.as_str(), "'", "");
            proof { reveal_strlit(""); }
            assert(summary@ =~= "Bug created for story '"@ + story.title@ + "'"@);
            let payload = single("summary", JsonValue::Str(summary));
            let eid = new_id();
            let env = EventEnvelope::new(eid.as_str(), event.trace_id.as_str(), "bug.new", "qa", "dev", object(refs), payload);
            (BuildDoneState::Finishing, Effect::PublishToRole(String::from_str("dev"), env))
        },
        _ => (BuildDoneState::Finished, Effect::Done),
    }
}

// ---------------------------------------------------------------- bug.new

/// Where the verification of a bug fix stands.
pub enum QaBugState {
    Start,
    AwaitDedupe,
    AwaitBug,
    AwaitReply { bug: Doc, prompt: String },
    AwaitRunlogSaved { bug: Doc },
    Finishing,
    Finished,
}

/// The transitions of a bug verification.
pub open spec fn qa_bug_next(config: Config, event: EventEnvelope, state: QaBugState, outcome: Outcome, next: QaBugState, eff: Effect) -> bool {
    match (state, outcome) {
        (QaBugState::Start, Outcome::Started) => {
            &&& next is AwaitDedupe
            &&& dedupe_asked(config, event, eff)
        },
        (QaBugState::AwaitDedupe, Outcome::Deduped(first)) => if !first {
            next is Finished && eff is Done
        } else {
            let bug_id = ref_or_empty(event.refs@, "bugId"@);
            if bug_id.len() == 0 {
                next is Finished && eff is Done
            } else {
                &&& next is AwaitBug
                &&& eff matches Effect::GetDoc(id) && id@ == bug_id
            }
        },
        (QaBugState::AwaitBug, Outcome::Fetched(r)) => match r {
            Err(_) => next is Finished && eff is Done,
            Ok(bug) => {
                &&& next matches QaBugState::AwaitReply { bug: b, prompt } && b == bug
                    && prompt@ == verification_prompt(bug) && eff == Effect::Generate(prompt)
            },
        },
        (QaBugState::AwaitReply { bug, prompt }, Outcome::Generated(r)) => match r {
            Err(e) => {
                &&& next is Finishing
                &&& eff matches Effect::PublishToRole(role, env) && role@ == "qa"@
                    && envelope_is(env, event.trace_id@, "bug.retry"@, "qa"@, "qa"@, obj1("bugId"@, jstr(bug.id@)),
                        obj1("summary"@, jstr("Bug "@ + bug.id@ + " needs retry: "@ + e@)))
            },
            Ok(resp) => {
                &&& next matches QaBugState::AwaitRunlogSaved { bug: b } && b == bug
                &&& eff matches Effect::PutDoc(d, None)
                    && runlog_is(d, "QA Agent - Bug Verification "@ + bug.id@, exchange_body(prompt@, resp@),
                        "in_progress"@, Role::Qa, event.trace_id@,
                        text_object4("event_id"@, event.event_id@, "action"@, "bug.verification"@, "bug_id"@, bug.id@,
                            "llm_response"@, resp@))
            },
        },
        (QaBugState::AwaitRunlogSaved { bug }, Outcome::Stored(_)) => {
            &&& next is Finishing
            &&& eff matches Effect::PublishToRole(role, env) && role@ == "po"@
                && envelope_is(env, event.trace_id@, "bug.verifying"@, "qa"@, "po"@, obj1("bugId"@, jstr(bug.id@)),
                    obj1("summary"@, jstr("Verifying bug fix for '"@ + bug.title@ + "'"@)))
        },
        (QaBugState::Finishing, Outcome::Acked) => next is Finished && eff is Done,
        _ => next is Finished && eff is Done,
    }
}

/// One step of verifying a bug fix: read the bug named by the event, ask the
/// model for a verification plan (a failure asks the QA inbox to retry), log
/// the exchange, and tell the product owner the fix is being verified.
pub fn qa_bug_step(config: &Config, event: &EventEnvelope, state: QaBugState, outcome: Outcome) -> (res: (QaBugState, Effect))
    ensures
        qa_bug_next(*config, *event, state, outcome, res.0, res.1),
{
    match (state, outcome) {
        (QaBugState::Start, Outcome::Started) => (QaBugState::AwaitDedupe, dedupe_effect(config, event)),
        (QaBugState::AwaitDedupe, Outcome::Deduped(first)) => if !first {
            (QaBugState::Finished, Effect::Done)
        } else {
            let bug_id = ref_string(&event.refs, "bugId");
            if bug_id.as_str().is_empty() {
                (QaBugState::Finished, Effect::Done)
            } else {
                (QaBugState::AwaitBug, Effect::GetDoc(bug_id))
            }
        },
        (QaBugState::AwaitBug, Outcome::Fetched(r)) => match r {
            Err(_) => (QaBugState::Finished, Effect::Done),
            Ok(bug) => {
                let prompt = generate_verification_prompt(&bug);
                let p2 = prompt.clone();
                (QaBugState::AwaitReply { bug, prompt }, Effect::Generate(p2))
            },
        },
        (QaBugState::AwaitReply { bug, prompt }, Outcome::Generated(r)) => match r {
            Err(e) => {
                let summary = text4("Bug ", bug.id.as_str(), " needs retry: ", e.as_str());
                let env = summary_event(event.trace_id.as_str(), "bug.retry", "qa", "qa", "bugId", bug.id.as_str(),
                    summary.as_str());
                (QaBugState::Finishing, Effect::PublishToRole(String::from_str("qa"), env))
            },
            Ok(resp) => {
                let title = text2("QA Agent - Bug Verification ", bug.id.as_str());
                let body = exchange_text(prompt.as_str(), resp.as_str());
                let fields = text_fields4("event_id", event.event_id.as_str(), "action", "bug.verification", "bug_id",
                    bug.id.as_str(), "llm_response", resp.as_str());
                let runlog = new_runlog(title.as_str(), body.as_str(), "in_progress", Role::Qa, event.trace_id.as_str(), fields);
                (QaBugState::AwaitRunlogSaved { bug }, Effect::PutDoc(runlog, None))
            },
        },
        (QaBugState::AwaitRunlogSaved { bug }, Outcome::Stored(_)) => {
            let mut summary = text2("Verifying bug fix for '", bug.title.as_str());
            push_str(&mut summary, "'");
            let env = summary_event(event.trace_id.as_str(), "bug.verifying", "qa", "po", "bugId", bug.id.as_str(),
                summary.as_str());
            (QaBugState::Finishing, Effect::PublishToRole(String::from_str("po"), env))
        },
        _ => (QaBugState::Finished, Effect::Done),
    }
}

// ---------------------------------------------------------------- laws

/// An event delivered again (its idempotency key already marked) is not tested
/// a second time: the run stops at once.
pub proof fn lemma_build_done_redelivery_skipped(config: Config, event: EventEnvelope, next: BuildDoneState,
    eff: Effect)
    requires
        build_done_next(config, event, BuildDoneState::AwaitDedupe, Outcome::Deduped(false), next, eff),
    ensures
        next is Finished,
        eff is Done,
{
}

/// Once the result is reported, a bug's regression plan is stored exactly
/// when some gate failed, its one case being the first failed gate; otherwise
/// the run ends.
pub proof fn lemma_bug_filed_iff_gate_failed(config: Config, event: EventEnvelope, story: Doc,
    results: Vec<(String, bool, String)>, next: BuildDoneState, eff: Effect)
    requires
        build_done_next(config, event, BuildDoneState::AwaitReported { story, results }, Outcome::Acked, next, eff),
    ensures
        eff is PutDoc <==> !all_gates_passed(gate_results_view(results@)),
        eff is PutDoc ==> eff->PutDoc_0@.doc_type == DocType::Testplan
            && next is AwaitPlanSaved && next->case_id@ == regression_case(gate_results_view(results@)),
        !(eff is PutDoc) ==> next is Finished,
{
}

/// After the regression plan's store, whatever it answered, the bug is written,
/// and it names that plan and its regression case.
pub proof fn lemma_bug_names_its_plan(config: Config, event: EventEnvelope, story: Doc,
    results: Vec<(String, bool, String)>, bug_id: String, plan_id: String, case_id: String,
    stored: Result<Doc, String>, next: BuildDoneState, eff: Effect)
    requires
        build_done_next(config, event, BuildDoneState::AwaitPlanSaved { story, results, bug_id, plan_id, case_id },
            Outcome::Stored(stored), next, eff),
    ensures
        eff is PutDoc,
        eff->PutDoc_0@.doc_type == DocType::Bug,
        eff->PutDoc_0@.id == bug_id@,
        eff->PutDoc_0@.fields == bug_fields(story@.id, gate_results_view(results@), plan_id@, case_id@),
        next matches BuildDoneState::AwaitBugSaved { bug_id: b, .. } && b == bug_id,
{
}

/// A failed run files its bug in two stores: first a regression test plan with
/// a fresh id, whose one case is the first failed gate; then, whatever that store
/// answered, the bug, which names that plan's id and that case.
pub proof fn lemma_failed_run_files_bug_naming_plan(config: Config, event: EventEnvelope, story: Doc,
    results: Vec<(String, bool, String)>, mid: BuildDoneState, plan_eff: Effect, stored: Result<Doc, String>,
    next: BuildDoneState, bug_eff: Effect)
    requires
        !all_gates_passed(gate_results_view(results@)),
        build_done_next(config, event, BuildDoneState::AwaitReported { story, results }, Outcome::Acked, mid, plan_eff),
        build_done_next(config, event, mid, Outcome::Stored(stored), next, bug_eff),
    ensures
        plan_eff is PutDoc,
        bug_eff is PutDoc,
        plan_eff->PutDoc_0@.doc_type == DocType::Testplan,
        bug_eff->PutDoc_0@.doc_type == DocType::Bug,
        bug_eff->PutDoc_0@.fields == bug_fields(story@.id, gate_results_view(results@), plan_eff->PutDoc_0@.id,
            regression_case(gate_results_view(results@))),
        plan_eff->PutDoc_0@.fields == testplan_fields(bug_eff->PutDoc_0@.id, story@.id,
            regression_case(gate_results_view(results@))),
{
}

/// The bug filed for a failed run lists every failed gate: `gate: output`
/// occurs in its body for each gate that did not pass.
pub proof fn lemma_bug_body_names_every_failed_gate(config: Config, event: EventEnvelope, story: Doc,
    results: Vec<(String, bool, String)>, bug_id: String, plan_id: String, case_id: String,
    stored: Result<Doc, String>, next: BuildDoneState, eff: Effect, i: int)
    requires
        build_done_next(config, event, BuildDoneState::AwaitPlanSaved { story, results, bug_id, plan_id, case_id },
            Outcome::Stored(stored), next, eff),
        0 <= i < results@.len(),
        !results@[i].1,
    ensures
        eff is PutDoc,
        exists|k: int| 0 <= k && k + (results@[i].0@ + ": "@ + results@[i].2@).len() <= eff->PutDoc_0@.body.len()
            && #[trigger] eff->PutDoc_0@.body.subrange(k, k + (results@[i].0@ + ": "@ + results@[i].2@).len())
                == results@[i].0@ + ": "@ + results@[i].2@,
{
    let rv = gate_results_view(results@);
    let e = results@[i].0@ + ": "@ + results@[i].2@;
    assert(rv[i] == (results@[i].0@, results@[i].1, results@[i].2@));
    lemma_failure_description_names_each_failure(rv, i);
    let d = failure_description(rv);
    let k = choose|k: int| 0 <= k && k + e.len() <= d.len() && #[trigger] d.subrange(k, k + e.len()) == e;
    let body = eff->PutDoc_0@.body;
    let pre = "Story: "@ + story.title@ + "\n\nFailed gates:\n"@;
    assert(body == pre + d);
    assert(body.subrange(pre.len() + k, pre.len() + k + e.len()) =~= d.subrange(k, k + e.len()));
}

/// A bug fix is verified once: the handler first checks the event id, and a
/// redelivered event stops at once.
pub proof fn lemma_qa_bug_redelivery_skipped(config: Config, event: EventEnvelope, first: QaBugState,
    first_eff: Effect, next: QaBugState, eff: Effect)
    requires
        qa_bug_next(config, event, QaBugState::Start, Outcome::Started, first, first_eff),
        qa_bug_next(config, event, QaBugState::AwaitDedupe, Outcome::Deduped(false), next, eff),
    ensures
        first is AwaitDedupe,
        dedupe_asked(config, event, first_eff),
        next is Finished,
        eff is Done,
{
}

} // verus!
