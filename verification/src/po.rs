//! The product-owner agent: free-form runs with the language model, story
//! refinement and story creation.
use vstd::prelude::*;
use crate::agent::{Effect, Outcome, dedupe_asked, dedupe_effect, envelope_is, obj1, jstr, add_entry, object, single, summary_event, ref_or_empty,
    exchange_body, exchange_text, text2, runlog_is, new_runlog, copy_doc};
use crate::config::{Config, TopicBuilder, role_inbox_topic};
use crate::json::{Json, JsonValue, json_strings, string_members, first_key_index, string_array, entry_views, json_get, json_set, json_settable, json_str, json_string_list,
    lemma_entry_views_len};
use crate::prompts::{generate_po_prompt, po_prompt};
use crate::text::{chars_of, string_of_range, contains, contains_seq, decimal, ends_with, ends_with_seq, lowercase, push_char,
    push_decimal, push_str, starts_with_seq, to_lowercase};
use vstd::utf8::{decode_utf8, encode_utf8, is_char_boundary};
use crate::types::{AuditEntry, Doc, DocType, DocView, EventEnvelope, Role, new_id};

verus! {

// ---------------------------------------------------------------- routing

/// What the product-owner agent does with an event.
#[derive(Clone, Copy, Debug, PartialEq, Eq, Structural)]
pub enum PoTask {
    Run,
    Refine,
    Create,
    PolicyChanged,
    Unhandled,
}

/// The task of an event type: `po.run`, `po.refine`, `story.new` or
/// `story.create`, and `policy.changed` (acknowledged only).
pub open spec fn po_task_of(t: Seq<char>) -> PoTask {
    if t == "po.run"@ { PoTask::Run }
    else if t == "po.refine"@ { PoTask::Refine }
    else if t == "story.new"@ || t == "story.create"@ { PoTask::Create }
    else if t == "policy.changed"@ { PoTask::PolicyChanged }
    else { PoTask::Unhandled }
}

/// What the product-owner agent does with an event of this type.
pub fn po_route(event_type: &str) -> (res: PoTask)
    ensures
        res == po_task_of(event_type@),
{
    let t = String::from_str(event_type);
    if t == String::from_str("po.run") {
        PoTask::Run
    } else if t == String::from_str("po.refine") {
        PoTask::Refine
    } else if t == String::from_str("story.new") || t == String::from_str("story.create") {
        PoTask::Create
    } else if t == String::from_str("policy.changed") {
        PoTask::PolicyChanged
    } else {
        PoTask::Unhandled
    }
}

// ---------------------------------------------------------------- reading replies

/// A reply asks for another round unless, lower-cased, it says `done`,
/// `completed` or `finished`.
pub open spec fn continues(response: Seq<char>) -> bool {
    let l = lowercase(response);
    !(contains_seq(l, "done"@) || contains_seq(l, "completed"@) || contains_seq(l, "finished"@))
}

fn has(hay: &Vec<char>, needle: &str) -> (res: bool)
    ensures
        res == contains_seq(hay@, needle@),
{
    let n = chars_of(needle);
    contains(hay, &n)
}

/// Whether the model's reply asks for another round.
pub fn analyze_for_continuation(response: &str) -> (res: bool)
    ensures
        res == continues(response@),
{
    let lower = to_lowercase(response);
    let l = chars_of(lower.as_str());
    if has(&l, "done") || has(&l, "completed") || has(&l, "finished") {
        return false;
    }
    true
}

/// A reply that, lower-cased, says the story is not ready: `not_ready`,
/// `not ready`, `return to backlog` or `do not publish`.
pub open spec fn says_not_ready(l: Seq<char>) -> bool {
    contains_seq(l, "not_ready"@) || contains_seq(l, "not ready"@) || contains_seq(l, "return to backlog"@)
        || contains_seq(l, "do not publish"@)
}

/// A newly created story is ready unless the model's reply says otherwise.
pub open spec fn creation_ready(response: Seq<char>) -> bool {
    !says_not_ready(lowercase(response))
}

fn not_ready_in(l: &Vec<char>) -> (res: bool)
    ensures
        res == says_not_ready(l@),
{
    has(l, "not_ready") || has(l, "not ready") || has(l, "return to backlog") || has(l, "do not publish")
}

/// Whether the model judged a newly created story ready.
pub fn story_is_ready(response: &str) -> (res: bool)
    ensures
        res == creation_ready(response@),
{
    let lower = to_lowercase(response);
    let l = chars_of(lower.as_str());
    !not_ready_in(&l)
}

/// The story status after a refinement reply: `refining` when the reply says
/// the story is not ready; `ready` when it has a readiness status and a line
/// starting with `ready` (or ends with `ready`); otherwise `refining`.
pub open spec fn refinement_status(response: Seq<char>) -> Seq<char> {
    let l = lowercase(response);
    let not_ready = says_not_ready(l) || (contains_seq(l, "readiness status"@) && contains_seq(l, "not_ready"@));
    if not_ready {
        "refining"@
    } else if contains_seq(l, "readiness status"@)
        && (contains_seq(l, "\nready"@) || contains_seq(l, "\n ready"@) || ends_with_seq(l, "ready"@)) {
        "ready"@
    } else {
        "refining"@
    }
}

/// The story status the model's refinement reply calls for.
pub fn refined_status(response: &str) -> (res: &'static str)
    ensures
        res@ == refinement_status(response@),
{
    let lower = to_lowercase(response);
    let l = chars_of(lower.as_str());
    let not_ready = not_ready_in(&l) || (has(&l, "readiness status") && has(&l, "not_ready"));
    if not_ready {
        "refining"
    } else {
        let ready_word = chars_of("ready");
        if has(&l, "readiness status") && (has(&l, "\nready") || has(&l, "\n ready") || ends_with(&l, &ready_word)) {
            "ready"
        } else {
            "refining"
        }
    }
}

// ---------------------------------------------------------------- refinement prompt

/// `str::replace`: every non-overlapping occurrence of a non-empty `from`,
/// scanning left to right, replaced by `to`. (An empty pattern is handled by
/// `replaced_empty`.)
pub open spec fn replaced(s: Seq<char>, from: Seq<char>, to: Seq<char>) -> Seq<char>
    decreases s.len(),
{
    if s.len() == 0 {
        Seq::empty()
    } else if from.len() > 0 && starts_with_seq(s, from) {
        to + replaced(s.skip(from.len() as int), from, to)
    } else {
        seq![s[0]] + replaced(s.drop_first(), from, to)
    }
}

/// `str::replace` with an empty pattern: `to` before every character and at
/// the end.
pub open spec fn replaced_empty(s: Seq<char>, to: Seq<char>) -> Seq<char>
    decreases s.len(),
{
    if s.len() == 0 { to } else { to + seq![s[0]] + replaced_empty(s.drop_first(), to) }
}

/// What `str::replace` gives.
pub open spec fn replacement(s: Seq<char>, from: Seq<char>, to: Seq<char>) -> Seq<char> {
    if from.len() == 0 { replaced_empty(s, to) } else { replaced(s, from, to) }
}

fn replace_empty(s: &str, to: &str) -> (res: String)
    ensures
        res@ == replaced_empty(s@, to@),
{
    let cs = chars_of(s);
    let mut out = String::new();
    let mut i: usize = 0;
    assert(cs@.skip(0) =~= cs@);
    while i < cs.len()
        invariant
            i <= cs@.len(),
            cs@ == s@,
            out@ + replaced_empty(cs@.skip(i as int), to@) == replaced_empty(s@, to@),
        decreases cs.len() - i,
    {
        let ghost rest = cs@.skip(i as int);
        assert(rest[0] == cs@[i as int]);
        assert(rest.drop_first() =~= cs@.skip(i + 1));
        push_str(&mut out, to);
        push_char(&mut out, cs[i]);
        assert(out@ + replaced_empty(cs@.skip(i + 1), to@) =~= replaced_empty(s@, to@));
        i = i + 1;
    }
    assert(cs@.skip(i as int) =~= Seq::<char>::empty());
    push_str(&mut out, to);
    assert(out@ =~= replaced_empty(s@, to@));
    out
}

/// Replaces every occurrence of `from` in `s` by `to` (`str::replace`).
pub fn replace_all(s: &str, from: &str, to: &str) -> (res: String)
    ensures
        res@ == replacement(s@, from@, to@),
{
    let fs = chars_of(from);
    if fs.len() == 0 {
        return replace_empty(s, to);
    }
    let cs = chars_of(s);
    let mut out = String::new();
    let mut i: usize = 0;
    assert(cs@.skip(0) =~= cs@);
    while i < cs.len()
        invariant
            i <= cs@.len(),
            cs@ == s@,
            fs@ == from@,
            fs@.len() > 0,
            out@ + replaced(cs@.skip(i as int), from@, to@) == replaced(s@, from@, to@),
        decreases cs.len() - i,
    {
        let ghost rest = cs@.skip(i as int);
        if crate::text::matches_at(&cs, &fs, i) {
            assert(rest.subrange(0, fs@.len() as int) =~= cs@.subrange(i as int, i + fs@.len()));
            assert(starts_with_seq(rest, from@));
            assert(rest.skip(fs@.len() as int) =~= cs@.skip(i + fs@.len()));
            push_str(&mut out, to);
            assert(out@ + replaced(cs@.skip(i + fs@.len()), from@, to@) =~= replaced(s@, from@, to@));
            i = i + fs.len();
        } else {
            assert(!starts_with_seq(rest, from@)) by {
                if starts_with_seq(rest, from@) {
                    assert(cs@.subrange(i as int, i + fs@.len()) =~= rest.subrange(0, fs@.len() as int));
                }
            }
            assert(rest[0] == cs@[i as int]);
            assert(rest.drop_first() =~= cs@.skip(i + 1));
            push_char(&mut out, cs[i]);
            assert(out@ + replaced(cs@.skip(i + 1), from@, to@) =~= replaced(s@, from@, to@));
            i = i + 1;
        }
    }
    assert(cs@.skip(i as int) =~= Seq::<char>::empty());
    assert(out@ =~= replaced(s@, from@, to@));
    out
}

/// The lines `1. {item}`, `2. {item}`, ... joined by newlines, or `None
/// provided` when there are none.
pub open spec fn numbered_text(items: Seq<Seq<char>>) -> Seq<char> {
    if items.len() == 0 { "None provided"@ } else { numbered_join(items, items.len()) }
}

/// The first `n` numbered lines joined by newlines.
pub open spec fn numbered_join(items: Seq<Seq<char>>, n: nat) -> Seq<char>
    decreases n,
{
    if n == 0 || n > items.len() {
        Seq::empty()
    } else if n == 1 {
        "1. "@ + items[0]
    } else {
        numbered_join(items, (n - 1) as nat) + "\n"@ + decimal(n) + ". "@ + items[n - 1]
    }
}

fn numbered(items: &Vec<String>) -> (res: String)
    ensures
        res@ == numbered_text(items.deep_view()),
{
    if items.len() == 0 {
        return String::from_str("None provided");
    }
    let ghost iv = items.deep_view();
    let mut out = String::new();
    let mut i: usize = 0;
    while i < items.len()
        invariant
            i <= items@.len(),
            iv == items.deep_view(),
            out@ == numbered_join(iv, i as nat),
        decreases items.len() - i,
    {
        if i > 0 {
            push_str(&mut out, "\n");
        }
        push_decimal(&mut out, (i + 1) as u128);
        push_str(&mut out, ". ");
        push_str(&mut out, items[i].as_str());
        proof {
            reveal_with_fuel(decimal, 1);
            if i == 0 {
                assert(decimal(1) =~= seq!['1']);
                reveal_strlit("1. ");
                reveal_strlit(". ");
                assert(iv[0] == items@[0]@);
                assert(seq!['1'] + ". "@ =~= "1. "@);
                assert(out@ =~= numbered_join(iv, 1));
            } else {
                assert(out@ =~= numbered_join(iv, (i + 1) as nat));
            }
        }
        i += 1;
    }
    out
}

/// The prompt texts of the product owner, read from its prompt files.
pub struct PoPrompts {
    pub system: String,
    pub refinement: String,
    pub criteria: String,
}

/// The refinement prompt of a story: the template with `{title}`,
/// `{description}` (the body, a blank line and the criteria),
/// `{acceptance_criteria}` and `{definition_of_done}` filled in, in that order.
pub open spec fn refinement_prompt(template: Seq<char>, criteria: Seq<char>, story: Doc) -> Seq<char> {
    let ac = match json_string_list(json_get(story.fields@, "acceptance_criteria"@)) { Some(l) => l, None => Seq::empty() };
    let dod = match json_string_list(json_get(story.fields@, "definition_of_done"@)) { Some(l) => l, None => Seq::empty() };
    replaced(replaced(replaced(replaced(template, "{title}"@, story.title@), "{description}"@,
        story.body@ + "\n\n"@ + criteria), "{acceptance_criteria}"@, numbered_text(ac)),
        "{definition_of_done}"@, numbered_text(dod))
}

/// Fills the refinement template for a story.
pub fn build_refinement_prompt(prompts: &PoPrompts, story: &Doc) -> (res: String)
    ensures
        res@ == refinement_prompt(prompts.refinement@, prompts.criteria@, *story),
{
    let ac = match story.fields.get_string_list("acceptance_criteria") { Some(l) => l, None => Vec::new() };
    let dod = match story.fields.get_string_list("definition_of_done") { Some(l) => l, None => Vec::new() };
    assert(ac.deep_view() == (match json_string_list(json_get(story.fields@, "acceptance_criteria"@)) {
        Some(l) => l, None => Seq::<Seq<char>>::empty() }));
    let ac_text = numbered(&ac);
    let dod_text = numbered(&dod);
    let mut desc = story.body.clone();
    push_str(&mut desc, "\n\n");
    push_str(&mut desc, prompts.criteria.as_str());
    proof {
        reveal_strlit("{title}");
        reveal_strlit("{description}");
        reveal_strlit("{acceptance_criteria}");
        reveal_strlit("{definition_of_done}");
    }
    let p1 = replace_all(prompts.refinement.as_str(), "{title}", story.title.as_str());
    let p2 = replace_all(p1.as_str(), "{description}", desc.as_str());
    let p3 = replace_all(p2.as_str(), "{acceptance_criteria}", ac_text.as_str());
    replace_all(p3.as_str(), "{definition_of_done}", dod_text.as_str())
}

// ---------------------------------------------------------------- the model dialogue

/// The first prompt of a dialogue: the system prompt, a rule, the request.
pub open spec fn opening_prompt(system: Seq<char>, initial: Seq<char>) -> Seq<char> {
    system + "\n\n---\n\n"@ + initial
}

/// A follow-up prompt: the request, a rule, the previous reply and the question
/// whether to go on.
pub open spec fn follow_up_prompt(initial: Seq<char>, previous: Seq<char>) -> Seq<char> {
    initial + "\n\n---\n\nPrevious response:\n"@ + previous
        + "\n\nDo you need to continue? If yes, provide the next step. If done, say DONE."@
}

/// The error of a dialogue that used up its rounds.
pub open spec fn rounds_exhausted(max: u32) -> Seq<char> {
    "Max rounds ("@ + decimal(max as nat) + ") reached"@
}

/// Where a model dialogue of a logged run stands.
pub enum DialoguePhase {
    /// Round `round` has been asked.
    AwaitReply { run_id: String, initial: String, round: u32 },
    /// The run log is being read to record round `round`.
    AwaitRoundRead { run_id: String, initial: String, round: u32, response: String },
    /// Round `round` is being recorded in the run log.
    AwaitRoundSaved { run_id: String, initial: String, round: u32, response: String },
    /// The run log is being read to record the result.
    AwaitFinalRead { run_id: String, result: Result<String, String> },
    /// The result is being recorded in the run log.
    AwaitFinalSaved { run_id: String, result: Result<String, String> },
}

/// What a dialogue step leads to.
pub enum DialogueStep {
    Continue(DialoguePhase, Effect),
    /// The dialogue is over and its result recorded.
    Ended(String, Result<String, String>),
}

/// A dialogue phase never asks more rounds than configured.
pub open spec fn phase_ok(config: Config, phase: DialoguePhase) -> bool {
    match phase {
        DialoguePhase::AwaitReply { round, .. } => 1 <= round <= config.prompts.max_llm_rounds,
        DialoguePhase::AwaitRoundRead { round, .. } => 1 <= round <= config.prompts.max_llm_rounds,
        DialoguePhase::AwaitRoundSaved { round, .. } => 1 <= round <= config.prompts.max_llm_rounds,
        _ => true,
    }
}

/// Asking round `round` of a dialogue, or stopping when the rounds are used up.
pub open spec fn asks_round(config: Config, system: Seq<char>, run_id: Seq<char>, initial: Seq<char>, round: int,
    previous: Option<Seq<char>>, phase: DialoguePhase, eff: Effect) -> bool
{
    if round > config.prompts.max_llm_rounds {
        &&& phase matches DialoguePhase::AwaitFinalRead { run_id: r, result }
        &&& r@ == run_id
        &&& result is Err
        &&& result->Err_0@ == rounds_exhausted(config.prompts.max_llm_rounds)
        &&& eff matches Effect::GetDoc(id)
        &&& id@ == run_id
    } else {
        &&& phase matches DialoguePhase::AwaitReply { run_id: r, initial: i, round: n }
        &&& r@ == run_id
        &&& i@ == initial
        &&& n == round
        &&& eff matches Effect::Generate(p)
        &&& p@ == round_prompt(system, initial, previous)
    }
}

/// The prompt of a dialogue round: the opening prompt, or the follow-up of the
/// previous reply.
pub open spec fn round_prompt(system: Seq<char>, initial: Seq<char>, previous: Option<Seq<char>>) -> Seq<char> {
    match previous {
        None => opening_prompt(system, initial),
        Some(prev) => follow_up_prompt(initial, prev),
    }
}

/// The run log after recording a round.
pub open spec fn round_recorded(fields: Json, round: u32, response: Seq<char>) -> Json {
    json_set(json_set(fields, "llm_rounds"@, Json::Number(decimal(round as nat))), "llm_response"@, Json::Str(response))
}

/// The run log after recording a dialogue's result.
pub open spec fn result_recorded(fields: Json, result: Result<String, String>) -> Json {
    json_set(json_set(fields, "llm_response"@, Json::Str(result_text(result))), "final_status"@,
        Json::Str(final_status(result)))
}

/// The status a dialogue's result gives its run.
pub open spec fn final_status(result: Result<String, String>) -> Seq<char> {
    if result is Ok { "completed"@ } else { "failed"@ }
}

/// The reply of a dialogue's result, or empty when it failed.
pub open spec fn result_text(result: Result<String, String>) -> Seq<char> {
    match result {
        Ok(r) => r@,
        Err(_) => Seq::empty(),
    }
}

/// `d` is `doc` with other fields and, where given, another status.
pub open spec fn same_but_fields(d: DocView, doc: DocView, status: Seq<char>, fields: Json) -> bool {
    &&& d.id == doc.id
    &&& d.title == doc.title
    &&& d.body == doc.body
    &&& d.status == status
    &&& d.doc_type == doc.doc_type
    &&& d.owner_role == doc.owner_role
    &&& d.trace_id == doc.trace_id
    &&& d.version == doc.version
    &&& d.links == doc.links
    &&& d.tags == doc.tags
    &&& d.created_at == doc.created_at
    &&& d.updated_at == doc.updated_at
    &&& d.fields == fields
}

/// The transitions of a dialogue.
pub open spec fn dialogue_next(config: Config, prompts: PoPrompts, phase: DialoguePhase, outcome: Outcome,
    res: DialogueStep) -> bool
{
    match (phase, outcome) {
        (DialoguePhase::AwaitReply { run_id, initial, round }, Outcome::Generated(r)) => match r {
            Err(e) => {
                &&& res matches DialogueStep::Continue(DialoguePhase::AwaitFinalRead { run_id: id, result }, eff)
                &&& id@ == run_id@
                &&& result is Err
                &&& result->Err_0@ == e@
                &&& eff matches Effect::GetDoc(g)
                &&& g@ == run_id@
            },
            Ok(resp) => {
                &&& res matches DialogueStep::Continue(
                    DialoguePhase::AwaitRoundRead { run_id: id, initial: i, round: n, response }, eff)
                &&& id@ == run_id@
                &&& i@ == initial@
                &&& n == round
                &&& response@ == resp@
                &&& eff matches Effect::GetDoc(g)
                &&& g@ == run_id@
            },
        },
        (DialoguePhase::AwaitRoundRead { run_id, initial, round, response }, Outcome::Fetched(r)) => match r {
            Ok(doc) => {
                &&& res matches DialogueStep::Continue(
                    DialoguePhase::AwaitRoundSaved { run_id: id, initial: i, round: n, response: rr }, eff)
                &&& id@ == run_id@
                &&& i@ == initial@
                &&& n == round
                &&& rr@ == response@
                &&& eff matches Effect::PutDoc(d, key)
                &&& key is None
                &&& same_but_fields(d@, doc@, doc@.status, round_recorded(doc@.fields, round, response@))
            },
            Err(_) => after_round(config, prompts, run_id@, initial@, round, response@, res),
        },
        (DialoguePhase::AwaitRoundSaved { run_id, initial, round, response }, Outcome::Stored(_)) =>
            after_round(config, prompts, run_id@, initial@, round, response@, res),
        (DialoguePhase::AwaitFinalRead { run_id, result }, Outcome::Fetched(r)) => match r {
            Ok(doc) => {
                &&& res matches DialogueStep::Continue(DialoguePhase::AwaitFinalSaved { run_id: id, result: rr }, eff)
                &&& id@ == run_id@
                &&& rr == result
                &&& eff matches Effect::PutDoc(d, key)
                &&& key is None
                &&& same_but_fields(d@, doc@, final_status(result), result_recorded(doc@.fields, result))
            },
            Err(_) => {
                &&& res matches DialogueStep::Ended(id, rr)
                &&& id@ == run_id@
                &&& rr == result
            },
        },
        (DialoguePhase::AwaitFinalSaved { run_id, result }, Outcome::Stored(_)) => {
            &&& res matches DialogueStep::Ended(id, rr)
            &&& id@ == run_id@
            &&& rr == result
        },
        _ => {
            &&& res matches DialogueStep::Ended(_, rr)
            &&& rr is Err
        },
    }
}

/// After round `round` is recorded: the reply ends the dialogue unless it asks
/// to go on, in which case the next round is asked.
pub open spec fn after_round(config: Config, prompts: PoPrompts, run_id: Seq<char>, initial: Seq<char>, round: u32,
    response: Seq<char>, res: DialogueStep) -> bool
{
    if !continues(response) {
        &&& res matches DialogueStep::Continue(DialoguePhase::AwaitFinalRead { run_id: id, result }, eff)
        &&& id@ == run_id
        &&& result is Ok
        &&& result->Ok_0@ == response
        &&& eff matches Effect::GetDoc(g)
        &&& g@ == run_id
    } else {
        &&& res matches DialogueStep::Continue(phase, eff)
        &&& asks_round(config, prompts.system@, run_id, initial, round + 1, Some(response), phase, eff)
    }
}

/// Asks round `round` (the follow-up of `previous`, or the opening prompt), or
/// stops when the configured rounds are used up.
fn ask_round(config: &Config, prompts: &PoPrompts, run_id: String, initial: String, round: u64,
    previous: Option<&str>) -> (res: (DialoguePhase, Effect))
    requires
        1 <= round <= config.prompts.max_llm_rounds as u64 + 1,
    ensures
        asks_round(*config, prompts.system@, run_id@, initial@, round as int,
            match previous { Some(p) => Some(p@), None => None::<Seq<char>> }, res.0, res.1),
        phase_ok(*config, res.0),
{
    let max = config.prompts.max_llm_rounds;
    if round > max as u64 {
        let mut msg = String::from_str("Max rounds (");
        push_decimal(&mut msg, max as u128);
        push_str(&mut msg, ") reached");
        let g = run_id.clone();
        (DialoguePhase::AwaitFinalRead { run_id, result: Err(msg) }, Effect::GetDoc(g))
    } else {
        let prompt = match previous {
            None => {
                let mut p = prompts.system.clone();
                push_str(&mut p, "\n\n---\n\n");
                push_str(&mut p, initial.as_str());
                p
            },
            Some(prev) => {
                let mut p = initial.clone();
                push_str(&mut p, "\n\n---\n\nPrevious response:\n");
                push_str(&mut p, prev);
                push_str(&mut p, "\n\nDo you need to continue? If yes, provide the next step. If done, say DONE.");
                p
            },
        };
        (DialoguePhase::AwaitReply { run_id, initial, round: round as u32 }, Effect::Generate(prompt))
    }
}

/// Starts the dialogue of a logged run with its first round.
pub fn begin_dialogue(config: &Config, prompts: &PoPrompts, run_id: String, initial: String) -> (res: (DialoguePhase, Effect))
    ensures
        asks_round(*config, prompts.system@, run_id@, initial@, 1, None, res.0, res.1),
        phase_ok(*config, res.0),
{
    ask_round(config, prompts, run_id, initial, 1, None)
}

fn decide_after_round(config: &Config, prompts: &PoPrompts, run_id: String, initial: String, round: u32,
    response: String) -> (res: DialogueStep)
    requires
        1 <= round <= config.prompts.max_llm_rounds,
    ensures
        after_round(*config, *prompts, run_id@, initial@, round, response@, res),
        res matches DialogueStep::Continue(p, _) ==> phase_ok(*config, p),
{
    if !analyze_for_continuation(response.as_str()) {
        let g = run_id.clone();
        DialogueStep::Continue(DialoguePhase::AwaitFinalRead { run_id, result: Ok(response) }, Effect::GetDoc(g))
    } else {
        let (p, e) = ask_round(config, prompts, run_id, initial, round as u64 + 1, Some(response.as_str()));
        DialogueStep::Continue(p, e)
    }
}

/// A document read from the store can take a member assignment on `fields`.
pub open spec fn fetched_settable(outcome: Outcome) -> bool {
    outcome matches Outcome::Fetched(Ok(d)) ==> json_settable(d.fields@)
}

/// One step of a model dialogue: each reply is recorded in the run log (round
/// number and reply); the dialogue goes on while the reply asks for it and
/// rounds remain; a failed call or exhausted rounds end it with an error; the
/// result and final status are then recorded in the run log.
pub fn dialogue_step(config: &Config, prompts: &PoPrompts, phase: DialoguePhase, outcome: Outcome) -> (res: DialogueStep)
    requires
        phase_ok(*config, phase),
        fetched_settable(outcome),
    ensures
        dialogue_next(*config, *prompts, phase, outcome, res),
        res matches DialogueStep::Continue(p, _) ==> phase_ok(*config, p),
{
    match (phase, outcome) {
        (DialoguePhase::AwaitReply { run_id, initial, round }, Outcome::Generated(r)) => match r {
            Err(e) => {
                let g = run_id.clone();
                DialogueStep::Continue(DialoguePhase::AwaitFinalRead { run_id, result: Err(e) }, Effect::GetDoc(g))
            },
            Ok(response) => {
                let g = run_id.clone();
                DialogueStep::Continue(DialoguePhase::AwaitRoundRead { run_id, initial, round, response }, Effect::GetDoc(g))
            },
        },
        (DialoguePhase::AwaitRoundRead { run_id, initial, round, response }, Outcome::Fetched(r)) => match r {
            Ok(doc) => {
                let mut updated = doc;
                let mut n = String::new();
                push_decimal(&mut n, round as u128);
                updated.fields.set("llm_rounds", JsonValue::Number(n));
                updated.fields.set("llm_response", JsonValue::Str(response.clone()));
                DialogueStep::Continue(DialoguePhase::AwaitRoundSaved { run_id, initial, round, response },
                    Effect::PutDoc(updated, None))
            },
            Err(_) => decide_after_round(config, prompts, run_id, initial, round, response),
        },
        (DialoguePhase::AwaitRoundSaved { run_id, initial, round, response }, Outcome::Stored(_)) =>
            decide_after_round(config, prompts, run_id, initial, round, response),
        (DialoguePhase::AwaitFinalRead { run_id, result }, Outcome::Fetched(r)) => match r {
            Ok(doc) => {
                let mut updated = doc;
                let status = if result.is_ok() { "completed" } else { "failed" };
                updated.status = String::from_str(status);
                let text = match &result {
                    Ok(t) => t.clone(),
                    Err(_) => String::new(),
                };
                updated.fields.set("llm_response", JsonValue::Str(text));
                updated.fields.set("final_status", JsonValue::string(status));
                DialogueStep::Continue(DialoguePhase::AwaitFinalSaved { run_id, result }, Effect::PutDoc(updated, None))
            },
            Err(_) => DialogueStep::Ended(run_id, result),
        },
        (DialoguePhase::AwaitFinalSaved { run_id, result }, Outcome::Stored(_)) => DialogueStep::Ended(run_id, result),
        _ => DialogueStep::Ended(String::new(), Err(String::new())),
    }
}

// ---------------------------------------------------------------- shared pieces of the handlers

/// The payload reporting a dialogue's result: its status and reply.
pub open spec fn result_payload(result: Result<String, String>) -> Json {
    Json::Object(seq![("status"@, jstr(final_status(result))), ("response"@, jstr(result_text(result)))])
}

/// The reply to the sender of the event once a dialogue is over, published to
/// the sender's inbox.
pub open spec fn dialogue_reply(config: Config, event: EventEnvelope, event_type: Seq<char>, refs: Json,
    result: Result<String, String>, eff: Effect) -> bool
{
    &&& eff matches Effect::Publish(topic, env)
    &&& topic@ == role_inbox_topic(config.mqtt.base_topic@, event.from@)
    &&& envelope_is(env, event.trace_id@, event_type, "po"@, event.from@, refs, result_payload(result))
}

fn reply_effect(config: &Config, event: &EventEnvelope, event_type: &str, refs: JsonValue, result: &Result<String, String>)
    -> (res: Effect)
    ensures
        dialogue_reply(*config, *event, event_type@, refs@, *result, res),
{
    let status = if result.is_ok() { "completed" } else { "failed" };
    let text = match result {
        Ok(t) => t.clone(),
        Err(_) => String::new(),
    };
    let mut entries: Vec<(String, JsonValue)> = Vec::new();
    proof { lemma_entry_views_len(entries@, 0); }
    add_entry(&mut entries, "status", JsonValue::string(status));
    add_entry(&mut entries, "response", JsonValue::Str(text));
    assert(entry_views(entries@, entries@.len()) =~= result_payload(*result)->Object_0);
    let payload = object(entries);
    let eid = new_id();
    let env = EventEnvelope::new(eid.as_str(), event.trace_id.as_str(), event_type, "po", event.from.as_str(), refs,
        payload);
    let topics = TopicBuilder::new(config.mqtt.base_topic.as_str());
    Effect::Publish(topics.role_inbox(event.from.as_str()), env)
}

/// The JSON number zero.
pub open spec fn json_zero() -> Json {
    Json::Number("0"@)
}

fn zero() -> (res: JsonValue)
    ensures
        res@ == json_zero(),
{
    JsonValue::Number(String::from_str("0"))
}

// ---------------------------------------------------------------- free-form runs

/// Where a free-form run (`po.run`) stands.
pub enum PoRunState {
    Start,
    AwaitDedupe,
    /// The run log is being created.
    AwaitRunlogSaved { run_id: String, prompt: String },
    InDialogue { phase: DialoguePhase },
    /// The reply is being published.
    Finishing,
    Finished,
}

/// The `context` member of a payload, or null.
pub open spec fn payload_context(payload: Json) -> Json {
    match json_get(payload, "context"@) {
        Some(c) => c,
        None => Json::Null,
    }
}

/// The run log of a free-form run: the event, the prompt, the system prompt,
/// the context and no rounds yet.
pub open spec fn po_run_fields(event_id: Seq<char>, prompt: Seq<char>, system: Seq<char>, context: Json) -> Json {
    Json::Object(seq![
        ("event_id"@, jstr(event_id)),
        ("prompt"@, jstr(prompt)),
        ("system_prompt"@, jstr(system)),
        ("context"@, context),
        ("llm_rounds"@, json_zero()),
    ])
}

/// A free-form run's state is one its dialogue can be in.
pub open spec fn po_run_ok(config: Config, state: PoRunState) -> bool {
    state matches PoRunState::InDialogue { phase } ==> phase_ok(config, phase)
}

/// What follows a dialogue step of a free-form run: the dialogue goes on, or
/// its result is reported to the sender as `po.completed`.
pub open spec fn run_after_dialogue(config: Config, event: EventEnvelope, d: DialogueStep, next: PoRunState, eff: Effect) -> bool {
    match d {
        DialogueStep::Continue(p, e) => next == (PoRunState::InDialogue { phase: p }) && eff == e,
        DialogueStep::Ended(run_id, result) => {
            &&& next is Finishing
            &&& dialogue_reply(config, event, "po.completed"@, obj1("runId"@, jstr(run_id@)), result, eff)
        },
    }
}

/// The transitions of a free-form run.
pub open spec fn po_run_next(config: Config, prompts: PoPrompts, event: EventEnvelope, state: PoRunState,
    outcome: Outcome, next: PoRunState, eff: Effect) -> bool
{
    match (state, outcome) {
        (PoRunState::Start, Outcome::Started) => {
            &&& next is AwaitDedupe
            &&& dedupe_asked(config, event, eff)
        },
        (PoRunState::AwaitDedupe, Outcome::Deduped(false)) => next is Finished && eff is Done,
        (PoRunState::AwaitDedupe, Outcome::Deduped(true)) => {
            let prompt = ref_or_empty(event.payload@, "prompt"@);
            if prompt.len() == 0 {
                next is Finished && eff is Done
            } else {
                &&& next matches PoRunState::AwaitRunlogSaved { run_id, prompt: p }
                &&& p@ == prompt
                &&& eff matches Effect::PutDoc(d, key)
                &&& key is None
                &&& d@.id == run_id@
                &&& runlog_is(d, "PO Run "@ + run_id@.take(8), prompt, "in_progress"@, Role::Po, event.trace_id@,
                    po_run_fields(event.event_id@, prompt, prompts.system@, payload_context(event.payload@)))
            }
        },
        (PoRunState::AwaitRunlogSaved { run_id, prompt }, Outcome::Stored(r)) => match r {
            Err(_) => next is Finished && eff is Done,
            Ok(_) => {
                &&& next matches PoRunState::InDialogue { phase }
                &&& asks_round(config, prompts.system@, run_id@, prompt@, 1, None, phase, eff)
            },
        },
        (PoRunState::InDialogue { phase }, _) => exists|d: DialogueStep|
            #[trigger] dialogue_next(config, prompts, phase, outcome, d) && run_after_dialogue(config, event, d, next, eff),
        _ => next is Finished && eff is Done,
    }
}

fn run_fields_value(event_id: &str, prompt: &str, system: &str, context: JsonValue) -> (res: JsonValue)
    ensures
        res@ == po_run_fields(event_id@, prompt@, system@, context@),
{
    let mut entries: Vec<(String, JsonValue)> = Vec::new();
    proof { lemma_entry_views_len(entries@, 0); }
    let ghost cv = context@;
    add_entry(&mut entries, "event_id", JsonValue::string(event_id));
    add_entry(&mut entries, "prompt", JsonValue::string(prompt));
    add_entry(&mut entries, "system_prompt", JsonValue::string(system));
    add_entry(&mut entries, "context", context);
    add_entry(&mut entries, "llm_rounds", zero());
    assert(entry_views(entries@, entries@.len()) =~= po_run_fields(event_id@, prompt@, system@, cv)->Object_0);
    object(entries)
}

/// The first eight characters of an identifier made by `new_id`.
fn id_head(id: &str) -> (res: String)
    requires
        id@.len() == 36,
    ensures
        res@ == id@.take(8),
{
    let cs = chars_of(id);
    string_of_range(&cs, 0, 8)
}

/// One step of a free-form run (`po.run`): a run without a `prompt` is
/// dropped; otherwise a run log is created (`PO Run` and the first eight
/// characters of a fresh id), the model dialogue runs on the prompt with the
/// system prompt, and its status and reply are published to the sender's inbox
/// as `po.completed`.
pub fn po_run_step(config: &Config, prompts: &PoPrompts, event: &EventEnvelope, state: PoRunState,
    outcome: Outcome) -> (res: (PoRunState, Effect))
    requires
        po_run_ok(*config, state),
        state is InDialogue ==> fetched_settable(outcome),
    ensures
        po_run_next(*config, *prompts, *event, state, outcome, res.0, res.1),
        po_run_ok(*config, res.0),
{
    match (state, outcome) {
        (PoRunState::Start, Outcome::Started) => (PoRunState::AwaitDedupe, dedupe_effect(config, event)),
        (PoRunState::AwaitDedupe, Outcome::Deduped(false)) => (PoRunState::Finished, Effect::Done),
        (PoRunState::AwaitDedupe, Outcome::Deduped(true)) => {
            let prompt = match event.payload.get_str("prompt") {
                Some(p) => p,
                None => String::new(),
            };
            if prompt.as_str().is_empty() {
                return (PoRunState::Finished, Effect::Done);
            }
            let context = match event.payload.get("context") {
                Some(c) => c.copy(),
                None => JsonValue::Null,
            };
            let run_id = new_id();
            let head = id_head(run_id.as_str());
            let title = text2("PO Run ", head.as_str());
            let mut d = Doc::new(run_id.as_str(), DocType::Runlog, title.as_str(), prompt.as_str(), "in_progress",
                Role::Po);
            d.trace_id = Some(event.trace_id.clone());
            d.fields = run_fields_value(event.event_id.as_str(), prompt.as_str(), prompts.system.as_str(), context);
            (PoRunState::AwaitRunlogSaved { run_id, prompt }, Effect::PutDoc(d, None))
        },
        (PoRunState::AwaitRunlogSaved { run_id, prompt }, Outcome::Stored(r)) => match r {
            Err(_) => (PoRunState::Finished, Effect::Done),
            Ok(_) => {
                let (phase, eff) = begin_dialogue(config, prompts, run_id, prompt);
                (PoRunState::InDialogue { phase }, eff)
            },
        },
        (PoRunState::InDialogue { phase }, outcome) => {
            let d = dialogue_step(config, prompts, phase, outcome);
            let ghost dd = d;
            let res = match d {
                DialogueStep::Continue(p, e) => (PoRunState::InDialogue { phase: p }, e),
                DialogueStep::Ended(run_id, result) => {
                    let refs = single("runId", JsonValue::Str(run_id));
                    let eff = reply_effect(config, event, "po.completed", refs, &result);
                    (PoRunState::Finishing, eff)
                },
            };
            assert(run_after_dialogue(*config, *event, dd, res.0, res.1));
            res
        },
        _ => (PoRunState::Finished, Effect::Done),
    }
}

// ---------------------------------------------------------------- story refinement

/// Where a story refinement (`po.refine`) stands.
pub enum RefineState {
    Start,
    AwaitDedupe,
    /// The story is being read.
    AwaitStory { story_id: String },
    /// The run log is being created.
    AwaitRunlogSaved { story_id: String, run_id: String, prompt: String },
    InDialogue { story_id: String, phase: DialoguePhase },
    /// The story is read again to record the reply.
    AwaitStoryAgain { story_id: String, result: Result<String, String> },
    /// The refined story is being stored.
    AwaitStorySaved { story_id: String, result: Result<String, String> },
    /// The reply is being published.
    Finishing,
    Finished,
}

/// The first `n` bytes of the UTF-8 form of `s`, as text.
pub open spec fn byte_prefix(s: Seq<char>, n: int) -> Seq<char> {
    decode_utf8(encode_utf8(s).take(n))
}

/// `s[..8]` can be taken: the eighth byte of `s` ends a character.
pub open spec fn head_sliceable(s: Seq<char>) -> bool {
    is_char_boundary(encode_utf8(s), 8)
}

/// The first eight bytes of a text (`&s[..8]`).
fn byte_head(s: &str) -> (res: String)
    requires
        head_sliceable(s@),
    ensures
        res@ == byte_prefix(s@, 8),
{
    broadcast use vstd::utf8::group_utf8_lib;
    let (head, _tail) = s.split_at(8);
    let t = head.to_owned();
    proof {
        assert(vstd::string::StringSliceAdditionalSpecFns::spec_bytes(head) =~= encode_utf8(s@).take(8));
        assert(decode_utf8(encode_utf8(head@)) == head@);
    }
    t
}

/// The run log of a refinement: the event, the story, the prompt, the system
/// prompt and no rounds yet.
pub open spec fn refine_fields(event_id: Seq<char>, story_id: Seq<char>, prompt: Seq<char>, system: Seq<char>) -> Json {
    Json::Object(seq![
        ("event_id"@, jstr(event_id)),
        ("story_id"@, jstr(story_id)),
        ("prompt"@, jstr(prompt)),
        ("system_prompt"@, jstr(system)),
        ("llm_rounds"@, json_zero()),
    ])
}

fn refine_fields_value(event_id: &str, story_id: &str, prompt: &str, system: &str) -> (res: JsonValue)
    ensures
        res@ == refine_fields(event_id@, story_id@, prompt@, system@),
{
    let mut entries: Vec<(String, JsonValue)> = Vec::new();
    proof { lemma_entry_views_len(entries@, 0); }
    add_entry(&mut entries, "event_id", JsonValue::string(event_id));
    add_entry(&mut entries, "story_id", JsonValue::string(story_id));
    add_entry(&mut entries, "prompt", JsonValue::string(prompt));
    add_entry(&mut entries, "system_prompt", JsonValue::string(system));
    add_entry(&mut entries, "llm_rounds", zero());
    assert(entry_views(entries@, entries@.len()) =~= refine_fields(event_id@, story_id@, prompt@, system@)->Object_0);
    object(entries)
}

/// A refinement's state is one its dialogue can be in.
pub open spec fn refine_ok(config: Config, state: RefineState) -> bool {
    state matches RefineState::InDialogue { phase, .. } ==> phase_ok(config, phase)
}

/// What a refinement needs of an answer: documents read while recording can
/// take member assignments, and the story read first has an id whose first
/// eight bytes can be cut off for the run-log title.
pub open spec fn refine_answer_ok(state: RefineState, outcome: Outcome) -> bool {
    &&& (state is InDialogue || state is AwaitStoryAgain) ==> fetched_settable(outcome)
    &&& state matches RefineState::AwaitStory { story_id } ==> (outcome is Fetched && outcome->Fetched_0 is Ok
        ==> head_sliceable(story_id@))
}

/// The payload reporting a refinement: the story.
pub open spec fn story_ref(story_id: Seq<char>) -> Json {
    obj1("storyId"@, jstr(story_id))
}

/// What follows a dialogue step of a refinement: the dialogue goes on; an
/// accepted reply is recorded in the story; a failure is reported at once.
pub open spec fn refine_after_dialogue(config: Config, event: EventEnvelope, story_id: Seq<char>, d: DialogueStep, next: RefineState,
    eff: Effect) -> bool
{
    match d {
        DialogueStep::Continue(p, e) => {
            &&& next matches RefineState::InDialogue { story_id: s, phase }
            &&& s@ == story_id
            &&& phase == p
            &&& eff == e
        },
        DialogueStep::Ended(_, result) => match result {
            Ok(_) => {
                &&& next matches RefineState::AwaitStoryAgain { story_id: s, result: r }
                &&& s@ == story_id
                &&& r == result
                &&& eff matches Effect::GetDoc(g)
                &&& g@ == story_id
            },
            Err(_) => {
                &&& next is Finishing
                &&& dialogue_reply(config, event, "po.refinement.completed"@, story_ref(story_id), result, eff)
            },
        },
    }
}

/// The transitions of a story refinement.
pub open spec fn refine_next(config: Config, prompts: PoPrompts, event: EventEnvelope, state: RefineState,
    outcome: Outcome, next: RefineState, eff: Effect) -> bool
{
    match (state, outcome) {
        (RefineState::Start, Outcome::Started) => {
            &&& next is AwaitDedupe
            &&& dedupe_asked(config, event, eff)
        },
        (RefineState::AwaitDedupe, Outcome::Deduped(false)) => next is Finished && eff is Done,
        (RefineState::AwaitDedupe, Outcome::Deduped(true)) => match json_str(json_get(event.payload@, "storyId"@)) {
            None => next is Finished && eff is Done,
            Some(story_id) => {
                &&& next matches RefineState::AwaitStory { story_id: s }
                &&& s@ == story_id
                &&& eff matches Effect::GetDoc(g)
                &&& g@ == story_id
            },
        },
        (RefineState::AwaitStory { story_id }, Outcome::Fetched(r)) => match r {
            Err(_) => next is Finished && eff is Done,
            Ok(story) => {
                let prompt = refinement_prompt(prompts.refinement@, prompts.criteria@, story);
                &&& next matches RefineState::AwaitRunlogSaved { story_id: s, run_id, prompt: p }
                &&& s == story_id
                &&& p@ == prompt
                &&& eff matches Effect::PutDoc(d, key)
                &&& key is None
                &&& d@.id == run_id@
                &&& runlog_is(d, "PO Refinement "@ + byte_prefix(story_id@, 8), prompt, "in_progress"@, Role::Po,
                    event.trace_id@, refine_fields(event.event_id@, story_id@, prompt, prompts.system@))
            },
        },
        (RefineState::AwaitRunlogSaved { story_id, run_id, prompt }, Outcome::Stored(r)) => match r {
            Err(_) => next is Finished && eff is Done,
            Ok(_) => {
                &&& next matches RefineState::InDialogue { story_id: s, phase }
                &&& s == story_id
                &&& asks_round(config, prompts.system@, run_id@, prompt@, 1, None, phase, eff)
            },
        },
        (RefineState::InDialogue { story_id, phase }, _) => exists|d: DialogueStep|
            #[trigger] dialogue_next(config, prompts, phase, outcome, d)
                && refine_after_dialogue(config, event, story_id@, d, next, eff),
        (RefineState::AwaitStoryAgain { story_id, result }, Outcome::Fetched(r)) => match r {
            Ok(story) => {
                &&& next matches RefineState::AwaitStorySaved { story_id: s, result: rr }
                &&& s == story_id
                &&& rr == result
                &&& eff matches Effect::PutDoc(d, key)
                &&& key is None
                &&& same_but_fields(d@, story@, refinement_status(result_text(result)),
                    json_set(story@.fields, "refinement_response"@, jstr(result_text(result))))
            },
            Err(_) => {
                &&& next is Finishing
                &&& dialogue_reply(config, event, "po.refinement.completed"@, story_ref(story_id@), result, eff)
            },
        },
        (RefineState::AwaitStorySaved { story_id, result }, Outcome::Stored(_)) => {
            &&& next is Finishing
            &&& dialogue_reply(config, event, "po.refinement.completed"@, story_ref(story_id@), result, eff)
        },
        _ => next is Finished && eff is Done,
    }
}

/// One step of a story refinement (`po.refine`): an event without a
/// `storyId`, or whose story cannot be read, is dropped; otherwise the
/// refinement prompt is built from the story and the prompt files, a run log is
/// created (`PO Refinement` and the first eight bytes of the story id), and the
/// model dialogue runs. An accepted reply sets the story's status (see
/// `refinement_status`) and records the reply in `refinement_response`; the
/// status and reply are published to the sender's inbox as
/// `po.refinement.completed`.
pub fn refine_step(config: &Config, prompts: &PoPrompts, event: &EventEnvelope, state: RefineState,
    outcome: Outcome) -> (res: (RefineState, Effect))
    requires
        refine_ok(*config, state),
        refine_answer_ok(state, outcome),
    ensures
        refine_next(*config, *prompts, *event, state, outcome, res.0, res.1),
        refine_ok(*config, res.0),
{
    match (state, outcome) {
        (RefineState::Start, Outcome::Started) => (RefineState::AwaitDedupe, dedupe_effect(config, event)),
        (RefineState::AwaitDedupe, Outcome::Deduped(false)) => (RefineState::Finished, Effect::Done),
        (RefineState::AwaitDedupe, Outcome::Deduped(true)) => match event.payload.get_str("storyId") {
            None => (RefineState::Finished, Effect::Done),
            Some(story_id) => {
                let g = story_id.clone();
                (RefineState::AwaitStory { story_id }, Effect::GetDoc(g))
            },
        },
        (RefineState::AwaitStory { story_id }, Outcome::Fetched(r)) => match r {
            Err(_) => (RefineState::Finished, Effect::Done),
            Ok(story) => {
                let prompt = build_refinement_prompt(prompts, &story);
                let run_id = new_id();
                let head = byte_head(story_id.as_str());
                let title = text2("PO Refinement ", head.as_str());
                let mut d = Doc::new(run_id.as_str(), DocType::Runlog, title.as_str(), prompt.as_str(),
                    "in_progress", Role::Po);
                d.trace_id = Some(event.trace_id.clone());
                d.fields = refine_fields_value(event.event_id.as_str(), story_id.as_str(), prompt.as_str(),
                    prompts.system.as_str());
                (RefineState::AwaitRunlogSaved { story_id, run_id, prompt }, Effect::PutDoc(d, None))
            },
        },
        (RefineState::AwaitRunlogSaved { story_id, run_id, prompt }, Outcome::Stored(r)) => match r {
            Err(_) => (RefineState::Finished, Effect::Done),
            Ok(_) => {
                let (phase, eff) = begin_dialogue(config, prompts, run_id, prompt);
                (RefineState::InDialogue { story_id, phase }, eff)
            },
        },
        (RefineState::InDialogue { story_id, phase }, outcome) => {
            let d = dialogue_step(config, prompts, phase, outcome);
            let ghost dd = d;
            let res = match d {
                DialogueStep::Continue(p, e) => (RefineState::InDialogue { story_id, phase: p }, e),
                DialogueStep::Ended(_, result) => match result {
                    Ok(t) => {
                        let g = story_id.clone();
                        (RefineState::AwaitStoryAgain { story_id, result: Ok(t) }, Effect::GetDoc(g))
                    },
                    Err(e) => {
                        let refs = single("storyId", JsonValue::string(story_id.as_str()));
                        let eff = reply_effect(config, event, "po.refinement.completed", refs, &Err(e));
                        (RefineState::Finishing, eff)
                    },
                },
            };
            assert(refine_after_dialogue(*config, *event, story_id@, dd, res.0, res.1));
            res
        },
        (RefineState::AwaitStoryAgain { story_id, result }, Outcome::Fetched(r)) => match r {
            Ok(story) => {
                let text = match &result {
                    Ok(t) => t.clone(),
                    Err(_) => String::new(),
                };
                let mut updated = story;
                updated.status = String::from_str(refined_status(text.as_str()));
                updated.fields.set("refinement_response", JsonValue::Str(text));
                (RefineState::AwaitStorySaved { story_id, result }, Effect::PutDoc(updated, None))
            },
            Err(_) => {
                let refs = single("storyId", JsonValue::string(story_id.as_str()));
                let eff = reply_effect(config, event, "po.refinement.completed", refs, &result);
                (RefineState::Finishing, eff)
            },
        },
        (RefineState::AwaitStorySaved { story_id, result }, Outcome::Stored(_)) => {
            let refs = single("storyId", JsonValue::string(story_id.as_str()));
            let eff = reply_effect(config, event, "po.refinement.completed", refs, &result);
            (RefineState::Finishing, eff)
        },
        _ => (RefineState::Finished, Effect::Done),
    }
}

// ---------------------------------------------------------------- story creation

/// Where a story creation (`story.new` / `story.create`) stands.
pub enum CreateState {
    Start,
    /// The new story is being stored under the event's idempotency key.
    AwaitStorySaved { story_id: String, title: String, body: String },
    /// The model is analysing the stored story.
    AwaitReply { story_id: String, title: String, body: String, saved: Doc, prompt: String },
    /// The story is being marked failed after the model failed.
    AwaitFailedSaved { story_id: String, error: String },
    /// The creation is being audited.
    AwaitAudit { title: String, saved: Doc, prompt: String, response: String },
    /// The run log is being stored.
    AwaitRunlogSaved { title: String, saved: Doc, response: String },
    /// The story's new status is being stored.
    AwaitStatusSaved { title: String, saved: Doc, ready: bool },
    /// An event is being published.
    Finishing,
    Finished,
}

/// The string member `key` of a payload, or `default`.
pub open spec fn str_or(j: Json, key: Seq<char>, default: Seq<char>) -> Seq<char> {
    match json_str(json_get(j, key)) {
        Some(s) => s,
        None => default,
    }
}

/// The acceptance criteria of a new story: the string members of the
/// payload's array, or none.
pub open spec fn creation_criteria(payload: Json) -> Seq<Seq<char>> {
    match json_string_list(json_get(payload, "acceptance_criteria"@)) {
        Some(l) => l,
        None => Seq::empty(),
    }
}

/// The definition of done of a new story: the string members of the payload's
/// array, or `cargo test` and `cargo fmt --check`.
pub open spec fn creation_dod(payload: Json) -> Seq<Seq<char>> {
    match json_string_list(json_get(payload, "definition_of_done"@)) {
        Some(l) => l,
        None => seq!["cargo test"@, "cargo fmt --check"@],
    }
}

/// The links of a new story: the string members of the event's `docIds`
/// reference, or none.
pub open spec fn creation_links(refs: Json) -> Seq<Seq<char>> {
    match json_string_list(json_get(refs, "docIds"@)) {
        Some(l) => l,
        None => Seq::empty(),
    }
}

/// The fields of a new story.
pub open spec fn story_fields(ac: Seq<Seq<char>>, dod: Seq<Seq<char>>) -> Json {
    Json::Object(seq![("acceptance_criteria"@, json_strings(ac)), ("definition_of_done"@, json_strings(dod))])
}

/// The draft story an event asks for: a fresh id; the payload's title and body
/// (`New Story` and `No description provided` when absent); its criteria and
/// definition of done; the referenced documents as links; the event's trace.
pub open spec fn draft_story_is(d: Doc, story_id: Seq<char>, event: EventEnvelope) -> bool {
    &&& d@.id == story_id
    &&& story_id.len() == 36
    &&& d@.doc_type == DocType::Story
    &&& d@.title == str_or(event.payload@, "title"@, "New Story"@)
    &&& d@.body == str_or(event.payload@, "body"@, "No description provided"@)
    &&& d@.status == "draft"@
    &&& d@.owner_role == Role::Po
    &&& d@.trace_id == Some(event.trace_id@)
    &&& d@.version == 1
    &&& d@.tags.len() == 0
    &&& d@.links == creation_links(event.refs@)
    &&& d@.fields == story_fields(creation_criteria(event.payload@), creation_dod(event.payload@))
}

/// The run log of a created story.
pub open spec fn creation_runlog_fields(event_id: Seq<char>, response: Seq<char>) -> Json {
    Json::Object(seq![
        ("event_id"@, jstr(event_id)),
        ("action"@, jstr("story.created"@)),
        ("llm_response"@, jstr(response)),
    ])
}

/// The status a created story gets from the model's reply.
pub open spec fn creation_status(ready: bool) -> Seq<char> {
    if ready { "ready"@ } else { "refining"@ }
}

/// The transitions of a story creation.
pub open spec fn create_next(event: EventEnvelope, state: CreateState, outcome: Outcome, next: CreateState,
    eff: Effect) -> bool
{
    match (state, outcome) {
        (CreateState::Start, Outcome::Started) => {
            &&& next matches CreateState::AwaitStorySaved { story_id, title, body }
            &&& title@ == str_or(event.payload@, "title"@, "New Story"@)
            &&& body@ == str_or(event.payload@, "body"@, "No description provided"@)
            &&& eff matches Effect::PutDoc(d, key)
            &&& key matches Some(k)
            &&& k@ == event.event_id@
            &&& draft_story_is(d, story_id@, event)
        },
        (CreateState::AwaitStorySaved { story_id, title, body }, Outcome::Stored(r)) => match r {
            Err(_) => next is Finished && eff is Done,
            Ok(saved) => {
                &&& next matches CreateState::AwaitReply { story_id: i, title: t, body: b, saved: s, prompt }
                &&& i == story_id
                &&& t == title
                &&& b == body
                &&& s == saved
                &&& prompt@ == po_prompt(saved)
                &&& eff == Effect::Generate(prompt)
            },
        },
        (CreateState::AwaitReply { story_id, title, body, saved, prompt }, Outcome::Generated(r)) => match r {
            Err(e) => {
                &&& next matches CreateState::AwaitFailedSaved { story_id: i, error }
                &&& i == story_id
                &&& error == e
                &&& eff matches Effect::PutDoc(d, key)
                &&& key is None
                &&& d@.id == story_id@
                &&& d@.doc_type == DocType::Story
                &&& d@.title == title@
                &&& d@.body == body@
                &&& d@.status == "failed"@
                &&& d@.owner_role == Role::Po
                &&& d@.trace_id is None
                &&& d@.version == 1
                &&& d@.tags.len() == 0
                &&& d@.links.len() == 0
                &&& d@.fields == Json::Object(Seq::empty())
            },
            Ok(response) => {
                &&& next == (CreateState::AwaitAudit { title, saved, prompt, response })
                &&& eff matches Effect::AppendAudit(stream, a)
                &&& stream@ == "events"@
                &&& a.trace_id@ == event.trace_id@
                &&& a.event_id@ == event.event_id@
                &&& a.actor_role == Role::Po
                &&& a.action@ == "story.created"@
                &&& a.summary@ == "Created story: "@ + title@
            },
        },
        (CreateState::AwaitFailedSaved { story_id, error }, Outcome::Stored(_)) => {
            &&& next is Finishing
            &&& eff matches Effect::PublishToRole(role, env)
            &&& role@ == "system"@
            &&& envelope_is(env, event.trace_id@, "story.failed"@, "po"@, "system"@, story_ref(story_id@),
                obj1("summary"@, jstr("Story creation failed: "@ + error@)))
        },
        (CreateState::AwaitAudit { title, saved, prompt, response }, Outcome::Acked) => {
            &&& next matches CreateState::AwaitRunlogSaved { title: t, saved: s, response: r }
            &&& t == title
            &&& s == saved
            &&& r == response
            &&& eff matches Effect::PutDoc(d, key)
            &&& key is None
            &&& runlog_is(d, "PO Agent - Story "@ + saved@.id, exchange_body(prompt@, response@), "completed"@, Role::Po,
                event.trace_id@, creation_runlog_fields(event.event_id@, response@))
        },
        (CreateState::AwaitRunlogSaved { title, saved, response }, Outcome::Stored(_)) => {
            let ready = creation_ready(response@);
            &&& next matches CreateState::AwaitStatusSaved { title: t, saved: s, ready: rd }
            &&& t == title
            &&& rd == ready
            &&& same_but_fields(s@, saved@, creation_status(ready), saved@.fields)
            &&& eff matches Effect::PutDoc(d, key)
            &&& key is None
            &&& d@ == s@
        },
        (CreateState::AwaitStatusSaved { title, saved, ready }, Outcome::Stored(_)) => {
            if ready {
                &&& next is Finishing
                &&& eff matches Effect::PublishToRole(role, env)
                &&& role@ == "dev"@
                &&& envelope_is(env, event.trace_id@, "story.ready"@, "po"@, "dev"@,
                    Json::Object(seq![("storyId"@, jstr(saved@.id)), ("title"@, jstr(saved@.title))]),
                    obj1("summary"@, jstr("Story '"@ + title@ + "' is ready for development"@)))
            } else {
                next is Finished && eff is Done
            }
        },
        _ => next is Finished && eff is Done,
    }
}

fn story_fields_value(ac: &Vec<String>, dod: &Vec<String>) -> (res: JsonValue)
    ensures
        res@ == story_fields(ac.deep_view(), dod.deep_view()),
{
    let mut entries: Vec<(String, JsonValue)> = Vec::new();
    proof { lemma_entry_views_len(entries@, 0); }
    add_entry(&mut entries, "acceptance_criteria", string_array(ac));
    add_entry(&mut entries, "definition_of_done", string_array(dod));
    assert(entry_views(entries@, entries@.len()) =~= story_fields(ac.deep_view(), dod.deep_view())->Object_0);
    object(entries)
}

fn creation_runlog_value(event_id: &str, response: &str) -> (res: JsonValue)
    ensures
        res@ == creation_runlog_fields(event_id@, response@),
{
    let mut entries: Vec<(String, JsonValue)> = Vec::new();
    proof { lemma_entry_views_len(entries@, 0); }
    add_entry(&mut entries, "event_id", JsonValue::string(event_id));
    add_entry(&mut entries, "action", JsonValue::string("story.created"));
    add_entry(&mut entries, "llm_response", JsonValue::string(response));
    assert(entry_views(entries@, entries@.len()) =~= creation_runlog_fields(event_id@, response@)->Object_0);
    object(entries)
}

fn default_dod() -> (res: Vec<String>)
    ensures
        res.deep_view() == seq!["cargo test"@, "cargo fmt --check"@],
{
    let mut v: Vec<String> = Vec::new();
    v.push(String::from_str("cargo test"));
    v.push(String::from_str("cargo fmt --check"));
    assert(v.deep_view() =~= seq!["cargo test"@, "cargo fmt --check"@]);
    v
}

fn draft_story(story_id: &str, title: &str, body: &str, event: &EventEnvelope) -> (res: Doc)
    requires
        story_id@.len() == 36,
        title@ == str_or(event.payload@, "title"@, "New Story"@),
        body@ == str_or(event.payload@, "body"@, "No description provided"@),
    ensures
        draft_story_is(res, story_id@, *event),
{
    let ac = match event.payload.get_string_list("acceptance_criteria") {
        Some(l) => l,
        None => Vec::new(),
    };
    let dod = match event.payload.get_string_list("definition_of_done") {
        Some(l) => l,
        None => default_dod(),
    };
    assert(ac.deep_view() =~= creation_criteria(event.payload@));
    let mut d = Doc::new(story_id, DocType::Story, title, body, "draft", Role::Po);
    d.trace_id = Some(event.trace_id.clone());
    d.fields = story_fields_value(&ac, &dod);
    match event.refs.get_string_list("docIds") {
        Some(l) => {
            d.links = l;
        },
        None => {},
    }
    assert(d@.links =~= creation_links(event.refs@));
    d
}

/// One step of creating a story from an event: a draft story is stored under
/// the event's idempotency key; the model analyses it; if the model fails, the
/// story is stored again as `failed` and `story.failed` goes to the system
/// inbox. Otherwise the creation is audited, the exchange is logged, and the
/// story becomes `ready` (and `story.ready` goes to the developer) unless the
/// reply says it is not ready, in which case it becomes `refining`.
pub fn create_step(event: &EventEnvelope, state: CreateState, outcome: Outcome) -> (res: (CreateState, Effect))
    ensures
        create_next(*event, state, outcome, res.0, res.1),
{
    match (state, outcome) {
        (CreateState::Start, Outcome::Started) => {
            let story_id = new_id();
            let title = match event.payload.get_str("title") {
                Some(t) => t,
                None => String::from_str("New Story"),
            };
            let body = match event.payload.get_str("body") {
                Some(b) => b,
                None => String::from_str("No description provided"),
            };
            let d = draft_story(story_id.as_str(), title.as_str(), body.as_str(), event);
            let key = event.event_id.clone();
            (CreateState::AwaitStorySaved { story_id, title, body }, Effect::PutDoc(d, Some(key)))
        },
        (CreateState::AwaitStorySaved { story_id, title, body }, Outcome::Stored(r)) => match r {
            Err(_) => (CreateState::Finished, Effect::Done),
            Ok(saved) => {
                let prompt = generate_po_prompt(&saved);
                let p = prompt.clone();
                (CreateState::AwaitReply { story_id, title, body, saved, prompt }, Effect::Generate(p))
            },
        },
        (CreateState::AwaitReply { story_id, title, body, saved, prompt }, Outcome::Generated(r)) => match r {
            Err(e) => {
                let d = Doc::new(story_id.as_str(), DocType::Story, title.as_str(), body.as_str(), "failed", Role::Po);
                (CreateState::AwaitFailedSaved { story_id, error: e }, Effect::PutDoc(d, None))
            },
            Ok(response) => {
                let summary = text2("Created story: ", title.as_str());
                let a = AuditEntry::new(event.trace_id.as_str(), event.event_id.as_str(), Role::Po, "story.created",
                    summary.as_str());
                (CreateState::AwaitAudit { title, saved, prompt, response },
                    Effect::AppendAudit(String::from_str("events"), a))
            },
        },
        (CreateState::AwaitFailedSaved { story_id, error }, Outcome::Stored(_)) => {
            let summary = text2("Story creation failed: ", error.as_str());
            let env = summary_event(event.trace_id.as_str(), "story.failed", "po", "system", "storyId",
                story_id.as_str(), summary.as_str());
            (CreateState::Finishing, Effect::PublishToRole(String::from_str("system"), env))
        },
        (CreateState::AwaitAudit { title, saved, prompt, response }, Outcome::Acked) => {
            let rtitle = text2("PO Agent - Story ", saved.id.as_str());
            let body = exchange_text(prompt.as_str(), response.as_str());
            let fields = creation_runlog_value(event.event_id.as_str(), response.as_str());
            let d = new_runlog(rtitle.as_str(), body.as_str(), "completed", Role::Po, event.trace_id.as_str(), fields);
            (CreateState::AwaitRunlogSaved { title, saved, response }, Effect::PutDoc(d, None))
        },
        (CreateState::AwaitRunlogSaved { title, saved, response }, Outcome::Stored(_)) => {
            let ready = story_is_ready(response.as_str());
            let mut s = saved;
            s.status = String::from_str(if ready { "ready" } else { "refining" });
            let d = copy_doc(&s);
            (CreateState::AwaitStatusSaved { title, saved: s, ready }, Effect::PutDoc(d, None))
        },
        (CreateState::AwaitStatusSaved { title, saved, ready }, Outcome::Stored(_)) => {
            if ready {
                let mut entries: Vec<(String, JsonValue)> = Vec::new();
                proof { lemma_entry_views_len(entries@, 0); }
                add_entry(&mut entries, "storyId", JsonValue::string(saved.id.as_str()));
                add_entry(&mut entries, "title", JsonValue::string(saved.title.as_str()));
                assert(entry_views(entries@, entries@.len())
                    =~= seq![("storyId"@, jstr(saved@.id)), ("title"@, jstr(saved@.title))]);
                let refs = object(entries);
                let mut summary = text2("Story '", title.as_str());
                push_str(&mut summary, "' is ready for development");
                let payload = single("summary", JsonValue::Str(summary));
                let eid = new_id();
                let env = EventEnvelope::new(eid.as_str(), event.trace_id.as_str(), "story.ready", "po", "dev", refs,
                    payload);
                (CreateState::Finishing, Effect::PublishToRole(String::from_str("dev"), env))
            } else {
                (CreateState::Finished, Effect::Done)
            }
        },
        _ => (CreateState::Finished, Effect::Done),
    }
}

// ---------------------------------------------------------------- laws

/// The story drafted for a creation request keeps what was asked: where the
/// payload's `acceptance_criteria` (or `definition_of_done`) is an array, the
/// stored story's member of that name is the array of its string members, in
/// order.
pub proof fn lemma_draft_keeps_requested_lists(event: EventEnvelope, next: CreateState, eff: Effect)
    requires
        create_next(event, CreateState::Start, Outcome::Started, next, eff),
    ensures
        eff is PutDoc,
        json_get(event.payload@, "acceptance_criteria"@) matches Some(Json::Array(items))
            ==> json_get(eff->PutDoc_0@.fields, "acceptance_criteria"@) == Some(json_strings(string_members(items))),
        json_get(event.payload@, "definition_of_done"@) matches Some(Json::Array(items))
            ==> json_get(eff->PutDoc_0@.fields, "definition_of_done"@) == Some(json_strings(string_members(items))),
{
    reveal_strlit("acceptance_criteria");
    reveal_strlit("definition_of_done");
    assert("acceptance_criteria"@ != "definition_of_done"@) by {
        assert("acceptance_criteria"@[0] != "definition_of_done"@[0]);
    }
    let d = eff->PutDoc_0@;
    let ac = creation_criteria(event.payload@);
    let dod = creation_dod(event.payload@);
    let entries = seq![("acceptance_criteria"@, json_strings(ac)), ("definition_of_done"@, json_strings(dod))];
    assert(d.fields == Json::Object(entries));
    let none = Seq::<(Seq<char>, Json)>::empty();
    assert(entries.drop_last() =~= seq![entries[0]]);
    assert(seq![entries[0]].drop_last() =~= none);
    assert(first_key_index(none, "acceptance_criteria"@) is None);
    assert(first_key_index(none, "definition_of_done"@) is None);
    assert(first_key_index(seq![entries[0]], "acceptance_criteria"@) == Some(0int));
    assert(first_key_index(seq![entries[0]], "definition_of_done"@) is None);
    assert(first_key_index(entries, "acceptance_criteria"@) == Some(0int));
    assert(first_key_index(entries, "definition_of_done"@) == Some(1int));
}

/// `pat` occurs nowhere in `s`.
pub open spec fn absent(s: Seq<char>, pat: Seq<char>) -> bool {
    forall|i: int| 0 <= i <= s.len() ==> !starts_with_seq(#[trigger] s.skip(i), pat)
}

/// Replacing a pattern that does not occur leaves the text as it is.
pub proof fn lemma_replaced_absent(s: Seq<char>, from: Seq<char>, to: Seq<char>)
    requires
        from.len() > 0,
        absent(s, from),
    ensures
        replaced(s, from, to) == s,
    decreases s.len(),
{
    if s.len() > 0 {
        assert(s.skip(0) =~= s);
        let t = s.drop_first();
        assert forall|i: int| 0 <= i <= t.len() implies !starts_with_seq(#[trigger] t.skip(i), from) by {
            assert(t.skip(i) =~= s.skip(i + 1));
        }
        lemma_replaced_absent(t, from, to);
        assert(seq![s[0]] + t =~= s);
    }
}

/// Numbered lists: none reads `None provided`; one item `x` reads `1. x`; one
/// more item `x` after a non-empty list adds a new line `{n}. x`, `n` being
/// its position.
pub proof fn lemma_numbered_text_steps(items: Seq<Seq<char>>, x: Seq<char>)
    ensures
        numbered_text(Seq::empty()) == "None provided"@,
        numbered_text(seq![x]) == "1. "@ + x,
        items.len() > 0 ==> numbered_text(items.push(x))
            == numbered_text(items) + "\n"@ + decimal(items.len() + 1) + ". "@ + x,
{
    assert(seq![x][0] == x);
    if items.len() > 0 {
        let l = items.push(x);
        assert(l[items.len() as int] == x);
        lemma_numbered_join_prefix(items, x, items.len());
        assert(numbered_join(l, l.len()) == numbered_join(l, items.len()) + "\n"@ + decimal(items.len() + 1) + ". "@
            + l[items.len() as int]);
    }
}

proof fn lemma_numbered_join_prefix(items: Seq<Seq<char>>, x: Seq<char>, n: nat)
    requires
        n <= items.len(),
    ensures
        numbered_join(items.push(x), n) == numbered_join(items, n),
    decreases n,
{
    if n > 0 {
        lemma_numbered_join_prefix(items, x, (n - 1) as nat);
        assert(items.push(x)[n - 1] == items[n - 1]);
        assert(items.push(x)[0] == items[0]);
    }
}

/// The string members of the array member `key` of `fields`, or none.
pub open spec fn listed(fields: Json, key: Seq<char>) -> Seq<Seq<char>> {
    match json_string_list(json_get(fields, key)) {
        Some(l) => l,
        None => Seq::empty(),
    }
}

/// The story's lists fill the refinement prompt: `{acceptance_criteria}` and
/// then `{definition_of_done}` are replaced by the story's criteria and
/// definition of done, numbered one per line (`None provided` for an empty or
/// missing list). Stated for every story, criteria text and template in which
/// `{title}` and `{description}` do not occur.
pub proof fn lemma_refinement_prompt_lists(template: Seq<char>, criteria: Seq<char>, story: Doc)
    requires
        absent(template, "{title}"@),
        absent(template, "{description}"@),
    ensures
        refinement_prompt(template, criteria, story) == replaced(
            replaced(template, "{acceptance_criteria}"@, numbered_text(listed(story.fields@, "acceptance_criteria"@))),
            "{definition_of_done}"@, numbered_text(listed(story.fields@, "definition_of_done"@))),
{
    reveal_strlit("{title}");
    reveal_strlit("{description}");
    lemma_replaced_absent(template, "{title}"@, story.title@);
    lemma_replaced_absent(template, "{description}"@, story.body@ + "\n\n"@ + criteria);
}

/// The story's definition of done fills `{definition_of_done}` in the
/// refinement prompt: its list of strings, numbered one per line, or `None
/// provided` when the story has none. Stated for every story, criteria text and
/// template in which the other placeholders do not occur.
pub proof fn lemma_refinement_prompt_lists_dod(template: Seq<char>, criteria: Seq<char>, story: Doc)
    requires
        absent(template, "{title}"@),
        absent(template, "{description}"@),
        absent(template, "{acceptance_criteria}"@),
    ensures
        json_string_list(json_get(story.fields@, "definition_of_done"@)) matches Some(l)
            ==> refinement_prompt(template, criteria, story) == replaced(template, "{definition_of_done}"@, numbered_text(l)),
        json_string_list(json_get(story.fields@, "definition_of_done"@)) is None
            ==> refinement_prompt(template, criteria, story)
                == replaced(template, "{definition_of_done}"@, "None provided"@),
{
    reveal_strlit("{title}");
    reveal_strlit("{description}");
    reveal_strlit("{acceptance_criteria}");
    let ac = match json_string_list(json_get(story.fields@, "acceptance_criteria"@)) { Some(l) => l, None => Seq::empty() };
    lemma_replaced_absent(template, "{title}"@, story.title@);
    lemma_replaced_absent(template, "{description}"@, story.body@ + "\n\n"@ + criteria);
    lemma_replaced_absent(template, "{acceptance_criteria}"@, numbered_text(ac));
}

/// A refinement leaves the story `ready` or `refining`, and `refining` whenever
/// the reply says the story is not ready.
pub proof fn lemma_refinement_status_values(response: Seq<char>)
    ensures
        refinement_status(response) == "ready"@ || refinement_status(response) == "refining"@,
        says_not_ready(lowercase(response)) ==> refinement_status(response) == "refining"@,
{
}

/// A created story is announced to the developer (`story.ready`) exactly when
/// the model's reply does not say it is not ready; the stored status says the
/// same.
pub proof fn lemma_story_announced_iff_ready(event: EventEnvelope, title: String, saved: Doc, response: String,
    stored: Result<Doc, String>, mid: CreateState, first: Effect, stored_again: Result<Doc, String>,
    next: CreateState, eff: Effect)
    requires
        create_next(event, CreateState::AwaitRunlogSaved { title, saved, response }, Outcome::Stored(stored), mid,
            first),
        create_next(event, mid, Outcome::Stored(stored_again), next, eff),
    ensures
        eff is PublishToRole <==> creation_ready(response@),
        first->PutDoc_0@.status == creation_status(creation_ready(response@)),
{
}

/// A dialogue step keeps the dialogue within its configured rounds.
pub proof fn lemma_dialogue_within_rounds(config: Config, prompts: PoPrompts, phase: DialoguePhase,
    outcome: Outcome, res: DialogueStep)
    requires
        phase_ok(config, phase),
        dialogue_next(config, prompts, phase, outcome, res),
    ensures
        res matches DialogueStep::Continue(p, _) ==> phase_ok(config, p),
{
}

/// A free-form run is done once: the handler first checks the event id, and a
/// redelivered event stops at once.
pub proof fn lemma_po_run_redelivery_skipped(config: Config, prompts: PoPrompts, event: EventEnvelope,
    first: PoRunState, first_eff: Effect, next: PoRunState, eff: Effect)
    requires
        po_run_next(config, prompts, event, PoRunState::Start, Outcome::Started, first, first_eff),
        po_run_next(config, prompts, event, PoRunState::AwaitDedupe, Outcome::Deduped(false), next, eff),
    ensures
        first is AwaitDedupe,
        dedupe_asked(config, event, first_eff),
        next is Finished,
        eff is Done,
{
}

/// A refinement is done once: the handler first checks the event id, and a
/// redelivered event stops at once.
pub proof fn lemma_refine_redelivery_skipped(config: Config, prompts: PoPrompts, event: EventEnvelope,
    first: RefineState, first_eff: Effect, next: RefineState, eff: Effect)
    requires
        refine_next(config, prompts, event, RefineState::Start, Outcome::Started, first, first_eff),
        refine_next(config, prompts, event, RefineState::AwaitDedupe, Outcome::Deduped(false), next, eff),
    ensures
        first is AwaitDedupe,
        dedupe_asked(config, event, first_eff),
        next is Finished,
        eff is Done,
{
}

/// Replies to the sender go to its inbox under the configured base topic.
pub proof fn lemma_reply_topic(config: Config, event: EventEnvelope, event_type: Seq<char>, refs: Json,
    result: Result<String, String>, eff: Effect)
    requires
        dialogue_reply(config, event, event_type, refs, result, eff),
    ensures
        eff is Publish,
        eff->Publish_0@ == config.mqtt.base_topic@ + "/role/"@ + event.from@ + "/inbox"@,
{
}

} // verus!
