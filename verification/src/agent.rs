//! What the agents ask of their services and what the services answer: the
//! agents' handlers are state machines from (state, answer) to (state, request),
//! and the runtime performs each request and hands back the answer.
use vstd::prelude::*;
use crate::json::{Json, JsonValue, entry_views, lemma_entry_views_len};
use crate::runner::RunnerError;
use crate::text::{decimal, starts_with_seq};
use crate::json::{json_get, json_str, json_string_list};
use crate::text::push_str;
use crate::config::Config;
use crate::types::{AuditEntry, DedupRequest, DedupScope, DiffStat, Doc, DocType, EventEnvelope, ExecJob, ExecResult, Role, new_id};

verus! {

/// A request an agent makes of its services.
pub enum Effect {
    /// Check-and-mark an idempotency key; answered by `Deduped`.
    CheckDedupe(DedupRequest),
    /// Fetch a document; answered by `Fetched`.
    GetDoc(String),
    /// Store a document, with an optional idempotency key; answered by `Stored`.
    PutDoc(Doc, Option<String>),
    /// Ask the language model; answered by `Generated`.
    Generate(String),
    /// Run a command; answered by `Executed`.
    Execute(ExecJob),
    /// Measure the working-tree change in a directory; answered by `Diffed`.
    DiffStat(String),
    /// Append an entry to an audit stream; answered by `Acked`.
    AppendAudit(String, AuditEntry),
    /// Publish an event to a role's inbox; answered by `Acked`.
    PublishToRole(String, EventEnvelope),
    /// Publish an event to a topic; answered by `Acked`.
    Publish(String, EventEnvelope),
    /// The handler has finished.
    Done,
}

/// What a service answered (errors as their message text).
pub enum Outcome {
    /// The handler starts.
    Started,
    /// Whether the idempotency key was new (a failed check counts as not new).
    Deduped(bool),
    Fetched(Result<Doc, String>),
    Stored(Result<Doc, String>),
    Generated(Result<String, String>),
    Executed(Result<ExecResult, RunnerError>),
    Diffed(Result<DiffStat, RunnerError>),
    Acked,
}

/// An error message of the executor, as text: exact for execution errors and
/// timeouts; an I/O error's own text is not known, only its prefix.
pub open spec fn runner_error_text(e: RunnerError, m: Seq<char>) -> bool {
    match e {
        RunnerError::Execution(s) => m == "execution error: "@ + s@,
        RunnerError::Timeout(n) => m == "timeout after "@ + decimal(n as nat) + " seconds"@,
        RunnerError::Io(_) => starts_with_seq(m, "io error: "@),
    }
}

/// An event made by an agent: a fresh 36-character id, a timestamp, and the
/// given trace, type, sender, receiver, references and payload.
pub open spec fn envelope_is(
    e: EventEnvelope,
    trace: Seq<char>,
    event_type: Seq<char>,
    from: Seq<char>,
    to: Seq<char>,
    refs: Json,
    payload: Json,
) -> bool {
    &&& e.event_id@.len() == 36
    &&& e.ts@.len() > 0
    &&& e.trace_id@ == trace
    &&& e.event_type@ == event_type
    &&& e.from@ == from
    &&& e.to@ == to
    &&& e.refs@ == refs
    &&& e.payload@ == payload
}

/// A one-member JSON object.
pub open spec fn obj1(k: Seq<char>, v: Json) -> Json {
    Json::Object(seq![(k, v)])
}

/// A JSON string.
pub open spec fn jstr(s: Seq<char>) -> Json {
    Json::Str(s)
}

/// A JSON object built from its entries, in order.
pub fn object(entries: Vec<(String, JsonValue)>) -> (res: JsonValue)
    ensures
        res@ == Json::Object(entry_views(entries@, entries@.len())),
{
    JsonValue::Object(entries)
}

/// Appends an entry to the entries of a JSON object under construction.
pub fn add_entry(entries: &mut Vec<(String, JsonValue)>, key: &str, value: JsonValue)
    ensures
        entry_views(final(entries)@, final(entries)@.len()) == entry_views(old(entries)@, old(entries)@.len()).push((key@, value@)),
{
    let ghost before = entries@;
    let ghost vv = value@;
    entries.push((String::from_str(key), value));
    proof {
        lemma_entry_views_len(before, before.len());
        lemma_entry_views_len(entries@, entries@.len());
        assert(entry_views(entries@, entries@.len()) =~= entry_views(before, before.len()).push((key@, vv)));
    }
}

/// The one-member JSON object `{key: value}`.
pub fn single(key: &str, value: JsonValue) -> (res: JsonValue)
    ensures
        res@ == obj1(key@, value@),
{
    let mut entries: Vec<(String, JsonValue)> = Vec::new();
    proof { lemma_entry_views_len(entries@, 0); }
    add_entry(&mut entries, key, value);
    assert(entry_views(entries@, entries@.len()) =~= seq![(key@, value@)]);
    JsonValue::Object(entries)
}

/// A JSON object of four string members.
pub open spec fn text_object4(k1: Seq<char>, v1: Seq<char>, k2: Seq<char>, v2: Seq<char>,
    k3: Seq<char>, v3: Seq<char>, k4: Seq<char>, v4: Seq<char>) -> Json
{
    Json::Object(seq![(k1, jstr(v1)), (k2, jstr(v2)), (k3, jstr(v3)), (k4, jstr(v4))])
}

/// The JSON object of four string members.
pub fn text_fields4(k1: &str, v1: &str, k2: &str, v2: &str, k3: &str, v3: &str, k4: &str, v4: &str) -> (res: JsonValue)
    ensures
        res@ == text_object4(k1@, v1@, k2@, v2@, k3@, v3@, k4@, v4@),
{
    let mut entries: Vec<(String, JsonValue)> = Vec::new();
    proof { lemma_entry_views_len(entries@, 0); }
    add_entry(&mut entries, k1, JsonValue::string(v1));
    add_entry(&mut entries, k2, JsonValue::string(v2));
    add_entry(&mut entries, k3, JsonValue::string(v3));
    add_entry(&mut entries, k4, JsonValue::string(v4));
    assert(entry_views(entries@, entries@.len()) =~= seq![(k1@, jstr(v1@)), (k2@, jstr(v2@)), (k3@, jstr(v3@)), (k4@, jstr(v4@))]);
    JsonValue::Object(entries)
}

/// An event whose references hold one string and whose payload is a summary.
pub fn summary_event(trace: &str, event_type: &str, from: &str, to: &str, ref_key: &str, ref_value: &str,
    summary: &str) -> (res: EventEnvelope)
    ensures
        envelope_is(res, trace@, event_type@, from@, to@, obj1(ref_key@, jstr(ref_value@)), obj1("summary"@, jstr(summary@))),
{
    let refs = single(ref_key, JsonValue::string(ref_value));
    let payload = single("summary", JsonValue::string(summary));
    let eid = crate::types::new_id();
    EventEnvelope::new(eid.as_str(), trace, event_type, from, to, refs, payload)
}

// ---------------------------------------------------------------- idempotency

/// The dedupe check a handler makes first: the event's id as a global key with
/// the configured time to live.
pub open spec fn dedupe_asked(config: Config, event: EventEnvelope, eff: Effect) -> bool {
    &&& eff matches Effect::CheckDedupe(req)
    &&& req.key@ == event.event_id@
    &&& req.ttl_seconds == config.redis.dedupe_ttl_seconds
    &&& req.scope == DedupScope::Global
    &&& req.role is None
}

/// The dedupe check for an event.
pub fn dedupe_effect(config: &Config, event: &EventEnvelope) -> (res: Effect)
    ensures
        dedupe_asked(*config, *event, res),
{
    Effect::CheckDedupe(DedupRequest {
        key: event.event_id.clone(),
        ttl_seconds: config.redis.dedupe_ttl_seconds,
        scope: DedupScope::Global,
        role: None,
    })
}

// ---------------------------------------------------------------- shared pieces of the handlers

/// The definition-of-done gates of a story: the string members of
/// `fields.definition_of_done`, or `cargo test` when it is not an array.
pub open spec fn dod_gates_of(fields: Json) -> Seq<Seq<char>> {
    match json_string_list(json_get(fields, "definition_of_done"@)) {
        Some(l) => l,
        None => seq!["cargo test"@],
    }
}

/// The definition-of-done gates of a story.
pub fn dod_gates(fields: &JsonValue) -> (res: Vec<String>)
    ensures
        res.deep_view() == dod_gates_of(fields@),
{
    match fields.get_string_list("definition_of_done") {
        Some(l) => l,
        None => {
            let mut v: Vec<String> = Vec::new();
            v.push(String::from_str("cargo test"));
            assert(v.deep_view() =~= seq!["cargo test"@]);
            v
        },
    }
}

/// The string member `key` of a JSON object (an event's references or
/// payload), or empty.
pub open spec fn ref_or_empty(refs: Json, key: Seq<char>) -> Seq<char> {
    match json_str(json_get(refs, key)) {
        Some(s) => s,
        None => Seq::empty(),
    }
}

/// The string member `key` of an event's references, or empty.
pub fn ref_string(refs: &JsonValue, key: &str) -> (res: String)
    ensures
        res@ == ref_or_empty(refs@, key@),
{
    match refs.get_str(key) {
        Some(s) => s,
        None => String::new(),
    }
}

/// The run log of a model exchange: `PROMPT:` and `LLM RESPONSE:` sections.
pub open spec fn exchange_body(prompt: Seq<char>, response: Seq<char>) -> Seq<char> {
    "PROMPT:\n"@ + prompt + "\n\nLLM RESPONSE:\n"@ + response
}

/// The run-log text of a model exchange.
pub fn exchange_text(prompt: &str, response: &str) -> (res: String)
    ensures
        res@ == exchange_body(prompt@, response@),
{
    let mut s = String::from_str("PROMPT:\n");
    push_str(&mut s, prompt);
    push_str(&mut s, "\n\nLLM RESPONSE:\n");
    push_str(&mut s, response);
    s
}

/// `prefix` followed by `subject`.
pub fn text2(prefix: &str, subject: &str) -> (res: String)
    ensures
        res@ == prefix@ + subject@,
{
    let mut s = String::from_str(prefix);
    push_str(&mut s, subject);
    s
}

/// `a`, then `b`, then `c`, then `d`.
pub fn text4(a: &str, b: &str, c: &str, d: &str) -> (res: String)
    ensures
        res@ == a@ + b@ + c@ + d@,
{
    let mut s = String::from_str(a);
    push_str(&mut s, b);
    push_str(&mut s, c);
    push_str(&mut s, d);
    s
}

/// A new run-log document of `role` carrying the event's trace.
pub open spec fn runlog_is(d: Doc, title: Seq<char>, body: Seq<char>, status: Seq<char>, role: Role,
    trace: Seq<char>, fields: Json) -> bool
{
    &&& d@.id.len() == 36
    &&& d@.doc_type == DocType::Runlog
    &&& d@.title == title
    &&& d@.body == body
    &&& d@.status == status
    &&& d@.owner_role == role
    &&& d@.trace_id == Some(trace)
    &&& d@.version == 1
    &&& d@.tags.len() == 0
    &&& d@.links.len() == 0
    &&& d@.fields == fields
}

/// A new run log.
pub fn new_runlog(title: &str, body: &str, status: &str, role: Role, trace: &str, fields: JsonValue) -> (res: Doc)
    ensures
        runlog_is(res, title@, body@, status@, role, trace@, fields@),
{
    let id = new_id();
    let mut d = Doc::new(id.as_str(), DocType::Runlog, title, body, status, role);
    d.trace_id = Some(String::from_str(trace));
    d.fields = fields;
    d
}

/// A copy of a document with the same contents.
pub fn copy_doc(d: &Doc) -> (res: Doc)
    ensures
        res@ == d@,
{
    Doc {
        id: d.id.clone(),
        doc_type: d.doc_type,
        title: d.title.clone(),
        body: d.body.clone(),
        status: d.status.clone(),
        owner_role: d.owner_role,
        tags: copy_strings(&d.tags),
        links: copy_strings(&d.links),
        created_at: d.created_at.clone(),
        updated_at: d.updated_at.clone(),
        trace_id: match &d.trace_id { Some(t) => Some(t.clone()), None => None },
        version: d.version,
        fields: d.fields.copy(),
    }
}

/// A copy of a list of strings.
pub fn copy_strings(v: &Vec<String>) -> (res: Vec<String>)
    ensures
        res.deep_view() == v.deep_view(),
{
    let mut out: Vec<String> = Vec::new();
    let mut i: usize = 0;
    while i < v.len()
        invariant
            i <= v@.len(),
            out.deep_view() == v.deep_view().take(i as int),
            out@.len() == i,
        decreases v.len() - i,
    {
        let ghost before = out@;
        let c = v[i].clone();
        out.push(c);
        assert(out@ == before.push(c));
        assert(c == v@[i as int]);
        assert(out@.len() == i + 1);
        assert(out.deep_view()[i as int] == c@);
        assert(out.deep_view()[i as int] == v.deep_view()[i as int]);
        assert(out.deep_view() =~= v.deep_view().take(i + 1));
        i += 1;
    }
    assert(v.deep_view().take(i as int) =~= v.deep_view());
    out
}

} // verus!
