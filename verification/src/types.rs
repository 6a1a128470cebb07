//! The shared data model: documents, events, audit entries, policies, executor
//! jobs and the small records exchanged between agents and their services.
use vstd::prelude::*;
use vstd::utf8::is_ascii_chars;
use std::collections::HashMap;
use crate::json::{Json, JsonValue};
use crate::text::{push_str, to_lowercase, lowercase, ascii_lower};

verus! {

// ---------------------------------------------------------------- clock and ids

/// `chrono::Utc::now().to_rfc3339()`: the current time as an RFC 3339 string.
/// The time itself is not stated; only that the text is never empty (it always
/// holds at least the date).
#[verifier::external_body]
pub(crate) fn now_rfc3339() -> (res: String)
    ensures
        res@.len() > 0,
{
    chrono::Utc::now().to_rfc3339()
}

/// `uuid::Uuid::new_v4().to_string()`: a fresh random identifier in the
/// hyphenated form, which is 36 ASCII characters. Which identifier comes out is
/// not stated.
#[verifier::external_body]
pub(crate) fn new_id() -> (res: String)
    ensures
        res@.len() == 36,
        is_ascii_chars(res@),
{
    uuid::Uuid::new_v4().to_string()
}

/// The view of an optional string.
pub open spec fn opt_view(o: Option<String>) -> Option<Seq<char>> {
    match o {
        Some(s) => Some(s@),
        None => None,
    }
}

// ---------------------------------------------------------------- DocType

/// The kind of a shared document.
#[derive(Clone, Copy, Debug, PartialEq, Eq, Structural)]
pub enum DocType {
    Story,
    Task,
    Bug,
    Testplan,
    Policy,
    Artifact,
    Runlog,
}

/// The lower-case name of a document type.
pub open spec fn doc_type_name(t: DocType) -> Seq<char> {
    match t {
        DocType::Story => "story"@,
        DocType::Task => "task"@,
        DocType::Bug => "bug"@,
        DocType::Testplan => "testplan"@,
        DocType::Policy => "policy"@,
        DocType::Artifact => "artifact"@,
        DocType::Runlog => "runlog"@,
    }
}

/// The document type named exactly `name`, if any.
pub open spec fn doc_type_named(name: Seq<char>) -> Option<DocType> {
    if name == "story"@ { Some(DocType::Story) }
    else if name == "task"@ { Some(DocType::Task) }
    else if name == "bug"@ { Some(DocType::Bug) }
    else if name == "testplan"@ { Some(DocType::Testplan) }
    else if name == "policy"@ { Some(DocType::Policy) }
    else if name == "artifact"@ { Some(DocType::Artifact) }
    else if name == "runlog"@ { Some(DocType::Runlog) }
    else { None }
}

fn eq_str(s: &String, lit: &str) -> (res: bool)
    ensures
        res == (s@ == lit@),
{
    *s == String::from_str(lit)
}

impl DocType {
    /// The lower-case name of this type.
    pub fn as_str(&self) -> (res: &'static str)
        ensures
            res@ == doc_type_name(*self),
    {
        match self {
            DocType::Story => "story",
            DocType::Task => "task",
            DocType::Bug => "bug",
            DocType::Testplan => "testplan",
            DocType::Policy => "policy",
            DocType::Artifact => "artifact",
            DocType::Runlog => "runlog",
        }
    }

    /// The lower-case name of this type, as a new string.
    pub fn to_string(&self) -> (res: String)
        ensures
            res@ == doc_type_name(*self),
    {
        String::from_str(self.as_str())
    }

    /// Parses a type name, ignoring letter case; an unknown name is answered
    /// with `unknown doc type: ` followed by the input.
    pub fn parse(s: &str) -> (res: Result<DocType, String>)
        ensures
            match doc_type_named(lowercase(s@)) {
                Some(t) => res == Ok::<DocType, String>(t),
                None => res is Err && res->Err_0@ == "unknown doc type: "@ + s@,
            },
    {
        let lower = to_lowercase(s);
        if eq_str(&lower, "story") { Ok(DocType::Story) }
        else if eq_str(&lower, "task") { Ok(DocType::Task) }
        else if eq_str(&lower, "bug") { Ok(DocType::Bug) }
        else if eq_str(&lower, "testplan") { Ok(DocType::Testplan) }
        else if eq_str(&lower, "policy") { Ok(DocType::Policy) }
        else if eq_str(&lower, "artifact") { Ok(DocType::Artifact) }
        else if eq_str(&lower, "runlog") { Ok(DocType::Runlog) }
        else {
            let mut msg = String::from_str("unknown doc type: ");
            push_str(&mut msg, s);
            Err(msg)
        }
    }
}

impl std::str::FromStr for DocType {
    type Err = String;

    /// Parses a type name as `DocType::parse` does.
    fn from_str(s: &str) -> (res: Result<DocType, String>)
        ensures
            match doc_type_named(lowercase(s@)) {
                Some(t) => res == Ok::<DocType, String>(t),
                None => res is Err && res->Err_0@ == "unknown doc type: "@ + s@,
            },
    {
        DocType::parse(s)
    }
}

// ---------------------------------------------------------------- Role

/// The role of an agent.
#[derive(Clone, Copy, Debug, PartialEq, Eq, Structural)]
pub enum Role {
    Po,
    Dev,
    Qa,
    System,
}

/// The lower-case name of a role.
pub open spec fn role_name(r: Role) -> Seq<char> {
    match r {
        Role::Po => "po"@,
        Role::Dev => "dev"@,
        Role::Qa => "qa"@,
        Role::System => "system"@,
    }
}

/// The role named exactly `name`, if any.
pub open spec fn role_named(name: Seq<char>) -> Option<Role> {
    if name == "po"@ { Some(Role::Po) }
    else if name == "dev"@ { Some(Role::Dev) }
    else if name == "qa"@ { Some(Role::Qa) }
    else if name == "system"@ { Some(Role::System) }
    else { None }
}

impl Role {
    /// The lower-case name of this role.
    pub fn as_str(&self) -> (res: &'static str)
        ensures
            res@ == role_name(*self),
    {
        match self {
            Role::Po => "po",
            Role::Dev => "dev",
            Role::Qa => "qa",
            Role::System => "system",
        }
    }

    /// The lower-case name of this role, as a new string.
    pub fn to_string(&self) -> (res: String)
        ensures
            res@ == role_name(*self),
    {
        String::from_str(self.as_str())
    }

    /// Parses a role name, ignoring letter case; an unknown name is answered
    /// with `unknown role: ` followed by the input.
    pub fn parse(s: &str) -> (res: Result<Role, String>)
        ensures
            match role_named(lowercase(s@)) {
                Some(r) => res == Ok::<Role, String>(r),
                None => res is Err && res->Err_0@ == "unknown role: "@ + s@,
            },
    {
        let lower = to_lowercase(s);
        if eq_str(&lower, "po") { Ok(Role::Po) }
        else if eq_str(&lower, "dev") { Ok(Role::Dev) }
        else if eq_str(&lower, "qa") { Ok(Role::Qa) }
        else if eq_str(&lower, "system") { Ok(Role::System) }
        else {
            let mut msg = String::from_str("unknown role: ");
            push_str(&mut msg, s);
            Err(msg)
        }
    }
}

impl std::str::FromStr for Role {
    type Err = String;

    /// Parses a role name as `Role::parse` does.
    fn from_str(s: &str) -> (res: Result<Role, String>)
        ensures
            match role_named(lowercase(s@)) {
                Some(r) => res == Ok::<Role, String>(r),
                None => res is Err && res->Err_0@ == "unknown role: "@ + s@,
            },
    {
        Role::parse(s)
    }
}

/// Names round-trip: parsing the name of a document type gives that type back.
pub proof fn lemma_doc_type_name_round_trip(t: DocType)
    ensures
        doc_type_named(lowercase(doc_type_name(t))) == Some(t),
{
    reveal_strlit("story");
    reveal_strlit("task");
    reveal_strlit("bug");
    reveal_strlit("testplan");
    reveal_strlit("policy");
    reveal_strlit("artifact");
    reveal_strlit("runlog");
    match t {
        DocType::Story => {
            lemma_lowercase_of_lower_ascii("story"@);
            assert(doc_type_named("story"@) == Some(DocType::Story));
        },
        DocType::Task => {
            lemma_lowercase_of_lower_ascii("task"@);
            assert(doc_type_named("task"@) == Some(DocType::Task));
        },
        DocType::Bug => {
            lemma_lowercase_of_lower_ascii("bug"@);
            assert(doc_type_named("bug"@) == Some(DocType::Bug));
        },
        DocType::Testplan => {
            lemma_lowercase_of_lower_ascii("testplan"@);
            assert(doc_type_named("testplan"@) == Some(DocType::Testplan));
        },
        DocType::Policy => {
            lemma_lowercase_of_lower_ascii("policy"@);
            assert(doc_type_named("policy"@) == Some(DocType::Policy));
        },
        DocType::Artifact => {
            lemma_lowercase_of_lower_ascii("artifact"@);
            assert("artifact"@ != "testplan"@) by { assert("artifact"@[0] != "testplan"@[0]); }
            assert(doc_type_named("artifact"@) == Some(DocType::Artifact));
        },
        DocType::Runlog => {
            lemma_lowercase_of_lower_ascii("runlog"@);
            assert("runlog"@ != "policy"@) by { assert("runlog"@[0] != "policy"@[0]); }
            assert(doc_type_named("runlog"@) == Some(DocType::Runlog));
        },
    }
}

/// Names round-trip: parsing the name of a role gives that role back.
pub proof fn lemma_role_name_round_trip(r: Role)
    ensures
        role_named(lowercase(role_name(r))) == Some(r),
{
    reveal_strlit("po");
    reveal_strlit("dev");
    reveal_strlit("qa");
    reveal_strlit("system");
    match r {
        Role::Po => {
            lemma_lowercase_of_lower_ascii("po"@);
            assert(role_named("po"@) == Some(Role::Po));
        },
        Role::Dev => {
            lemma_lowercase_of_lower_ascii("dev"@);
            assert(role_named("dev"@) == Some(Role::Dev));
        },
        Role::Qa => {
            lemma_lowercase_of_lower_ascii("qa"@);
            assert("qa"@ != "po"@) by { assert("qa"@[0] != "po"@[0]); }
            assert(role_named("qa"@) == Some(Role::Qa));
        },
        Role::System => {
            lemma_lowercase_of_lower_ascii("system"@);
            assert(role_named("system"@) == Some(Role::System));
        },
    }
}

/// Lower-casing text made only of lower-case ASCII letters leaves it unchanged.
proof fn lemma_lowercase_of_lower_ascii(s: Seq<char>)
    requires
        forall|i: int| 0 <= i < s.len() ==> 'a' <= #[trigger] s[i] <= 'z',
    ensures
        lowercase(s) == s,
{
    assert(is_ascii_chars(s));
    assert(ascii_lower(s) =~= s);
}

/// Lower-casing ASCII text gives ASCII text, and lower-casing it again changes
/// nothing.
proof fn lemma_lowercase_idempotent_ascii(s: Seq<char>)
    requires
        is_ascii_chars(s),
    ensures
        is_ascii_chars(lowercase(s)),
        lowercase(lowercase(s)) == lowercase(s),
{
    let l = ascii_lower(s);
    assert forall|i: int| 0 <= i < l.len() implies (#[trigger] l[i] as nat) < 128 && !('A' <= l[i] && l[i] <= 'Z') by {
        let c = s[i];
        assert((c as nat) < 128);
        if 'A' <= c && c <= 'Z' {
            let v: u32 = ((c as u32) + 32) as u32;
            assert(97 <= v <= 122);
            assert(((v as u8) as char) as u32 == v);
        }
    }
    assert(ascii_lower(l) =~= l);
}

/// Parsing a type name ignores letter case: an ASCII text parses as its
/// lower-case form does.
pub proof fn lemma_doc_type_parse_ignores_case(s: Seq<char>)
    requires
        is_ascii_chars(s),
    ensures
        doc_type_named(lowercase(lowercase(s))) == doc_type_named(lowercase(s)),
{
    lemma_lowercase_idempotent_ascii(s);
}

/// Parsing a role name ignores letter case: an ASCII text parses as its
/// lower-case form does.
pub proof fn lemma_role_parse_ignores_case(s: Seq<char>)
    requires
        is_ascii_chars(s),
    ensures
        role_named(lowercase(lowercase(s))) == role_named(lowercase(s)),
{
    lemma_lowercase_idempotent_ascii(s);
}

/// For every text, ASCII or not: where a text parses to a document type, its
/// lower-case form parses to that same type.
pub proof fn lemma_doc_type_parse_of_lowercase(s: Seq<char>)
    ensures
        doc_type_named(lowercase(s)) is Some
            ==> doc_type_named(lowercase(lowercase(s))) == doc_type_named(lowercase(s)),
{
    match doc_type_named(lowercase(s)) {
        Some(t) => lemma_doc_type_name_round_trip(t),
        None => {},
    }
}

/// For every text, ASCII or not: where a text parses to a role, its lower-case
/// form parses to that same role.
pub proof fn lemma_role_parse_of_lowercase(s: Seq<char>)
    ensures
        role_named(lowercase(s)) is Some ==> role_named(lowercase(lowercase(s))) == role_named(lowercase(s)),
{
    match role_named(lowercase(s)) {
        Some(r) => lemma_role_name_round_trip(r),
        None => {},
    }
}

// ---------------------------------------------------------------- events and documents

/// A message on the event bus.
pub struct EventEnvelope {
    pub event_id: String,
    pub trace_id: String,
    pub event_type: String,
    pub from: String,
    pub to: String,
    pub refs: JsonValue,
    pub payload: JsonValue,
    pub ts: String,
}

/// The mathematical form of an event.
pub struct EnvelopeView {
    pub event_id: Seq<char>,
    pub trace_id: Seq<char>,
    pub event_type: Seq<char>,
    pub from: Seq<char>,
    pub to: Seq<char>,
    pub refs: Json,
    pub payload: Json,
    pub ts: Seq<char>,
}

impl View for EventEnvelope {
    type V = EnvelopeView;

    open spec fn view(&self) -> EnvelopeView {
        EnvelopeView {
            event_id: self.event_id@,
            trace_id: self.trace_id@,
            event_type: self.event_type@,
            from: self.from@,
            to: self.to@,
            refs: self.refs@,
            payload: self.payload@,
            ts: self.ts@,
        }
    }
}

impl EventEnvelope {
    /// A new event stamped with the current time.
    pub fn new(
        event_id: &str,
        trace_id: &str,
        event_type: &str,
        from: &str,
        to: &str,
        refs: JsonValue,
        payload: JsonValue,
    ) -> (res: EventEnvelope)
        ensures
            res.event_id@ == event_id@,
            res.trace_id@ == trace_id@,
            res.event_type@ == event_type@,
            res.from@ == from@,
            res.to@ == to@,
            res.refs == refs,
            res.payload == payload,
            res.ts@.len() > 0,
    {
        EventEnvelope {
            event_id: String::from_str(event_id),
            trace_id: String::from_str(trace_id),
            event_type: String::from_str(event_type),
            from: String::from_str(from),
            to: String::from_str(to),
            refs,
            payload,
            ts: now_rfc3339(),
        }
    }
}

/// A document of the shared store.
pub struct Doc {
    pub id: String,
    pub doc_type: DocType,
    pub title: String,
    pub body: String,
    pub status: String,
    pub owner_role: Role,
    pub tags: Vec<String>,
    pub links: Vec<String>,
    pub created_at: String,
    pub updated_at: String,
    pub trace_id: Option<String>,
    pub version: u64,
    pub fields: JsonValue,
}

/// The mathematical form of a document.
pub struct DocView {
    pub id: Seq<char>,
    pub doc_type: DocType,
    pub title: Seq<char>,
    pub body: Seq<char>,
    pub status: Seq<char>,
    pub owner_role: Role,
    pub tags: Seq<Seq<char>>,
    pub links: Seq<Seq<char>>,
    pub created_at: Seq<char>,
    pub updated_at: Seq<char>,
    pub trace_id: Option<Seq<char>>,
    pub version: u64,
    pub fields: Json,
}

impl View for Doc {
    type V = DocView;

    open spec fn view(&self) -> DocView {
        DocView {
            id: self.id@,
            doc_type: self.doc_type,
            title: self.title@,
            body: self.body@,
            status: self.status@,
            owner_role: self.owner_role,
            tags: self.tags.deep_view(),
            links: self.links.deep_view(),
            created_at: self.created_at@,
            updated_at: self.updated_at@,
            trace_id: opt_view(self.trace_id),
            version: self.version,
            fields: self.fields@,
        }
    }
}

impl Doc {
    /// A new document at version 1, created and updated now, with no tags,
    /// links or trace and an empty `fields` object.
    pub fn new(id: &str, doc_type: DocType, title: &str, body: &str, status: &str, owner_role: Role) -> (res: Doc)
        ensures
            res@.id == id@,
            res@.doc_type == doc_type,
            res@.title == title@,
            res@.body == body@,
            res@.status == status@,
            res@.owner_role == owner_role,
            res@.tags.len() == 0,
            res@.links.len() == 0,
            res@.created_at == res@.updated_at,
            res@.created_at.len() > 0,
            res@.trace_id is None,
            res@.version == 1,
            res@.fields == Json::Object(Seq::empty()),
    {
        let now = now_rfc3339();
        let entries: Vec<(String, JsonValue)> = Vec::new();
        let fields = JsonValue::Object(entries);
        proof { crate::json::lemma_entry_views_len(entries@, 0); }
        Doc {
            id: String::from_str(id),
            doc_type,
            title: String::from_str(title),
            body: String::from_str(body),
            status: String::from_str(status),
            owner_role,
            tags: Vec::new(),
            links: Vec::new(),
            created_at: now.clone(),
            updated_at: now,
            trace_id: None,
            version: 1,
            fields,
        }
    }
}

// ---------------------------------------------------------------- audit

/// Document references of an audit entry or approval request.
pub struct AuditRefs {
    pub doc_ids: Vec<String>,
}

impl Default for AuditRefs {
    fn default() -> (res: AuditRefs)
        ensures
            res.doc_ids@.len() == 0,
    {
        AuditRefs { doc_ids: Vec::new() }
    }
}

/// One entry of the audit stream.
pub struct AuditEntry {
    pub ts: String,
    pub trace_id: String,
    pub event_id: String,
    pub actor_role: Role,
    pub action: String,
    pub refs: AuditRefs,
    pub summary: String,
    pub details: JsonValue,
}

impl AuditEntry {
    /// A new audit entry stamped with the current time, with no document
    /// references and empty details.
    pub fn new(trace_id: &str, event_id: &str, actor_role: Role, action: &str, summary: &str) -> (res: AuditEntry)
        ensures
            res.trace_id@ == trace_id@,
            res.event_id@ == event_id@,
            res.actor_role == actor_role,
            res.action@ == action@,
            res.summary@ == summary@,
            res.refs.doc_ids@.len() == 0,
            res.details@ == Json::Object(Seq::empty()),
            res.ts@.len() > 0,
    {
        let entries: Vec<(String, JsonValue)> = Vec::new();
        proof { crate::json::lemma_entry_views_len(entries@, 0); }
        AuditEntry {
            ts: now_rfc3339(),
            trace_id: String::from_str(trace_id),
            event_id: String::from_str(event_id),
            actor_role,
            action: String::from_str(action),
            refs: AuditRefs { doc_ids: Vec::new() },
            summary: String::from_str(summary),
            details: JsonValue::Object(entries),
        }
    }
}

// ---------------------------------------------------------------- policy

/// How far an agent may act without a human.
#[derive(Clone, Copy, Debug, PartialEq, Eq, Structural)]
pub enum AutonomyLevel {
    L0,
    L1,
    L2,
    L3,
    L4,
}

impl Default for AutonomyLevel {
    fn default() -> (res: AutonomyLevel)
        ensures
            res == AutonomyLevel::L1,
    {
        AutonomyLevel::L1
    }
}

/// Limits on the size of a change that needs no approval.
pub struct ChangeBudget {
    pub max_files: u32,
    pub max_insertions: u32,
    pub max_deletions: u32,
    pub protected_paths: Vec<String>,
}

impl Default for ChangeBudget {
    /// At most 20 files, 500 insertions and 500 deletions; `infra/` is protected.
    fn default() -> (res: ChangeBudget)
        ensures
            res.max_files == 20,
            res.max_insertions == 500,
            res.max_deletions == 500,
            res.protected_paths.deep_view() == seq!["infra/"@],
    {
        let mut protected_paths = Vec::new();
        protected_paths.push(String::from_str("infra/"));
        proof { assert(protected_paths.deep_view() =~= seq!["infra/"@]); }
        ChangeBudget { max_files: 20, max_insertions: 500, max_deletions: 500, protected_paths }
    }
}

/// An autonomy policy.
pub struct Policy {
    pub policy_id: String,
    pub autonomy_level: AutonomyLevel,
    pub change_budget: ChangeBudget,
    pub required_gates: Vec<String>,
}

impl Default for Policy {
    /// The `default` policy: level L1, the default budget, and the gates
    /// `cargo test` and `cargo fmt --check`.
    fn default() -> (res: Policy)
        ensures
            res.policy_id@ == "default"@,
            res.autonomy_level == AutonomyLevel::L1,
            res.change_budget.max_files == 20,
            res.change_budget.max_insertions == 500,
            res.change_budget.max_deletions == 500,
            res.change_budget.protected_paths.deep_view() == seq!["infra/"@],
            res.required_gates.deep_view() == seq!["cargo test"@, "cargo fmt --check"@],
    {
        let mut required_gates = Vec::new();
        required_gates.push(String::from_str("cargo test"));
        required_gates.push(String::from_str("cargo fmt --check"));
        proof { assert(required_gates.deep_view() =~= seq!["cargo test"@, "cargo fmt --check"@]); }
        Policy {
            policy_id: String::from_str("default"),
            autonomy_level: AutonomyLevel::L1,
            change_budget: ChangeBudget::default(),
            required_gates,
        }
    }
}

// ---------------------------------------------------------------- queries and patches

/// Criteria for listing documents.
pub struct DocFilter {
    pub doc_type: Vec<DocType>,
    pub status: Vec<String>,
    pub tags_any: Vec<String>,
    pub linked_to: Vec<String>,
    pub owner_role: Vec<Role>,
}

impl Default for DocFilter {
    fn default() -> (res: DocFilter)
        ensures
            res.doc_type@.len() == 0,
            res.status@.len() == 0,
            res.tags_any@.len() == 0,
            res.linked_to@.len() == 0,
            res.owner_role@.len() == 0,
    {
        DocFilter {
            doc_type: Vec::new(),
            status: Vec::new(),
            tags_any: Vec::new(),
            linked_to: Vec::new(),
            owner_role: Vec::new(),
        }
    }
}

/// The field documents are sorted by.
#[derive(Clone, Copy, Debug, PartialEq, Eq, Structural)]
pub enum SortField {
    UpdatedAt,
    CreatedAt,
    Priority,
}

impl Default for SortField {
    fn default() -> (res: SortField)
        ensures
            res == SortField::UpdatedAt,
    {
        SortField::UpdatedAt
    }
}

/// The direction of a sort.
#[derive(Clone, Copy, Debug, PartialEq, Eq, Structural)]
pub enum SortDir {
    Asc,
    Desc,
}

impl Default for SortDir {
    fn default() -> (res: SortDir)
        ensures
            res == SortDir::Asc,
    {
        SortDir::Asc
    }
}

/// A document listing request.
pub struct DocQuery {
    pub filter: DocFilter,
    pub search: Option<String>,
    pub sort_by: SortField,
    pub sort_dir: SortDir,
    pub limit: usize,
    pub cursor: Option<String>,
}

impl Default for DocQuery {
    /// No filter or search, newest update first, 50 per page.
    fn default() -> (res: DocQuery)
        ensures
            res.filter.doc_type@.len() == 0,
            res.filter.status@.len() == 0,
            res.filter.tags_any@.len() == 0,
            res.filter.linked_to@.len() == 0,
            res.filter.owner_role@.len() == 0,
            res.search is None,
            res.sort_by == SortField::UpdatedAt,
            res.sort_dir == SortDir::Desc,
            res.limit == 50,
            res.cursor is None,
    {
        DocQuery {
            filter: DocFilter::default(),
            search: None,
            sort_by: SortField::UpdatedAt,
            sort_dir: SortDir::Desc,
            limit: 50,
            cursor: None,
        }
    }
}

/// One operation of a document patch.
#[allow(inconsistent_fields)]
pub enum PatchOp {
    Assign { path: String, value: JsonValue },
    AddToSet { path: String, value: JsonValue },
    AppendLink { path: String, value: String },
    SetField { path: String, value: JsonValue },
}

/// A versioned update of one document.
pub struct DocPatch {
    pub doc_id: String,
    pub expected_version: u64,
    pub ops: Vec<PatchOp>,
    pub trace_id: String,
    pub idempotency_key: String,
}

// ---------------------------------------------------------------- execution

/// Output caps of an executed command, in KiB.
pub struct OutputLimits {
    pub max_stdout_kb: u64,
    pub max_stderr_kb: u64,
}

impl OutputLimits {
    /// The same cap for both streams.
    pub fn new(max_kb: u64) -> (res: OutputLimits)
        ensures
            res.max_stdout_kb == max_kb,
            res.max_stderr_kb == max_kb,
    {
        OutputLimits { max_stdout_kb: max_kb, max_stderr_kb: max_kb }
    }
}

impl Default for OutputLimits {
    fn default() -> (res: OutputLimits)
        ensures
            res.max_stdout_kb == 0,
            res.max_stderr_kb == 0,
    {
        OutputLimits { max_stdout_kb: 0, max_stderr_kb: 0 }
    }
}

/// A command to run.
pub struct ExecJob {
    pub trace_id: String,
    pub job_id: String,
    pub command: String,
    pub args: Vec<String>,
    pub workdir: String,
    pub timeout_seconds: u64,
    pub env: HashMap<String, String>,
    pub output_limits: OutputLimits,
}

impl Default for ExecJob {
    /// `opencode` in `./`, no arguments or environment, 1800 s, no output cap.
    fn default() -> (res: ExecJob)
        ensures
            res.trace_id@.len() == 0,
            res.job_id@.len() == 0,
            res.command@ == "opencode"@,
            res.args@.len() == 0,
            res.workdir@ == "./"@,
            res.timeout_seconds == 1800,
            res.env@.len() == 0,
            res.output_limits.max_stdout_kb == 0,
            res.output_limits.max_stderr_kb == 0,
    {
        ExecJob {
            trace_id: String::new(),
            job_id: String::new(),
            command: String::from_str("opencode"),
            args: Vec::new(),
            workdir: String::from_str("./"),
            timeout_seconds: 1800,
            env: HashMap::new(),
            output_limits: OutputLimits::default(),
        }
    }
}

/// A file or document produced by a run.
pub struct Artifact {
    pub kind: String,
    pub doc_id: Option<String>,
    pub content: Option<String>,
}

/// What a run produced.
pub struct ExecResult {
    pub exit_code: i32,
    pub stdout: String,
    pub stderr: String,
    pub duration_ms: u128,
    pub artifacts: Vec<Artifact>,
}

/// The size of a working-tree change.
pub struct DiffStat {
    pub files_changed: u32,
    pub insertions: u32,
    pub deletions: u32,
    pub files: Vec<String>,
}

// ---------------------------------------------------------------- dedupe and approvals

/// Whose namespace a dedupe key lives in.
#[derive(Clone, Copy, Debug, PartialEq, Eq, Structural)]
pub enum DedupScope {
    Global,
    Role,
}

impl Default for DedupScope {
    fn default() -> (res: DedupScope)
        ensures
            res == DedupScope::Global,
    {
        DedupScope::Global
    }
}

/// A check-and-mark request for an idempotency key.
pub struct DedupRequest {
    pub key: String,
    pub ttl_seconds: u64,
    pub scope: DedupScope,
    pub role: Option<Role>,
}

/// Whether a key was seen for the first time.
pub struct DedupResult {
    pub first_time: bool,
}

/// What an approval is asked for.
#[derive(Clone, Copy, Debug, PartialEq, Eq, Structural)]
pub enum ApprovalKind {
    Merge,
    Deploy,
    LargeChange,
    DependencyBump,
    ProtectedPathChange,
}

/// The action an approval would allow.
pub struct ProposedAction {
    pub kind: ApprovalKind,
    pub details: JsonValue,
}

/// A request for human approval.
pub struct ApprovalRequest {
    pub trace_id: String,
    pub event_id: String,
    pub reason: String,
    pub refs: AuditRefs,
    pub proposed_action: ProposedAction,
}

} // verus!
