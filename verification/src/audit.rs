//! The audit tool's logic: document summaries and listings, the HTML views,
//! the buffer of recent bus messages and the detection of new documents.
use vstd::prelude::*;
use std::collections::VecDeque;
use crate::text::{chars_of, contains, contains_seq, push_char, push_decimal, push_str, starts_with,
    starts_with_seq, string_of_range, decimal};
use crate::json::{json_pretty, json_set, json_text_value, parse_json_text, pretty_text, Json, JsonValue};

verus! {

// ---------------------------------------------------------------- errors

/// Why an audit query failed.
pub enum AuditError {
    Redis(String),
    NotFound(String),
    Serde(String),
}

impl AuditError {
    /// The error message.
    pub fn message(&self) -> (res: String)
        ensures
            self matches AuditError::Redis(m) ==> res@ == "Redis error: "@ + m@,
            self matches AuditError::NotFound(m) ==> res@ == "Not found: "@ + m@,
            self matches AuditError::Serde(m) ==> res@ == "Serialization error: "@ + m@,
    {
        let mut s = String::new();
        match self {
            AuditError::Redis(m) => {
                push_str(&mut s, "Redis error: ");
                push_str(&mut s, m.as_str());
            },
            AuditError::NotFound(m) => {
                push_str(&mut s, "Not found: ");
                push_str(&mut s, m.as_str());
            },
            AuditError::Serde(m) => {
                push_str(&mut s, "Serialization error: ");
                push_str(&mut s, m.as_str());
            },
        }
        s
    }
}

/// Why the bus subscription failed.
pub enum MqttError {
    Mqtt(String),
}

impl MqttError {
    /// The error message.
    pub fn message(&self) -> (res: String)
        ensures
            self matches MqttError::Mqtt(m) ==> res@ == "MQTT error: "@ + m@,
    {
        let mut s = String::new();
        match self {
            MqttError::Mqtt(m) => {
                push_str(&mut s, "MQTT error: ");
                push_str(&mut s, m.as_str());
            },
        }
        s
    }
}

// ---------------------------------------------------------------- summaries

/// The listed facts of one document.
pub struct DocSummary {
    pub id: String,
    pub doc_type: String,
    pub title: String,
    pub status: String,
    pub owner_role: String,
    pub created_at: String,
    pub updated_at: String,
}

/// The value of the last pair named `name` among the first `n` pairs, or `dflt`.
pub open spec fn last_value(fields: Seq<(String, String)>, name: Seq<char>, n: nat, dflt: Seq<char>) -> Seq<char>
    decreases n,
{
    if n == 0 || n > fields.len() {
        dflt
    } else if fields[n - 1].0@ == name {
        fields[n - 1].1@
    } else {
        last_value(fields, name, (n - 1) as nat, dflt)
    }
}

proof fn lemma_summary_fields_distinct()
    ensures
        "type"@ != "title"@, "type"@ != "status"@, "type"@ != "owner_role"@,
        "type"@ != "created_at"@, "type"@ != "updated_at"@,
        "title"@ != "status"@, "title"@ != "owner_role"@, "title"@ != "created_at"@,
        "title"@ != "updated_at"@,
        "status"@ != "owner_role"@, "status"@ != "created_at"@, "status"@ != "updated_at"@,
        "owner_role"@ != "created_at"@, "owner_role"@ != "updated_at"@,
        "created_at"@ != "updated_at"@,
{
    reveal_strlit("type");
    reveal_strlit("title");
    reveal_strlit("status");
    reveal_strlit("owner_role");
    reveal_strlit("created_at");
    reveal_strlit("updated_at");
    assert("type"@.len() == 4);
    assert("type"@[1] != "title"@[1]);
    assert("type"@[0] != "status"@[0]);
    assert("owner_role"@[0] != "created_at"@[0]);
    assert("owner_role"@[0] != "updated_at"@[0]);
    assert("created_at"@[0] != "updated_at"@[0]);
}

fn eq_lit(s: &String, lit: &str) -> (res: bool)
    ensures
        res == (s@ == lit@),
{
    *s == String::from_str(lit)
}

/// The summary of document `id` from its stored field/value pairs: each listed
/// field takes its last stored value; missing ones read `unknown`, `(no title)`
/// or empty.
pub fn doc_summary_from_fields(id: &str, fields: &Vec<(String, String)>) -> (res: DocSummary)
    ensures
        res.id@ == id@,
        res.doc_type@ == last_value(fields@, "type"@, fields@.len(), "unknown"@),
        res.title@ == last_value(fields@, "title"@, fields@.len(), "(no title)"@),
        res.status@ == last_value(fields@, "status"@, fields@.len(), "unknown"@),
        res.owner_role@ == last_value(fields@, "owner_role"@, fields@.len(), "unknown"@),
        res.created_at@ == last_value(fields@, "created_at"@, fields@.len(), ""@),
        res.updated_at@ == last_value(fields@, "updated_at"@, fields@.len(), ""@),
{
    let mut doc = DocSummary {
        id: String::from_str(id),
        doc_type: String::from_str("unknown"),
        title: String::from_str("(no title)"),
        status: String::from_str("unknown"),
        owner_role: String::from_str("unknown"),
        created_at: String::from_str(""),
        updated_at: String::from_str(""),
    };
    let mut i: usize = 0;
    while i < fields.len()
        invariant
            i <= fields@.len(),
            doc.id@ == id@,
            doc.doc_type@ == last_value(fields@, "type"@, i as nat, "unknown"@),
            doc.title@ == last_value(fields@, "title"@, i as nat, "(no title)"@),
            doc.status@ == last_value(fields@, "status"@, i as nat, "unknown"@),
            doc.owner_role@ == last_value(fields@, "owner_role"@, i as nat, "unknown"@),
            doc.created_at@ == last_value(fields@, "created_at"@, i as nat, ""@),
            doc.updated_at@ == last_value(fields@, "updated_at"@, i as nat, ""@),
        decreases fields.len() - i,
    {
        let (field, value) = &fields[i];
        proof { lemma_summary_fields_distinct(); }
        if eq_lit(field, "type") {
            doc.doc_type = value.clone();
        } else if eq_lit(field, "title") {
            doc.title = value.clone();
        } else if eq_lit(field, "status") {
            doc.status = value.clone();
        } else if eq_lit(field, "owner_role") {
            doc.owner_role = value.clone();
        } else if eq_lit(field, "created_at") {
            doc.created_at = value.clone();
        } else if eq_lit(field, "updated_at") {
            doc.updated_at = value.clone();
        }
        i += 1;
    }
    doc
}

// ---------------------------------------------------------------- listing

/// The store keys a document listing reads.
pub enum ListPlan {
    /// The members of one type index, kept when their status matches the filter.
    ByType { index_key: String, status: Option<String> },
    /// The members of the status indexes of every document type.
    ByStatus { index_keys: Vec<String> },
    /// Every document key matching `doc:*`.
    All { pattern: String },
}

/// The document type names, in the order the status indexes are read.
pub open spec fn listed_types() -> Seq<Seq<char>> {
    seq!["story"@, "bug"@, "task"@, "testplan"@, "policy"@, "artifact"@, "runlog"@]
}

/// The status index key of a type and status.
pub open spec fn status_index_key(doc_type: Seq<char>, status: Seq<char>) -> Seq<char> {
    "docs:index:status:"@ + doc_type + ":"@ + status
}

fn push_status_key(keys: &mut Vec<String>, doc_type: &str, status: &str)
    ensures
        final(keys).deep_view() == old(keys).deep_view().push(status_index_key(doc_type@, status@)),
{
    let mut k = String::from_str("docs:index:status:");
    push_str(&mut k, doc_type);
    push_str(&mut k, ":");
    push_str(&mut k, status);
    let ghost before = keys.deep_view();
    keys.push(k);
    assert(keys.deep_view() =~= before.push(status_index_key(doc_type@, status@)));
}

/// Which keys to read for a listing filtered by type and/or status: a type
/// filter reads that type's index (the status, if any, filters the members);
/// a status filter alone reads the status index of every type; no filter reads
/// every document.
pub fn plan_listing(doc_type: Option<&str>, status: Option<&str>) -> (res: ListPlan)
    ensures
        match doc_type {
            Some(dt) => res matches ListPlan::ByType { index_key, status: s }
                && index_key@ == "docs:index:type:"@ + dt@
                && crate::types::opt_view(s) == (match status { Some(st) => Some(st@), None => None::<Seq<char>> }),
            None => match status {
                Some(st) => res matches ListPlan::ByStatus { index_keys }
                    && index_keys.deep_view() == Seq::new(7, |i: int| status_index_key(listed_types()[i], st@)),
                None => res matches ListPlan::All { pattern } && pattern@ == "doc:*"@,
            },
        },
{
    match doc_type {
        Some(dt) => {
            let mut key = String::from_str("docs:index:type:");
            push_str(&mut key, dt);
            let s = match status {
                Some(st) => Some(String::from_str(st)),
                None => None,
            };
            ListPlan::ByType { index_key: key, status: s }
        },
        None => match status {
            Some(st) => {
                let mut keys: Vec<String> = Vec::new();
                push_status_key(&mut keys, "story", st);
                push_status_key(&mut keys, "bug", st);
                push_status_key(&mut keys, "task", st);
                push_status_key(&mut keys, "testplan", st);
                push_status_key(&mut keys, "policy", st);
                push_status_key(&mut keys, "artifact", st);
                push_status_key(&mut keys, "runlog", st);
                assert(keys.deep_view() =~= Seq::new(7, |i: int| status_index_key(listed_types()[i], st@)));
                ListPlan::ByStatus { index_keys: keys }
            },
            None => ListPlan::All { pattern: String::from_str("doc:*") },
        },
    }
}

/// The document id behind a store key: keys holding `:version` are skipped,
/// others must start with `doc:`, which is removed.
pub open spec fn doc_id_of_key(key: Seq<char>) -> Option<Seq<char>> {
    if contains_seq(key, ":version"@) {
        None
    } else if starts_with_seq(key, "doc:"@) {
        Some(key.subrange(4, key.len() as int))
    } else {
        None
    }
}

/// The document id behind a store key, if any.
pub fn doc_id_from_key(key: &str) -> (res: Option<String>)
    ensures
        crate::types::opt_view(res) == doc_id_of_key(key@),
{
    let cs = chars_of(key);
    let ver = chars_of(":version");
    let pre = chars_of("doc:");
    proof { reveal_strlit("doc:"); }
    if contains(&cs, &ver) {
        None
    } else if starts_with(&cs, &pre) {
        Some(string_of_range(&cs, 4, cs.len()))
    } else {
        None
    }
}

/// The ids behind the first `n` keys, in order.
pub open spec fn doc_ids_of_keys(keys: Seq<Seq<char>>, n: nat) -> Seq<Seq<char>>
    decreases n,
{
    if n == 0 || n > keys.len() {
        Seq::empty()
    } else {
        let rest = doc_ids_of_keys(keys, (n - 1) as nat);
        match doc_id_of_key(keys[n - 1]) {
            Some(id) => rest.push(id),
            None => rest,
        }
    }
}

/// The document ids behind a list of store keys, in order.
pub fn doc_ids_from_keys(keys: &Vec<String>) -> (res: Vec<String>)
    ensures
        res.deep_view() == doc_ids_of_keys(keys.deep_view(), keys@.len()),
{
    let mut ids: Vec<String> = Vec::new();
    let mut i: usize = 0;
    while i < keys.len()
        invariant
            i <= keys@.len(),
            ids.deep_view() == doc_ids_of_keys(keys.deep_view(), i as nat),
        decreases keys.len() - i,
    {
        match doc_id_from_key(keys[i].as_str()) {
            Some(id) => {
                ids.push(id);
            },
            None => {},
        }
        assert(ids.deep_view() =~= doc_ids_of_keys(keys.deep_view(), (i + 1) as nat));
        i += 1;
    }
    ids
}

/// `a` sorts strictly before `b` (code-point lexicographic order, which is the
/// byte order of their UTF-8 forms).
pub open spec fn text_lt(a: Seq<char>, b: Seq<char>) -> bool
    decreases a.len(),
{
    if b.len() == 0 {
        false
    } else if a.len() == 0 {
        true
    } else if a[0] != b[0] {
        (a[0] as u32) < (b[0] as u32)
    } else {
        text_lt(a.drop_first(), b.drop_first())
    }
}

fn text_less(a: &Vec<char>, b: &Vec<char>) -> (res: bool)
    ensures
        res == text_lt(a@, b@),
{
    let mut i: usize = 0;
    assert(a@.skip(0) =~= a@);
    assert(b@.skip(0) =~= b@);
    while i < a.len() && i < b.len()
        invariant
            i <= a@.len(),
            i <= b@.len(),
            text_lt(a@, b@) == text_lt(a@.skip(i as int), b@.skip(i as int)),
        decreases a.len() - i,
    {
        assert(a@.skip(i as int)[0] == a@[i as int]);
        assert(b@.skip(i as int)[0] == b@[i as int]);
        if a[i] != b[i] {
            return (a[i] as u32) < (b[i] as u32);
        }
        assert(a@.skip(i as int).drop_first() =~= a@.skip(i + 1));
        assert(b@.skip(i as int).drop_first() =~= b@.skip(i + 1));
        i += 1;
    }
    i < b.len()
}

/// The index of the first summary updated strictly before `x`, or the length.
pub open spec fn first_earlier(sorted: Seq<DocSummary>, x: DocSummary) -> nat
    decreases sorted.len(),
{
    if sorted.len() == 0 {
        0
    } else if text_lt(sorted[0].updated_at@, x.updated_at@) {
        0
    } else {
        1 + first_earlier(sorted.drop_first(), x)
    }
}

/// Summaries ordered by update time, latest first, by inserting each summary
/// before the first one updated strictly earlier (so summaries with equal
/// times keep their order: a stable sort).
pub open spec fn sorted_by_update_desc(s: Seq<DocSummary>) -> Seq<DocSummary>
    decreases s.len(),
{
    if s.len() == 0 {
        Seq::empty()
    } else {
        let rest = sorted_by_update_desc(s.drop_last());
        rest.insert(first_earlier(rest, s.last()) as int, s.last())
    }
}

proof fn lemma_first_earlier_bound(s: Seq<DocSummary>, x: DocSummary)
    ensures
        first_earlier(s, x) <= s.len(),
    decreases s.len(),
{
    if s.len() > 0 {
        lemma_first_earlier_bound(s.drop_first(), x);
    }
}

/// No summary in `s` was updated strictly later than one before it.
pub open spec fn newest_first(s: Seq<DocSummary>) -> bool {
    forall|i: int, j: int|
        0 <= i < j < s.len() ==> !text_lt(#[trigger] s[i].updated_at@, #[trigger] s[j].updated_at@)
}

proof fn lemma_text_lt_asymmetric(a: Seq<char>, b: Seq<char>)
    ensures
        !(text_lt(a, b) && text_lt(b, a)),
    decreases a.len(),
{
    if a.len() > 0 && b.len() > 0 && a[0] == b[0] {
        lemma_text_lt_asymmetric(a.drop_first(), b.drop_first());
    }
}

proof fn lemma_text_lt_transitive(a: Seq<char>, b: Seq<char>, c: Seq<char>)
    requires
        text_lt(a, b),
        text_lt(b, c),
    ensures
        text_lt(a, c),
    decreases a.len(),
{
    if a.len() > 0 && b.len() > 0 && c.len() > 0 && a[0] == b[0] && b[0] == c[0] {
        lemma_text_lt_transitive(a.drop_first(), b.drop_first(), c.drop_first());
    }
}

proof fn lemma_first_earlier_place(s: Seq<DocSummary>, x: DocSummary)
    ensures
        first_earlier(s, x) <= s.len(),
        forall|i: int| 0 <= i < first_earlier(s, x) ==> !text_lt(#[trigger] s[i].updated_at@, x.updated_at@),
        first_earlier(s, x) < s.len() ==> text_lt(s[first_earlier(s, x) as int].updated_at@, x.updated_at@),
    decreases s.len(),
{
    if s.len() > 0 && !text_lt(s[0].updated_at@, x.updated_at@) {
        let t = s.drop_first();
        lemma_first_earlier_place(t, x);
        assert forall|i: int| 0 <= i < first_earlier(s, x) implies !text_lt(#[trigger] s[i].updated_at@, x.updated_at@) by {
            if i > 0 {
                assert(s[i] == t[i - 1]);
            }
        }
        if first_earlier(s, x) < s.len() {
            assert(s[first_earlier(s, x) as int] == t[first_earlier(t, x) as int]);
        }
    }
}

proof fn lemma_insert_keeps_newest_first(rest: Seq<DocSummary>, x: DocSummary)
    requires
        newest_first(rest),
    ensures
        newest_first(rest.insert(first_earlier(rest, x) as int, x)),
{
    let p = first_earlier(rest, x) as int;
    lemma_first_earlier_place(rest, x);
    let t = rest.insert(p, x);
    rest.insert_ensures(p, x);
    assert forall|i: int, j: int| 0 <= i < j < t.len() implies
        !text_lt(#[trigger] t[i].updated_at@, #[trigger] t[j].updated_at@) by {
        if i < p && j < p {
            assert(t[i] == rest[i] && t[j] == rest[j]);
        } else if i < p && j == p {
            assert(t[i] == rest[i]);
        } else if i < p {
            assert(t[i] == rest[i] && t[j] == rest[j - 1]);
        } else if i == p {
            assert(t[j] == rest[j - 1]);
            if text_lt(x.updated_at@, rest[j - 1].updated_at@) {
                if j - 1 == p {
                    lemma_text_lt_asymmetric(x.updated_at@, rest[p].updated_at@);
                } else {
                    lemma_text_lt_transitive(rest[p].updated_at@, x.updated_at@, rest[j - 1].updated_at@);
                }
            }
        } else {
            assert(t[i] == rest[i - 1] && t[j] == rest[j - 1]);
        }
    }
}

/// The listing order is latest first, and the listing holds exactly the
/// summaries it was given, each as often.
pub proof fn lemma_sorted_by_update_desc(s: Seq<DocSummary>)
    ensures
        newest_first(sorted_by_update_desc(s)),
        sorted_by_update_desc(s).to_multiset() == s.to_multiset(),
    decreases s.len(),
{
    broadcast use vstd::seq_lib::group_to_multiset_ensures;
    if s.len() > 0 {
        let rest = sorted_by_update_desc(s.drop_last());
        lemma_sorted_by_update_desc(s.drop_last());
        lemma_insert_keeps_newest_first(rest, s.last());
        lemma_first_earlier_place(rest, s.last());
        vstd::seq_lib::to_multiset_insert(rest, first_earlier(rest, s.last()) as int, s.last());
        assert(s.drop_last().push(s.last()) =~= s);
        vstd::seq_lib::to_multiset_build(s.drop_last(), s.last());
    } else {
        assert(sorted_by_update_desc(s) =~= s);
    }
}

/// The summaries ordered by update time, latest first (stable).
pub fn sort_by_updated_desc(docs: Vec<DocSummary>) -> (res: Vec<DocSummary>)
    ensures
        res@ == sorted_by_update_desc(docs@),
{
    let mut input = docs;
    let ghost all = input@;
    let mut rev: Vec<DocSummary> = Vec::new();
    while input.len() > 0
        invariant
            input@.len() + rev@.len() == all.len(),
            input@ == all.take(input@.len() as int),
            rev@ == all.skip(input@.len() as int).reverse(),
        decreases input.len(),
    {
        let x = input.pop().unwrap();
        rev.push(x);
        assert(input@ =~= all.take(input@.len() as int));
        assert(rev@ =~= all.skip(input@.len() as int).reverse());
    }
    assert(all.skip(0) =~= all);
    let n = rev.len();
    let mut keys: Vec<Vec<char>> = Vec::new();
    let mut out: Vec<DocSummary> = Vec::new();
    let mut i: usize = 0;
    assert(all.take(0) =~= Seq::<DocSummary>::empty());
    while rev.len() > 0
        invariant
            n == all.len(),
            rev@.len() + i == n,
            rev@ == all.skip(i as int).reverse(),
            out@ == sorted_by_update_desc(all.take(i as int)),
            keys@.len() == out@.len(),
            forall|j: int| 0 <= j < out@.len() ==> (#[trigger] keys@[j])@ == out@[j].updated_at@,
        decreases rev.len(),
    {
        assert(all.skip(i as int).reverse().last() == all[i as int]);
        let x = rev.pop().unwrap();
        assert(rev@ =~= all.skip(i + 1).reverse());
        let xk = chars_of(x.updated_at.as_str());
        let mut k: usize = 0;
        assert(out@.skip(0) =~= out@);
        while k < out.len() && !text_less(&keys[k], &xk)
            invariant
                k <= out@.len(),
                keys@.len() == out@.len(),
                forall|j: int| 0 <= j < out@.len() ==> (#[trigger] keys@[j])@ == out@[j].updated_at@,
                xk@ == x.updated_at@,
                first_earlier(out@, x) == k + first_earlier(out@.skip(k as int), x),
            decreases out.len() - k,
        {
            assert(out@.skip(k as int).drop_first() =~= out@.skip(k + 1));
            assert(out@.skip(k as int)[0] == out@[k as int]);
            k += 1;
        }
        proof {
            if k < out@.len() {
                assert(out@.skip(k as int)[0] == out@[k as int]);
            }
            assert(first_earlier(out@, x) == k);
            assert(all.take(i + 1).drop_last() =~= all.take(i as int));
            assert(all.take(i + 1).last() == x);
        }
        let ghost prev_keys = keys@;
        let ghost prev_out = out@;
        out.insert(k, x);
        keys.insert(k, xk);
        proof {
            assert forall|j: int| 0 <= j < out@.len() implies (#[trigger] keys@[j])@ == out@[j].updated_at@ by {
                if j < k {
                    assert(keys@[j] == prev_keys[j] && out@[j] == prev_out[j]);
                } else if j > k {
                    assert(keys@[j] == prev_keys[j - 1] && out@[j] == prev_out[j - 1]);
                }
            }
        }
        i += 1;
    }
    assert(all.take(n as int) =~= all);
    out
}

/// The summaries whose status is `status`, in order (all of them when no
/// status is given).
pub open spec fn with_status(docs: Seq<DocSummary>, status: Option<Seq<char>>) -> Seq<DocSummary> {
    match status {
        Some(st) => docs.filter(status_is(st)),
        None => docs,
    }
}

/// The summary has status `st`.
pub open spec fn status_is(st: Seq<char>) -> spec_fn(DocSummary) -> bool {
    |d: DocSummary| d.status@ == st
}

/// Keeps the summaries with the given status (all of them when none is given).
pub fn keep_status(docs: Vec<DocSummary>, status: Option<&str>) -> (res: Vec<DocSummary>)
    ensures
        res@ == with_status(docs@, match status { Some(s) => Some(s@), None => None::<Seq<char>> }),
{
    match status {
        None => docs,
        Some(st) => {
            let want = String::from_str(st);
            let ghost pred = status_is(st@);
            let mut kept: Vec<DocSummary> = Vec::new();
            let mut i: usize = 0;
            while i < docs.len()
                invariant
                    i <= docs@.len(),
                    want@ == st@,
                    pred == status_is(st@),
                    kept@ == docs@.take(i as int).filter(pred),
                decreases docs.len() - i,
            {
                proof {
                    reveal_with_fuel(Seq::<_>::filter, 1);
                    assert(docs@.take(i + 1).drop_last() =~= docs@.take(i as int));
                }
                if docs[i].status == want {
                    kept.push(docs[i].clone());
                }
                i += 1;
            }
            assert(docs@.take(i as int) =~= docs@);
            kept
        },
    }
}

impl Clone for DocSummary {
    fn clone(&self) -> (res: DocSummary)
        ensures
            res == *self,
    {
        DocSummary {
            id: self.id.clone(),
            doc_type: self.doc_type.clone(),
            title: self.title.clone(),
            status: self.status.clone(),
            owner_role: self.owner_role.clone(),
            created_at: self.created_at.clone(),
            updated_at: self.updated_at.clone(),
        }
    }
}

// ---------------------------------------------------------------- HTML

/// The CSS class of a document status.
pub open spec fn status_class_of(status: Seq<char>) -> Seq<char> {
    if status == "ready"@ || status == "completed"@ || status == "passed"@ {
        "status-success"@
    } else if status == "failed"@ || status == "error"@ || status == "open"@ {
        "status-error"@
    } else if status == "in_progress"@ {
        "status-warning"@
    } else {
        ""@
    }
}

fn str_eq(a: &str, b: &str) -> (res: bool)
    ensures
        res == (a@ == b@),
{
    String::from_str(a) == String::from_str(b)
}

/// The CSS class of a document status: success, error, warning or none.
pub fn status_class(status: &str) -> (res: &'static str)
    ensures
        res@ == status_class_of(status@),
{
    if str_eq(status, "ready") || str_eq(status, "completed") || str_eq(status, "passed") {
        "status-success"
    } else if str_eq(status, "failed") || str_eq(status, "error") || str_eq(status, "open") {
        "status-error"
    } else if str_eq(status, "in_progress") {
        "status-warning"
    } else {
        ""
    }
}

/// The HTML escape of one character.
pub open spec fn escape_char(c: char) -> Seq<char> {
    if c == '&' { "&amp;"@ }
    else if c == '<' { "&lt;"@ }
    else if c == '>' { "&gt;"@ }
    else if c == '"' { "&quot;"@ }
    else { seq![c] }
}

/// A text with `&`, `<`, `>` and `"` replaced by their HTML entities.
pub open spec fn html_escaped(s: Seq<char>) -> Seq<char>
    decreases s.len(),
{
    if s.len() == 0 { Seq::empty() } else { html_escaped(s.drop_last()) + escape_char(s.last()) }
}

/// Escaped text holds no `<`, `>` or `"`: it cannot open or close markup or
/// end an attribute value.
pub proof fn lemma_html_escaped_has_no_markup(s: Seq<char>)
    ensures
        !html_escaped(s).contains('<'),
        !html_escaped(s).contains('>'),
        !html_escaped(s).contains('"'),
    decreases s.len(),
{
    if s.len() > 0 {
        lemma_html_escaped_has_no_markup(s.drop_last());
        let a = html_escaped(s.drop_last());
        let b = escape_char(s.last());
        reveal_strlit("&amp;");
        reveal_strlit("&lt;");
        reveal_strlit("&gt;");
        reveal_strlit("&quot;");
        assert forall|c: char| c == '<' || c == '>' || c == '"' implies !(a + b).contains(c) by {
            if (a + b).contains(c) {
                let k = choose|k: int| 0 <= k < (a + b).len() && (a + b)[k] == c;
                if k < a.len() {
                    assert(a[k] == c);
                } else {
                    assert(b[k - a.len()] == c);
                }
            }
        }
    }
}

/// Replaces `&`, `<`, `>` and `"` by their HTML entities.
pub fn html_escape(s: &str) -> (res: String)
    ensures
        res@ == html_escaped(s@),
{
    let cs = chars_of(s);
    let mut out = String::new();
    let mut i: usize = 0;
    while i < cs.len()
        invariant
            i <= cs@.len(),
            cs@ == s@,
            out@ == html_escaped(cs@.take(i as int)),
        decreases cs.len() - i,
    {
        let c = cs[i];
        if c == '&' {
            push_str(&mut out, "&amp;");
        } else if c == '<' {
            push_str(&mut out, "&lt;");
        } else if c == '>' {
            push_str(&mut out, "&gt;");
        } else if c == '"' {
            push_str(&mut out, "&quot;");
        } else {
            push_char(&mut out, c);
        }
        assert(cs@.take(i + 1).drop_last() =~= cs@.take(i as int));
        assert(out@ =~= html_escaped(cs@.take(i + 1)));
        i += 1;
    }
    assert(cs@.take(i as int) =~= s@);
    out
}

/// The first `n` characters of `s` (all of it when shorter).
pub open spec fn first_chars(s: Seq<char>, n: nat) -> Seq<char> {
    if s.len() <= n { s } else { s.take(n as int) }
}

fn first_chars_of(s: &str, n: usize) -> (res: String)
    ensures
        res@ == first_chars(s@, n as nat),
{
    let cs = chars_of(s);
    let end = if cs.len() <= n { cs.len() } else { n };
    let r = string_of_range(&cs, 0, end);
    assert(r@ =~= first_chars(s@, n as nat));
    r
}

/// The table row of one document summary.
pub open spec fn doc_row(d: DocSummary) -> Seq<char> {
    "<tr hx-get=\"/api/docs/"@ + d.id@
        + "\" hx-target=\"#doc-detail\" hx-swap=\"innerHTML\" style=\"cursor:pointer\"><td>"@
        + first_chars(d.id@, 8) + "</td><td><span class=\"tag\">"@ + d.doc_type@ + "</span></td><td>"@
        + d.title@ + "</td><td><span class=\""@ + status_class_of(d.status@) + "\">"@ + d.status@
        + "</span></td><td>"@ + d.owner_role@ + "</td><td>"@ + first_chars(d.updated_at@, 19)
        + "</td></tr>"@
}

/// The rows of the first `n` summaries.
pub open spec fn doc_rows(docs: Seq<DocSummary>, n: nat) -> Seq<char>
    decreases n,
{
    if n == 0 || n > docs.len() { Seq::empty() } else { doc_rows(docs, (n - 1) as nat) + doc_row(docs[n - 1]) }
}

/// The documents table of the audit page.
pub open spec fn docs_table(docs: Seq<DocSummary>) -> Seq<char> {
    "<table class=\"striped\"><thead><tr><th>ID</th><th>Type</th><th>Title</th><th>Status</th><th>Owner</th><th>Updated</th></tr></thead><tbody>"@
        + doc_rows(docs, docs.len()) + "</tbody></table>"@
}

/// Renders the documents table: one clickable row per summary with its short
/// id, type, title, status (with its CSS class), owner and update time.
pub fn render_docs_table(docs: &Vec<DocSummary>) -> (res: String)
    ensures
        res@ == docs_table(docs@),
{
    let mut html = String::new();
    push_str(&mut html, "<table class=\"striped\"><thead><tr><th>ID</th><th>Type</th><th>Title</th><th>Status</th><th>Owner</th><th>Updated</th></tr></thead><tbody>");
    let ghost start = html@;
    let mut i: usize = 0;
    while i < docs.len()
        invariant
            i <= docs@.len(),
            html@ == start + doc_rows(docs@, i as nat),
        decreases docs.len() - i,
    {
        push_doc_row(&mut html, &docs[i]);
        assert(html@ =~= start + doc_rows(docs@, (i + 1) as nat));
        i += 1;
    }
    push_str(&mut html, "</tbody></table>");
    html
}

fn push_doc_row(html: &mut String, d: &DocSummary)
    ensures
        final(html)@ == old(html)@ + doc_row(*d),
{
    push_str(html, "<tr hx-get=\"/api/docs/");
    push_str(html, d.id.as_str());
    push_str(html, "\" hx-target=\"#doc-detail\" hx-swap=\"innerHTML\" style=\"cursor:pointer\"><td>");
    let id_short = first_chars_of(d.id.as_str(), 8);
    push_str(html, id_short.as_str());
    push_str(html, "</td><td><span class=\"tag\">");
    push_str(html, d.doc_type.as_str());
    push_str(html, "</span></td><td>");
    push_str(html, d.title.as_str());
    push_str(html, "</td><td><span class=\"");
    push_str(html, status_class(d.status.as_str()));
    push_str(html, "\">");
    push_str(html, d.status.as_str());
    push_str(html, "</span></td><td>");
    push_str(html, d.owner_role.as_str());
    push_str(html, "</td><td>");
    let updated_short = first_chars_of(d.updated_at.as_str(), 19);
    push_str(html, updated_short.as_str());
    push_str(html, "</td></tr>");
    assert(html@ =~= old(html)@ + doc_row(*d));
}

/// The document detail view: the document's JSON text in a code block.
pub fn render_doc_detail(json: &str) -> (res: String)
    ensures
        res@ == "<pre><code>"@ + json@ + "</code></pre>"@,
{
    let mut s = String::from_str("<pre><code>");
    push_str(&mut s, json);
    push_str(&mut s, "</code></pre>");
    s
}

/// A stored value as the detail view shows it: the JSON it holds, else the
/// text itself as a string.
pub open spec fn detail_value(text: Seq<char>) -> Json {
    match json_text_value(text) {
        Some(j) => j,
        None => Json::Str(text),
    }
}

/// The detail object of the first `n` stored field/value pairs of a document:
/// each value as `detail_value` reads it; a later pair of the same name
/// replaces an earlier one.
pub open spec fn detail_object(fields: Seq<(String, String)>, n: nat) -> Json
    decreases n,
{
    if n == 0 || n > fields.len() {
        Json::Object(Seq::empty())
    } else {
        json_set(detail_object(fields, (n - 1) as nat), fields[n - 1].0@, detail_value(fields[n - 1].1@))
    }
}

/// A stored value as the detail view shows it, from what reading it as JSON
/// gave: that value, or the text as a string where it was no JSON.
pub fn stored_value(text: &String, parsed: Option<JsonValue>) -> (res: JsonValue)
    ensures
        res@ == (match parsed {
            Some(p) => p@,
            None => Json::Str(text@),
        }),
{
    match parsed {
        Some(p) => p,
        None => JsonValue::Str(text.clone()),
    }
}

/// A document as JSON, from its stored field/value pairs: each value read as
/// JSON where it is JSON text, else kept as a string; a later pair of the same
/// name replaces an earlier one.
pub fn doc_detail(fields: &Vec<(String, String)>) -> (res: JsonValue)
    ensures
        res@ == detail_object(fields@, fields@.len()),
{
    let mut obj = JsonValue::Object(Vec::new());
    assert(obj@ == Json::Object(Seq::empty()));
    let mut i: usize = 0;
    while i < fields.len()
        invariant
            i <= fields@.len(),
            obj@ == detail_object(fields@, i as nat),
            obj@ is Object,
        decreases fields.len() - i,
    {
        let (field, value) = &fields[i];
        let v = stored_value(value, parse_json_text(value.as_str()));
        obj.set(field.as_str(), v);
        i += 1;
    }
    obj
}

/// The document detail page: the document's JSON, as `doc_detail` builds it
/// from the stored pairs, indented, in a code block.
pub fn doc_detail_view(fields: &Vec<(String, String)>) -> (res: String)
    ensures
        res@ == "<pre><code>"@ + json_pretty(detail_object(fields@, fields@.len())) + "</code></pre>"@,
{
    let doc = doc_detail(fields);
    let text = pretty_text(&doc);
    render_doc_detail(text.as_str())
}

/// The error view of the document detail.
pub fn render_error(e: &AuditError) -> (res: String)
    ensures
        res@ == "<p>Error: "@ + e.message_view() + "</p>"@,
{
    let mut s = String::from_str("<p>Error: ");
    let m = e.message();
    push_str(&mut s, m.as_str());
    push_str(&mut s, "</p>");
    s
}

impl AuditError {
    /// The error message, as a spec value.
    pub open spec fn message_view(&self) -> Seq<char> {
        match self {
            AuditError::Redis(m) => "Redis error: "@ + m@,
            AuditError::NotFound(m) => "Not found: "@ + m@,
            AuditError::Serde(m) => "Serialization error: "@ + m@,
        }
    }
}

/// The connection status panel.
pub open spec fn status_panel(redis_connected: bool, mqtt_connected: bool) -> Seq<char> {
    "<div class=\"grid\" style=\"grid-template-columns: 1fr 1fr; gap: 8px;\">\n            <div><span class=\""@
        + (if redis_connected { "status-success"@ } else { "status-error"@ })
        + "\">●</span> Redis: "@
        + (if redis_connected { "Connected"@ } else { "Disconnected"@ })
        + "</div>\n            <div><span class=\""@
        + (if mqtt_connected { "status-success"@ } else { "status-error"@ })
        + "\">●</span> MQTT: "@
        + (if mqtt_connected { "Connected"@ } else { "Disconnected"@ })
        + "</div>\n        </div>"@
}

/// Renders the connection status of the store and the bus.
pub fn render_status(redis_connected: bool, mqtt_connected: bool) -> (res: String)
    ensures
        res@ == status_panel(redis_connected, mqtt_connected),
{
    let redis_class = if redis_connected { "status-success" } else { "status-error" };
    let redis_text = if redis_connected { "Connected" } else { "Disconnected" };
    let mqtt_class = if mqtt_connected { "status-success" } else { "status-error" };
    let mqtt_text = if mqtt_connected { "Connected" } else { "Disconnected" };
    let mut s = String::from_str("<div class=\"grid\" style=\"grid-template-columns: 1fr 1fr; gap: 8px;\">\n            <div><span class=\"");
    push_str(&mut s, redis_class);
    push_str(&mut s, "\">●</span> Redis: ");
    push_str(&mut s, redis_text);
    push_str(&mut s, "</div>\n            <div><span class=\"");
    push_str(&mut s, mqtt_class);
    push_str(&mut s, "\">●</span> MQTT: ");
    push_str(&mut s, mqtt_text);
    push_str(&mut s, "</div>\n        </div>");
    s
}

// ---------------------------------------------------------------- bus messages

/// A message seen on the bus.
pub struct MqttMessage {
    pub topic: String,
    pub payload: String,
    pub ts: String,
}

impl Clone for MqttMessage {
    fn clone(&self) -> (res: MqttMessage)
        ensures
            res == *self,
    {
        MqttMessage { topic: self.topic.clone(), payload: self.payload.clone(), ts: self.ts.clone() }
    }
}

/// The payload shown for a message: its first 100 bytes and `...` when longer.
pub open spec fn payload_preview(p: Seq<char>) -> Seq<char> {
    if crate::runner::byte_len(p) > 100 {
        vstd::utf8::decode_utf8(vstd::utf8::encode_utf8(p).take(100)) + "..."@
    } else {
        p
    }
}

/// A payload can be previewed: when longer than 100 bytes, byte 100 starts a character.
pub open spec fn previewable(p: Seq<char>) -> bool {
    &&& crate::runner::byte_len(p) <= usize::MAX
    &&& (crate::runner::byte_len(p) > 100 ==> vstd::utf8::is_char_boundary(vstd::utf8::encode_utf8(p), 100))
}

/// The line of one message in the stream view.
pub open spec fn message_line(m: MqttMessage) -> Seq<char> {
    "<div class=\"mqtt-msg\"><span class=\"topic\">"@ + m.topic@ + "</span> <span class=\"payload\">"@
        + html_escaped(payload_preview(m.payload@)) + "</span></div>"@
}

/// The lines of `msgs[n-1]`, `msgs[n-2]`, ..., `msgs[0]` (oldest last in, shown first).
pub open spec fn message_lines_rev(msgs: Seq<MqttMessage>, n: nat) -> Seq<char>
    decreases n,
{
    if n == 0 || n > msgs.len() { Seq::empty() } else { message_line(msgs[n - 1]) + message_lines_rev(msgs, (n - 1) as nat) }
}

/// The stream view of the most recent messages (given newest first), shown
/// oldest first, with the message count.
pub open spec fn stream_view(msgs: Seq<MqttMessage>, count: nat) -> Seq<char> {
    "<div data-msg-count=\""@ + decimal(count) + "\">"@
        + message_lines_rev(msgs, msgs.len())
        + (if msgs.len() == 0 { "<p>Waiting for messages...</p>"@ } else { Seq::empty() })
        + "</div>"@
}

fn preview(p: &str) -> (res: String)
    requires
        previewable(p@),
    ensures
        res@ == payload_preview(p@),
{
    broadcast use vstd::utf8::group_utf8_lib;
    if p.len() > 100 {
        let (head, _tail) = p.split_at(100);
        let mut t = head.to_owned();
        proof {
            assert(vstd::string::StringSliceAdditionalSpecFns::spec_bytes(head) =~= vstd::utf8::encode_utf8(p@).take(100));
        }
        push_str(&mut t, "...");
        t
    } else {
        p.to_owned()
    }
}

/// Renders the stream view of `messages` (newest first), oldest first.
pub fn render_stream(messages: &Vec<MqttMessage>, count: usize) -> (res: String)
    requires
        forall|i: int| 0 <= i < messages@.len() ==> previewable(#[trigger] messages@[i].payload@),
    ensures
        res@ == stream_view(messages@, count as nat),
{
    let mut html = String::from_str("<div data-msg-count=\"");
    push_decimal(&mut html, count as u128);
    push_str(&mut html, "\">");
    let ghost start = html@;
    let mut k: usize = messages.len();
    while k > 0
        invariant
            k <= messages@.len(),
            forall|i: int| 0 <= i < messages@.len() ==> previewable(#[trigger] messages@[i].payload@),
            html@ + message_lines_rev(messages@, k as nat) == start + message_lines_rev(messages@, messages@.len()),
        decreases k,
    {
        let m = &messages[k - 1];
        push_str(&mut html, "<div class=\"mqtt-msg\"><span class=\"topic\">");
        push_str(&mut html, m.topic.as_str());
        push_str(&mut html, "</span> <span class=\"payload\">");
        let short = preview(m.payload.as_str());
        let esc = html_escape(short.as_str());
        push_str(&mut html, esc.as_str());
        push_str(&mut html, "</span></div>");
        k -= 1;
    }
    if messages.len() == 0 {
        push_str(&mut html, "<p>Waiting for messages...</p>");
    }
    push_str(&mut html, "</div>");
    assert(html@ =~= stream_view(messages@, count as nat));
    html
}

/// The most messages the subscriber keeps.
pub open spec fn message_cap() -> nat {
    1000
}

/// The buffer after a message arrives: the message appended, and the oldest
/// dropped when the buffer would exceed its cap.
pub open spec fn recorded(msgs: Seq<MqttMessage>, m: MqttMessage) -> Seq<MqttMessage> {
    if msgs.len() + 1 > message_cap() { msgs.push(m).drop_first() } else { msgs.push(m) }
}

/// The message recorded last is the newest one read back, and the buffer
/// never exceeds its cap.
pub proof fn lemma_recorded_newest(msgs: Seq<MqttMessage>, m: MqttMessage)
    requires
        msgs.len() <= message_cap(),
    ensures
        recorded(msgs, m).len() <= message_cap(),
        recorded(msgs, m).reverse().take(1) == seq![m],
{
    let r = recorded(msgs, m);
    assert(r.len() >= 1);
    assert(r[r.len() - 1] == m);
    assert(r.reverse().take(1) =~= seq![m]);
}

/// The buffer after messages `ms` arrive one by one.
pub open spec fn recorded_all(buf: Seq<MqttMessage>, ms: Seq<MqttMessage>) -> Seq<MqttMessage>
    decreases ms.len(),
{
    if ms.len() == 0 { buf } else { recorded(recorded_all(buf, ms.drop_last()), ms.last()) }
}

/// The last `message_cap()` items of `s` (all of them when there are fewer).
pub open spec fn latest(s: Seq<MqttMessage>) -> Seq<MqttMessage> {
    if s.len() <= message_cap() { s } else { s.skip(s.len() - message_cap()) }
}

/// After any number of deliveries the buffer holds the latest 1000 messages
/// of all it was given, oldest first (so `get_messages` gives them newest
/// first).
pub proof fn lemma_buffer_keeps_latest(buf: Seq<MqttMessage>, ms: Seq<MqttMessage>)
    requires
        buf.len() <= message_cap(),
    ensures
        recorded_all(buf, ms) == latest(buf + ms),
        recorded_all(buf, ms).len() <= message_cap(),
    decreases ms.len(),
{
    if ms.len() == 0 {
        assert(buf + ms =~= buf);
    } else {
        let t = buf + ms.drop_last();
        lemma_buffer_keeps_latest(buf, ms.drop_last());
        assert(buf + ms =~= t.push(ms.last()));
        let l = latest(t);
        if t.len() < message_cap() {
            assert(recorded(l, ms.last()) =~= latest(t.push(ms.last())));
        } else {
            assert(recorded(l, ms.last()) =~= latest(t.push(ms.last())));
        }
    }
}

/// The buffer of recent bus messages, oldest first, at most 1000 of them.
pub struct MqttSubscriber {
    messages: VecDeque<MqttMessage>,
}

impl MqttSubscriber {
    /// The buffered messages, oldest first.
    pub closed spec fn messages(&self) -> Seq<MqttMessage> {
        self.messages@
    }

    /// The buffer holds at most 1000 messages.
    pub open spec fn wf(&self) -> bool {
        self.messages().len() <= message_cap()
    }

    /// An empty buffer.
    pub fn new() -> (res: MqttSubscriber)
        ensures
            res.wf(),
            res.messages() == Seq::<MqttMessage>::empty(),
    {
        MqttSubscriber { messages: VecDeque::new() }
    }

    /// Appends a received message, dropping the oldest when more than 1000 are held.
    pub fn record(&mut self, msg: MqttMessage)
        requires
            old(self).wf(),
        ensures
            final(self).wf(),
            final(self).messages() == recorded(old(self).messages(), msg),
    {
        self.messages.push_back(msg);
        if self.messages.len() > 1000 {
            let _ = self.messages.pop_front();
            assert(self.messages@ =~= old(self).messages().push(msg).drop_first());
        }
    }

    /// The `count` most recent messages, newest first.
    pub fn get_messages(&self, count: usize) -> (res: Vec<MqttMessage>)
        ensures
            res@ == self.messages().reverse().take(
                if count < self.messages().len() { count as int } else { self.messages().len() as int }),
    {
        let n = self.messages.len();
        let take = if count < n { count } else { n };
        let mut out: Vec<MqttMessage> = Vec::new();
        let mut j: usize = 0;
        while j < take
            invariant
                take <= n,
                n == self.messages@.len(),
                j <= take,
                out@ == self.messages@.reverse().take(j as int),
            decreases take - j,
        {
            let m = self.messages[n - 1 - j].clone();
            out.push(m);
            assert(out@ =~= self.messages@.reverse().take(j + 1));
            j += 1;
        }
        out
    }

    /// Forgets every buffered message.
    pub fn clear_messages(&mut self)
        ensures
            final(self).wf(),
            final(self).messages() == Seq::<MqttMessage>::empty(),
    {
        self.messages.clear();
    }
}

// ---------------------------------------------------------------- new documents

/// The ids among `ids[0..n]` not in `known` and not earlier in the list.
pub open spec fn fresh_ids(known: Seq<Seq<char>>, ids: Seq<Seq<char>>, n: nat) -> Seq<Seq<char>>
    decreases n,
{
    if n == 0 || n > ids.len() {
        Seq::empty()
    } else {
        let prev = fresh_ids(known, ids, (n - 1) as nat);
        if (known + prev).contains(ids[n - 1]) { prev } else { prev.push(ids[n - 1]) }
    }
}

proof fn lemma_fresh_ids_cover(known: Seq<Seq<char>>, ids: Seq<Seq<char>>, n: nat)
    requires
        n <= ids.len(),
    ensures
        forall|j: int| 0 <= j < n ==> (known + fresh_ids(known, ids, n)).contains(#[trigger] ids[j]),
    decreases n,
{
    if n > 0 {
        let prev = fresh_ids(known, ids, (n - 1) as nat);
        lemma_fresh_ids_cover(known, ids, (n - 1) as nat);
        let cur = fresh_ids(known, ids, n);
        assert forall|j: int| 0 <= j < n implies (known + cur).contains(#[trigger] ids[j]) by {
            if !(known + prev).contains(ids[n - 1]) {
                assert(cur == prev.push(ids[n - 1]));
                assert((known + cur) =~= (known + prev).push(ids[n - 1]));
                if j < n - 1 {
                    let k = choose|k: int| 0 <= k < (known + prev).len() && (known + prev)[k] == ids[j];
                    assert((known + cur)[k] == ids[j]);
                } else {
                    assert((known + cur)[(known + cur).len() - 1] == ids[j]);
                }
            }
        }
    }
}

proof fn lemma_fresh_ids_none(known: Seq<Seq<char>>, ids: Seq<Seq<char>>, n: nat)
    requires
        n <= ids.len(),
        forall|j: int| 0 <= j < ids.len() ==> known.contains(#[trigger] ids[j]),
    ensures
        fresh_ids(known, ids, n) == Seq::<Seq<char>>::empty(),
    decreases n,
{
    if n > 0 {
        lemma_fresh_ids_none(known, ids, (n - 1) as nat);
        assert(known + Seq::<Seq<char>>::empty() =~= known);
        assert(known.contains(ids[n - 1]));
    }
}

/// A second scan over the same ids, right after the first, finds nothing new.
pub proof fn lemma_scan_twice_finds_nothing(known: Seq<Seq<char>>, ids: Seq<Seq<char>>)
    ensures
        fresh_ids(known + fresh_ids(known, ids, ids.len()), ids, ids.len()) == Seq::<Seq<char>>::empty(),
{
    lemma_fresh_ids_cover(known, ids, ids.len());
    lemma_fresh_ids_none(known + fresh_ids(known, ids, ids.len()), ids, ids.len());
}

proof fn lemma_fresh_ids_new(known: Seq<Seq<char>>, ids: Seq<Seq<char>>, n: nat)
    ensures
        fresh_ids(known, ids, n).no_duplicates(),
        forall|k: int| 0 <= k < fresh_ids(known, ids, n).len() ==> !known.contains(#[trigger] fresh_ids(known, ids, n)[k]),
    decreases n,
{
    if n > 0 && n <= ids.len() {
        let prev = fresh_ids(known, ids, (n - 1) as nat);
        lemma_fresh_ids_new(known, ids, (n - 1) as nat);
        let x = ids[n - 1];
        if !(known + prev).contains(x) {
            let cur = prev.push(x);
            assert(fresh_ids(known, ids, n) == cur);
            assert forall|k: int| 0 <= k < prev.len() implies prev[k] != x by {
                if prev[k] == x {
                    assert((known + prev)[known.len() + k] == x);
                }
            }
            assert forall|k: int| 0 <= k < known.len() implies known[k] != x by {
                if known[k] == x {
                    assert((known + prev)[k] == x);
                }
            }
            assert forall|k: int| 0 <= k < cur.len() implies !known.contains(#[trigger] cur[k]) by {
                if k < prev.len() { assert(cur[k] == prev[k]); }
            }
            assert forall|i: int, j: int| 0 <= i < cur.len() && 0 <= j < cur.len() && i != j implies cur[i] != cur[j] by {
                if i < prev.len() && j < prev.len() {
                    assert(cur[i] == prev[i] && cur[j] == prev[j]);
                }
            }
        }
    }
}

/// The ids reported by scanning the id lists `polls` in turn, starting from
/// the ids in `known`.
pub open spec fn reported_over(known: Seq<Seq<char>>, polls: Seq<Seq<Seq<char>>>) -> Seq<Seq<char>>
    decreases polls.len(),
{
    if polls.len() == 0 {
        Seq::empty()
    } else {
        let f = fresh_ids(known, polls[0], polls[0].len());
        f + reported_over(known + f, polls.drop_first())
    }
}

/// Over a detector's whole life each document id is reported at most once, and
/// never one it already knew.
pub proof fn lemma_reported_at_most_once(known: Seq<Seq<char>>, polls: Seq<Seq<Seq<char>>>)
    ensures
        reported_over(known, polls).no_duplicates(),
        forall|k: int| 0 <= k < reported_over(known, polls).len() ==> !known.contains(#[trigger] reported_over(known, polls)[k]),
    decreases polls.len(),
{
    if polls.len() > 0 {
        let f = fresh_ids(known, polls[0], polls[0].len());
        let k2 = known + f;
        let rest = reported_over(k2, polls.drop_first());
        lemma_fresh_ids_new(known, polls[0], polls[0].len());
        lemma_reported_at_most_once(k2, polls.drop_first());
        let all = f + rest;
        assert(reported_over(known, polls) == all);
        assert forall|k: int| 0 <= k < rest.len() implies !known.contains(rest[k]) && !f.contains(rest[k]) by {
            assert(!k2.contains(rest[k]));
            if known.contains(rest[k]) {
                let a = choose|a: int| 0 <= a < known.len() && known[a] == rest[k];
                assert(k2[a] == rest[k]);
            }
            if f.contains(rest[k]) {
                let a = choose|a: int| 0 <= a < f.len() && f[a] == rest[k];
                assert(k2[known.len() + a] == rest[k]);
            }
        }
        assert forall|k: int| 0 <= k < all.len() implies !known.contains(#[trigger] all[k]) by {
            if k < f.len() { assert(all[k] == f[k]); } else { assert(all[k] == rest[k - f.len()]); }
        }
        assert forall|i: int, j: int| 0 <= i < all.len() && 0 <= j < all.len() && i != j implies all[i] != all[j] by {
            if i < f.len() && j < f.len() {
                assert(all[i] == f[i] && all[j] == f[j]);
            } else if i >= f.len() && j >= f.len() {
                assert(all[i] == rest[i - f.len()] && all[j] == rest[j - f.len()]);
            } else if i < f.len() {
                assert(all[i] == f[i] && all[j] == rest[j - f.len()]);
                assert(!f.contains(rest[j - f.len()]));
            } else {
                assert(all[j] == f[j] && all[i] == rest[i - f.len()]);
                assert(!f.contains(rest[i - f.len()]));
            }
        }
    }
}

proof fn lemma_concat_contains(a: Seq<Seq<char>>, b: Seq<Seq<char>>, x: Seq<char>)
    ensures
        (a + b).contains(x) <==> a.contains(x) || b.contains(x),
{
    if (a + b).contains(x) {
        let k = choose|k: int| 0 <= k < (a + b).len() && (a + b)[k] == x;
        if k < a.len() {
            assert(a[k] == x);
        } else {
            assert(b[k - a.len()] == x);
        }
    }
    if a.contains(x) {
        let k = choose|k: int| 0 <= k < a.len() && a[k] == x;
        assert((a + b)[k] == x);
    }
    if b.contains(x) {
        let k = choose|k: int| 0 <= k < b.len() && b[k] == x;
        assert((a + b)[a.len() + k] == x);
    }
}

proof fn lemma_fresh_ids_member(known: Seq<Seq<char>>, ids: Seq<Seq<char>>, n: nat, x: Seq<char>)
    requires
        n <= ids.len(),
    ensures
        fresh_ids(known, ids, n).contains(x) <==> ids.take(n as int).contains(x) && !known.contains(x),
    decreases n,
{
    if n > 0 {
        let prev = fresh_ids(known, ids, (n - 1) as nat);
        lemma_fresh_ids_member(known, ids, (n - 1) as nat, x);
        lemma_concat_contains(ids.take(n - 1), seq![ids[n - 1]], x);
        assert(ids.take(n as int) =~= ids.take(n - 1) + seq![ids[n - 1]]);
        lemma_concat_contains(known, prev, x);
        lemma_concat_contains(known, prev, ids[n - 1]);
        if !(known + prev).contains(ids[n - 1]) {
            lemma_concat_contains(prev, seq![ids[n - 1]], x);
            assert(prev.push(ids[n - 1]) =~= prev + seq![ids[n - 1]]);
        }
        if seq![ids[n - 1]].contains(x) {
            assert(seq![ids[n - 1]][0] == ids[n - 1]);
        }
        assert(seq![ids[n - 1]].contains(ids[n - 1])) by {
            assert(seq![ids[n - 1]][0] == ids[n - 1]);
        }
    } else {
        assert(ids.take(0) =~= Seq::<Seq<char>>::empty());
    }
}

/// Some key of the poll `keys` stands for document `id`.
pub open spec fn poll_names(keys: Seq<Seq<char>>, id: Seq<char>) -> bool {
    exists|i: int| 0 <= i < keys.len() && doc_id_of_key(keys[i]) == Some(id)
}

proof fn lemma_doc_ids_member(keys: Seq<Seq<char>>, n: nat, x: Seq<char>)
    requires
        n <= keys.len(),
    ensures
        doc_ids_of_keys(keys, n).contains(x) <==> poll_names(keys.take(n as int), x),
    decreases n,
{
    if n > 0 {
        let rest = doc_ids_of_keys(keys, (n - 1) as nat);
        lemma_doc_ids_member(keys, (n - 1) as nat, x);
        let t = keys.take(n as int);
        let t1 = keys.take(n - 1);
        if poll_names(t, x) {
            let i = choose|i: int| 0 <= i < t.len() && doc_id_of_key(t[i]) == Some(x);
            if i < n - 1 {
                assert(t1[i] == t[i]);
            } else {
                assert(rest.push(x)[rest.len() as int] == x);
            }
        }
        if poll_names(t1, x) {
            let i = choose|i: int| 0 <= i < t1.len() && doc_id_of_key(t1[i]) == Some(x);
            assert(t[i] == t1[i]);
        }
        if doc_ids_of_keys(keys, n).contains(x) && !rest.contains(x) {
            let k = choose|k: int| 0 <= k < doc_ids_of_keys(keys, n).len() && doc_ids_of_keys(keys, n)[k] == x;
            assert(t[n - 1] == keys[n - 1]);
        }
        if rest.contains(x) {
            let k = choose|k: int| 0 <= k < rest.len() && rest[k] == x;
            match doc_id_of_key(keys[n - 1]) {
                Some(id) => assert(rest.push(id)[k] == x),
                None => {},
            }
        }
    } else {
        assert(keys.take(0).len() == 0);
    }
}

/// The id lists behind successive polls of the store's document keys.
pub open spec fn ids_of_polls(key_polls: Seq<Seq<Seq<char>>>) -> Seq<Seq<Seq<char>>> {
    Seq::new(key_polls.len(), |j: int| doc_ids_of_keys(key_polls[j], key_polls[j].len()))
}

/// What a detector that started out knowing `known` knows after scanning the
/// first `j` id lists of `polls`, as `scan` leaves it.
pub open spec fn known_after(known: Seq<Seq<char>>, polls: Seq<Seq<Seq<char>>>, j: nat) -> Seq<Seq<char>>
    decreases j,
{
    if j == 0 || j > polls.len() {
        known
    } else {
        let k = known_after(known, polls, (j - 1) as nat);
        k + fresh_ids(k, polls[j - 1], polls[j - 1].len())
    }
}

proof fn lemma_known_after_member(known: Seq<Seq<char>>, polls: Seq<Seq<Seq<char>>>, j: nat, x: Seq<char>)
    requires
        j <= polls.len(),
    ensures
        known_after(known, polls, j).contains(x) <==> known.contains(x)
            || exists|k: int| 0 <= k < j && (#[trigger] polls[k]).contains(x),
    decreases j,
{
    if j > 0 {
        let k = known_after(known, polls, (j - 1) as nat);
        let p = polls[j - 1];
        lemma_known_after_member(known, polls, (j - 1) as nat, x);
        lemma_concat_contains(k, fresh_ids(k, p, p.len()), x);
        lemma_fresh_ids_member(k, p, p.len(), x);
        assert(p.take(p.len() as int) =~= p);
        if exists|m: int| 0 <= m < j && (#[trigger] polls[m]).contains(x) {
            let m = choose|m: int| 0 <= m < j && (#[trigger] polls[m]).contains(x);
            if m < j - 1 {
                assert(exists|m2: int| 0 <= m2 < j - 1 && (#[trigger] polls[m2]).contains(x));
            }
        }
    }
}

proof fn lemma_known_after_distinct(known: Seq<Seq<char>>, polls: Seq<Seq<Seq<char>>>, j: nat)
    requires
        known.no_duplicates(),
        j <= polls.len(),
    ensures
        known_after(known, polls, j).no_duplicates(),
    decreases j,
{
    if j > 0 {
        let k = known_after(known, polls, (j - 1) as nat);
        let p = polls[j - 1];
        let f = fresh_ids(k, p, p.len());
        lemma_known_after_distinct(known, polls, (j - 1) as nat);
        lemma_fresh_ids_new(k, p, p.len());
        let all = k + f;
        assert forall|a: int, b: int| 0 <= a < all.len() && 0 <= b < all.len() && a != b implies all[a] != all[b] by {
            if a < k.len() && b < k.len() {
                assert(all[a] == k[a] && all[b] == k[b]);
            } else if a >= k.len() && b >= k.len() {
                assert(all[a] == f[a - k.len()] && all[b] == f[b - k.len()]);
            } else if a < k.len() {
                assert(all[a] == k[a] && all[b] == f[b - k.len()]);
                assert(k.contains(all[a]));
            } else {
                assert(all[b] == k[b] && all[a] == f[a - k.len()]);
                assert(k.contains(all[b]));
            }
        }
    }
}

/// A detector that polls the store's document keys from new remembers each
/// document id once: what its scans reported, all together, holds no id twice.
pub proof fn lemma_detector_reports_each_id_once(key_polls: Seq<Seq<Seq<char>>>)
    ensures
        known_after(Seq::empty(), ids_of_polls(key_polls), key_polls.len()).no_duplicates(),
{
    lemma_known_after_distinct(Seq::empty(), ids_of_polls(key_polls), key_polls.len());
}

/// Polling the store's document keys with one detector, new at the start: the
/// ids that poll `j` reports are exactly those that a key of that poll names
/// (`doc:` and the id, without `:version`) and that no earlier poll named; so
/// a document is reported at the first poll that sees it, and never again.
pub proof fn lemma_poll_reports_first_sightings(key_polls: Seq<Seq<Seq<char>>>, j: int, id: Seq<char>)
    requires
        0 <= j < key_polls.len(),
    ensures
        fresh_ids(known_after(Seq::empty(), ids_of_polls(key_polls), j as nat), ids_of_polls(key_polls)[j],
            ids_of_polls(key_polls)[j].len()).contains(id)
        <==> poll_names(key_polls[j], id) && forall|k: int| 0 <= k < j ==> !poll_names(#[trigger] key_polls[k], id),
{
    let polls = ids_of_polls(key_polls);
    let known = known_after(Seq::empty(), polls, j as nat);
    let p = polls[j];
    lemma_fresh_ids_member(known, p, p.len(), id);
    assert(p.take(p.len() as int) =~= p);
    lemma_known_after_member(Seq::empty(), polls, j as nat, id);
    lemma_doc_ids_member(key_polls[j], key_polls[j].len(), id);
    assert(key_polls[j].take(key_polls[j].len() as int) =~= key_polls[j]);
    assert forall|k: int| 0 <= k < j implies (polls[k].contains(id) <==> poll_names(#[trigger] key_polls[k], id)) by {
        lemma_doc_ids_member(key_polls[k], key_polls[k].len(), id);
        assert(key_polls[k].take(key_polls[k].len() as int) =~= key_polls[k]);
    }
    if exists|k: int| 0 <= k < j && (#[trigger] polls[k]).contains(id) {
        let k = choose|k: int| 0 <= k < j && (#[trigger] polls[k]).contains(id);
        assert(poll_names(key_polls[k], id));
    }
    if exists|k: int| 0 <= k < j && poll_names(#[trigger] key_polls[k], id) {
        let k = choose|k: int| 0 <= k < j && poll_names(#[trigger] key_polls[k], id);
        assert(polls[k].contains(id));
    }
    assert(!Seq::<Seq<char>>::empty().contains(id));
}

/// Remembers which documents have been seen, to report new ones.
pub struct DocChangeDetector {
    known: Vec<String>,
}

impl DocChangeDetector {
    /// The ids seen so far.
    pub closed spec fn known(&self) -> Seq<Seq<char>> {
        self.known.deep_view()
    }

    /// A detector that has seen nothing.
    pub fn new() -> (res: DocChangeDetector)
        ensures
            res.known() == Seq::<Seq<char>>::empty(),
    {
        let known: Vec<String> = Vec::new();
        assert(known.deep_view() =~= Seq::<Seq<char>>::empty());
        DocChangeDetector { known }
    }

    fn is_known(&self, id: &String) -> (res: bool)
        ensures
            res == self.known().contains(id@),
    {
        let mut i: usize = 0;
        while i < self.known.len()
            invariant
                i <= self.known@.len(),
                forall|j: int| 0 <= j < i ==> self.known()[j] != id@,
            decreases self.known.len() - i,
        {
            if self.known[i] == *id {
                assert(self.known()[i as int] == id@);
                return true;
            }
            i += 1;
        }
        false
    }

    /// Scans the current document keys and returns the ids not seen before,
    /// in key order, each once; they are then remembered.
    pub fn scan(&mut self, keys: &Vec<String>) -> (res: Vec<String>)
        ensures
            res.deep_view() == fresh_ids(old(self).known(), doc_ids_of_keys(keys.deep_view(), keys@.len()),
                doc_ids_of_keys(keys.deep_view(), keys@.len()).len()),
            final(self).known() == old(self).known() + res.deep_view(),
    {
        let ids = doc_ids_from_keys(keys);
        let ghost all_ids = ids.deep_view();
        let ghost start = self.known();
        let mut fresh: Vec<String> = Vec::new();
        let mut i: usize = 0;
        while i < ids.len()
            invariant
                i <= ids@.len(),
                all_ids == ids.deep_view(),
                fresh.deep_view() == fresh_ids(start, all_ids, i as nat),
                self.known() == start + fresh.deep_view(),
            decreases ids.len() - i,
        {
            let id = &ids[i];
            if !self.is_known(id) {
                let ghost kb = self.known.deep_view();
                let ghost fb = fresh.deep_view();
                self.known.push(id.clone());
                fresh.push(id.clone());
                assert(self.known.deep_view() =~= kb.push(id@));
                assert(fresh.deep_view() =~= fb.push(id@));
            }
            assert(fresh.deep_view() =~= fresh_ids(start, all_ids, (i + 1) as nat));
            i += 1;
        }
        fresh
    }
}

} // verus!
