//! A JSON document model: the free-form `fields`, `refs` and `payload` parts of
//! documents and events, with lookup, update and compact rendering.
use vstd::prelude::*;

verus! {

/// A JSON value. Numbers keep their textual form; objects keep their entries in order.
pub enum JsonValue {
    Null,
    Bool(bool),
    Number(String),
    Str(String),
    Array(Vec<JsonValue>),
    Object(Vec<(String, JsonValue)>),
}

/// The mathematical form of a JSON value.
pub enum Json {
    Null,
    Bool(bool),
    Number(Seq<char>),
    Str(Seq<char>),
    Array(Seq<Json>),
    Object(Seq<(Seq<char>, Json)>),
}

/// The mathematical form of a JSON value.
pub open spec fn json_view(v: JsonValue) -> Json
    decreases v, 0nat,
{
    match v {
        JsonValue::Null => Json::Null,
        JsonValue::Bool(b) => Json::Bool(b),
        JsonValue::Number(t) => Json::Number(t@),
        JsonValue::Str(s) => Json::Str(s@),
        JsonValue::Array(items) => Json::Array(json_views(items@, items@.len())),
        JsonValue::Object(entries) => Json::Object(entry_views(entries@, entries@.len())),
    }
}

/// The mathematical forms of the first `n` values of `items`.
pub open spec fn json_views(items: Seq<JsonValue>, n: nat) -> Seq<Json>
    decreases items, n,
{
    if n == 0 || n > items.len() {
        Seq::empty()
    } else {
        json_views(items, (n - 1) as nat).push(json_view(items[n - 1]))
    }
}

/// The mathematical forms of the first `n` entries of `entries`.
pub open spec fn entry_views(entries: Seq<(String, JsonValue)>, n: nat) -> Seq<(Seq<char>, Json)>
    decreases entries, n,
{
    if n == 0 || n > entries.len() {
        Seq::empty()
    } else {
        entry_views(entries, (n - 1) as nat).push((entries[n - 1].0@, json_view(entries[n - 1].1)))
    }
}

impl View for JsonValue {
    type V = Json;

    open spec fn view(&self) -> Json {
        json_view(*self)
    }
}

/// The views of the first `n` values are `n` values, each the view of its value.
pub proof fn lemma_json_views_len(items: Seq<JsonValue>, n: nat)
    requires
        n <= items.len(),
    ensures
        json_views(items, n).len() == n,
        forall|i: int| 0 <= i < n ==> #[trigger] json_views(items, n)[i] == json_view(items[i]),
    decreases n,
{
    if n > 0 {
        lemma_json_views_len(items, (n - 1) as nat);
    }
}

/// The views of the first `n` entries are `n` entries, each the view of its entry.
pub proof fn lemma_entry_views_len(entries: Seq<(String, JsonValue)>, n: nat)
    requires
        n <= entries.len(),
    ensures
        entry_views(entries, n).len() == n,
        forall|i: int| 0 <= i < n ==> #[trigger] entry_views(entries, n)[i] == (entries[i].0@, json_view(entries[i].1)),
    decreases n,
{
    if n > 0 {
        lemma_entry_views_len(entries, (n - 1) as nat);
    }
}

/// The index of the first entry of `entries` whose key is `key`, if any.
pub open spec fn first_key_index(entries: Seq<(Seq<char>, Json)>, key: Seq<char>) -> Option<int>
    decreases entries.len(),
{
    if entries.len() == 0 {
        None
    } else {
        match first_key_index(entries.drop_last(), key) {
            Some(i) => Some(i),
            None => if entries.last().0 == key { Some(entries.len() - 1) } else { None },
        }
    }
}

/// Object member lookup: the value of the first entry with this key.
pub open spec fn json_get(j: Json, key: Seq<char>) -> Option<Json> {
    match j {
        Json::Object(entries) => match first_key_index(entries, key) {
            Some(i) => Some(entries[i].1),
            None => None,
        },
        _ => None,
    }
}

/// The string members of a JSON array, in order (other members skipped).
pub open spec fn string_members(items: Seq<Json>) -> Seq<Seq<char>>
    decreases items.len(),
{
    if items.len() == 0 {
        Seq::empty()
    } else {
        let rest = string_members(items.drop_last());
        match items.last() {
            Json::Str(s) => rest.push(s),
            _ => rest,
        }
    }
}

/// The string held by `j`, if `j` is a JSON string.
pub open spec fn json_str(j: Option<Json>) -> Option<Seq<char>> {
    match j {
        Some(Json::Str(s)) => Some(s),
        _ => None,
    }
}

/// The string members of the array held by `j`, if `j` is a JSON array.
pub open spec fn json_string_list(j: Option<Json>) -> Option<Seq<Seq<char>>> {
    match j {
        Some(Json::Array(items)) => Some(string_members(items)),
        _ => None,
    }
}

/// `entries` with the value of `key` replaced, or a new entry appended.
pub open spec fn set_entry(entries: Seq<(Seq<char>, Json)>, key: Seq<char>, value: Json) -> Seq<(Seq<char>, Json)> {
    match first_key_index(entries, key) {
        Some(i) => entries.update(i, (key, value)),
        None => entries.push((key, value)),
    }
}

/// Member assignment `obj[key] = value` (a null value first becomes an empty object).
pub open spec fn json_set(j: Json, key: Seq<char>, value: Json) -> Json {
    match j {
        Json::Object(entries) => Json::Object(set_entry(entries, key, value)),
        _ => Json::Object(seq![(key, value)]),
    }
}

/// Member assignment is defined on objects and on null.
pub open spec fn json_settable(j: Json) -> bool {
    j is Object || j is Null
}

// ---------------------------------------------------------------- rendering

/// What `serde_json::to_string` writes for a JSON value: its compact text,
/// object members in key order.
pub uninterp spec fn json_compact(j: Json) -> Seq<char>;

/// `serde_json::Value`, which the compact text is written from.
#[verifier::external_type_specification]
#[verifier::external_body]
pub struct ExSerdeValue(serde_json::Value);

/// The `serde_json` value of a JSON value, one variant for one (a number is
/// read from its text, and a text that is no number stays a string). The
/// entries of an object go in last first, so that of two entries with one key
/// the first stays, as member lookup reads it.
#[verifier::external_body]
fn serde_value_of(v: &JsonValue) -> serde_json::Value {
    match v {
        JsonValue::Null => serde_json::Value::Null,
        JsonValue::Bool(b) => serde_json::Value::Bool(*b),
        JsonValue::Number(t) => serde_json::from_str::<serde_json::Number>(t)
            .map(serde_json::Value::Number).unwrap_or_else(|_| serde_json::Value::String(t.clone())),
        JsonValue::Str(s) => serde_json::Value::String(s.clone()),
        JsonValue::Array(items) => serde_json::Value::Array(items.iter().map(serde_value_of).collect()),
        JsonValue::Object(entries) => serde_json::Value::Object(
            entries.iter().rev().map(|(k, x)| (k.clone(), serde_value_of(x))).collect()),
    }
}

/// `serde_json::to_string` on the value: its compact text. Writing a value
/// into memory cannot fail, so the error arm is never taken.
#[verifier::external_body]
fn compact_text(v: &JsonValue) -> (res: String)
    ensures
        res@ == json_compact(v@),
{
    serde_json::to_string(&serde_value_of(v)).unwrap_or_default()
}

/// What `serde_json::to_string_pretty` writes for a JSON value: its indented
/// text, object members in key order.
pub uninterp spec fn json_pretty(j: Json) -> Seq<char>;

/// `serde_json::to_string_pretty` on the value: its indented text. Writing a
/// value into memory cannot fail, so the error arm is never taken.
#[verifier::external_body]
pub(crate) fn pretty_text(v: &JsonValue) -> (res: String)
    ensures
        res@ == json_pretty(v@),
{
    serde_json::to_string_pretty(&serde_value_of(v)).unwrap_or_default()
}

/// What `serde_json::from_str::<serde_json::Value>` reads from a text: the JSON
/// value it holds, or nothing where the text is no JSON.
pub uninterp spec fn json_text_value(text: Seq<char>) -> Option<Json>;

/// The JSON value of a `serde_json` value, one variant for one (a number keeps
/// the text `serde_json` writes for it).
#[verifier::external_body]
fn from_serde_value(v: &serde_json::Value) -> JsonValue {
    match v {
        serde_json::Value::Null => JsonValue::Null,
        serde_json::Value::Bool(b) => JsonValue::Bool(*b),
        serde_json::Value::Number(n) => JsonValue::Number(n.to_string()),
        serde_json::Value::String(s) => JsonValue::Str(s.clone()),
        serde_json::Value::Array(items) => JsonValue::Array(items.iter().map(from_serde_value).collect()),
        serde_json::Value::Object(m) => JsonValue::Object(
            m.iter().map(|(k, x)| (k.clone(), from_serde_value(x))).collect()),
    }
}

/// `serde_json::from_str::<serde_json::Value>` on a text: the value it reads,
/// or `None` where the text is no JSON.
#[verifier::external_body]
pub(crate) fn parse_json_text(text: &str) -> (res: Option<JsonValue>)
    ensures
        match res {
            Some(v) => json_text_value(text@) == Some(v@),
            None => json_text_value(text@) is None,
        },
{
    match serde_json::from_str::<serde_json::Value>(text) {
        Ok(v) => Some(from_serde_value(&v)),
        Err(_) => None,
    }
}

impl JsonValue {
    /// A JSON string.
    pub fn string(s: &str) -> (res: JsonValue)
        ensures
            res@ == Json::Str(s@),
    {
        JsonValue::Str(String::from_str(s))
    }

    /// Object member lookup: the value of the first entry with this key.
    pub fn get(&self, key: &str) -> (res: Option<&JsonValue>)
        ensures
            match res {
                Some(v) => json_get(self@, key@) == Some(v@),
                None => json_get(self@, key@) is None,
            },
    {
        match self {
            JsonValue::Object(entries) => {
                let key_s = String::from_str(key);
                let ghost ev = entry_views(entries@, entries@.len());
                proof { lemma_entry_views_len(entries@, entries@.len()); }
                let mut i: usize = 0;
                while i < entries.len()
                    invariant
                        i <= entries@.len(),
                        ev == entry_views(entries@, entries@.len()),
                        ev.len() == entries@.len(),
                        forall|j: int| 0 <= j < entries@.len() ==> #[trigger] ev[j] == (entries@[j].0@, json_view(entries@[j].1)),
                        first_key_index(ev.take(i as int), key@) is None,
                        key_s@ == key@,
                        *self == JsonValue::Object(*entries),
                    decreases entries.len() - i,
                {
                    assert(ev.take(i + 1).drop_last() =~= ev.take(i as int));
                    if entries[i].0 == key_s {
                        proof {
                            lemma_first_key_prefix(ev, key@, (i + 1) as int);
                            assert(self@ == Json::Object(ev));
                        }
                        return Some(&entries[i].1);
                    }
                    i += 1;
                }
                assert(ev.take(i as int) =~= ev);
                None
            },
            _ => None,
        }
    }

    /// The string held by this value, if it is a JSON string.
    pub fn as_str(&self) -> (res: Option<&String>)
        ensures
            match res {
                Some(s) => self@ == Json::Str(s@),
                None => !(self@ is Str),
            },
    {
        match self {
            JsonValue::Str(s) => Some(s),
            _ => None,
        }
    }

    /// The string member `key` of this object, if present and a string.
    pub fn get_str(&self, key: &str) -> (res: Option<String>)
        ensures
            match res {
                Some(s) => json_str(json_get(self@, key@)) == Some(s@),
                None => json_str(json_get(self@, key@)) is None,
            },
    {
        match self.get(key) {
            Some(v) => match v.as_str() {
                Some(s) => Some(s.clone()),
                None => None,
            },
            None => None,
        }
    }

    /// The string members of the array member `key`, if that member is an array.
    pub fn get_string_list(&self, key: &str) -> (res: Option<Vec<String>>)
        ensures
            match res {
                Some(l) => json_string_list(json_get(self@, key@)) == Some(l.deep_view()),
                None => json_string_list(json_get(self@, key@)) is None,
            },
    {
        match self.get(key) {
            Some(v) => match v {
                JsonValue::Array(items) => {
                    let r = string_members_of(items);
                    proof {
                        lemma_json_views_len(items@, items@.len());
                    }
                    Some(r)
                },
                _ => None,
            },
            None => None,
        }
    }

    /// Member assignment `self[key] = value`.
    pub fn set(&mut self, key: &str, value: JsonValue)
        requires
            json_settable(old(self)@),
        ensures
            final(self)@ == json_set(old(self)@, key@, value@),
    {
        let mut cur = JsonValue::Null;
        std::mem::swap(&mut cur, self);
        let ghost vv = value@;
        let entries = match cur {
            JsonValue::Object(entries) => set_in_entries(entries, key, value),
            _ => {
                let mut entries: Vec<(String, JsonValue)> = Vec::new();
                entries.push((String::from_str(key), value));
                proof {
                    lemma_entry_views_len(entries@, entries@.len());
                    assert(entry_views(entries@, entries@.len()) =~= seq![(key@, vv)]);
                }
                entries
            },
        };
        *self = JsonValue::Object(entries);
    }

    /// A copy of this value.
    pub fn copy(&self) -> (res: JsonValue)
        ensures
            res@ == self@,
        decreases self,
    {
        match self {
            JsonValue::Null => JsonValue::Null,
            JsonValue::Bool(b) => JsonValue::Bool(*b),
            JsonValue::Number(t) => JsonValue::Number(t.clone()),
            JsonValue::Str(s) => JsonValue::Str(s.clone()),
            JsonValue::Array(items) => {
                let ghost iv = json_views(items@, items@.len());
                proof { lemma_json_views_len(items@, items@.len()); }
                let mut out: Vec<JsonValue> = Vec::new();
                let mut i: usize = 0;
                while i < items.len()
                    invariant
                        i <= items@.len(),
                        iv == json_views(items@, items@.len()),
                        iv.len() == items@.len(),
                        forall|j: int| 0 <= j < items@.len() ==> #[trigger] iv[j] == json_view(items@[j]),
                        json_views(out@, out@.len()) == iv.take(i as int),
                        out@.len() == i,
                        *self == JsonValue::Array(*items),
                    decreases items.len() - i,
                {
                    proof {
                        assert(decreases_to!(*self => self->Array_0));
                        assert(decreases_to!(self->Array_0 => self->Array_0@));
                        assert(decreases_to!(self->Array_0@ => self->Array_0@[i as int]));
                    }
                    let c = items[i].copy();
                    let ghost before = out@;
                    out.push(c);
                    proof {
                        lemma_json_views_len(before, before.len());
                        lemma_json_views_len(out@, out@.len());
                        assert(json_views(out@, out@.len()) =~= iv.take(i + 1));
                    }
                    i += 1;
                }
                assert(iv.take(i as int) =~= iv);
                JsonValue::Array(out)
            },
            JsonValue::Object(entries) => {
                let ghost ev = entry_views(entries@, entries@.len());
                proof { lemma_entry_views_len(entries@, entries@.len()); }
                let mut out: Vec<(String, JsonValue)> = Vec::new();
                let mut i: usize = 0;
                while i < entries.len()
                    invariant
                        i <= entries@.len(),
                        ev == entry_views(entries@, entries@.len()),
                        ev.len() == entries@.len(),
                        forall|j: int| 0 <= j < entries@.len() ==> #[trigger] ev[j] == (entries@[j].0@, json_view(entries@[j].1)),
                        entry_views(out@, out@.len()) == ev.take(i as int),
                        out@.len() == i,
                        *self == JsonValue::Object(*entries),
                    decreases entries.len() - i,
                {
                    proof {
                        assert(decreases_to!(*self => self->Object_0));
                        assert(decreases_to!(self->Object_0 => self->Object_0@));
                        assert(decreases_to!(self->Object_0@ => self->Object_0@[i as int]));
                        assert(decreases_to!(self->Object_0@[i as int] => self->Object_0@[i as int].1));
                    }
                    let c = entries[i].1.copy();
                    let k = entries[i].0.clone();
                    let ghost before = out@;
                    out.push((k, c));
                    proof {
                        lemma_entry_views_len(before, before.len());
                        lemma_entry_views_len(out@, out@.len());
                        assert(entry_views(out@, out@.len()) =~= ev.take(i + 1));
                    }
                    i += 1;
                }
                assert(ev.take(i as int) =~= ev);
                JsonValue::Object(out)
            },
        }
    }

    /// The compact JSON text of this value (as `serde_json` writes it).
    pub fn to_text(&self) -> (res: String)
        ensures
            res@ == json_compact(self@),
    {
        compact_text(self)
    }
}

proof fn lemma_first_key_prefix(ev: Seq<(Seq<char>, Json)>, key: Seq<char>, n: int)
    requires
        0 < n <= ev.len(),
        first_key_index(ev.take(n - 1), key) is None,
        ev[n - 1].0 == key,
    ensures
        first_key_index(ev, key) == Some(n - 1),
{
    assert(ev.take(n).drop_last() =~= ev.take(n - 1));
    assert(first_key_index(ev.take(n), key) == Some(n - 1));
    lemma_first_key_extend(ev, key, n, n - 1);
}

proof fn lemma_first_key_extend(ev: Seq<(Seq<char>, Json)>, key: Seq<char>, n: int, k: int)
    requires
        0 <= n <= ev.len(),
        first_key_index(ev.take(n), key) == Some(k),
    ensures
        first_key_index(ev, key) == Some(k),
    decreases ev.len() - n,
{
    if n < ev.len() {
        assert(ev.take(n + 1).drop_last() =~= ev.take(n));
        lemma_first_key_extend(ev, key, n + 1, k);
    } else {
        assert(ev.take(n) =~= ev);
    }
}

/// `entries` with the value of `key` replaced, or a new entry appended.
fn set_in_entries(input: Vec<(String, JsonValue)>, key: &str, value: JsonValue) -> (res: Vec<(String, JsonValue)>)
    ensures
        entry_views(res@, res@.len()) == set_entry(entry_views(input@, input@.len()), key@, value@),
{
    let mut entries = input;
    let key_s = String::from_str(key);
    let ghost old_entries = entries@;
    let ghost ev = entry_views(entries@, entries@.len());
    let ghost vv = value@;
    proof { lemma_entry_views_len(entries@, entries@.len()); }
    let mut i: usize = 0;
    while i < entries.len()
        invariant
            i <= entries@.len(),
            entries@ == old_entries,
            ev == entry_views(old_entries, old_entries.len()),
            ev.len() == old_entries.len(),
            forall|j: int| 0 <= j < old_entries.len() ==> #[trigger] ev[j] == (old_entries[j].0@, json_view(old_entries[j].1)),
            first_key_index(ev.take(i as int), key@) is None,
            key_s@ == key@,
            vv == value@,
            old_entries == input@,
        decreases entries.len() - i,
    {
        assert(ev.take(i + 1).drop_last() =~= ev.take(i as int));
        if entries[i].0 == key_s {
            proof {
                lemma_first_key_prefix(ev, key@, (i + 1) as int);
            }
            let ghost new_pair = (key_s, value);
            entries.set(i, (key_s, value));
            proof {
                assert(entries@ == old_entries.update(i as int, new_pair));
                lemma_entry_views_len(entries@, entries@.len());
                assert(entry_views(entries@, entries@.len()) =~= ev.update(i as int, (key@, vv)));
                assert(first_key_index(ev, key@) == Some(i as int));
                assert(set_entry(ev, key@, vv) == ev.update(i as int, (key@, vv)));
            }
            return entries;
        }
        i += 1;
    }
    assert(ev.take(i as int) =~= ev);
    entries.push((key_s, value));
    proof {
        lemma_entry_views_len(entries@, entries@.len());
        assert(entry_views(entries@, entries@.len()) =~= ev.push((key@, vv)));
    }
    entries
}

/// The string members of a vector of JSON values, in order.
fn string_members_of(items: &Vec<JsonValue>) -> (res: Vec<String>)
    ensures
        res.deep_view() == string_members(json_views(items@, items@.len())),
{
    let ghost iv = json_views(items@, items@.len());
    proof { lemma_json_views_len(items@, items@.len()); }
    let mut res: Vec<String> = Vec::new();
    let mut i: usize = 0;
    while i < items.len()
        invariant
            i <= items@.len(),
            iv == json_views(items@, items@.len()),
            iv.len() == items@.len(),
            forall|j: int| 0 <= j < items@.len() ==> #[trigger] iv[j] == json_view(items@[j]),
            res.deep_view() == string_members(iv.take(i as int)),
        decreases items.len() - i,
    {
        assert(iv.take(i + 1).drop_last() =~= iv.take(i as int));
        assert(iv.take(i + 1).last() == iv[i as int]);
        match &items[i] {
            JsonValue::Str(s) => {
                res.push(s.clone());
                assert(res.deep_view() =~= string_members(iv.take(i as int)).push(s@));
            },
            _ => {},
        }
        i += 1;
    }
    assert(iv.take(i as int) =~= iv);
    res
}

/// A JSON array of strings.
pub open spec fn json_strings(items: Seq<Seq<char>>) -> Json {
    Json::Array(Seq::new(items.len(), |i: int| Json::Str(items[i])))
}

/// The JSON array of the given strings, in order.
pub fn string_array(items: &Vec<String>) -> (res: JsonValue)
    ensures
        res@ == json_strings(items.deep_view()),
{
    let ghost target = json_strings(items.deep_view());
    let mut out: Vec<JsonValue> = Vec::new();
    let mut i: usize = 0;
    while i < items.len()
        invariant
            i <= items@.len(),
            out@.len() == i,
            target == json_strings(items.deep_view()),
            json_views(out@, out@.len()) == target->Array_0.take(i as int),
        decreases items.len() - i,
    {
        let ghost before = out@;
        let c = items[i].clone();
        out.push(JsonValue::Str(c));
        proof {
            lemma_json_views_len(before, before.len());
            lemma_json_views_len(out@, out@.len());
            assert(c@ == items.deep_view()[i as int]);
            assert(json_views(out@, out@.len()) =~= target->Array_0.take(i + 1));
        }
        i += 1;
    }
    proof {
        lemma_json_views_len(out@, out@.len());
        assert(target->Array_0.take(i as int) =~= target->Array_0);
    }
    JsonValue::Array(out)
}

/// Reading back the string members of an array of strings gives the strings.
pub proof fn lemma_string_members_of_strings(items: Seq<Seq<char>>)
    ensures
        json_string_list(Some(json_strings(items))) == Some(items),
    decreases items.len(),
{
    let a = json_strings(items)->Array_0;
    if items.len() > 0 {
        lemma_string_members_of_strings(items.drop_last());
        assert(a.drop_last() =~= json_strings(items.drop_last())->Array_0);
        assert(string_members(a) =~= items);
    } else {
        assert(string_members(a) =~= items);
    }
}

/// `first_key_index` finds the first entry with the key, or none when no entry
/// has it.
proof fn lemma_first_key_index_spec(e: Seq<(Seq<char>, Json)>, key: Seq<char>)
    ensures
        match first_key_index(e, key) {
            Some(i) => 0 <= i < e.len() && e[i].0 == key && forall|j: int| 0 <= j < i ==> #[trigger] e[j].0 != key,
            None => forall|j: int| 0 <= j < e.len() ==> #[trigger] e[j].0 != key,
        },
    decreases e.len(),
{
    if e.len() > 0 {
        lemma_first_key_index_spec(e.drop_last(), key);
        assert forall|j: int| 0 <= j < e.len() - 1 implies #[trigger] e[j] == e.drop_last()[j] by {}
    }
}

/// The entry index `first_key_index` gives is determined by the keys alone.
proof fn lemma_first_key_index_same_keys(e: Seq<(Seq<char>, Json)>, f: Seq<(Seq<char>, Json)>, key: Seq<char>)
    requires
        e.len() == f.len(),
        forall|j: int| 0 <= j < e.len() ==> #[trigger] e[j].0 == f[j].0,
    ensures
        first_key_index(e, key) == first_key_index(f, key),
{
    lemma_first_key_index_spec(e, key);
    lemma_first_key_index_spec(f, key);
    match first_key_index(e, key) {
        Some(i) => match first_key_index(f, key) {
            Some(k) => {
                if i < k { assert(f[i].0 == key); } else if k < i { assert(e[k].0 == key); }
            },
            None => { assert(f[i].0 == key); },
        },
        None => match first_key_index(f, key) {
            Some(k) => { assert(e[k].0 == key); },
            None => {},
        },
    }
}

/// Reading back a member just assigned gives the assigned value; every other
/// member reads as before.
pub proof fn lemma_json_set_get(j: Json, key: Seq<char>, value: Json, other: Seq<char>)
    requires
        json_settable(j),
        other != key,
    ensures
        json_get(json_set(j, key, value), key) == Some(value),
        json_get(json_set(j, key, value), other) == json_get(j, other),
{
    match j {
        Json::Object(e) => {
            lemma_first_key_index_spec(e, key);
            lemma_first_key_index_spec(e, other);
            let t = set_entry(e, key, value);
            match first_key_index(e, key) {
                Some(i) => {
                    assert(t == e.update(i, (key, value)));
                    assert forall|m: int| 0 <= m < e.len() implies #[trigger] e[m].0 == t[m].0 by {}
                    lemma_first_key_index_same_keys(e, t, key);
                    lemma_first_key_index_same_keys(e, t, other);
                    assert(t[i] == (key, value));
                    assert(json_set(j, key, value) == Json::Object(t));
                    assert(first_key_index(t, key) == Some(i));
                    assert(json_get(Json::Object(t), key) == Some(value));
                    match first_key_index(e, other) {
                        Some(i2) => {
                            assert(i2 != i);
                            assert(t[i2] == e[i2]);
                        },
                        None => {},
                    }
                },
                None => {
                    assert(t == e.push((key, value)));
                    assert(t.drop_last() =~= e);
                    assert(json_set(j, key, value) == Json::Object(t));
                    assert(first_key_index(t, key) == Some(e.len() as int));
                    match first_key_index(e, other) {
                        Some(i2) => {
                            assert(first_key_index(t, other) == Some(i2));
                            assert(t[i2] == e[i2]);
                        },
                        None => {
                            assert(first_key_index(t, other) is None);
                        },
                    }
                },
            }
        },
        _ => {
            let t = seq![(key, value)];
            assert(t.drop_last() =~= Seq::<(Seq<char>, Json)>::empty());
            assert(json_set(j, key, value) == Json::Object(t));
            assert(first_key_index(Seq::<(Seq<char>, Json)>::empty(), key) is None);
            assert(first_key_index(Seq::<(Seq<char>, Json)>::empty(), other) is None);
            assert(first_key_index(t, key) == Some(0int));
            assert(first_key_index(t, other) is None);
        },
    }
}

} // verus!
