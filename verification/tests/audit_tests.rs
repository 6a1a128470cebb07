use agile_inc::json::JsonValue;
use agile_inc::audit::{
    doc_detail, doc_detail_view, stored_value, doc_id_from_key, doc_ids_from_keys, doc_summary_from_fields, html_escape, keep_status, plan_listing,
    render_doc_detail, render_docs_table, render_error, render_status, render_stream, sort_by_updated_desc,
    status_class, AuditError, DocChangeDetector, DocSummary, ListPlan, MqttError, MqttMessage, MqttSubscriber,
};

fn summary(id: &str, status: &str, updated: &str) -> DocSummary {
    DocSummary {
        id: id.to_string(),
        doc_type: "story".to_string(),
        title: format!("T {}", id),
        status: status.to_string(),
        owner_role: "po".to_string(),
        created_at: String::new(),
        updated_at: updated.to_string(),
    }
}

fn msg(topic: &str, payload: &str) -> MqttMessage {
    MqttMessage { topic: topic.to_string(), payload: payload.to_string(), ts: "t".to_string() }
}

#[test]
fn error_messages() {
    assert_eq!(AuditError::Redis("down".into()).message(), "Redis error: down");
    assert_eq!(AuditError::NotFound("x".into()).message(), "Not found: x");
    assert_eq!(AuditError::Serde("bad".into()).message(), "Serialization error: bad");
    assert_eq!(MqttError::Mqtt("lost".into()).message(), "MQTT error: lost");
    assert_eq!(render_error(&AuditError::NotFound("d1".into())), "<p>Error: Not found: d1</p>");
}

#[test]
fn summaries_take_the_last_value_and_defaults() {
    let fields = vec![
        ("title".to_string(), "First".to_string()),
        ("status".to_string(), "draft".to_string()),
        ("title".to_string(), "Second".to_string()),
        ("extra".to_string(), "ignored".to_string()),
    ];
    let s = doc_summary_from_fields("d1", &fields);
    assert_eq!(s.id, "d1");
    assert_eq!(s.title, "Second");
    assert_eq!(s.status, "draft");
    assert_eq!(s.doc_type, "unknown");
    assert_eq!(s.owner_role, "unknown");
    assert_eq!(s.updated_at, "");
    let empty = doc_summary_from_fields("d2", &vec![]);
    assert_eq!(empty.title, "(no title)");
}

#[test]
fn listing_plans() {
    match plan_listing(Some("bug"), Some("open")) {
        ListPlan::ByType { index_key, status } => {
            assert_eq!(index_key, "docs:index:type:bug");
            assert_eq!(status, Some("open".to_string()));
        },
        _ => panic!("expected a type listing"),
    }
    match plan_listing(None, Some("ready")) {
        ListPlan::ByStatus { index_keys } => {
            assert_eq!(index_keys.len(), 7);
            assert_eq!(index_keys[0], "docs:index:status:story:ready");
            assert_eq!(index_keys[6], "docs:index:status:runlog:ready");
        },
        _ => panic!("expected a status listing"),
    }
    assert!(matches!(plan_listing(None, None), ListPlan::All { pattern } if pattern == "doc:*"));
}

#[test]
fn keys_to_ids() {
    assert_eq!(doc_id_from_key("doc:abc"), Some("abc".to_string()));
    assert_eq!(doc_id_from_key("doc:abc:version"), None);
    assert_eq!(doc_id_from_key("docs:index:type:bug"), None);
    let keys = vec!["doc:1".to_string(), "x".to_string(), "doc:2:version".to_string(), "doc:3".to_string()];
    assert_eq!(doc_ids_from_keys(&keys), vec!["1".to_string(), "3".to_string()]);
}

#[test]
fn listings_are_latest_first_and_stable() {
    let docs = vec![
        summary("a", "ready", "2024-01-01"),
        summary("b", "ready", "2024-03-01"),
        summary("c", "draft", "2024-01-01"),
        summary("d", "ready", "2024-02-01"),
    ];
    let sorted = sort_by_updated_desc(docs);
    let ids: Vec<&str> = sorted.iter().map(|d| d.id.as_str()).collect();
    assert_eq!(ids, vec!["b", "d", "a", "c"]);
    let ready = keep_status(sorted, Some("ready"));
    let ids: Vec<&str> = ready.iter().map(|d| d.id.as_str()).collect();
    assert_eq!(ids, vec!["b", "d", "a"]);
    assert_eq!(keep_status(ready, None).len(), 3);
}

#[test]
fn status_classes() {
    for s in ["ready", "completed", "passed"] {
        assert_eq!(status_class(s), "status-success");
    }
    for s in ["failed", "error", "open"] {
        assert_eq!(status_class(s), "status-error");
    }
    assert_eq!(status_class("in_progress"), "status-warning");
    assert_eq!(status_class("draft"), "");
}

#[test]
fn escaping() {
    assert_eq!(html_escape("<a href=\"x\">&</a>"), "&lt;a href=&quot;x&quot;&gt;&amp;&lt;/a&gt;");
    assert_eq!(html_escape("plain 'text'"), "plain 'text'");
    let esc = html_escape("<<>>\"\"");
    assert!(!esc.contains('<') && !esc.contains('>') && !esc.contains('"'));
}

#[test]
fn docs_table() {
    let d = summary("0123456789abcdef", "ready", "2024-05-06T07:08:09.123Z");
    let html = render_docs_table(&vec![d]);
    assert_eq!(
        html,
        "<table class=\"striped\"><thead><tr><th>ID</th><th>Type</th><th>Title</th><th>Status</th><th>Owner</th><th>Updated</th></tr></thead><tbody>\
<tr hx-get=\"/api/docs/0123456789abcdef\" hx-target=\"#doc-detail\" hx-swap=\"innerHTML\" style=\"cursor:pointer\"><td>01234567</td><td><span class=\"tag\">story</span></td><td>T 0123456789abcdef</td><td><span class=\"status-success\">ready</span></td><td>po</td><td>2024-05-06T07:08:09</td></tr>\
</tbody></table>"
    );
    assert_eq!(
        render_docs_table(&vec![]),
        "<table class=\"striped\"><thead><tr><th>ID</th><th>Type</th><th>Title</th><th>Status</th><th>Owner</th><th>Updated</th></tr></thead><tbody></tbody></table>"
    );
}

#[test]
fn detail_and_status_views() {
    assert_eq!(render_doc_detail("{}"), "<pre><code>{}</code></pre>");
    let s = render_status(true, false);
    assert_eq!(
        s,
        "<div class=\"grid\" style=\"grid-template-columns: 1fr 1fr; gap: 8px;\">\n            <div><span class=\"status-success\">●</span> Redis: Connected</div>\n            <div><span class=\"status-error\">●</span> MQTT: Disconnected</div>\n        </div>"
    );
}

#[test]
fn stream_view() {
    let long = "x".repeat(150);
    let msgs = vec![msg("t/new", "<b>"), msg("t/old", &long)];
    let html = render_stream(&msgs, 7);
    let expected = format!(
        "<div data-msg-count=\"7\"><div class=\"mqtt-msg\"><span class=\"topic\">t/old</span> <span class=\"payload\">{}...</span></div><div class=\"mqtt-msg\"><span class=\"topic\">t/new</span> <span class=\"payload\">&lt;b&gt;</span></div></div>",
        "x".repeat(100)
    );
    assert_eq!(html, expected);
    assert_eq!(render_stream(&vec![], 0), "<div data-msg-count=\"0\"><p>Waiting for messages...</p></div>");
}

#[test]
fn message_buffer_keeps_the_latest_thousand() {
    let mut sub = MqttSubscriber::new();
    assert!(sub.get_messages(10).is_empty());
    for i in 0..1005 {
        sub.record(msg("t", &i.to_string()));
    }
    let all = sub.get_messages(5000);
    assert_eq!(all.len(), 1000);
    assert_eq!(all[0].payload, "1004");
    assert_eq!(all[999].payload, "5");
    let two = sub.get_messages(2);
    assert_eq!(two.iter().map(|m| m.payload.as_str()).collect::<Vec<_>>(), vec!["1004", "1003"]);
    sub.clear_messages();
    assert!(sub.get_messages(10).is_empty());
    sub.record(msg("t", "again"));
    assert_eq!(sub.get_messages(1)[0].payload, "again");
}

#[test]
fn change_detector_reports_new_documents_once() {
    let mut det = DocChangeDetector::new();
    let keys = vec!["doc:a".to_string(), "doc:a:version".to_string(), "doc:b".to_string(), "doc:a".to_string()];
    assert_eq!(det.scan(&keys), vec!["a".to_string(), "b".to_string()]);
    assert!(det.scan(&keys).is_empty());
    let more = vec!["doc:b".to_string(), "doc:c".to_string()];
    assert_eq!(det.scan(&more), vec!["c".to_string()]);
}

fn pairs(items: &[(&str, &str)]) -> Vec<(String, String)> {
    items.iter().map(|(k, v)| (k.to_string(), v.to_string())).collect()
}

#[test]
fn detail_reads_json_values_and_keeps_other_text() {
    let doc = doc_detail(&pairs(&[
        ("title", "Hello"),
        ("version", "3"),
        ("tags", "[\"a\",\"b\"]"),
        ("fields", "{\"k\":true}"),
    ]));
    assert_eq!(doc.get_str("title"), Some("Hello".to_string()));
    assert!(matches!(doc.get("version"), Some(JsonValue::Number(n)) if n == "3"));
    assert_eq!(doc.get_string_list("tags"), Some(vec!["a".to_string(), "b".to_string()]));
    let fields = doc.get("fields").unwrap();
    assert!(matches!(fields.get("k"), Some(JsonValue::Bool(true))));
}

#[test]
fn detail_later_pair_replaces_earlier() {
    let doc = doc_detail(&pairs(&[("status", "draft"), ("id", "s-1"), ("status", "done")]));
    assert_eq!(doc.get_str("status"), Some("done".to_string()));
    match &doc {
        JsonValue::Object(entries) => assert_eq!(entries.len(), 2),
        _ => panic!("expected an object"),
    }
}

#[test]
fn detail_of_no_pairs_is_empty_object() {
    assert_eq!(doc_detail_view(&Vec::new()), "<pre><code>{}</code></pre>");
}

#[test]
fn detail_view_is_indented_json() {
    let html = doc_detail_view(&pairs(&[("b", "x"), ("a", "1")]));
    assert_eq!(html, "<pre><code>{\n  \"a\": 1,\n  \"b\": \"x\"\n}</code></pre>");
}

#[test]
fn stored_value_prefers_parsed_json() {
    let t = "42".to_string();
    assert!(matches!(stored_value(&t, Some(JsonValue::Number("42".to_string()))), JsonValue::Number(n) if n == "42"));
    assert!(matches!(stored_value(&t, None), JsonValue::Str(s) if s == "42"));
}
