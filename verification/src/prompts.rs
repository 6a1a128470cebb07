//! The prompts the agents send to the language model.
use vstd::prelude::*;
use crate::json::{Json, JsonValue, json_get, json_compact, json_views, lemma_json_views_len};
use crate::text::{decimal, push_decimal, push_str};
use crate::types::Doc;

verus! {

/// What `format!("{:?}", list)` gives for a list of strings.
pub uninterp spec fn debug_string_list(items: Seq<Seq<char>>) -> Seq<char>;

/// `format!("{:?}", items)`: the `Debug` text of a list of strings.
#[verifier::external_body]
pub(crate) fn debug_list(items: &Vec<String>) -> (res: String)
    ensures
        res@ == debug_string_list(items.deep_view()),
{
    format!("{:?}", items)
}

/// The line `  {n}. {text}`.
pub open spec fn numbered_line(n: nat, text: Seq<char>) -> Seq<char> {
    "  "@ + decimal(n) + ". "@ + text + "\n"@
}

/// The numbered lines of the string members among the first `n` members of a
/// JSON array; members keep their position number, non-strings print nothing.
pub open spec fn numbered_members(items: Seq<Json>, n: nat) -> Seq<char>
    decreases n,
{
    if n == 0 || n > items.len() {
        Seq::empty()
    } else {
        numbered_members(items, (n - 1) as nat) + match items[n - 1] {
            Json::Str(s) => numbered_line(n, s),
            _ => Seq::empty(),
        }
    }
}

/// The numbered lines of the first `n` strings of `items`.
pub open spec fn numbered_strings(items: Seq<Seq<char>>, n: nat) -> Seq<char>
    decreases n,
{
    if n == 0 || n > items.len() {
        Seq::empty()
    } else {
        numbered_strings(items, (n - 1) as nat) + numbered_line(n, items[n - 1])
    }
}

/// A titled list taken from the array member `key` of `fields`, or nothing
/// when that member is missing or not an array.
pub open spec fn list_section(heading: Seq<char>, fields: Json, key: Seq<char>) -> Seq<char> {
    match json_get(fields, key) {
        Some(Json::Array(items)) => heading + numbered_members(items, items.len()) + "\n"@,
        _ => Seq::empty(),
    }
}

/// A titled JSON value taken from the member `key` of `fields`, or nothing.
pub open spec fn value_section(heading: Seq<char>, fields: Json, key: Seq<char>, tail: Seq<char>) -> Seq<char> {
    match json_get(fields, key) {
        Some(v) => heading + json_compact(v) + tail,
        None => Seq::empty(),
    }
}

/// The rule line of the prompts.
pub open spec fn rule() -> Seq<char> {
    "===========================================\n"@
}

/// The identification block of a document: id, title and description.
pub open spec fn doc_block(label: Seq<char>, d: Doc) -> Seq<char> {
    label + d.id@ + "\n"@ + "Title: "@ + d.title@ + "\n\n"@ + "Description:\n"@ + d.body@ + "\n\n"@
}

/// The developer's implementation prompt for a story.
pub open spec fn dev_prompt(story: Doc, gates: Seq<Seq<char>>) -> Seq<char> {
    rule() + "        DEV AGENT - IMPLEMENTATION\n"@ + rule() + "\n"@
        + doc_block("Story ID: "@, story)
        + list_section("Acceptance Criteria:\n"@, story.fields@, "acceptance_criteria"@)
        + "Definition of Done (must pass):\n"@ + numbered_strings(gates, gates.len()) + "\n"@
        + rule() + "        NEXT ACTIONS FOR DEV\n"@ + rule()
        + "1. Analyze the story and acceptance criteria\n"@
        + "2. Implement the required changes\n"@
        + "3. Run all DoD gates (tests, lints, etc.)\n"@
        + "4. Check change budget is within limits\n"@
        + "5. If all gates pass → emit 'build.done'\n"@
        + "6. If budget exceeded → emit 'dev.needs_approval'\n"@
        + rule()
}

/// The developer's bug-fix prompt.
pub open spec fn fix_prompt(bug: Doc) -> Seq<char> {
    rule() + "        DEV AGENT - BUG FIX\n"@ + rule() + "\n"@
        + doc_block("Bug ID: "@, bug)
        + value_section("Reproduction Steps:\n"@, bug.fields@, "repro_steps"@, "\n\n"@)
        + rule() + "        NEXT ACTIONS FOR DEV\n"@ + rule()
        + "1. Understand and reproduce the bug\n"@
        + "2. Implement the fix\n"@
        + "3. Run tests to verify fix works\n"@
        + "4. Ensure no regressions\n"@
        + "5. Emit 'bug.fixed' event when done\n"@
        + rule()
}

/// The linked-documents line of a story, or nothing when it has no links.
pub open spec fn links_section(story: Doc) -> Seq<char> {
    if story.links@.len() == 0 {
        Seq::empty()
    } else {
        "Linked Documents: "@ + debug_string_list(story.links.deep_view()) + "\n\n"@
    }
}

/// The product owner's story-analysis prompt.
pub open spec fn po_prompt(story: Doc) -> Seq<char> {
    rule() + "        PO AGENT - STORY ANALYSIS\n"@ + rule() + "\n"@
        + doc_block("Story ID: "@, story)
        + list_section("Acceptance Criteria:\n"@, story.fields@, "acceptance_criteria"@)
        + list_section("Definition of Done (DoD):\n"@, story.fields@, "definition_of_done"@)
        + links_section(story)
        + rule() + "        NEXT ACTIONS FOR PO\n"@ + rule()
        + "1. Review the story for completeness\n"@
        + "2. Ensure acceptance criteria are testable\n"@
        + "3. Verify DoD gates are machine-executable\n"@
        + "4. Publish 'story.ready' event when ready\n"@
        + rule()
}

/// The product owner's prompt for creating a story.
pub open spec fn story_creation_prompt(title: Seq<char>, description: Seq<char>, requested_by: Seq<char>) -> Seq<char> {
    rule() + "        CREATE NEW STORY\n"@ + rule() + "\n"@
        + "Title: "@ + title + "\n"@
        + "Description: "@ + description + "\n"@
        + "Requested by: "@ + requested_by + "\n\n"@
        + "Please create a well-structured story with:\n"@
        + "  1. Clear title and description\n"@
        + "  2. Specific acceptance criteria\n"@
        + "  3. Definition of Done (DoD) gates\n\n"@
}

/// The result lines of the gates `results[0..n]`.
pub open spec fn gate_lines(results: Seq<(Seq<char>, bool, Seq<char>)>, n: nat) -> Seq<char>
    decreases n,
{
    if n == 0 || n > results.len() {
        Seq::empty()
    } else {
        let (gate, passed, output) = results[n - 1];
        gate_lines(results, (n - 1) as nat) + "  "@ + (if passed { "✓ PASS"@ } else { "✗ FAIL"@ })
            + " "@ + gate + "\n    "@ + output + "\n"@
    }
}

/// Every gate passed.
pub open spec fn all_gates_passed(results: Seq<(Seq<char>, bool, Seq<char>)>) -> bool {
    forall|i: int| 0 <= i < results.len() ==> (#[trigger] results[i]).1
}

/// The view of gate results.
pub open spec fn gate_results_view(results: Seq<(String, bool, String)>) -> Seq<(Seq<char>, bool, Seq<char>)> {
    Seq::new(results.len(), |i: int| (results[i].0@, results[i].1, results[i].2@))
}

/// The QA agent's prompt reporting gate results for a story.
pub open spec fn qa_prompt(story: Doc, results: Seq<(Seq<char>, bool, Seq<char>)>) -> Seq<char> {
    rule() + "        QA AGENT - TEST RESULTS\n"@ + rule() + "\n"@
        + "Story ID: "@ + story.id@ + "\n"@ + "Title: "@ + story.title@ + "\n\n"@
        + "DoD Gate Results:\n"@ + gate_lines(results, results.len()) + "\n"@
        + (if all_gates_passed(results) {
            "Result: ALL GATES PASSED\n"@ + "Action: Emit 'test.pass' event to PO\n"@
        } else {
            "Result: SOME GATES FAILED\n"@ + "Action: Create bug document, emit 'bug.new' to Dev\n"@
        })
        + rule() + "        NEXT ACTIONS FOR QA\n"@ + rule()
        + "1. Review gate results\n"@
        + "2. If failed → create bug doc + emit 'bug.new'\n"@
        + "3. If passed → emit 'test.pass'\n"@
        + "4. Update runlog with results\n"@
        + rule()
}

/// The QA agent's bug-verification prompt.
pub open spec fn verification_prompt(bug: Doc) -> Seq<char> {
    rule() + "        QA AGENT - BUG VERIFICATION\n"@ + rule() + "\n"@
        + doc_block("Bug ID: "@, bug)
        + value_section("Related Story: "@, bug.fields@, "story_id"@, "\n"@)
        + rule() + "        NEXT ACTIONS FOR QA\n"@ + rule()
        + "1. Verify the fix works as expected\n"@
        + "2. Run regression tests\n"@
        + "3. If fixed → emit 'bug.closed'\n"@
        + "4. If still failing → emit 'bug.still_open'\n"@
        + rule()
}

// ---------------------------------------------------------------- building blocks

fn push_rule(out: &mut String)
    ensures
        final(out)@ == old(out)@ + rule(),
{
    push_str(out, "===========================================\n");
}

fn push_banner(out: &mut String, title: &str)
    ensures
        final(out)@ == old(out)@ + rule() + title@ + rule(),
{
    push_rule(out);
    push_str(out, title);
    push_rule(out);
}

fn push_doc_block(out: &mut String, label: &str, d: &Doc)
    ensures
        final(out)@ == old(out)@ + doc_block(label@, *d),
{
    push_str(out, label);
    push_str(out, d.id.as_str());
    push_str(out, "\n");
    push_str(out, "Title: ");
    push_str(out, d.title.as_str());
    push_str(out, "\n\n");
    push_str(out, "Description:\n");
    push_str(out, d.body.as_str());
    push_str(out, "\n\n");
}

fn push_numbered_line(out: &mut String, n: usize, text: &str)
    ensures
        final(out)@ == old(out)@ + numbered_line(n as nat, text@),
{
    push_str(out, "  ");
    push_decimal(out, n as u128);
    push_str(out, ". ");
    push_str(out, text);
    push_str(out, "\n");
}

fn push_list_section(out: &mut String, heading: &str, fields: &JsonValue, key: &str)
    ensures
        final(out)@ == old(out)@ + list_section(heading@, fields@, key@),
{
    match fields.get(key) {
        Some(v) => match v {
            JsonValue::Array(items) => {
                let ghost iv = json_views(items@, items@.len());
                proof { lemma_json_views_len(items@, items@.len()); }
                push_str(out, heading);
                let ghost start = out@;
                let mut i: usize = 0;
                while i < items.len()
                    invariant
                        i <= items@.len(),
                        iv == json_views(items@, items@.len()),
                        iv.len() == items@.len(),
                        forall|j: int| 0 <= j < items@.len() ==> #[trigger] iv[j] == crate::json::json_view(items@[j]),
                        out@ == start + numbered_members(iv, i as nat),
                    decreases items.len() - i,
                {
                    match &items[i] {
                        JsonValue::Str(s) => {
                            push_numbered_line(out, i + 1, s.as_str());
                        },
                        _ => {},
                    }
                    assert(out@ =~= start + numbered_members(iv, (i + 1) as nat));
                    i += 1;
                }
                push_str(out, "\n");
            },
            _ => {},
        },
        None => {},
    }
}

fn push_value_section(out: &mut String, heading: &str, fields: &JsonValue, key: &str, tail: &str)
    ensures
        final(out)@ == old(out)@ + value_section(heading@, fields@, key@, tail@),
{
    match fields.get(key) {
        Some(v) => {
            push_str(out, heading);
            let t = v.to_text();
            push_str(out, t.as_str());
            push_str(out, tail);
        },
        None => {},
    }
}

// ---------------------------------------------------------------- prompts

/// The developer's implementation prompt: the story, its acceptance criteria
/// (when `fields` holds them) and the numbered definition-of-done gates.
pub fn generate_dev_prompt(story: &Doc, dod_gates: &[String]) -> (res: String)
    ensures
        res@ == dev_prompt(*story, dod_gates@.map_values(|g: String| g@)),
{
    let ghost gates = dod_gates@.map_values(|g: String| g@);
    let mut p = String::new();
    push_banner(&mut p, "        DEV AGENT - IMPLEMENTATION\n");
    push_str(&mut p, "\n");
    push_doc_block(&mut p, "Story ID: ", story);
    push_list_section(&mut p, "Acceptance Criteria:\n", &story.fields, "acceptance_criteria");
    push_str(&mut p, "Definition of Done (must pass):\n");
    let ghost start = p@;
    let mut i: usize = 0;
    while i < dod_gates.len()
        invariant
            i <= dod_gates@.len(),
            gates == dod_gates@.map_values(|g: String| g@),
            p@ == start + numbered_strings(gates, i as nat),
        decreases dod_gates.len() - i,
    {
        push_numbered_line(&mut p, i + 1, dod_gates[i].as_str());
        assert(p@ =~= start + numbered_strings(gates, (i + 1) as nat));
        i += 1;
    }
    push_str(&mut p, "\n");
    push_banner(&mut p, "        NEXT ACTIONS FOR DEV\n");
    push_str(&mut p, "1. Analyze the story and acceptance criteria\n");
    push_str(&mut p, "2. Implement the required changes\n");
    push_str(&mut p, "3. Run all DoD gates (tests, lints, etc.)\n");
    push_str(&mut p, "4. Check change budget is within limits\n");
    push_str(&mut p, "5. If all gates pass → emit 'build.done'\n");
    push_str(&mut p, "6. If budget exceeded → emit 'dev.needs_approval'\n");
    push_rule(&mut p);
    assert(p@ =~= dev_prompt(*story, gates));
    p
}

/// The developer's bug-fix prompt: the bug and its reproduction steps (the JSON
/// text of `fields.repro_steps`, when present).
pub fn generate_fix_prompt(bug: &Doc) -> (res: String)
    ensures
        res@ == fix_prompt(*bug),
{
    let mut p = String::new();
    push_banner(&mut p, "        DEV AGENT - BUG FIX\n");
    push_str(&mut p, "\n");
    push_doc_block(&mut p, "Bug ID: ", bug);
    push_value_section(&mut p, "Reproduction Steps:\n", &bug.fields, "repro_steps", "\n\n");
    push_banner(&mut p, "        NEXT ACTIONS FOR DEV\n");
    push_str(&mut p, "1. Understand and reproduce the bug\n");
    push_str(&mut p, "2. Implement the fix\n");
    push_str(&mut p, "3. Run tests to verify fix works\n");
    push_str(&mut p, "4. Ensure no regressions\n");
    push_str(&mut p, "5. Emit 'bug.fixed' event when done\n");
    push_rule(&mut p);
    assert(p@ =~= fix_prompt(*bug));
    p
}

/// The product owner's analysis prompt: the story, its acceptance criteria and
/// definition of done (when `fields` holds them) and its links.
pub fn generate_po_prompt(story: &Doc) -> (res: String)
    ensures
        res@ == po_prompt(*story),
{
    let mut p = String::new();
    push_banner(&mut p, "        PO AGENT - STORY ANALYSIS\n");
    push_str(&mut p, "\n");
    push_doc_block(&mut p, "Story ID: ", story);
    push_list_section(&mut p, "Acceptance Criteria:\n", &story.fields, "acceptance_criteria");
    push_list_section(&mut p, "Definition of Done (DoD):\n", &story.fields, "definition_of_done");
    if story.links.len() > 0 {
        push_str(&mut p, "Linked Documents: ");
        let l = debug_list(&story.links);
        push_str(&mut p, l.as_str());
        push_str(&mut p, "\n\n");
    }
    push_banner(&mut p, "        NEXT ACTIONS FOR PO\n");
    push_str(&mut p, "1. Review the story for completeness\n");
    push_str(&mut p, "2. Ensure acceptance criteria are testable\n");
    push_str(&mut p, "3. Verify DoD gates are machine-executable\n");
    push_str(&mut p, "4. Publish 'story.ready' event when ready\n");
    push_rule(&mut p);
    assert(p@ =~= po_prompt(*story));
    p
}

/// The product owner's prompt for creating a story from a request.
pub fn generate_story_creation_prompt(title: &str, description: &str, requested_by: &str) -> (res: String)
    ensures
        res@ == story_creation_prompt(title@, description@, requested_by@),
{
    let mut p = String::new();
    push_banner(&mut p, "        CREATE NEW STORY\n");
    push_str(&mut p, "\n");
    push_str(&mut p, "Title: ");
    push_str(&mut p, title);
    push_str(&mut p, "\n");
    push_str(&mut p, "Description: ");
    push_str(&mut p, description);
    push_str(&mut p, "\n");
    push_str(&mut p, "Requested by: ");
    push_str(&mut p, requested_by);
    push_str(&mut p, "\n\n");
    push_str(&mut p, "Please create a well-structured story with:\n");
    push_str(&mut p, "  1. Clear title and description\n");
    push_str(&mut p, "  2. Specific acceptance criteria\n");
    push_str(&mut p, "  3. Definition of Done (DoD) gates\n\n");
    assert(p@ =~= story_creation_prompt(title@, description@, requested_by@));
    p
}

/// The QA agent's report prompt: each gate with its status and output, the
/// overall result and the action it implies.
pub fn generate_qa_prompt(story: &Doc, gate_results: &[(String, bool, String)]) -> (res: String)
    ensures
        res@ == qa_prompt(*story, gate_results_view(gate_results@)),
{
    let ghost results = gate_results_view(gate_results@);
    let mut p = String::new();
    push_banner(&mut p, "        QA AGENT - TEST RESULTS\n");
    push_str(&mut p, "\n");
    push_str(&mut p, "Story ID: ");
    push_str(&mut p, story.id.as_str());
    push_str(&mut p, "\n");
    push_str(&mut p, "Title: ");
    push_str(&mut p, story.title.as_str());
    push_str(&mut p, "\n\n");
    push_str(&mut p, "DoD Gate Results:\n");
    let ghost start = p@;
    let mut all_passed = true;
    let mut i: usize = 0;
    while i < gate_results.len()
        invariant
            i <= gate_results@.len(),
            results == gate_results_view(gate_results@),
            p@ == start + gate_lines(results, i as nat),
            all_passed == (forall|j: int| 0 <= j < i ==> (#[trigger] results[j]).1),
        decreases gate_results.len() - i,
    {
        let (gate, passed, output) = &gate_results[i];
        push_str(&mut p, "  ");
        if *passed {
            push_str(&mut p, "✓ PASS");
        } else {
            push_str(&mut p, "✗ FAIL");
            all_passed = false;
        }
        push_str(&mut p, " ");
        push_str(&mut p, gate.as_str());
        push_str(&mut p, "\n    ");
        push_str(&mut p, output.as_str());
        push_str(&mut p, "\n");
        assert(results[i as int] == (gate@, *passed, output@));
        assert(p@ =~= start + gate_lines(results, (i + 1) as nat));
        i += 1;
    }
    push_str(&mut p, "\n");
    if all_passed {
        push_str(&mut p, "Result: ALL GATES PASSED\n");
        push_str(&mut p, "Action: Emit 'test.pass' event to PO\n");
    } else {
        push_str(&mut p, "Result: SOME GATES FAILED\n");
        push_str(&mut p, "Action: Create bug document, emit 'bug.new' to Dev\n");
    }
    push_banner(&mut p, "        NEXT ACTIONS FOR QA\n");
    push_str(&mut p, "1. Review gate results\n");
    push_str(&mut p, "2. If failed → create bug doc + emit 'bug.new'\n");
    push_str(&mut p, "3. If passed → emit 'test.pass'\n");
    push_str(&mut p, "4. Update runlog with results\n");
    push_rule(&mut p);
    assert(p@ =~= qa_prompt(*story, results));
    p
}

/// The QA agent's bug-verification prompt: the bug and the JSON text of its
/// related story (`fields.story_id`, when present).
pub fn generate_verification_prompt(bug: &Doc) -> (res: String)
    ensures
        res@ == verification_prompt(*bug),
{
    let mut p = String::new();
    push_banner(&mut p, "        QA AGENT - BUG VERIFICATION\n");
    push_str(&mut p, "\n");
    push_doc_block(&mut p, "Bug ID: ", bug);
    push_value_section(&mut p, "Related Story: ", &bug.fields, "story_id", "\n");
    push_banner(&mut p, "        NEXT ACTIONS FOR QA\n");
    push_str(&mut p, "1. Verify the fix works as expected\n");
    push_str(&mut p, "2. Run regression tests\n");
    push_str(&mut p, "3. If fixed → emit 'bug.closed'\n");
    push_str(&mut p, "4. If still failing → emit 'bug.still_open'\n");
    push_rule(&mut p);
    assert(p@ =~= verification_prompt(*bug));
    p
}

} // verus!
