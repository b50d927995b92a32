use cyoa::load::{story_from_value, LoadError};
use cyoa::story::{Outcome, Story};
use serde_json::{Number, Value};

const TWO_NODES: &str = r#"{
    "title": "Two rooms",
    "entries": [
        {"id": 1, "text": "A", "options": {"1": {"text": "go", "next_id": 2}}},
        {"id": 2, "text": "B", "options": {}, "win": true}
    ]
}"#;

fn parse(text: &str) -> Result<Story, LoadError> {
    cyoa::load::parse(text.as_bytes())
}

fn object(members: Vec<(&str, Value)>) -> Value {
    let mut map = serde_json::Map::new();
    for (name, value) in members {
        map.insert(name.to_string(), value);
    }
    Value::Object(map)
}

fn number(n: u64) -> Value {
    Value::Number(Number::from(n))
}

fn text(s: &str) -> Value {
    Value::String(s.to_string())
}

fn entry(id: u64, win: Option<Value>) -> Value {
    let mut members = vec![("id", number(id)), ("text", text("t")), ("options", object(vec![]))];
    if let Some(flag) = win {
        members.push(("win", flag));
    }
    object(members)
}

fn document(entries: Vec<Value>) -> Value {
    object(vec![("title", text("T")), ("entries", Value::Array(entries))])
}

fn entries_json(entries: &str) -> String {
    format!(r#"{{"title": "T", "entries": [{}]}}"#, entries)
}

#[test]
fn parse_reads_title_nodes_and_choices() {
    let story = parse(TWO_NODES).unwrap();
    assert_eq!(story.title(), "Two rooms");
    assert_eq!(story.nodes().len(), 2);
    let first = &story.nodes()[0];
    assert_eq!(first.id(), 1);
    assert_eq!(first.text(), "A");
    assert_eq!(first.outcome(), Outcome::NotTerminal);
    assert_eq!(first.choices().len(), 1);
    assert_eq!(first.choices()[0].label, 1);
    assert_eq!(first.choices()[0].text, "go");
    assert_eq!(first.choices()[0].next_id, 2);
    let second = &story.nodes()[1];
    assert_eq!(second.id(), 2);
    assert_eq!(second.text(), "B");
    assert!(second.is_terminal());
    assert_eq!(second.outcome(), Outcome::Win);
}

#[test]
fn parse_keeps_the_order_of_the_entries() {
    let story = parse(&entries_json(
        r#"{"id": 3, "text": "c", "options": {}, "win": false},
           {"id": 1, "text": "a", "options": {}, "win": false},
           {"id": 2, "text": "b", "options": {}, "win": false}"#,
    ))
    .unwrap();
    let ids: Vec<u32> = story.nodes().iter().map(|n| n.id()).collect();
    assert_eq!(ids, vec![3, 1, 2]);
}

#[test]
fn parse_refuses_what_is_no_json() {
    assert_eq!(parse("").unwrap_err(), LoadError::Malformed);
    assert_eq!(parse("not json").unwrap_err(), LoadError::Malformed);
    assert_eq!(parse(r#"{"title": "T", "entries": ["#).unwrap_err(), LoadError::Malformed);
    assert_eq!(parse(&format!("{} trailing", TWO_NODES)).unwrap_err(), LoadError::Malformed);
}

#[test]
fn parse_refuses_a_document_that_is_no_object() {
    assert_eq!(parse("null").unwrap_err(), LoadError::Malformed);
    assert_eq!(parse("[]").unwrap_err(), LoadError::Malformed);
    assert_eq!(parse("\"story\"").unwrap_err(), LoadError::Malformed);
    assert_eq!(parse("1").unwrap_err(), LoadError::Malformed);
}

#[test]
fn parse_refuses_a_missing_or_mistyped_title() {
    let entries = r#"[{"id": 1, "text": "a", "options": {}, "win": true}]"#;
    assert_eq!(parse(&format!(r#"{{"entries": {}}}"#, entries)).unwrap_err(), LoadError::Malformed);
    assert_eq!(
        parse(&format!(r#"{{"title": 5, "entries": {}}}"#, entries)).unwrap_err(),
        LoadError::Malformed
    );
    assert_eq!(
        parse(&format!(r#"{{"title": null, "entries": {}}}"#, entries)).unwrap_err(),
        LoadError::Malformed
    );
}

#[test]
fn parse_refuses_missing_or_mistyped_entries() {
    assert_eq!(parse(r#"{"title": "T"}"#).unwrap_err(), LoadError::Malformed);
    assert_eq!(parse(r#"{"title": "T", "entries": {}}"#).unwrap_err(), LoadError::Malformed);
    assert_eq!(parse(r#"{"title": "T", "entries": "x"}"#).unwrap_err(), LoadError::Malformed);
    assert_eq!(parse(r#"{"title": "T", "entries": [1]}"#).unwrap_err(), LoadError::Malformed);
    assert_eq!(parse(r#"{"title": "T", "entries": [[]]}"#).unwrap_err(), LoadError::Malformed);
}

#[test]
fn parse_refuses_an_entry_without_its_fields() {
    let good = r#"{"id": 1, "text": "a", "options": {}, "win": true}"#;
    assert!(parse(&entries_json(good)).is_ok());
    for bad in [
        r#"{"text": "a", "options": {}, "win": true}"#,
        r#"{"id": 1, "options": {}, "win": true}"#,
        r#"{"id": 1, "text": "a", "win": true}"#,
        r#"{"id": "1", "text": "a", "options": {}, "win": true}"#,
        r#"{"id": 1, "text": 7, "options": {}, "win": true}"#,
        r#"{"id": 1, "text": "a", "options": [], "win": true}"#,
        r#"{"id": 1, "text": "a", "options": null, "win": true}"#,
    ] {
        assert_eq!(parse(&entries_json(bad)).unwrap_err(), LoadError::Malformed, "entry {}", bad);
        let both = format!("{}, {}", good, bad);
        assert_eq!(parse(&entries_json(&both)).unwrap_err(), LoadError::Malformed, "entry {}", bad);
    }
}

#[test]
fn parse_takes_identifiers_that_fit_in_32_bits_only() {
    let with_id = |id: &str| entries_json(&format!(
        r#"{{"id": 1, "text": "a", "options": {{}}, "win": true}},
           {{"id": {}, "text": "b", "options": {{}}, "win": true}}"#,
        id
    ));
    assert_eq!(parse(&with_id("4294967295")).unwrap().nodes()[1].id(), 4294967295);
    assert_eq!(parse(&with_id("0")).unwrap().nodes()[1].id(), 0);
    for bad in ["4294967296", "-1", "1.0", "1.5", "1e2", "-0", "18446744073709551616", "true"] {
        assert_eq!(parse(&with_id(bad)).unwrap_err(), LoadError::Malformed, "id {}", bad);
    }
}

#[test]
fn parse_refuses_an_option_without_its_fields() {
    let with_options = |options: &str| entries_json(&format!(
        r#"{{"id": 1, "text": "a", "options": {}}}"#,
        options
    ));
    assert!(parse(&with_options(r#"{"1": {"text": "go", "next_id": 2}}"#)).is_ok());
    for bad in [
        r#"{"1": {"next_id": 2}}"#,
        r#"{"1": {"text": "go"}}"#,
        r#"{"1": {"text": 3, "next_id": 2}}"#,
        r#"{"1": {"text": "go", "next_id": "2"}}"#,
        r#"{"1": {"text": "go", "next_id": -2}}"#,
        r#"{"1": {"text": "go", "next_id": 4294967296}}"#,
        r#"{"1": ["go", 2]}"#,
        r#"{"1": null}"#,
        r#"{"1": {"text": "go", "next_id": 2}, "2": {"text": "stay"}}"#,
    ] {
        assert_eq!(parse(&with_options(bad)).unwrap_err(), LoadError::Malformed, "options {}", bad);
    }
}

#[test]
fn parse_takes_option_names_that_are_labels_only() {
    let with_name = |name: &str| entries_json(&format!(
        r#"{{"id": 1, "text": "a", "options": {{"{}": {{"text": "go", "next_id": 2}}}}}}"#,
        name
    ));
    assert_eq!(parse(&with_name("7")).unwrap().nodes()[0].choices()[0].label, 7);
    assert_eq!(parse(&with_name("0")).unwrap().nodes()[0].choices()[0].label, 0);
    assert_eq!(parse(&with_name("4294967295")).unwrap().nodes()[0].choices()[0].label, 4294967295);
    for bad in ["", "a", "01", "+1", "-1", " 1", "1 ", "1.0", "4294967296"] {
        assert_eq!(parse(&with_name(bad)).unwrap_err(), LoadError::Malformed, "name {:?}", bad);
    }
}

#[test]
fn parse_reads_every_option_of_a_node() {
    let story = parse(&entries_json(
        r#"{"id": 1, "text": "a", "options": {
            "2": {"text": "two", "next_id": 20},
            "1": {"text": "one", "next_id": 10},
            "10": {"text": "ten", "next_id": 100}}}"#,
    ))
    .unwrap();
    let node = &story.nodes()[0];
    assert_eq!(node.choices().len(), 3);
    assert_eq!(node.choice(1).map(|c| (c.text.as_str(), c.next_id)), Some(("one", 10)));
    assert_eq!(node.choice(2).map(|c| (c.text.as_str(), c.next_id)), Some(("two", 20)));
    assert_eq!(node.choice(10).map(|c| (c.text.as_str(), c.next_id)), Some(("ten", 100)));
    assert_eq!(node.choice(3), None);
}

#[test]
fn parse_reads_the_win_flag_as_an_outcome() {
    let with_win = |win: &str| entries_json(&format!(
        r#"{{"id": 1, "text": "a", "options": {{}}, "win": {}}}"#,
        win
    ));
    assert_eq!(parse(&with_win("true")).unwrap().nodes()[0].outcome(), Outcome::Win);
    assert_eq!(parse(&with_win("false")).unwrap().nodes()[0].outcome(), Outcome::Lose);
}

#[test]
fn parse_leaves_a_node_without_outcome_where_the_flag_is_missing_or_no_boolean() {
    let story = parse(&entries_json(r#"{"id": 1, "text": "a", "options": {}}"#)).unwrap();
    assert_eq!(story.nodes()[0].outcome(), Outcome::NotTerminal);
    for flag in ["null", "1", "0", "\"true\"", "\"yes\"", "[]", "{}"] {
        let story = parse(&entries_json(&format!(
            r#"{{"id": 1, "text": "a", "options": {{}}, "win": {}}}"#,
            flag
        )))
        .unwrap();
        assert_eq!(story.nodes()[0].outcome(), Outcome::NotTerminal, "flag {}", flag);
    }
}

#[test]
fn parse_takes_choices_that_lead_nowhere() {
    let story = parse(&entries_json(
        r#"{"id": 1, "text": "a", "options": {"1": {"text": "go", "next_id": 99}}}"#,
    ))
    .unwrap();
    assert_eq!(story.nodes()[0].choices()[0].next_id, 99);
}

#[test]
fn parse_takes_two_nodes_with_one_identifier() {
    let story = parse(&entries_json(
        r#"{"id": 1, "text": "first", "options": {}, "win": true},
           {"id": 1, "text": "second", "options": {}, "win": false}"#,
    ))
    .unwrap();
    assert_eq!(story.nodes().len(), 2);
    assert_eq!(story.nodes()[0].text(), "first");
    assert_eq!(story.nodes()[1].text(), "second");
}

#[test]
fn parse_ignores_members_it_does_not_know() {
    let story = parse(
        r#"{"title": "T", "author": "me", "entries": [
            {"id": 1, "text": "a", "note": [1, 2], "options":
                {"1": {"text": "go", "next_id": 2, "hint": null}}, "win": false}]}"#,
    )
    .unwrap();
    assert_eq!(story.nodes()[0].choices()[0].text, "go");
    assert_eq!(story.nodes()[0].outcome(), Outcome::Lose);
}

#[test]
fn parse_asks_for_the_entry_node() {
    assert_eq!(parse(r#"{"title": "T", "entries": []}"#).unwrap_err(), LoadError::MissingEntry);
    assert_eq!(
        parse(&entries_json(r#"{"id": 5, "text": "a", "options": {}, "win": false}"#)).unwrap_err(),
        LoadError::MissingEntry
    );
    assert_eq!(
        parse(&entries_json(
            r#"{"id": 2, "text": "a", "options": {"1": {"text": "go", "next_id": 1}}}"#
        ))
        .unwrap_err(),
        LoadError::MissingEntry
    );
}

#[test]
fn parse_reports_a_malformed_entry_before_a_missing_entry_node() {
    assert_eq!(
        parse(&entries_json(r#"{"id": 5, "text": "a", "win": false}"#)).unwrap_err(),
        LoadError::Malformed
    );
}

#[test]
fn parse_reads_text_with_escapes_and_other_scripts() {
    let story = parse(
        r#"{"title": "Café \"Z\"", "entries": [
            {"id": 1, "text": "line one\nline two — 終", "options": {}, "win": true}]}"#,
    )
    .unwrap();
    assert_eq!(story.title(), "Café \"Z\"");
    assert_eq!(story.nodes()[0].text(), "line one\nline two — 終");
}

#[test]
fn story_from_value_reads_a_document_built_by_hand() {
    let first = object(vec![
        ("id", number(1)),
        ("text", text("A")),
        (
            "options",
            object(vec![("1", object(vec![("text", text("go")), ("next_id", number(2))]))]),
        ),
    ]);
    let story = story_from_value(&document(vec![first, entry(2, Some(Value::Bool(true)))])).unwrap();
    assert_eq!(story.title(), "T");
    assert_eq!(story.nodes().len(), 2);
    assert_eq!(story.nodes()[0].choices()[0].next_id, 2);
    assert_eq!(story.nodes()[1].outcome(), Outcome::Win);
    let reparsed = parse(TWO_NODES).unwrap();
    assert_eq!(story.nodes()[0], reparsed.nodes()[0]);
    assert_eq!(story.nodes()[1].text(), "t");
}

#[test]
fn story_from_value_gives_each_error() {
    assert_eq!(story_from_value(&Value::Null).unwrap_err(), LoadError::Malformed);
    assert_eq!(story_from_value(&object(vec![("title", text("T"))])).unwrap_err(), LoadError::Malformed);
    assert_eq!(
        story_from_value(&document(vec![entry(2, Some(Value::Bool(false)))])).unwrap_err(),
        LoadError::MissingEntry
    );
    assert_eq!(story_from_value(&document(vec![Value::Bool(true)])).unwrap_err(), LoadError::Malformed);
}

#[test]
fn story_from_value_reads_numbers_as_whole_numbers_only() {
    let float = Value::Number(Number::from_f64(1.0).unwrap());
    let negative = Value::Number(Number::from(-1i64));
    for bad in [float, negative, number(4294967296), text("1")] {
        let odd = object(vec![("id", bad), ("text", text("t")), ("options", object(vec![]))]);
        assert_eq!(
            story_from_value(&document(vec![entry(1, None), odd])).unwrap_err(),
            LoadError::Malformed
        );
    }
    let story = story_from_value(&document(vec![entry(1, None), entry(4294967295, None)])).unwrap();
    assert_eq!(story.nodes()[1].id(), 4294967295);
}

#[test]
fn parse_refuses_bytes_that_are_no_text() {
    assert_eq!(cyoa::load::parse(&[0xff, 0xfe]).unwrap_err(), LoadError::Malformed);
    let mut bytes = TWO_NODES.as_bytes().to_vec();
    assert!(cyoa::load::parse(&bytes).is_ok());
    let at = bytes.iter().position(|b| *b == b'A').unwrap();
    bytes[at] = 0xff;
    assert_eq!(cyoa::load::parse(&bytes).unwrap_err(), LoadError::Malformed);
}

#[test]
fn parse_takes_white_space_around_the_document() {
    let padded = format!("\n\t  {}  \r\n", TWO_NODES);
    assert_eq!(parse(&padded).unwrap().nodes().len(), 2);
}
