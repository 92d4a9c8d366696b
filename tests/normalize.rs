use ide_usb::json::{to_compact, Json, JsonField};
use ide_usb::normalize::{
    extract_assistant_messages, extract_display_items, extract_text_from_content, format_action,
    DisplayKind,
};

fn s(text: &str) -> Json {
    Json::Str(text.to_string())
}

fn obj(fields: Vec<(&str, Json)>) -> Json {
    Json::Object(
        fields
            .into_iter()
            .map(|(k, v)| JsonField { key: k.to_string(), value: v })
            .collect(),
    )
}

#[test]
fn codex_extract_messages_response_item() {
    let o = obj(vec![
        ("type", s("response_item")),
        (
            "payload",
            obj(vec![
                ("type", s("message")),
                ("role", s("assistant")),
                ("content", Json::Array(vec![obj(vec![("type", s("output_text")), ("text", s("Bonjour"))])])),
            ]),
        ),
    ]);
    let items = extract_assistant_messages(&o);
    assert_eq!(items, vec!["Bonjour".to_string()]);
    let all = extract_display_items(&o);
    assert_eq!(all.len(), 1);
    assert_eq!(all[0].kind, DisplayKind::Assistant);
}

#[test]
fn codex_extract_messages_event_msg() {
    let o = obj(vec![
        ("type", s("event_msg")),
        ("payload", obj(vec![("type", s("agent_message")), ("message", s("Salut"))])),
    ]);
    let items = extract_assistant_messages(&o);
    assert_eq!(items, vec!["Salut".to_string()]);
    assert_eq!(extract_display_items(&o).len(), 1);
}

#[test]
fn codex_extract_display_items_user() {
    let o = obj(vec![
        ("type", s("response_item")),
        (
            "payload",
            obj(vec![
                ("type", s("message")),
                ("role", s("user")),
                ("content", Json::Array(vec![obj(vec![("type", s("input_text")), ("text", s("Bonjour"))])])),
            ]),
        ),
    ]);
    let items = extract_display_items(&o);
    assert!(items.iter().any(|item| item.kind == DisplayKind::User && item.message == "Bonjour"));
}

#[test]
fn codex_extract_display_items_action() {
    let o = obj(vec![
        ("type", s("response_item")),
        (
            "payload",
            obj(vec![
                ("type", s("tool_call")),
                ("name", s("list_files")),
                ("arguments", obj(vec![("path", s("."))])),
            ]),
        ),
    ]);
    let items = extract_display_items(&o);
    assert!(items.iter().any(|item| item.kind == DisplayKind::Action && item.message.contains("list_files")));
}

#[test]
fn tool_call_record_renders_name_and_arguments() {
    let o = obj(vec![
        ("type", s("tool_call")),
        ("name", s("list_files")),
        ("arguments", obj(vec![("path", s("."))])),
    ]);
    let items = extract_display_items(&o);
    assert_eq!(items.len(), 1);
    assert_eq!(items[0].kind, DisplayKind::Action);
    assert_eq!(items[0].message, "list_files: {\"path\":\".\"}");
}

#[test]
fn codex_extract_display_items_item_completed() {
    let o = obj(vec![
        ("type", s("item.completed")),
        ("item", obj(vec![("type", s("agent_message")), ("text", s("Salut"))])),
    ]);
    let items = extract_display_items(&o);
    assert!(items.iter().any(|item| item.kind == DisplayKind::Assistant && item.message == "Salut"));
}

#[test]
fn codex_extract_text_filtre_types() {
    let content = Json::Array(vec![
        obj(vec![("type", s("output_text")), ("text", s("OK"))]),
        obj(vec![("type", s("image")), ("text", s("NO"))]),
    ]);
    let texts = extract_text_from_content(&content);
    assert_eq!(texts, vec!["OK".to_string()]);
}

#[test]
fn duplicates_within_one_record_collapse() {
    let call = obj(vec![("name", s("run")), ("args", s("ls"))]);
    let o = obj(vec![
        ("type", s("response_item")),
        ("payload", obj(vec![("type", s("function_call")), ("name", s("run")), ("args", s("ls"))])),
        ("tool_calls", Json::Array(vec![call])),
    ]);
    let items = extract_display_items(&o);
    assert_eq!(items.len(), 1);
    assert_eq!(items[0].message, "run: ls");
}

#[test]
fn format_action_shapes() {
    assert_eq!(format_action(&obj(vec![("type", s("TOOL")), ("name", s("grep"))])), Some("grep".to_string()));
    assert_eq!(
        format_action(&obj(vec![("type", s("action")), ("description", s("  lecture  "))])),
        Some("lecture".to_string())
    );
    assert_eq!(
        format_action(&obj(vec![("type", s("tool")), ("input", Json::Number("42".to_string()))])),
        Some("42".to_string())
    );
    assert_eq!(
        format_action(&obj(vec![("tool", Json::Number("7".to_string())), ("args", Json::Array(vec![Json::Bool(true), Json::Null]))])),
        Some("7: [true,null]".to_string())
    );
    assert_eq!(format_action(&obj(vec![("type", s("message")), ("name", s("x"))])), None);
}

#[test]
fn compact_json_escapes() {
    let v = obj(vec![("a\"b", s("l1\nl2\t\u{1}"))]);
    assert_eq!(to_compact(&v), "{\"a\\\"b\":\"l1\\nl2\\t\\u0001\"}");
}

#[test]
fn empty_fragments_give_no_item() {
    let o = obj(vec![
        ("type", s("response_item")),
        ("payload", obj(vec![("type", s("message")), ("role", s("assistant")), ("content", s(""))])),
    ]);
    assert!(extract_display_items(&o).is_empty());
    let parts = Json::Array(vec![s(""), s("ok"), obj(vec![("type", s("text")), ("text", s(""))])]);
    assert_eq!(extract_text_from_content(&parts), vec!["ok".to_string()]);
}
