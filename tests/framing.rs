use yuki_client::message::{Message, Role};
use yuki_client::wire::{encode_log, request_body};

fn msg(role: Role, content: &str) -> Message {
    Message::new(role, content.to_string())
}

#[test]
fn empty_log_is_empty_array() {
    assert_eq!(encode_log(&Vec::new()), "[]");
}

#[test]
fn log_is_json_array_in_order() {
    let log = vec![msg(Role::User, "hi \"you\""), msg(Role::Assistant, "a\nb")];
    assert_eq!(
        encode_log(&log),
        "[\n  {\n    \"role\": \"user\",\n    \"content\": \"hi \\\"you\\\"\"\n  },\n  {\n    \"role\": \"assistant\",\n    \"content\": \"a\\nb\"\n  }\n]"
    );
}

#[test]
fn log_is_laid_out_as_pretty_printed_json() {
    let log = vec![msg(Role::User, "hi")];
    assert_eq!(encode_log(&log), "[\n  {\n    \"role\": \"user\",\n    \"content\": \"hi\"\n  }\n]");
}

#[test]
fn control_characters_are_escaped() {
    let log = vec![msg(Role::System, "\u{1}\u{8}\u{c}\r\t\u{1f}\u{7f}é")];
    let expected = "[\n  {\n    \"role\": \"system\",\n    \"content\": \"\\u0001\\b\\f\\r\\t\\u001f\u{7f}é\"\n  }\n]";
    assert_eq!(encode_log(&log), expected);
}

#[test]
fn request_body_carries_model_context_and_stream_flag() {
    let ctx = vec![msg(Role::System, "s"), msg(Role::User, "u")];
    assert_eq!(
        request_body(&ctx),
        "{\"model\":\"local\",\"messages\":[{\"role\":\"system\",\"content\":\"s\"},{\"role\":\"user\",\"content\":\"u\"}],\"stream\":true}"
    );
}

#[test]
fn encoded_log_parses_back() {
    let log = vec![msg(Role::User, "ünï \\ \t"), msg(Role::Assistant, "ok")];
    let v: serde_json::Value = serde_json::from_str(&encode_log(&log)).unwrap();
    let arr = v.as_array().unwrap();
    assert_eq!(arr.len(), 2);
    assert_eq!(arr[0]["role"].as_str(), Some("user"));
    assert_eq!(arr[0]["content"].as_str(), Some("ünï \\ \t"));
    assert_eq!(arr[1]["content"].as_str(), Some("ok"));
}
