use canvas_hub::event_log::{event_lines, read_events, split_lines};
use canvas_hub::identifiable_web_socket::IdentifiableWebSocket;
use canvas_hub::json::{
    events_message, moderated_message, notify_message, permission_message, quote,
};
use serde_json::Value;

fn object_text(fields: Vec<(&str, Value)>) -> String {
    let mut object = serde_json::Map::new();
    for (key, value) in fields {
        object.insert(key.to_string(), value);
    }
    Value::Object(object).to_string()
}

#[test]
fn quote_escapes_what_json_escapes() {
    assert_eq!(quote("plain"), "\"plain\"");
    assert_eq!(quote(""), "\"\"");
    assert_eq!(quote("say \"hi\"\n"), "\"say \\\"hi\\\"\\n\"");
    assert_eq!(quote("back\\slash"), "\"back\\\\slash\"");
    assert_eq!(quote("tab\there"), "\"tab\\there\"");
    assert_eq!(quote("\u{1}"), "\"\\u0001\"");
    assert_eq!(quote("käse ✓"), "\"käse ✓\"");
}

#[test]
fn notify_message_is_the_notify_object() {
    assert_eq!(notify_message("hello"), "{\"notify\":\"hello\"}");
    let tricky = "Canvas ID 'a\"b' is invalid or does not exist.";
    assert_eq!(
        notify_message(tricky),
        object_text(vec![("notify", Value::String(tricky.to_string()))])
    );
}

#[test]
fn moderated_message_is_the_moderated_object() {
    assert_eq!(moderated_message("X", false), "{\"canvasId\":\"X\",\"moderated\":false}");
    assert_eq!(moderated_message("X", true), "{\"canvasId\":\"X\",\"moderated\":true}");
    assert_eq!(
        moderated_message("we\"ird", true),
        object_text(vec![
            ("canvasId", Value::String("we\"ird".to_string())),
            ("moderated", Value::Bool(true)),
        ])
    );
}

#[test]
fn permission_message_is_the_permission_object() {
    assert_eq!(permission_message("c1", "W"), "{\"canvasId\":\"c1\",\"yourPermission\":\"W\"}");
    assert_eq!(
        permission_message("c\\1", ""),
        object_text(vec![
            ("canvasId", Value::String("c\\1".to_string())),
            ("yourPermission", Value::String(String::new())),
        ])
    );
}

#[test]
fn events_message_frames_the_events() {
    assert_eq!(
        events_message("c1", &vec![]),
        "{\"canvasId\":\"c1\",\"eventsForCanvas\":[]}"
    );
    assert_eq!(
        events_message("c1", &vec!["1".to_string()]),
        "{\"canvasId\":\"c1\",\"eventsForCanvas\":[1]}"
    );
    let events = vec!["{\"a\":1}".to_string(), "[2,3]".to_string(), "\"s\"".to_string()];
    let parsed: Vec<Value> = events.iter().map(|e| serde_json::from_str(e).unwrap()).collect();
    assert_eq!(
        events_message("c1", &events),
        object_text(vec![
            ("canvasId", Value::String("c1".to_string())),
            ("eventsForCanvas", Value::Array(parsed)),
        ])
    );
}

#[test]
fn read_events_keeps_valid_lines_in_order() {
    let log = "{\"type\":\"line\"}\n{\"type\":\"dot\"}\n";
    assert_eq!(
        read_events(log),
        vec!["{\"type\":\"line\"}".to_string(), "{\"type\":\"dot\"}".to_string()]
    );
}

#[test]
fn read_events_prints_compactly() {
    let log = "{ \"b\" : 1 , \"a\" : [ 1, 2 ] }\n";
    let events = read_events(log);
    assert_eq!(events.len(), 1);
    let reparsed: Value = serde_json::from_str(log).unwrap();
    assert_eq!(events[0], reparsed.to_string());
    assert!(!events[0].contains(' '));
}

#[test]
fn read_events_skips_malformed_and_blank_lines() {
    let log = "1\nnot json\n\n   \n{\"a\":\n2\n{\"open\": \n\"three\"";
    assert_eq!(
        read_events(log),
        vec!["1".to_string(), "2".to_string(), "\"three\"".to_string()]
    );
}

#[test]
fn read_events_takes_both_line_endings() {
    assert_eq!(read_events("1\r\n2\n3\r\n"), vec!["1", "2", "3"]);
    assert_eq!(read_events("1\n\n2"), vec!["1", "2"]);
    assert_eq!(read_events("[1,\n2]"), Vec::<String>::new());
}

#[test]
fn read_events_of_an_empty_log_is_empty() {
    assert!(read_events("").is_empty());
    assert!(read_events("\n").is_empty());
}

#[test]
fn event_lines_are_one_line_per_event() {
    let batch: Value = serde_json::from_str("[{\"x\": 1}, \"two\", [3], null]").unwrap();
    assert_eq!(
        event_lines(&batch),
        Some(vec![
            "{\"x\":1}\n".to_string(),
            "\"two\"\n".to_string(),
            "[3]\n".to_string(),
            "null\n".to_string(),
        ])
    );
    let empty: Value = serde_json::from_str("[]").unwrap();
    assert_eq!(event_lines(&empty), Some(vec![]));
}

#[test]
fn event_lines_of_what_is_no_array_are_none() {
    for text in ["{\"a\":[1]}", "1", "\"[1]\"", "null", "true"] {
        let value: Value = serde_json::from_str(text).unwrap();
        assert_eq!(event_lines(&value), None, "{}", text);
    }
}

#[test]
fn written_lines_read_back_as_the_events() {
    let batch: Value =
        serde_json::from_str("[{\"text\":\"a\\nb\"}, {\"text\":\"c\\r\"}, 5]").unwrap();
    let lines = event_lines(&batch).unwrap();
    let mut log = String::from("{\"old\":true}\n");
    for line in &lines {
        log.push_str(line);
    }
    assert_eq!(
        read_events(&log),
        vec![
            "{\"old\":true}".to_string(),
            "{\"text\":\"a\\nb\"}".to_string(),
            "{\"text\":\"c\\r\"}".to_string(),
            "5".to_string(),
        ]
    );
}

#[test]
fn new_sockets_get_random_version_four_ids() {
    let a = IdentifiableWebSocket::new();
    let b = IdentifiableWebSocket::new();
    assert_ne!(a.id, b.id);
    assert_ne!(a, b);
    for socket in [a, b] {
        let uuid = uuid::Uuid::from_u128(socket.id);
        assert_eq!(uuid.get_version_num(), 4);
        assert_eq!(
            socket.id & 0x0000_0000_0000_f000_c000_0000_0000_0000,
            0x0000_0000_0000_4000_8000_0000_0000_0000
        );
    }
}

#[test]
fn sockets_are_equal_by_id() {
    assert_eq!(IdentifiableWebSocket::with_id(5), IdentifiableWebSocket::with_id(5));
    assert_ne!(IdentifiableWebSocket::with_id(5), IdentifiableWebSocket::with_id(6));
    assert_eq!(IdentifiableWebSocket::with_id(5).id, 5);
}

#[test]
fn notify_client_addresses_the_advisory() {
    let socket = IdentifiableWebSocket::with_id(42);
    let notice = socket.notify_client("careful");
    assert_eq!(notice.connection_id, 42);
    assert_eq!(notice.text, "{\"notify\":\"careful\"}");
    let sent = socket.send("raw".to_string());
    assert_eq!(sent.connection_id, 42);
    assert_eq!(sent.text, "raw");
}

#[test]
fn lines_are_split_at_line_feeds_and_lose_one_carriage_return() {
    let texts = [
        "",
        "\n",
        "\r\n",
        "a",
        "a\n",
        "a\nb",
        "a\r\nb\r\n",
        "a\r",
        "a\r\r\n",
        "\n\na\n\n",
        "a\n\r",
        "\r",
        "käse\n✓\r\n",
        "one\rtwo\nthree",
    ];
    for text in texts {
        let expected: Vec<Vec<char>> = text.lines().map(|line| line.chars().collect()).collect();
        assert_eq!(split_lines(text), expected, "{:?}", text);
    }
    assert_eq!(split_lines("a\r\r\n"), vec![vec!['a', '\r']]);
    assert_eq!(split_lines("\n\n"), vec![Vec::<char>::new(), Vec::new()]);
}

#[test]
fn quote_agrees_with_the_serializer_on_every_ascii_character() {
    for code in 0u8..=127 {
        let text = format!("a{}b", code as char);
        assert_eq!(quote(&text), serde_json::to_string(&text).unwrap(), "{:?}", text);
    }
    for text in ["\u{7f}\u{80}\u{2028}\u{2029}", "\u{1f600}", "\"\\\"", "</script>"] {
        assert_eq!(quote(text), serde_json::to_string(text).unwrap(), "{:?}", text);
    }
}
