use dscode::dap::{
    breakpoints_in_response, content_length, dap_event, dap_request, frame_header, header_state, initialize_arguments,
    response_outcome, set_breakpoints_arguments, thread_arguments, DapSequence, HeaderState,
};
use dscode::debug::SourceBreakpoint;
use dscode::json::{json_equal, JsonNumber, JsonValue};

fn parse(text: &str) -> JsonValue {
    fn conv(v: &serde_json::Value) -> JsonValue {
        match v {
            serde_json::Value::Null => JsonValue::Null,
            serde_json::Value::Bool(b) => JsonValue::Bool(*b),
            serde_json::Value::Number(n) => {
                if let Some(u) = n.as_u64() {
                    JsonValue::Number(JsonNumber::PosInt(u))
                } else if let Some(i) = n.as_i64() {
                    JsonValue::Number(JsonNumber::NegInt(i))
                } else {
                    JsonValue::Number(JsonNumber::Float(n.to_string()))
                }
            }
            serde_json::Value::String(s) => JsonValue::Str(s.clone()),
            serde_json::Value::Array(a) => JsonValue::Array(a.iter().map(conv).collect()),
            serde_json::Value::Object(m) => JsonValue::Object(m.iter().map(|(k, v)| (k.clone(), conv(v))).collect()),
        }
    }
    conv(&serde_json::from_str::<serde_json::Value>(text).unwrap())
}

#[test]
fn headers_frame_and_read_back() {
    assert_eq!(frame_header(42), "Content-Length: 42\r\n\r\n");
    assert_eq!(content_length(&frame_header(42)), 42);
    assert_eq!(content_length(&frame_header(0)), 0);
    assert_eq!(content_length("Content-Type: x\r\nContent-Length:  17 \r\n\r\n"), 17);
    assert_eq!(content_length("Content-Length: 5\r\nContent-Length: 9\r\n\r\n"), 9);
    assert_eq!(content_length("Content-Length: abc\r\n\r\n"), 0);
    assert_eq!(content_length("Content-Length: +7\r\n\r\n"), 7);
    assert_eq!(content_length("Content-Length: 99999999999999999999999\r\n\r\n"), 0);
    assert_eq!(content_length("nothing"), 0);
}

#[test]
fn header_reading_stops_at_blank_line_or_limit() {
    assert!(matches!(header_state("Content-Length: 1\r\n"), HeaderState::Incomplete));
    assert!(matches!(header_state("Content-Length: 1\r\n\r\n"), HeaderState::Complete));
    assert!(matches!(header_state(&"x".repeat(4097)), HeaderState::TooLong));
    assert!(matches!(header_state(&"x".repeat(4096)), HeaderState::Incomplete));
    assert!(matches!(header_state(&"\u{e9}".repeat(2049)), HeaderState::TooLong));
}

#[test]
fn requests_and_events_are_numbered_in_sequence() {
    let mut seq = DapSequence::new();
    assert_eq!(seq.next_sequence(), 1);
    assert_eq!(seq.next_sequence(), 2);
    let req = dap_request(3, "pause", Some(thread_arguments(1)));
    let expected = parse(r#"{"seq":3,"type":"request","command":"pause","arguments":{"threadId":1}}"#);
    assert!(json_equal(&req, &expected));
    let bare = dap_request(4, "disconnect", None);
    assert!(json_equal(&bare, &parse(r#"{"seq":4,"type":"request","command":"disconnect"}"#)));
    let ev = dap_event(5, "stopped", None);
    assert!(json_equal(&ev, &parse(r#"{"seq":5,"type":"event","event":"stopped"}"#)));
}

#[test]
fn initialize_arguments_name_the_client() {
    let a = initialize_arguments("node");
    let expected = parse(
        r#"{"clientID":"dscode","clientName":"DSCode","adapterID":"node","pathFormat":"path",
            "linesStartAt1":true,"columnsStartAt1":true,"supportsVariableType":true,
            "supportsVariablePaging":true,"supportsRunInTerminalRequest":true}"#,
    );
    assert!(json_equal(&a, &expected));
}

#[test]
fn responses_are_matched_to_requests() {
    match response_outcome(&parse(r#"{"type":"response","request_seq":7,"success":true,"body":{"x":1}}"#)) {
        Some((7, Ok(body))) => assert!(json_equal(&body, &parse(r#"{"x":1}"#))),
        _ => panic!("expected success"),
    }
    match response_outcome(&parse(r#"{"type":"response","request_seq":8,"success":false,"message":"bad"}"#)) {
        Some((8, Err(m))) => assert_eq!(m, "DAP error: bad"),
        _ => panic!("expected failure"),
    }
    match response_outcome(&parse(r#"{"type":"response","request_seq":9,"success":true}"#)) {
        Some((9, Ok(JsonValue::Null))) => {}
        _ => panic!("expected null body"),
    }
    match response_outcome(&parse(r#"{"type":"response","request_seq":9}"#)) {
        Some((9, Err(m))) => assert_eq!(m, "DAP error: Unknown error"),
        _ => panic!("expected unknown error"),
    }
    assert!(response_outcome(&parse(r#"{"type":"event","seq":1}"#)).is_none());
    assert!(response_outcome(&parse(r#"{"type":"response","request_seq":"x"}"#)).is_none());
}

#[test]
fn breakpoints_travel_as_json() {
    let bps = vec![SourceBreakpoint { line: 10, column: None, condition: Some("x > 1".to_string()), hit_condition: None, log_message: None }];
    let args = set_breakpoints_arguments(parse(r#"{"path":"/a.js"}"#), &bps);
    let expected = parse(
        r#"{"source":{"path":"/a.js"},"breakpoints":[{"line":10,"column":null,"condition":"x > 1","hitCondition":null,"logMessage":null}]}"#,
    );
    assert!(json_equal(&args, &expected));
    let listed = breakpoints_in_response(&parse(r#"{"breakpoints":[{"verified":true}]}"#)).unwrap();
    assert_eq!(listed.len(), 1);
    assert_eq!(
        breakpoints_in_response(&parse(r#"{"other":1}"#)).err().unwrap(),
        "Invalid setBreakpoints response"
    );
}
