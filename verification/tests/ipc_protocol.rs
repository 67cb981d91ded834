use tauri_core::ipc::{InvokeResponseBody, FETCH_CHANNEL_DATA_COMMAND};
use tauri_core::ipc_protocol;
use tauri_core::ipc_protocol::{
    console_error_script, method_answer, protocol_response_kind, response_transport, HeaderText, InvokeBody, InvokeHeaders,
    InvokeResponse, MethodAnswer, ResponseTransport,
};

fn text(s: &str) -> HeaderText {
    HeaderText::Text(s.to_string())
}

fn headers(content_type: &str) -> InvokeHeaders {
    InvokeHeaders {
        content_type: text(content_type),
        invoke_key: text("1234ahdsjkl123"),
        origin: text("tauri://localhost"),
        callback: text(&12378123.to_string()),
        error: text(&6243.to_string()),
    }
}

#[test]
fn parse_invoke_request() {
    let cmd = "write_something";
    let url = "tauri://localhost";
    let invoke_key = "1234ahdsjkl123";
    let callback = 12378123;
    let error = 6243;
    let path = format!("/{cmd}");

    let body = vec![123, 31, 45];
    let invoke_request = ipc_protocol::parse_invoke_request(&path, &headers("application/octet-stream"), body.clone()).unwrap();
    assert_eq!(invoke_request.cmd, cmd);
    assert_eq!(invoke_request.callback.0, callback);
    assert_eq!(invoke_request.error.0, error);
    assert_eq!(invoke_request.invoke_key, invoke_key);
    assert_eq!(invoke_request.url, url::Url::parse(url).unwrap().to_string());
    assert_eq!(invoke_request.body, InvokeBody::Raw(body));

    let body = br#"{"key":1,"anotherKey":"asda"}"#.to_vec();
    let invoke_request = ipc_protocol::parse_invoke_request(&path, &headers("application/json"), body.clone()).unwrap();
    let expected: serde_json::Value = serde_json::from_slice(&body).unwrap();
    assert_eq!(invoke_request.body, InvokeBody::Json(expected.to_string()));
}

#[test]
fn missing_headers_are_reported_in_order() {
    let mut h = headers("application/octet-stream");
    h.content_type = HeaderText::Missing;
    // a missing content type means raw bytes
    assert_eq!(ipc_protocol::parse_invoke_request("/cmd", &h, vec![1]).unwrap().body, InvokeBody::Raw(vec![1]));
    h.content_type = text("not a mime");
    assert_eq!(ipc_protocol::parse_invoke_request("/cmd", &h, vec![]).unwrap_err(), "unknown content type");
    h.content_type = HeaderText::NotText;
    h.invoke_key = HeaderText::Missing;
    assert_eq!(ipc_protocol::parse_invoke_request("/cmd", &h, vec![]).unwrap_err(), "missing Tauri-Invoke-Key header");
    h.invoke_key = HeaderText::NotText;
    assert_eq!(ipc_protocol::parse_invoke_request("/cmd", &h, vec![]).unwrap_err(), "Tauri invoke key header value must be a string");
    h.invoke_key = text("key");
    h.origin = HeaderText::Missing;
    assert_eq!(ipc_protocol::parse_invoke_request("/cmd", &h, vec![]).unwrap_err(), "missing Origin header");
    h.origin = text("not a url");
    assert_eq!(ipc_protocol::parse_invoke_request("/cmd", &h, vec![]).unwrap_err(), "Origin header is not a valid URL");
    h.origin = text("http://localhost:1420");
    h.callback = text("abc");
    assert_eq!(ipc_protocol::parse_invoke_request("/cmd", &h, vec![]).unwrap_err(), "Tauri callback header value must be a numeric string");
    h.callback = text("1");
    h.error = HeaderText::Missing;
    assert_eq!(ipc_protocol::parse_invoke_request("/cmd", &h, vec![]).unwrap_err(), "missing Tauri-Error header");
    h.error = text("2");
    let request = ipc_protocol::parse_invoke_request("/plugin%3Afs%7Cread", &h, vec![]).unwrap();
    assert_eq!(request.cmd, "plugin:fs|read");
    assert_eq!(request.url, "http://localhost:1420/");
}

#[test]
fn json_bodies() {
    let h = headers("application/json");
    // no body: an empty object
    assert_eq!(ipc_protocol::parse_invoke_request("/cmd", &h, vec![]).unwrap().body, InvokeBody::Json("{}".to_string()));
    assert!(ipc_protocol::parse_invoke_request("/cmd", &h, b"{".to_vec()).is_err());
    let h = headers("text/plain");
    assert_eq!(ipc_protocol::parse_invoke_request("/cmd", &h, vec![]).unwrap_err(), "content type text/plain is not implemented");
}

#[test]
fn answers_travel_by_channel_or_script() {
    let json = |s: &str| InvokeResponse::Success(InvokeResponseBody::Json(s.to_string()));
    let raw = InvokeResponse::Success(InvokeResponseBody::Raw(vec![1]));
    assert_eq!(response_transport(&json("{\"a\":1}"), "cmd", false, false), ResponseTransport::Channel);
    assert_eq!(response_transport(&json("[1]"), "cmd", false, false), ResponseTransport::Channel);
    assert_eq!(response_transport(&json("1"), "cmd", false, false), ResponseTransport::Eval);
    assert_eq!(response_transport(&json("[1]"), "cmd", false, true), ResponseTransport::Eval);
    assert_eq!(response_transport(&json("[1]"), "cmd", true, false), ResponseTransport::Eval);
    assert_eq!(response_transport(&json("[1]"), FETCH_CHANNEL_DATA_COMMAND, false, false), ResponseTransport::Eval);
    assert_eq!(response_transport(&raw, "cmd", false, false), ResponseTransport::Channel);
    assert_eq!(response_transport(&raw, "cmd", false, true), ResponseTransport::Eval);
    assert_eq!(response_transport(&InvokeResponse::Failure("\"e\"".into()), "cmd", false, false), ResponseTransport::Eval);
}

#[test]
fn protocol_answers() {
    assert_eq!(protocol_response_kind(&InvokeResponse::Success(InvokeResponseBody::Json("1".into()))), ("ok", "application/json"));
    assert_eq!(protocol_response_kind(&InvokeResponse::Success(InvokeResponseBody::Raw(vec![]))), ("ok", "application/octet-stream"));
    assert_eq!(protocol_response_kind(&InvokeResponse::Failure("1".into())), ("error", "application/json"));
    assert_eq!(method_answer("POST"), MethodAnswer::Invoke);
    assert_eq!(method_answer("OPTIONS"), MethodAnswer::Preflight);
    assert_eq!(method_answer("GET"), MethodAnswer::NotAllowed);
}

#[test]
fn unreadable_messages_are_reported_in_the_console() {
    assert_eq!(console_error_script("bad \"json\""), "console.error(\"bad \\\"json\\\"\")");
}

#[test]
fn console_errors_escape_control_characters() {
    assert_eq!(console_error_script("a\\b\n\t\u{1}\u{1f}é"), "console.error(\"a\\\\b\\n\\t\\u0001\\u001fé\")");
}
