use tauri_core::error::Error;
use tauri_core::ipc::{
    channel_data_id, channel_end_script, channel_message_script, discard_rejected_fetch, fetch_channel_data, run_callback,
    FETCH_CHANNEL_DATA_COMMAND, MAX_JSON_DIRECT_EXECUTE_THRESHOLD, exceeds_inline_threshold, inline_payload, CallbackFn, Channel, ChannelDataIpcQueue, InvokeResponseBody,
    IpcResponse, JavaScriptChannelId, Response, ChannelIds,
};

#[test]
fn deserialize_invoke_response_body() {
    let json = InvokeResponseBody::Json("[1, 123, 1231]".to_string());
    assert_eq!(json.deserialize::<Vec<u16>>().unwrap(), vec![1, 123, 1231]);

    let json = InvokeResponseBody::Json("\"string value\"".to_string());
    assert_eq!(json.deserialize::<String>().unwrap(), "string value");

    let json = InvokeResponseBody::Json("\"string value\"".to_string());
    assert!(json.deserialize::<Vec<u16>>().is_err());

    let values = vec![1, 2, 3, 4, 5, 6, 1];
    let raw = InvokeResponseBody::Raw(values.clone());
    assert_eq!(raw.deserialize::<Vec<u8>>().unwrap(), values);
}

#[test]
fn responses_resolve_to_their_body() {
    let body = InvokeResponseBody::Json("1".into());
    assert_eq!(body.clone().body().unwrap(), body);
    assert_eq!(Response::new(InvokeResponseBody::Raw(vec![1])).body().unwrap(), InvokeResponseBody::Raw(vec![1]));
}

#[test]
fn inline_threshold() {
    assert!(!exceeds_inline_threshold(&InvokeResponseBody::Json("x".repeat(8191))));
    assert!(exceeds_inline_threshold(&InvokeResponseBody::Json("x".repeat(8192))));
    assert!(!exceeds_inline_threshold(&InvokeResponseBody::Raw(vec![0; 1023])));
    assert!(exceeds_inline_threshold(&InvokeResponseBody::Raw(vec![0; 1024])));
    // the JSON threshold counts bytes, not characters
    assert!(exceeds_inline_threshold(&InvokeResponseBody::Json("é".repeat(4096))));
}

#[test]
fn inline_payloads() {
    assert_eq!(inline_payload(InvokeResponseBody::Json("{\"a\":1}".into())).unwrap(), "{\"a\":1}");
    assert_eq!(inline_payload(InvokeResponseBody::Raw(vec![1, 2, 255])).unwrap(), "new Uint8Array([1,2,255]).buffer");
    assert_eq!(inline_payload(InvokeResponseBody::Raw(vec![])).unwrap(), "new Uint8Array([]).buffer");
}

#[test]
fn channel_ids_from_text() {
    assert_eq!(JavaScriptChannelId::from_str("__CHANNEL__:12"), Ok(JavaScriptChannelId(CallbackFn(12))));
    assert_eq!(JavaScriptChannelId::from_str("12"), Err("invalid channel string"));
    assert_eq!(JavaScriptChannelId::from_str("__CHANNEL__:x"), Err("invalid channel ID"));
    assert_eq!(JavaScriptChannelId::from_str("__CHANNEL__:4294967296"), Err("invalid channel ID"));
    assert_eq!(JavaScriptChannelId::from_str("__CHANNEL__:7").unwrap().callback(), CallbackFn(7));
}

#[test]
fn channel_data_ids_from_headers() {
    assert_eq!(channel_data_id(Some("15")), Some(15));
    assert_eq!(channel_data_id(Some("-1")), None);
    assert_eq!(channel_data_id(None), None);
}

#[test]
fn channels_deliver_through_their_handler() {
    let delivered = std::cell::RefCell::new(Vec::new());
    let channel = Channel::new_with_id(3, |body: InvokeResponseBody| -> Result<(), Error> {
        delivered.borrow_mut().push(body);
        Ok(())
    });
    assert_eq!(channel.id(), 3);
    channel.send(InvokeResponseBody::Json("1".into())).unwrap();
    channel.send(Response::new(InvokeResponseBody::Raw(vec![2]))).unwrap();
    assert_eq!(*delivered.borrow(), vec![InvokeResponseBody::Json("1".into()), InvokeResponseBody::Raw(vec![2])]);
}

fn fetched(queue: &mut ChannelDataIpcQueue, label: &str, data_id: u32) -> Result<InvokeResponseBody, &'static str> {
    let header = data_id.to_string();
    fetch_channel_data(queue, label, Some(header.as_str())).map(|r| r.body().unwrap())
}

#[test]
fn fetch_serves_the_queued_data_when_allowed() {
    let mut queue = ChannelDataIpcQueue::new();
    let id = queue.push("main", InvokeResponseBody::Raw(b"payload".to_vec()));
    assert_eq!(fetched(&mut queue, "main", id), Ok(InvokeResponseBody::Raw(b"payload".to_vec())));
    // the data is only served once
    assert_eq!(fetched(&mut queue, "main", id), Err("data not found"));
}

#[test]
fn fetch_rejects_another_webviews_data() {
    let mut queue = ChannelDataIpcQueue::new();
    let id = queue.push("main", InvokeResponseBody::Raw(b"payload".to_vec()));
    assert_eq!(fetched(&mut queue, "other", id), Err("data not found"));
    // the entry is still there for the webview it was queued for
    assert_eq!(fetched(&mut queue, "main", id), Ok(InvokeResponseBody::Raw(b"payload".to_vec())));
}

#[test]
fn fetch_without_a_data_id() {
    let mut queue = ChannelDataIpcQueue::new();
    assert!(matches!(fetch_channel_data(&mut queue, "main", None), Err("missing channel id header")));
    assert!(matches!(fetch_channel_data(&mut queue, "main", Some("abc")), Err("missing channel id header")));
}

#[test]
fn rejected_fetch_discards_the_webviews_queued_data() {
    let mut queue = ChannelDataIpcQueue::new();
    let mine = queue.push("main", InvokeResponseBody::Raw(b"payload".to_vec()));
    let theirs = queue.push("other", InvokeResponseBody::Raw(b"payload".to_vec()));
    discard_rejected_fetch(&mut queue, "main", Some(mine.to_string().as_str()));
    assert_eq!(fetched(&mut queue, "main", mine), Err("data not found"));
    // another webview's data is left untouched by a rejected request
    discard_rejected_fetch(&mut queue, "main", Some(theirs.to_string().as_str()));
    assert_eq!(fetched(&mut queue, "other", theirs), Ok(InvokeResponseBody::Raw(b"payload".to_vec())));
}

fn large_json() -> String {
    format!("\"{}\"", "x".repeat(MAX_JSON_DIRECT_EXECUTE_THRESHOLD))
}

#[test]
fn large_payloads_are_sent_inline_when_fetch_is_not_allowed() {
    let mut queue = ChannelDataIpcQueue::new();
    let evaluated = std::cell::RefCell::new(Vec::<String>::new());
    let asked = std::cell::Cell::new(0u32);
    let mut channel = JavaScriptChannelId::from_str("__CHANNEL__:7").unwrap().channel_on_webview(
        "main".to_string(),
        |script: String| -> Result<(), Error> {
            evaluated.borrow_mut().push(script);
            Ok(())
        },
        |_callback: u32, _index: usize, _body: &InvokeResponseBody| false,
        || {
            asked.set(asked.get() + 1);
            false
        },
    );
    assert_eq!(channel.id(), 7);
    let payload = large_json();
    assert_eq!(channel.send(&mut queue, InvokeResponseBody::Json(payload.clone())), Ok(()));
    // nothing is queued for a webview that could never fetch it
    assert_eq!(fetched(&mut queue, "main", 0), Err("data not found"));
    let script = evaluated.borrow().last().unwrap().clone();
    assert!(!script.contains(FETCH_CHANNEL_DATA_COMMAND), "payload must not go through the fetch command: {script}");
    assert!(
        script.contains(&format!("{{ message: {payload}, index: 0 }}")),
        "payload must be delivered inline with its index: {script}"
    );
    // a later message keeps the ordering
    assert_eq!(channel.send(&mut queue, InvokeResponseBody::Json("\"small\"".into())), Ok(()));
    assert!(evaluated.borrow().last().unwrap().contains("{ message: \"small\", index: 1 }"));
    // the permission was asked once, for the large payload
    assert_eq!(asked.get(), 1);
}

#[test]
fn webview_channels_queue_large_payloads_and_end_with_the_count() {
    let mut queue = ChannelDataIpcQueue::new();
    let evaluated = std::cell::RefCell::new(Vec::<String>::new());
    let mut channel = JavaScriptChannelId::from_str("__CHANNEL__:5").unwrap().channel_on_webview(
        "main".to_string(),
        |script: String| -> Result<(), Error> {
            evaluated.borrow_mut().push(script);
            Ok(())
        },
        |_callback: u32, index: usize, _body: &InvokeResponseBody| index == 1,
        || true,
    );
    let payload = large_json();
    channel.send(&mut queue, InvokeResponseBody::Json(payload.clone())).unwrap();
    assert!(evaluated.borrow()[0].contains("runCallback(5, { message: response, index: 0 })"));
    assert_eq!(fetched(&mut queue, "main", 0), Ok(InvokeResponseBody::Json(payload)));
    // the interceptor takes the second message: nothing is evaluated, the index is spent
    channel.send(&mut queue, Response::new("2".to_string().into())).unwrap();
    assert_eq!(evaluated.borrow().len(), 1);
    channel.send(&mut queue, InvokeResponseBody::Json("3".into())).unwrap();
    assert_eq!(evaluated.borrow()[1], "window.__TAURI_INTERNALS__.runCallback(5, { message: 3, index: 2 })");
    assert_eq!(channel.message_count(), 3);
    channel.end().unwrap();
    assert_eq!(evaluated.borrow()[2], "window.__TAURI_INTERNALS__.runCallback(5, { end: true, index: 3 })");
}

#[test]
fn response_bodies_convert() {
    assert_eq!(InvokeResponseBody::from("{}".to_string()), InvokeResponseBody::Json("{}".into()));
    assert_eq!(InvokeResponseBody::from(vec![1u8, 2]), InvokeResponseBody::Raw(vec![1, 2]));
    assert_eq!(Response::new(vec![3u8].into()).body(), Ok(InvokeResponseBody::Raw(vec![3])));
}

#[test]
fn channel_messages_count_up_and_end_with_the_count() {
    let mut queue = ChannelDataIpcQueue::new();
    let mut channel = JavaScriptChannelId::from_str("__CHANNEL__:4").unwrap().message_state();
    assert_eq!(channel.end_script(), "window.__TAURI_INTERNALS__.runCallback(4, { end: true, index: 0 })");
    let first = channel.deliver(&mut queue, "main", InvokeResponseBody::Json("1".into()), false, true).unwrap();
    assert_eq!(first.as_deref(), Some("window.__TAURI_INTERNALS__.runCallback(4, { message: 1, index: 0 })"));
    // an intercepted message is not written, but takes its index
    assert_eq!(channel.deliver(&mut queue, "main", InvokeResponseBody::Json("2".into()), true, true).unwrap(), None);
    let third = channel.deliver(&mut queue, "main", InvokeResponseBody::Json("3".into()), false, true).unwrap();
    assert_eq!(third.as_deref(), Some("window.__TAURI_INTERNALS__.runCallback(4, { message: 3, index: 2 })"));
    assert_eq!(channel.message_count(), 3);
    assert_eq!(channel.end_script(), "window.__TAURI_INTERNALS__.runCallback(4, { end: true, index: 3 })");
}

#[test]
fn new_channels_get_distinct_ids() {
    let mut ids = ChannelIds::new();
    let a = Channel::new(&mut ids, |_body: InvokeResponseBody| -> Result<(), Error> { Ok(()) });
    let b = Channel::new(&mut ids, |_body: InvokeResponseBody| -> Result<(), Error> { Ok(()) });
    assert_eq!(a.id(), 0);
    assert_eq!(b.id(), 1);
    assert_ne!(a.id(), b.id());
    assert_eq!(a.duplicate().id(), a.id());
    assert_eq!(ids.fresh(), 2);
    let parsed = JavaScriptChannelId::from_str("__CHANNEL__:7").unwrap();
    let on = parsed.channel_on(|_body: InvokeResponseBody| -> Result<(), Error> { Ok(()) });
    assert_eq!(on.id(), 7);
}

#[test]
fn large_payloads_are_queued_when_fetch_is_allowed() {
    let mut queue = ChannelDataIpcQueue::new();
    let payload = large_json();
    let script = channel_message_script(&mut queue, "main", 7, Some(0), InvokeResponseBody::Json(payload.clone()), true).unwrap();
    assert!(
        script.contains(FETCH_CHANNEL_DATA_COMMAND) && !script.contains(&payload),
        "payload must go through the fetch command: {script}"
    );
    assert!(script.contains("'Tauri-Channel-Id': '0'"));
    assert!(script.contains("runCallback(7, { message: response, index: 0 })"));
    assert_eq!(fetched(&mut queue, "main", 0), Ok(InvokeResponseBody::Json(payload)));
    assert_eq!(fetched(&mut queue, "main", 0), Err("data not found"));
}

#[test]
fn small_payloads_are_always_inline() {
    let mut queue = ChannelDataIpcQueue::new();
    let script = channel_message_script(&mut queue, "main", 3, None, InvokeResponseBody::Raw(vec![1, 2]), true).unwrap();
    assert_eq!(script, "window.__TAURI_INTERNALS__.runCallback(3, new Uint8Array([1,2]).buffer)");
    assert_eq!(
        channel_end_script(3, 2),
        "window.__TAURI_INTERNALS__.runCallback(3, { end: true, index: 2 })"
    );
    assert_eq!(run_callback(9, "null"), "window.__TAURI_INTERNALS__.runCallback(9, null)");
}

#[test]
fn closing_a_webview_purges_its_queued_data() {
    let mut queue = ChannelDataIpcQueue::new();
    let a = queue.push("main", InvokeResponseBody::Json("a".into()));
    let b = queue.push("other", InvokeResponseBody::Json("b".into()));
    let c = queue.push("main", InvokeResponseBody::Raw(vec![1]));
    assert_eq!((a, b, c), (0, 1, 2));
    queue.purge_webview("main");
    assert_eq!(queue.take(a, "main"), None);
    assert_eq!(queue.take(c, "main"), None);
    assert_eq!(queue.take(b, "other"), Some(InvokeResponseBody::Json("b".into())));
}

#[test]
fn channel_data_ids_are_decimal_u32() {
    assert_eq!(channel_data_id(Some("+7")), Some(7));
    assert_eq!(channel_data_id(Some("007")), Some(7));
    assert_eq!(channel_data_id(Some("4294967295")), Some(u32::MAX));
    assert_eq!(channel_data_id(Some("4294967296")), None);
    assert_eq!(channel_data_id(Some("")), None);
    assert_eq!(channel_data_id(Some("+")), None);
    assert_eq!(channel_data_id(Some("1 ")), None);
}
