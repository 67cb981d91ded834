//! IPC responses, callbacks and channels: what a command answers, and how a payload reaches the
//! webview that waits for it.

use vstd::prelude::*;

use crate::error::Error;
use crate::text::{concat, concat_all, decimal, has_prefix, starts_with, substring, chars_of};
use std::collections::BTreeMap;
use vstd::std_specs::iter::IteratorSpec;

verus! {

broadcast use vstd::std_specs::btree::group_btree_axioms;

/// The body of an IPC response.
#[derive(Clone, Debug, PartialEq, Eq)]
pub enum InvokeResponseBody {
    /// A JSON text.
    Json(String),
    /// Raw bytes.
    Raw(Vec<u8>),
}

impl From<String> for InvokeResponseBody {
    /// A JSON body.
    fn from(value: String) -> (r: Self)
        ensures
            r == InvokeResponseBody::Json(value),
    {
        InvokeResponseBody::Json(value)
    }
}

impl vstd::std_specs::convert::FromSpecImpl<String> for InvokeResponseBody {
    open spec fn obeys_from_spec() -> bool {
        true
    }

    open spec fn from_spec(v: String) -> Self {
        InvokeResponseBody::Json(v)
    }
}

impl From<Vec<u8>> for InvokeResponseBody {
    /// A raw body.
    fn from(value: Vec<u8>) -> (r: Self)
        ensures
            r == InvokeResponseBody::Raw(value),
    {
        InvokeResponseBody::Raw(value)
    }
}

impl vstd::std_specs::convert::FromSpecImpl<Vec<u8>> for InvokeResponseBody {
    open spec fn obeys_from_spec() -> bool {
        true
    }

    open spec fn from_spec(v: Vec<u8>) -> Self {
        InvokeResponseBody::Raw(v)
    }
}

impl InvokeResponseBody {
    /// A JSON body.
    pub fn from_json(json: String) -> (r: Self)
        ensures
            r == InvokeResponseBody::Json(json),
    {
        InvokeResponseBody::Json(json)
    }

    /// A raw body.
    pub fn from_raw(bytes: Vec<u8>) -> (r: Self)
        ensures
            r == InvokeResponseBody::Raw(bytes),
    {
        InvokeResponseBody::Raw(bytes)
    }

    /// The body read as a `T`: a JSON body is parsed (`serde_json::from_str`), raw bytes are
    /// read as a sequence of bytes; [`Error::Json`] with the parser's message when that fails.
    /// The result depends on how `T` deserializes.
    #[verifier::external_body]
    pub fn deserialize<T: serde::de::DeserializeOwned>(self) -> Result<T, Error> {
        let parsed: Result<T, serde_json::Error> = match self {
            InvokeResponseBody::Json(v) => serde_json::from_str(&v),
            InvokeResponseBody::Raw(v) => T::deserialize(serde::de::IntoDeserializer::<serde_json::Error>::into_deserializer(v)),
        };
        parsed.map_err(|e| Error::Json(e.to_string()))
    }
}

/// A response to an IPC call: something that resolves to a response body.
pub trait IpcResponse {
    /// The response body.
    fn body(self) -> Result<InvokeResponseBody, Error>;
}

impl IpcResponse for InvokeResponseBody {
    fn body(self) -> (r: Result<InvokeResponseBody, Error>)
        ensures
            r == Ok::<InvokeResponseBody, Error>(self),
    {
        Ok(self)
    }
}

/// The IPC response.
pub struct Response {
    body: InvokeResponseBody,
}

impl Response {
    /// A response with the given body.
    pub fn new(body: InvokeResponseBody) -> (r: Self)
        ensures
            r.body_value() == body,
    {
        Response { body }
    }

    /// The body.
    pub closed spec fn body_value(&self) -> InvokeResponseBody {
        self.body
    }
}

impl IpcResponse for Response {
    fn body(self) -> (r: Result<InvokeResponseBody, Error>)
        ensures
            r == Ok::<InvokeResponseBody, Error>(self.body_value()),
    {
        Ok(self.body)
    }
}

/// The id of a JavaScript callback (what `transformCallback` returns).
#[derive(Clone, Copy, Debug, PartialEq, Eq, Hash)]
pub struct CallbackFn(pub u32);

/// What precedes the id of a channel in its text form.
pub const IPC_PAYLOAD_PREFIX: &'static str = "__CHANNEL__:";

/// The command a webview fetches queued channel data with.
pub const FETCH_CHANNEL_DATA_COMMAND: &'static str = "plugin:channel|fetch";

/// The request header that names the queued data a fetch asks for.
pub const CHANNEL_ID_HEADER_NAME: &'static str = "Tauri-Channel-Id";

/// JSON payloads of at least this many bytes go through the fetch transport.
pub const MAX_JSON_DIRECT_EXECUTE_THRESHOLD: usize = 8192;

/// Raw payloads of at least this many bytes go through the fetch transport.
pub const MAX_RAW_DIRECT_EXECUTE_THRESHOLD: usize = 1024;

/// The size of a body: bytes of its JSON text, or its bytes.
pub open spec fn body_len(body: InvokeResponseBody) -> nat {
    match body {
        InvokeResponseBody::Json(j) => j@.len(),
        InvokeResponseBody::Raw(b) => b@.len(),
    }
}

/// The number of bytes UTF-8 takes for a character.
pub open spec fn char_utf8_len(c: char) -> nat {
    if (c as u32) < 0x80 {
        1
    } else if (c as u32) < 0x800 {
        2
    } else if (c as u32) < 0x10000 {
        3
    } else {
        4
    }
}

/// The length of a text in UTF-8 bytes.
pub open spec fn utf8_len(s: Seq<char>) -> nat
    decreases s.len(),
{
    if s.len() == 0 {
        0
    } else {
        utf8_len(s.drop_last()) + char_utf8_len(s.last())
    }
}

/// `str::len`: the length of the text in UTF-8 bytes (a `str` is UTF-8).
#[verifier::external_body]
fn str_byte_len(s: &str) -> (r: usize)
    ensures
        r == utf8_len(s@),
{
    s.len()
}

/// Whether a payload is large enough for the fetch transport to beat an inline eval: a JSON text
/// of at least 8192 bytes, or at least 1024 raw bytes.
pub open spec fn body_exceeds_inline_threshold(body: InvokeResponseBody) -> bool {
    match body {
        InvokeResponseBody::Json(j) => utf8_len(j@) >= MAX_JSON_DIRECT_EXECUTE_THRESHOLD,
        InvokeResponseBody::Raw(b) => b@.len() >= MAX_RAW_DIRECT_EXECUTE_THRESHOLD,
    }
}

/// Whether a payload is large enough for the fetch transport to beat an inline eval: a JSON text
/// of at least 8192 bytes, or at least 1024 raw bytes.
pub fn exceeds_inline_threshold(body: &InvokeResponseBody) -> (r: bool)
    ensures
        r == body_exceeds_inline_threshold(*body),
{
    match body {
        InvokeResponseBody::Json(json) => str_byte_len(json.as_str()) >= MAX_JSON_DIRECT_EXECUTE_THRESHOLD,
        InvokeResponseBody::Raw(bytes) => bytes.len() >= MAX_RAW_DIRECT_EXECUTE_THRESHOLD,
    }
}

/// The decimal numbers of `bytes`, separated by commas.
pub open spec fn comma_separated(bytes: Seq<u8>) -> Seq<char>
    decreases bytes.len(),
{
    if bytes.len() == 0 {
        Seq::empty()
    } else if bytes.len() == 1 {
        decimal(bytes[0] as nat)
    } else {
        comma_separated(bytes.drop_last()) + seq![','] + decimal(bytes.last() as nat)
    }
}

/// The compact JSON array of the numbers of `bytes`, such as `[1,2,3]`.
pub open spec fn json_byte_array(bytes: Seq<u8>) -> Seq<char> {
    seq!['['] + comma_separated(bytes) + seq![']']
}

/// `serde_json::to_string` of a byte sequence: a compact JSON array of its numbers, such as
/// `[1,2,3]` (serializing bytes into a string cannot fail).
#[verifier::external_body]
fn json_of_bytes(bytes: &Vec<u8>) -> (r: String)
    ensures
        r@ == json_byte_array(bytes@),
{
    match serde_json::to_string(bytes) {
        Ok(s) => s,
        Err(_) => String::new(),
    }
}

/// The JavaScript expression of a payload delivered inline: the JSON text itself, or an
/// `ArrayBuffer` of the raw bytes.
pub open spec fn inline_payload_text(body: InvokeResponseBody) -> Seq<char> {
    match body {
        InvokeResponseBody::Json(j) => j@,
        InvokeResponseBody::Raw(b) => "new Uint8Array("@ + json_byte_array(b@) + ").buffer"@,
    }
}

/// The JavaScript expression of a payload delivered inline.
pub fn inline_payload(body: InvokeResponseBody) -> (r: Result<String, Error>)
    ensures
        r matches Ok(s) && s@ == inline_payload_text(body),
{
    match body {
        InvokeResponseBody::Json(json) => Ok(json),
        InvokeResponseBody::Raw(bytes) => {
            let json = json_of_bytes(&bytes);
            let head = concat("new Uint8Array(", json.as_str());
            Ok(concat(head.as_str(), ").buffer"))
        },
    }
}

/// Whether every character is a decimal digit.
pub open spec fn all_digits(s: Seq<char>) -> bool {
    forall|i: int| 0 <= i < s.len() ==> '0' <= #[trigger] s[i] && s[i] <= '9'
}

/// The number decimal digits write.
pub open spec fn digits_value(s: Seq<char>) -> nat
    decreases s.len(),
{
    if s.len() == 0 {
        0
    } else {
        digits_value(s.drop_last()) * 10 + (s.last() as nat - '0' as nat) as nat
    }
}

/// `u32::from_str`: the number a decimal text names: an optional `+`, then at least one digit,
/// and a value that fits in a `u32`; `None` for anything else.
pub open spec fn parsed_u32(s: Seq<char>) -> Option<u32> {
    let digits = if s.len() > 0 && s[0] == '+' { s.subrange(1, s.len() as int) } else { s };
    if digits.len() > 0 && all_digits(digits) && digits_value(digits) <= u32::MAX {
        Some(digits_value(digits) as u32)
    } else {
        None
    }
}

/// `<u32 as FromStr>::from_str`: the number `s` writes in decimal, if it is one that fits.
#[verifier::external_body]
pub(crate) fn parse_u32(s: &str) -> (r: Option<u32>)
    ensures
        r == parsed_u32(s@),
        forall|n: u32| s@ == decimal(n as nat) ==> r == Some(n),
{
    s.parse::<u32>().ok()
}

/// The id of a channel that the frontend defined, parsed from its text form `__CHANNEL__:<id>`.
#[derive(Clone, Copy, Debug, PartialEq, Eq)]
pub struct JavaScriptChannelId(pub CallbackFn);

/// The channel id a text names: `None` when it lacks the prefix or the rest is no `u32`.
pub open spec fn channel_id_of(s: Seq<char>) -> Result<u32, Seq<char>> {
    if !has_prefix(s, IPC_PAYLOAD_PREFIX@) {
        Err("invalid channel string"@)
    } else {
        match parsed_u32(s.subrange(IPC_PAYLOAD_PREFIX@.len() as int, s.len() as int)) {
            Some(id) => Ok(id),
            None => Err("invalid channel ID"@),
        }
    }
}

impl JavaScriptChannelId {
    /// Parses the text form of a channel: `__CHANNEL__:` then the decimal id. Fails with
    /// "invalid channel string" without the prefix and "invalid channel ID" when the rest is no
    /// `u32`.
    pub fn from_str(s: &str) -> (r: Result<Self, &'static str>)
        ensures
            match channel_id_of(s@) {
                Ok(id) => r == Ok::<Self, &'static str>(JavaScriptChannelId(CallbackFn(id))),
                Err(m) => r matches Err(e) && e@ == m,
            },
    {
        if !starts_with(s, IPC_PAYLOAD_PREFIX) {
            return Err("invalid channel string");
        }
        let prefix_len = chars_of(IPC_PAYLOAD_PREFIX).len();
        let rest = substring(s, prefix_len, chars_of(s).len());
        match parse_u32(rest.as_str()) {
            Some(id) => Ok(JavaScriptChannelId(CallbackFn(id))),
            None => Err("invalid channel ID"),
        }
    }

    /// The channel this id names, delivering its messages with `on_message` (which writes them
    /// to the webview that defined it).
    pub fn channel_on<F: Fn(InvokeResponseBody) -> Result<(), Error>>(&self, on_message: F) -> (r: Channel<F>)
        ensures
            r.channel_id() == self.0.0,
            r.deliverer() == on_message,
    {
        Channel::new_with_id(self.0.0, on_message)
    }

    /// The channel this id names on the webview `webview_label`, which evaluates scripts with
    /// `eval`, with the channel interceptor `intercept` and the fetch permission check
    /// `fetch_check`; no message sent yet, the permission not yet asked.
    pub fn channel_on_webview<E, I, A>(&self, webview_label: String, eval: E, intercept: I, fetch_check: A) -> (r: WebviewChannel<E, I, A>)
        where
            E: Fn(String) -> Result<(), Error>,
            I: Fn(u32, usize, &InvokeResponseBody) -> bool,
            A: Fn() -> bool,
        ensures
            r.callback() == self.0.0,
            r.sent() == 0,
            r.label() == webview_label@,
            r.fetch_decision() is None,
            r.evaluator() == eval,
            r.interceptor() == intercept,
            r.fetch_checker() == fetch_check,
    {
        WebviewChannel { state: JsChannel::new(self.0.0), webview_label, fetch_allowed: None, eval, intercept, fetch_check }
    }

    /// The state of this frontend channel's messages, none sent yet.
    pub fn message_state(&self) -> (r: JsChannel)
        ensures
            r.callback() == self.0.0,
            r.sent() == 0,
    {
        JsChannel::new(self.0.0)
    }

    /// The id of the frontend callback.
    pub fn callback(&self) -> (r: CallbackFn)
        ensures
            r == self.0,
    {
        self.0
    }
}

/// The kinds of messages a persistent channel carries.
#[derive(Clone, Copy, Debug, PartialEq, Eq)]
pub enum ChannelMessageType {
    Data,
    Error,
    Close,
    Ping,
    Pong,
}

/// What is known of a persistent channel: its id and whether it is connected.
#[derive(Clone, Copy, Debug, PartialEq, Eq)]
pub struct ChannelInfo {
    pub id: u64,
    pub connected: bool,
}

/// The text form of channel `id`: `__CHANNEL__:<id>`.
pub open spec fn channel_text(id: u32) -> Seq<char> {
    IPC_PAYLOAD_PREFIX@ + decimal(id as nat)
}

/// The data id a `Tauri-Channel-Id` header value names, if any.
pub open spec fn channel_data_id_of(header: Option<&str>) -> Option<u32> {
    match header {
        Some(h) => parsed_u32(h@),
        None => None,
    }
}

/// The data id a `Tauri-Channel-Id` header value names, if any.
pub fn channel_data_id(header: Option<&str>) -> (r: Option<u32>)
    ensures
        r == channel_data_id_of(header),
{
    match header {
        Some(h) => parse_u32(h),
        None => None,
    }
}

/// An IPC channel: an id, and what delivers a message to the frontend.
#[derive(Clone)]
pub struct Channel<F> {
    id: u32,
    on_message: F,
}

/// The value a counter that counts up, wrapping at the end of the `u32` range, holds `n` steps
/// after `start`.
pub open spec fn counted(start: u32, n: nat) -> u32 {
    ((start + n) % 0x1_0000_0000) as u32
}

/// One step of a wrapping counter is a step of `counted`.
pub proof fn lemma_counted_step(start: u32, n: nat)
    ensures
        counted(counted(start, n), 1) == counted(start, n + 1),
{
    let x: int = start + n;
    assert(((x % 0x1_0000_0000) + 1) % 0x1_0000_0000 == (x + 1) % 0x1_0000_0000);
}

/// Ids handed out by one counter with fewer than 2^32 steps between them differ.
pub proof fn lemma_counted_distinct(start: u32, i: nat, j: nat)
    requires
        i < j < 0x1_0000_0000,
    ensures
        counted(start, i) != counted(start, j),
{
    let a: int = start + i;
    let b: int = start + j;
    assert(a % 0x1_0000_0000 != b % 0x1_0000_0000);
}

/// The counter that gives channels their ids, counting up from 0 and wrapping at the end of the
/// `u32` range.
pub struct ChannelIds {
    next: u32,
}

impl ChannelIds {
    /// A counter at 0.
    pub fn new() -> (r: Self)
        ensures
            r.next_id() == 0,
    {
        ChannelIds { next: 0 }
    }

    /// The id the next channel gets.
    pub closed spec fn next_id(&self) -> u32 {
        self.next
    }

    /// Hands out the next id.
    pub fn fresh(&mut self) -> (r: u32)
        ensures
            r == old(self).next_id(),
            final(self).next_id() == counted(old(self).next_id(), 1),
    {
        let id = self.next;
        self.next = if id == u32::MAX { 0 } else { id + 1 };
        id
    }
}

impl<F: Fn(InvokeResponseBody) -> Result<(), Error>> Channel<F> {
    /// A channel that delivers messages with `on_message`, under the next id of `ids`.
    pub fn new(ids: &mut ChannelIds, on_message: F) -> (r: Self)
        ensures
            r.channel_id() == old(ids).next_id(),
            final(ids).next_id() == counted(old(ids).next_id(), 1),
            r.deliverer() == on_message,
    {
        let id = ids.fresh();
        Channel { id, on_message }
    }

    /// A channel with the id `id` that delivers messages with `on_message`.
    pub fn new_with_id(id: u32, on_message: F) -> (r: Self)
        ensures
            r.channel_id() == id,
            r.deliverer() == on_message,
    {
        Channel { id, on_message }
    }

    /// The id.
    pub closed spec fn channel_id(&self) -> u32 {
        self.id
    }

    /// What delivers the messages.
    pub closed spec fn deliverer(&self) -> F {
        self.on_message
    }

    /// The channel id.
    pub fn id(&self) -> (r: u32)
        ensures
            r == self.channel_id(),
    {
        self.id
    }

    /// Another handle on this channel: the same id, and a copy of the deliverer.
    pub fn duplicate(&self) -> (r: Self)
        where
            F: Clone,
        ensures
            r.channel_id() == self.channel_id(),
    {
        Channel { id: self.id, on_message: self.on_message.clone() }
    }

    /// Sends `data` through the channel: its body goes to the deliverer, whose result comes back.
    pub fn send<T: IpcResponse>(&self, data: T) -> (r: Result<(), Error>)
        requires
            forall|b: InvokeResponseBody| call_requires(self.deliverer(), (b,)),
        ensures
            exists|res: Result<InvokeResponseBody, Error>|
                #[trigger] call_ensures(T::body, (data,), res) && match res {
                    Ok(b) => call_ensures(self.deliverer(), (b,), r),
                    Err(e) => r == Err::<(), Error>(e),
                },
    {
        match data.body() {
            Ok(body) => {
                proof {
                    assert(call_requires(self.deliverer(), (body,)));
                }
                (self.on_message)(body)
            },
            Err(e) => Err(e),
        }
    }
}

/// Payloads waiting for their webview to fetch them, by data id.
pub struct ChannelDataIpcQueue {
    queue: BTreeMap<u32, (String, InvokeResponseBody)>,
    next_id: u32,
}

/// The model of a queued payload: the webview label and the body.
pub open spec fn queued_model(e: (String, InvokeResponseBody)) -> (Seq<char>, InvokeResponseBody) {
    (e.0@, e.1)
}

/// Taking the payload queued under `id` for the webview `label`: the payload and the queue
/// without it, when it is queued for that webview; nothing, and the queue as it was, otherwise.
pub open spec fn taken(
    entries: Map<u32, (Seq<char>, InvokeResponseBody)>,
    id: u32,
    label: Seq<char>,
) -> (Option<InvokeResponseBody>, Map<u32, (Seq<char>, InvokeResponseBody)>) {
    if entries.contains_key(id) && entries[id].0 == label {
        (Some(entries[id].1), entries.remove(id))
    } else {
        (None, entries)
    }
}

/// A payload queued for a webview is handed to that webview, once, and to no other webview,
/// which leaves it in place.
pub proof fn lemma_queued_payload_served_once(
    entries: Map<u32, (Seq<char>, InvokeResponseBody)>,
    id: u32,
    label: Seq<char>,
    other: Seq<char>,
    body: InvokeResponseBody,
)
    requires
        other != label,
    ensures
        taken(entries.insert(id, (label, body)), id, label).0 == Some(body),
        taken(taken(entries.insert(id, (label, body)), id, label).1, id, label).0 is None,
        taken(entries.insert(id, (label, body)), id, other) == (None::<InvokeResponseBody>, entries.insert(id, (label, body))),
{
    let queued = entries.insert(id, (label, body));
    assert(!queued.remove(id).contains_key(id));
}

impl ChannelDataIpcQueue {
    /// The queued payloads.
    pub closed spec fn entries(&self) -> Map<u32, (Seq<char>, InvokeResponseBody)> {
        self.queue@.map_values(|e: (String, InvokeResponseBody)| queued_model(e))
    }

    /// The data id the next payload gets.
    pub closed spec fn next_data_id(&self) -> u32 {
        self.next_id
    }

    /// An empty queue.
    pub fn new() -> (r: Self)
        ensures
            r.entries() == Map::<u32, (Seq<char>, InvokeResponseBody)>::empty(),
            r.next_data_id() == 0,
    {
        let r = ChannelDataIpcQueue { queue: BTreeMap::new(), next_id: 0 };
        assert(r.entries() =~= Map::<u32, (Seq<char>, InvokeResponseBody)>::empty());
        r
    }

    /// Queues `body` for the webview `webview_label`, under a new data id (counting up, wrapping
    /// at the end of the `u32` range), which it returns.
    pub fn push(&mut self, webview_label: &str, body: InvokeResponseBody) -> (r: u32)
        ensures
            r == old(self).next_data_id(),
            final(self).next_data_id() == (if r == u32::MAX { 0 } else { (r + 1) as u32 }),
            final(self).entries() == old(self).entries().insert(r, (webview_label@, body)),
    {
        let id = self.next_id;
        self.next_id = if id == u32::MAX { 0 } else { id + 1 };
        let ghost before = self.queue@;
        let _previous = self.queue.insert(id, (String::from_str(webview_label), body));
        assert(self.entries() =~= old(self).entries().insert(id, (webview_label@, body)));
        id
    }

    /// Takes the payload queued under `data_id` for the webview `webview_label`. A payload queued
    /// for another webview stays where it is.
    pub fn take(&mut self, data_id: u32, webview_label: &str) -> (r: Option<InvokeResponseBody>)
        ensures
            final(self).next_data_id() == old(self).next_data_id(),
            (r, final(self).entries()) == taken(old(self).entries(), data_id, webview_label@),
    {
        let matches = match self.queue.get(&data_id) {
            Some(entry) => crate::text::str_eq(entry.0.as_str(), webview_label),
            None => false,
        };
        if matches {
            match self.queue.remove(&data_id) {
                Some(entry) => {
                    assert(self.entries() =~= old(self).entries().remove(data_id));
                    Some(entry.1)
                },
                None => None,
            }
        } else {
            None
        }
    }

    /// Drops every payload queued for the webview `webview_label`.
    pub fn purge_webview(&mut self, webview_label: &str)
        ensures
            final(self).next_data_id() == old(self).next_data_id(),
            final(self).entries() == old(self).entries().restrict(
                old(self).entries().dom().filter(|k: u32| old(self).entries()[k].0 != webview_label@),
            ),
    {
        let mut keys: Vec<u32> = Vec::new();
        for (k, v) in it: self.queue.iter()
            invariant
                keys@.len() == it.index(),
                it.seq() == vstd::std_specs::btree::spec_btree_map_iter(&self.queue).remaining(),
                forall|i: int| 0 <= i < keys@.len() ==> #[trigger] keys@[i] == *it.seq()[i].0,
        {
            keys.push(*k);
        }
        let ghost start = self.queue@;
        proof {
            let s = vstd::std_specs::btree::spec_btree_map_iter(&self.queue).remaining();
            assert forall|k: u32| start.contains_key(k) implies keys@.contains(k) by {
                assert(s.contains((&k, &start[k])));
                let i = choose|i: int| 0 <= i < s.len() && s[i] == (&k, &start[k]);
                assert(keys@[i] == k);
            }
        }
        let mut j: usize = 0;
        while j < keys.len()
            invariant
                j <= keys@.len(),
                forall|k: u32| start.contains_key(k) ==> keys@.contains(k),
                forall|k: u32| #[trigger] self.queue@.contains_key(k) <==> start.contains_key(k) && !(keys@.take(j as int).contains(k) && start[k].0@ == webview_label@),
                forall|k: u32| self.queue@.contains_key(k) ==> #[trigger] self.queue@[k] == start[k],
                self.next_id == old(self).next_id,
                start == old(self).queue@,
            decreases keys@.len() - j,
        {
            let k = keys[j];
            let drop = match self.queue.get(&k) {
                Some(entry) => crate::text::str_eq(entry.0.as_str(), webview_label),
                None => false,
            };
            if drop {
                let _removed = self.queue.remove(&k);
            }
            proof {
                assert forall|x: u32| keys@.take(j + 1).contains(x) <==> keys@.take(j as int).contains(x) || x == k by {
                    if keys@.take(j + 1).contains(x) {
                        let i = choose|i: int| 0 <= i < j + 1 && #[trigger] keys@.take(j + 1)[i] == x;
                        if i < j {
                            assert(keys@.take(j as int)[i] == x);
                        }
                    }
                    if keys@.take(j as int).contains(x) {
                        let i = choose|i: int| 0 <= i < j && #[trigger] keys@.take(j as int)[i] == x;
                        assert(keys@.take(j + 1)[i] == x);
                    }
                    if x == k {
                        assert(keys@.take(j + 1)[j as int] == x);
                    }
                }
            }
            j += 1;
        }
        proof {
            assert(keys@.take(j as int) =~= keys@);
            let kept = old(self).entries().dom().filter(|k: u32| old(self).entries()[k].0 != webview_label@);
            assert(self.entries() =~= old(self).entries().restrict(kept));
        }
    }
}


/// The script that runs the frontend callback `callback_id` with the JavaScript expression `arg`.
pub open spec fn run_callback_js(callback_id: u32, arg: Seq<char>) -> Seq<char> {
    "window.__TAURI_INTERNALS__.runCallback("@ + decimal(callback_id as nat) + ", "@ + arg + ")"@
}

/// The message a channel hands its callback: the payload expression alone, or, for a channel the
/// frontend defined, the payload with the message's index.
pub open spec fn indexed_message(payload: Seq<char>, index: Option<usize>) -> Seq<char> {
    match index {
        Some(i) => "{ message: "@ + payload + ", index: "@ + decimal(i as nat) + " }"@,
        None => payload,
    }
}

/// The script that fetches the data queued under `data_id` and runs the callback `callback_id`
/// with `result`, an expression over `response` (the fetched payload).
pub open spec fn fetch_js(callback_id: u32, data_id: u32, result: Seq<char>) -> Seq<char> {
    "window.__TAURI_INTERNALS__.invoke('"@ + FETCH_CHANNEL_DATA_COMMAND@ + "', null, { headers: { '"@
        + CHANNEL_ID_HEADER_NAME@ + "': '"@ + decimal(data_id as nat)
        + "' } }).then((response) => window.__TAURI_INTERNALS__.runCallback("@
        + decimal(callback_id as nat) + ", "@ + result + ")).catch(console.error)"@
}

/// The script that runs the frontend callback `callback_id` with the JavaScript expression `arg`.
pub fn run_callback(callback_id: u32, arg: &str) -> (r: String)
    ensures
        r@ == run_callback_js(callback_id, arg@),
{
    let mut r = String::from_str("window.__TAURI_INTERNALS__.runCallback(");
    let id = crate::text::u64_to_decimal(callback_id as u64);
    r.append(id.as_str());
    r.append(", ");
    r.append(arg);
    r.append(")");
    r
}

fn indexed(payload: &str, index: Option<usize>) -> (r: String)
    ensures
        r@ == indexed_message(payload@, index),
{
    match index {
        Some(i) => {
            let mut r = String::from_str("{ message: ");
            r.append(payload);
            r.append(", index: ");
            let n = crate::text::u64_to_decimal(i as u64);
            r.append(n.as_str());
            r.append(" }");
            r
        },
        None => String::from_str(payload),
    }
}

fn fetch_script(callback_id: u32, data_id: u32, result: &str) -> (r: String)
    ensures
        r@ == fetch_js(callback_id, data_id, result@),
{
    let mut r = String::from_str("window.__TAURI_INTERNALS__.invoke('");
    r.append(FETCH_CHANNEL_DATA_COMMAND);
    r.append("', null, { headers: { '");
    r.append(CHANNEL_ID_HEADER_NAME);
    r.append("': '");
    let d = crate::text::u64_to_decimal(data_id as u64);
    r.append(d.as_str());
    r.append("' } }).then((response) => window.__TAURI_INTERNALS__.runCallback(");
    let c = crate::text::u64_to_decimal(callback_id as u64);
    r.append(c.as_str());
    r.append(", ");
    r.append(result);
    r.append(")).catch(console.error)");
    r
}

/// What delivering one message does: a payload over the inline threshold, for a webview allowed
/// to fetch channel data, is queued (under the queue's next data id) and the script fetches it;
/// any other payload is written into the script, and the queue stays as it was.
pub open spec fn message_delivered(
    before: ChannelDataIpcQueue,
    after: ChannelDataIpcQueue,
    webview_label: Seq<char>,
    callback_id: u32,
    index: Option<usize>,
    body: InvokeResponseBody,
    fetch_allowed: bool,
    r: Result<String, Error>,
) -> bool {
    if body_exceeds_inline_threshold(body) && fetch_allowed {
        &&& r matches Ok(s) && s@ == fetch_js(callback_id, before.next_data_id(), indexed_message("response"@, index))
        &&& after.entries() == before.entries().insert(before.next_data_id(), (webview_label, body))
        &&& after.next_data_id() == (if before.next_data_id() == u32::MAX { 0 } else { (before.next_data_id() + 1) as u32 })
    } else {
        &&& r matches Ok(s) && s@ == run_callback_js(callback_id, indexed_message(inline_payload_text(body), index))
        &&& after.entries() == before.entries()
        &&& after.next_data_id() == before.next_data_id()
    }
}

/// The script that delivers one message of a channel to the frontend callback `callback_id`.
///
/// `index` is the message's index on a channel the frontend defined, `None` on the channel that
/// answers an invoke request. A payload over the inline threshold, for a webview allowed to fetch
/// channel data (`fetch_allowed`, consulted for such payloads only), is queued for the webview
/// `webview_label` and the script fetches it; any other payload is written into the script.
pub fn channel_message_script(
    queue: &mut ChannelDataIpcQueue,
    webview_label: &str,
    callback_id: u32,
    index: Option<usize>,
    body: InvokeResponseBody,
    fetch_allowed: bool,
) -> (r: Result<String, Error>)
    ensures
        message_delivered(*old(queue), *final(queue), webview_label@, callback_id, index, body, fetch_allowed, r),
{
    if exceeds_inline_threshold(&body) && fetch_allowed {
        let data_id = queue.push(webview_label, body);
        let result = indexed("response", index);
        Ok(fetch_script(callback_id, data_id, result.as_str()))
    } else {
        let payload = match inline_payload(body) {
            Ok(p) => p,
            Err(e) => return Err(e),
        };
        let message = indexed(payload.as_str(), index);
        Ok(run_callback(callback_id, message.as_str()))
    }
}

/// The script that tells the frontend callback of a dropped channel that no message follows the
/// `index` it sent: `{ end: true, index: <index> }`.
pub fn channel_end_script(callback_id: u32, index: usize) -> (r: String)
    ensures
        r@ == run_callback_js(callback_id, "{ end: true, index: "@ + decimal(index as nat) + " }"@),
{
    let mut arg = String::from_str("{ end: true, index: ");
    let n = crate::text::u64_to_decimal(index as u64);
    arg.append(n.as_str());
    arg.append(" }");
    run_callback(callback_id, arg.as_str())
}

/// The message count of a channel the frontend defined after one more message: counting up,
/// wrapping at the end of the `usize` range.
pub open spec fn next_count(n: usize) -> usize {
    if n == usize::MAX { 0 } else { (n + 1) as usize }
}

/// The message count of a channel the frontend defined after `k` messages from none.
pub open spec fn count_after(k: nat) -> usize
    decreases k,
{
    if k == 0 {
        0
    } else {
        next_count(count_after((k - 1) as nat))
    }
}

/// The k-th message of a channel the frontend defined (counting from 0) carries the index k, and
/// after k messages the end message says k, for fewer messages than the `usize` range holds.
pub proof fn lemma_messages_carry_their_rank(k: nat)
    requires
        k <= usize::MAX,
    ensures
        count_after(k) == k,
    decreases k,
{
    if k > 0 {
        lemma_messages_carry_their_rank((k - 1) as nat);
    }
}

/// A channel the frontend defined, as its messages see it: the frontend callback that receives
/// them and how many have been handed to it, which is the index the next one carries.
pub struct JsChannel {
    callback_id: u32,
    sent: usize,
}

impl JsChannel {
    /// The channel of the frontend callback `callback_id`, no message sent yet.
    pub fn new(callback_id: u32) -> (r: Self)
        ensures
            r.callback() == callback_id,
            r.sent() == 0,
    {
        JsChannel { callback_id, sent: 0 }
    }

    /// The frontend callback.
    pub closed spec fn callback(&self) -> u32 {
        self.callback_id
    }

    /// How many messages have been handed over.
    pub closed spec fn sent(&self) -> usize {
        self.sent
    }

    /// The number of messages handed over.
    pub fn message_count(&self) -> (r: usize)
        ensures
            r == self.sent(),
    {
        self.sent
    }

    /// Hands over one message: it takes the next index, whether or not it is written. A message a
    /// channel interceptor took (`intercepted`) is not written; any other comes back as the
    /// script that delivers it with its index (see [`channel_message_script`]).
    pub fn deliver(
        &mut self,
        queue: &mut ChannelDataIpcQueue,
        webview_label: &str,
        body: InvokeResponseBody,
        intercepted: bool,
        fetch_allowed: bool,
    ) -> (r: Result<Option<String>, Error>)
        ensures
            final(self).callback() == old(self).callback(),
            final(self).sent() == next_count(old(self).sent()),
            intercepted ==> r == Ok::<Option<String>, Error>(None) && *final(queue) == *old(queue),
            !intercepted ==> (r matches Ok(Some(script)) && message_delivered(
                *old(queue),
                *final(queue),
                webview_label@,
                old(self).callback(),
                Some(old(self).sent()),
                body,
                fetch_allowed,
                Ok::<String, Error>(script),
            )),
    {
        let index = self.sent;
        self.sent = if index == usize::MAX { 0 } else { index + 1 };
        if intercepted {
            return Ok(None);
        }
        match channel_message_script(queue, webview_label, self.callback_id, Some(index), body, fetch_allowed) {
            Ok(script) => Ok(Some(script)),
            Err(e) => Err(e),
        }
    }

    /// The script that tells the frontend, when the channel's last handle is dropped, that no
    /// message follows the ones sent: `{ end: true, index: <count> }`.
    pub fn end_script(&self) -> (r: String)
        ensures
            r@ == run_callback_js(self.callback(), "{ end: true, index: "@ + decimal(self.sent() as nat) + " }"@),
    {
        channel_end_script(self.callback_id, self.sent)
    }
}

/// How sending a message settles whether the webview may fetch channel data: asked of the
/// checker (once, then kept) for a payload over the inline threshold only; `allowed` is the
/// answer the message goes by.
pub open spec fn fetch_step<A: Fn() -> bool>(before: Option<bool>, after: Option<bool>, checker: A, body: InvokeResponseBody, allowed: bool) -> bool {
    if body_exceeds_inline_threshold(body) {
        match before {
            Some(x) => allowed == x && after == before,
            None => call_ensures(checker, (), allowed) && after == Some(allowed),
        }
    } else {
        after == before
    }
}

/// A channel the frontend defined, bound to the webview `webview_label` that defined it: the
/// message state ([`JsChannel`]), what evaluates a script in the webview, the channel
/// interceptor (told the callback, the index and the body; `true`: it took the message), and
/// what tells whether the webview may fetch channel data, asked once and kept.
pub struct WebviewChannel<E, I, A> {
    state: JsChannel,
    webview_label: String,
    fetch_allowed: Option<bool>,
    eval: E,
    intercept: I,
    fetch_check: A,
}

impl<E: Fn(String) -> Result<(), Error>, I: Fn(u32, usize, &InvokeResponseBody) -> bool, A: Fn() -> bool> WebviewChannel<E, I, A> {
    /// The frontend callback, which is the channel's id.
    pub closed spec fn callback(&self) -> u32 {
        self.state.callback()
    }

    /// How many messages have been handed over.
    pub closed spec fn sent(&self) -> usize {
        self.state.sent()
    }

    /// The label of the webview.
    pub closed spec fn label(&self) -> Seq<char> {
        self.webview_label@
    }

    /// Whether the webview may fetch channel data, once asked.
    pub closed spec fn fetch_decision(&self) -> Option<bool> {
        self.fetch_allowed
    }

    /// What evaluates scripts.
    pub closed spec fn evaluator(&self) -> E {
        self.eval
    }

    /// The channel interceptor.
    pub closed spec fn interceptor(&self) -> I {
        self.intercept
    }

    /// What tells whether the webview may fetch channel data.
    pub closed spec fn fetch_checker(&self) -> A {
        self.fetch_check
    }

    /// The closures may be called on any arguments.
    pub open spec fn callable(&self) -> bool {
        &&& forall|t: String| call_requires(self.evaluator(), (t,))
        &&& forall|c: u32, i: usize, b: &InvokeResponseBody| call_requires(self.interceptor(), (c, i, b))
        &&& call_requires(self.fetch_checker(), ())
    }

    /// The channel's id: its frontend callback.
    pub fn id(&self) -> (r: u32)
        ensures
            r == self.callback(),
    {
        self.state.callback_id
    }

    /// The number of messages handed over.
    pub fn message_count(&self) -> (r: usize)
        ensures
            r == self.sent(),
    {
        self.state.message_count()
    }

    /// Sends `data`. Its body is made first; when that fails, the error comes back and nothing
    /// else happens. Otherwise the message takes the next index; the interceptor is asked
    /// whether it takes it; if not, the webview evaluates the script that delivers it (see
    /// [`channel_message_script`]), whose result comes back.
    pub fn send<T: IpcResponse>(&mut self, queue: &mut ChannelDataIpcQueue, data: T) -> (r: Result<(), Error>)
        requires
            old(self).callable(),
        ensures
            final(self).callback() == old(self).callback(),
            final(self).label() == old(self).label(),
            final(self).evaluator() == old(self).evaluator(),
            final(self).interceptor() == old(self).interceptor(),
            final(self).fetch_checker() == old(self).fetch_checker(),
            exists|res: Result<InvokeResponseBody, Error>| #[trigger] call_ensures(T::body, (data,), res) && match res {
                Err(e) => {
                    &&& r == Err::<(), Error>(e)
                    &&& final(self).sent() == old(self).sent()
                    &&& final(self).fetch_decision() == old(self).fetch_decision()
                    &&& *final(queue) == *old(queue)
                },
                Ok(b) => {
                    &&& final(self).sent() == next_count(old(self).sent())
                    &&& exists|taken: bool| #[trigger] call_ensures(old(self).interceptor(), (old(self).callback(), old(self).sent(), &b), taken) && if taken {
                        &&& r is Ok
                        &&& final(self).fetch_decision() == old(self).fetch_decision()
                        &&& *final(queue) == *old(queue)
                    } else {
                        exists|allowed: bool, script: String| #[trigger] fetch_step(old(self).fetch_decision(), final(self).fetch_decision(), old(self).fetch_checker(), b, allowed)
                            && message_delivered(*old(queue), *final(queue), old(self).label(), old(self).callback(), Some(old(self).sent()), b, allowed, Ok::<String, Error>(script))
                            && #[trigger] call_ensures(old(self).evaluator(), (script,), r)
                    }
                },
            },
    {
        let ghost start_queue = *queue;
        let made = data.body();
        let body = match made {
            Ok(b) => b,
            Err(e) => {
                return Err(e);
            },
        };
        let index = self.state.sent;
        let callback = self.state.callback_id;
        assert(call_requires(old(self).interceptor(), (callback, index, &body)));
        let taken = (self.intercept)(callback, index, &body);
        if taken {
            self.state.sent = if index == usize::MAX { 0 } else { index + 1 };
            return Ok(());
        }
        let ghost before = self.fetch_allowed;
        let allowed = if exceeds_inline_threshold(&body) {
            match self.fetch_allowed {
                Some(x) => x,
                None => {
                    assert(call_requires(old(self).fetch_checker(), ()));
                    let x = (self.fetch_check)();
                    self.fetch_allowed = Some(x);
                    x
                },
            }
        } else {
            false
        };
        assert(fetch_step(before, self.fetch_allowed, self.fetch_check, body, allowed));
        let delivered = self.state.deliver(queue, self.webview_label.as_str(), body, false, allowed);
        match delivered {
            Ok(Some(script)) => {
                assert(call_requires(old(self).evaluator(), (script,)));
                let r = (self.eval)(script);
                assert(fetch_step(old(self).fetch_decision(), self.fetch_decision(), old(self).fetch_checker(), body, allowed));
                assert(message_delivered(start_queue, *queue, old(self).label(), old(self).callback(), Some(old(self).sent()), body, allowed, Ok::<String, Error>(script)));
                assert(call_ensures(old(self).evaluator(), (script,), r));
                r
            },
            _ => Ok(()),
        }
    }

    /// Tells the frontend, as the channel's last handle goes, that no message follows the ones
    /// sent: the webview evaluates [`JsChannel::end_script`], whose result comes back.
    pub fn end(&self) -> (r: Result<(), Error>)
        requires
            self.callable(),
        ensures
            exists|script: String|
                script@ == run_callback_js(self.callback(), "{ end: true, index: "@ + decimal(self.sent() as nat) + " }"@)
                && #[trigger] call_ensures(self.evaluator(), (script,), r),
    {
        let script = self.state.end_script();
        assert(call_requires(self.evaluator(), (script,)));
        (self.eval)(script)
    }
}

/// The `plugin:channel|fetch` command: hands the webview `webview_label` the payload queued for
/// it under the data id of the `Tauri-Channel-Id` header (once). Fails with "missing channel id
/// header" when the header names no id, and "data not found" when nothing is queued for this
/// webview under it.
pub fn fetch_channel_data(queue: &mut ChannelDataIpcQueue, webview_label: &str, header: Option<&str>) -> (r: Result<Response, &'static str>)
    ensures
        final(queue).next_data_id() == old(queue).next_data_id(),
        match channel_data_id_of(header) {
            None => r matches Err(e) && e@ == "missing channel id header"@ && final(queue).entries() == old(queue).entries(),
            Some(id) => if old(queue).entries().contains_key(id) && old(queue).entries()[id].0 == webview_label@ {
                &&& r matches Ok(resp) && resp.body_value() == old(queue).entries()[id].1
                &&& final(queue).entries() == old(queue).entries().remove(id)
            } else {
                &&& r matches Err(e) && e@ == "data not found"@
                &&& final(queue).entries() == old(queue).entries()
            },
        },
{
    let data_id = match channel_data_id(header) {
        Some(id) => id,
        None => return Err("missing channel id header"),
    };
    match queue.take(data_id, webview_label) {
        Some(body) => Ok(Response::new(body)),
        None => Err("data not found"),
    }
}

/// Drops the payload a rejected `plugin:channel|fetch` request asked for, if it was queued for
/// the requesting webview.
pub fn discard_rejected_fetch(queue: &mut ChannelDataIpcQueue, webview_label: &str, header: Option<&str>)
    ensures
        final(queue).next_data_id() == old(queue).next_data_id(),
        match channel_data_id_of(header) {
            Some(id) if old(queue).entries().contains_key(id) && old(queue).entries()[id].0 == webview_label@ =>
                final(queue).entries() == old(queue).entries().remove(id),
            _ => final(queue).entries() == old(queue).entries(),
        },
{
    if let Some(data_id) = channel_data_id(header) {
        let _taken = queue.take(data_id, webview_label);
    }
}

} // verus!
