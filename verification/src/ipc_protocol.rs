//! The IPC request protocol: reading an invoke request from its path, headers and body, and
//! choosing how its answer travels back to the webview.

use vstd::prelude::*;

use crate::asset::{percent_decode, percent_decoded};
use crate::ipc::{parse_u32, parsed_u32, CallbackFn, InvokeResponseBody, FETCH_CHANNEL_DATA_COMMAND};
use crate::text::{starts_with_char, str_eq, substring, chars_of};

verus! {

/// The header naming the callback that receives a successful answer.
pub const TAURI_CALLBACK_HEADER_NAME: &'static str = "Tauri-Callback";
/// The header naming the callback that receives an error.
pub const TAURI_ERROR_HEADER_NAME: &'static str = "Tauri-Error";
/// The header carrying the invoke key.
pub const TAURI_INVOKE_KEY_HEADER_NAME: &'static str = "Tauri-Invoke-Key";
/// The response header telling the frontend whether the command succeeded.
pub const TAURI_RESPONSE_HEADER_NAME: &'static str = "Tauri-Response";
/// Its value for an error.
pub const TAURI_RESPONSE_HEADER_ERROR: &'static str = "error";
/// Its value for a success.
pub const TAURI_RESPONSE_HEADER_OK: &'static str = "ok";

/// The media type of a raw body.
pub const APPLICATION_OCTET_STREAM: &'static str = "application/octet-stream";
/// The media type of a JSON body.
pub const APPLICATION_JSON: &'static str = "application/json";

/// A request header as the IPC reads it.
#[derive(Clone, Debug, PartialEq, Eq)]
pub enum HeaderText {
    /// The request does not carry it.
    Missing,
    /// Its value is not visible ASCII text.
    NotText,
    /// Its value.
    Text(String),
}

/// The headers an invoke request is read from.
#[derive(Clone, Debug, PartialEq, Eq)]
pub struct InvokeHeaders {
    pub content_type: HeaderText,
    pub invoke_key: HeaderText,
    pub origin: HeaderText,
    pub callback: HeaderText,
    pub error: HeaderText,
}

/// The payload of an invoke request.
#[derive(Clone, Debug, PartialEq, Eq)]
pub enum InvokeBody {
    /// A JSON value, by its JSON text.
    Json(String),
    /// Raw bytes.
    Raw(Vec<u8>),
}

/// The model of an [`InvokeBody`].
pub enum BodyModel {
    Json(Seq<char>),
    Raw(Seq<u8>),
}

impl View for InvokeBody {
    type V = BodyModel;

    open spec fn view(&self) -> BodyModel {
        match self {
            InvokeBody::Json(j) => BodyModel::Json(j@),
            InvokeBody::Raw(b) => BodyModel::Raw(b@),
        }
    }
}

/// An invoke request read from the custom protocol.
#[derive(Clone, Debug, PartialEq, Eq)]
pub struct ParsedInvokeRequest {
    /// The command, percent-decoded from the request path.
    pub cmd: String,
    /// The callback for a successful answer.
    pub callback: CallbackFn,
    /// The callback for an error.
    pub error: CallbackFn,
    /// The page that sent it, as its serialized URL.
    pub url: String,
    /// The payload.
    pub body: InvokeBody,
    /// The invoke key it carries.
    pub invoke_key: String,
}

/// The model of a [`ParsedInvokeRequest`].
pub struct RequestModel {
    pub cmd: Seq<char>,
    pub callback: u32,
    pub error: u32,
    pub url: Seq<char>,
    pub body: BodyModel,
    pub invoke_key: Seq<char>,
}

impl View for ParsedInvokeRequest {
    type V = RequestModel;

    open spec fn view(&self) -> RequestModel {
        RequestModel {
            cmd: self.cmd@,
            callback: self.callback.0,
            error: self.error.0,
            url: self.url@,
            body: self.body@,
            invoke_key: self.invoke_key@,
        }
    }
}

/// `mime::Mime::from_str` then its text: the text of the media type `s` parses to (type and
/// subtype lower-cased), or `None` when it is no media type.
pub uninterp spec fn mime_text(s: Seq<char>) -> Option<Seq<char>>;

/// Parses a media type and gives back its text.
#[verifier::external_body]
fn parse_mime(s: &str) -> (r: Option<String>)
    ensures
        r matches Some(t) ==> mime_text(s@) == Some(t@),
        r is None ==> mime_text(s@) is None,
{
    s.parse::<mime::Mime>().ok().map(|m| m.to_string())
}

/// `url::Url::parse` then its serialization: the text of the URL `s` parses to, or `None` when
/// it is no URL.
pub uninterp spec fn url_text(s: Seq<char>) -> Option<Seq<char>>;

/// Parses a URL and gives back its serialization.
#[verifier::external_body]
fn parse_url(s: &str) -> (r: Option<String>)
    ensures
        r matches Some(t) ==> url_text(s@) == Some(t@),
        r is None ==> url_text(s@) is None,
{
    url::Url::parse(s).ok().map(|u| u.to_string())
}

/// `serde_json::from_slice::<serde_json::Value>` then its text: the JSON text of the value the
/// bytes hold, or the text of the parse error.
pub uninterp spec fn json_text(bytes: Seq<u8>) -> Result<Seq<char>, Seq<char>>;

/// The texts a result of two strings holds.
pub open spec fn texts_of(r: Result<String, String>) -> Result<Seq<char>, Seq<char>> {
    match r {
        Ok(t) => Ok(t@),
        Err(e) => Err(e@),
    }
}

/// Parses a JSON value and gives back its text, or the error's text.
#[verifier::external_body]
fn parse_json(bytes: &[u8]) -> (r: Result<String, String>)
    ensures
        texts_of(r) == json_text(bytes@),
{
    serde_json::from_slice::<serde_json::Value>(bytes).map(|v| v.to_string()).map_err(|e| e.to_string())
}

/// The media type of the body: octet-stream when the header is missing or no text, else what it
/// parses to (`Err` when it is no media type).
pub open spec fn content_type_of(h: HeaderText) -> Result<Seq<char>, ()> {
    match h {
        HeaderText::Text(s) => match mime_text(s@) {
            Some(t) => Ok(t),
            None => Err(()),
        },
        _ => Ok(APPLICATION_OCTET_STREAM@),
    }
}

/// The text of a required header, or the error for a missing one or one that is no text.
pub open spec fn required_text(h: HeaderText, missing: Seq<char>, not_text: Seq<char>) -> Result<Seq<char>, Seq<char>> {
    match h {
        HeaderText::Missing => Err(missing),
        HeaderText::NotText => Err(not_text),
        HeaderText::Text(s) => Ok(s@),
    }
}

/// The number of a required numeric header, or the error for a missing one, one that is no
/// text, or one that is no `u32`.
pub open spec fn required_number(h: HeaderText, missing: Seq<char>, not_text: Seq<char>, not_number: Seq<char>) -> Result<u32, Seq<char>> {
    match required_text(h, missing, not_text) {
        Err(m) => Err(m),
        Ok(s) => match parsed_u32(s) {
            Some(n) => Ok(n),
            None => Err(not_number),
        },
    }
}

/// The payload of a body of the given media type: raw bytes for octet-stream; for JSON the
/// value the bytes hold, or `{}` when there are none; any other type is not implemented.
pub open spec fn body_of(content_type: Seq<char>, body: Seq<u8>) -> Result<BodyModel, Seq<char>> {
    if content_type == APPLICATION_OCTET_STREAM@ {
        Ok(BodyModel::Raw(body))
    } else if content_type == APPLICATION_JSON@ {
        if body.len() > 0 {
            match json_text(body) {
                Ok(t) => Ok(BodyModel::Json(t)),
                Err(e) => Err(e),
            }
        } else {
            Ok(BodyModel::Json("{}"@))
        }
    } else {
        Err("content type "@ + content_type + " is not implemented"@)
    }
}

/// The invoke request a path, headers and body make, or the first error, checked in this order:
/// the content type, the invoke key, the `Origin` (present, text, a URL), the callback and the
/// error callback (present, text, numeric), then the body.
pub open spec fn invoke_request_of(path: Seq<char>, h: InvokeHeaders, body: Seq<u8>) -> Result<RequestModel, Seq<char>> {
    match content_type_of(h.content_type) {
        Err(_) => Err("unknown content type"@),
        Ok(content_type) => match required_text(h.invoke_key, "missing Tauri-Invoke-Key header"@, "Tauri invoke key header value must be a string"@) {
            Err(m) => Err(m),
            Ok(invoke_key) => match required_text(h.origin, "missing Origin header"@, "Origin header value must be a string"@) {
                Err(m) => Err(m),
                Ok(origin) => match url_text(origin) {
                    None => Err("Origin header is not a valid URL"@),
                    Some(url) => match required_number(h.callback, "missing Tauri-Callback header"@, "Tauri callback header value must be a string"@, "Tauri callback header value must be a numeric string"@) {
                        Err(m) => Err(m),
                        Ok(callback) => match required_number(h.error, "missing Tauri-Error header"@, "Tauri error header value must be a string"@, "Tauri error header value must be a numeric string"@) {
                            Err(m) => Err(m),
                            Ok(error) => match body_of(content_type, body) {
                                Err(m) => Err(m),
                                Ok(b) => Ok(RequestModel {
                                    cmd: percent_decoded(path.subrange(1, path.len() as int)),
                                    callback,
                                    error,
                                    url,
                                    body: b,
                                    invoke_key,
                                }),
                            },
                        },
                    },
                },
            },
        },
    }
}

fn header_text(h: &HeaderText, missing: &str, not_text: &str) -> (r: Result<String, String>)
    ensures
        match required_text(*h, missing@, not_text@) {
            Ok(s) => r matches Ok(t) && t@ == s,
            Err(m) => r matches Err(e) && e@ == m,
        },
{
    match h {
        HeaderText::Missing => Err(String::from_str(missing)),
        HeaderText::NotText => Err(String::from_str(not_text)),
        HeaderText::Text(s) => Ok(s.clone()),
    }
}

fn header_number(h: &HeaderText, missing: &str, not_text: &str, not_number: &str) -> (r: Result<u32, String>)
    ensures
        match required_number(*h, missing@, not_text@, not_number@) {
            Ok(n) => r == Ok::<u32, String>(n),
            Err(m) => r matches Err(e) && e@ == m,
        },
{
    let text = match header_text(h, missing, not_text) {
        Ok(t) => t,
        Err(e) => return Err(e),
    };
    match parse_u32(text.as_str()) {
        Some(n) => Ok(n),
        None => Err(String::from_str(not_number)),
    }
}

fn read_body(content_type: &str, body: Vec<u8>) -> (r: Result<InvokeBody, String>)
    ensures
        match body_of(content_type@, body@) {
            Ok(b) => r matches Ok(x) && x@ == b,
            Err(m) => r matches Err(e) && e@ == m,
        },
{
    if str_eq(content_type, APPLICATION_OCTET_STREAM) {
        Ok(InvokeBody::Raw(body))
    } else if str_eq(content_type, APPLICATION_JSON) {
        if body.len() > 0 {
            match parse_json(body.as_slice()) {
                Ok(t) => Ok(InvokeBody::Json(t)),
                Err(e) => Err(e),
            }
        } else {
            Ok(InvokeBody::Json(String::from_str("{}")))
        }
    } else {
        let mut m = String::from_str("content type ");
        m.append(content_type);
        m.append(" is not implemented");
        Err(m)
    }
}

/// Reads an invoke request sent over the custom protocol: the command is the request path
/// without its leading `/`, percent-decoded; the headers give the content type, invoke key,
/// origin and callbacks; the body is read by its content type. On failure, the text of the
/// first problem (see [`invoke_request_of`]).
pub fn parse_invoke_request(path: &str, headers: &InvokeHeaders, body: Vec<u8>) -> (r: Result<ParsedInvokeRequest, String>)
    requires
        path@.len() >= 1,
        (path@[0] as u32) < 128,
    ensures
        match invoke_request_of(path@, *headers, body@) {
            Ok(m) => r matches Ok(x) && x@ == m,
            Err(m) => r matches Err(e) && e@ == m,
        },
{
    let n = chars_of(path).len();
    let raw_cmd = substring(path, 1, n);
    let cmd = percent_decode(raw_cmd.as_str());
    let content_type = match &headers.content_type {
        HeaderText::Text(s) => match parse_mime(s.as_str()) {
            Some(t) => t,
            None => return Err(String::from_str("unknown content type")),
        },
        _ => String::from_str(APPLICATION_OCTET_STREAM),
    };
    let invoke_key = header_text(&headers.invoke_key, "missing Tauri-Invoke-Key header", "Tauri invoke key header value must be a string")?;
    let origin = header_text(&headers.origin, "missing Origin header", "Origin header value must be a string")?;
    let url = match parse_url(origin.as_str()) {
        Some(u) => u,
        None => return Err(String::from_str("Origin header is not a valid URL")),
    };
    let callback = header_number(&headers.callback, "missing Tauri-Callback header", "Tauri callback header value must be a string", "Tauri callback header value must be a numeric string")?;
    let error = header_number(&headers.error, "missing Tauri-Error header", "Tauri error header value must be a string", "Tauri error header value must be a numeric string")?;
    let body = read_body(content_type.as_str(), body)?;
    Ok(ParsedInvokeRequest { cmd, callback: CallbackFn(callback), error: CallbackFn(error), url, body, invoke_key })
}


/// The answer of a command: its body, or the JSON text of its error.
#[derive(Clone, Debug, PartialEq, Eq)]
pub enum InvokeResponse {
    /// The command succeeded with this body.
    Success(InvokeResponseBody),
    /// The command failed with this error, by its JSON text.
    Failure(String),
}

/// How the answer to an invoke request sent with `postMessage` reaches the webview.
#[derive(Clone, Copy, Debug, PartialEq, Eq)]
pub enum ResponseTransport {
    /// Through the channel of the request's callback.
    Channel,
    /// As a script that runs the callback (or the error callback) with the answer.
    Eval,
}

/// Whether an answer may go through a channel at all: not for the channel fetch command itself,
/// nor when the frontend reports the custom protocol IPC blocked.
pub open spec fn can_use_channel(cmd: Seq<char>, custom_protocol_ipc_blocked: bool) -> bool {
    cmd != FETCH_CHANNEL_DATA_COMMAND@ && !custom_protocol_ipc_blocked
}

/// The transport of an answer: on Apple platforms (`apple`) always a script; elsewhere a JSON
/// answer that is an object or array (`{` or `[` first) and any raw answer go through the
/// channel when one may be used; errors are always a script.
pub open spec fn transport_of(response: InvokeResponse, cmd: Seq<char>, custom_protocol_ipc_blocked: bool, apple: bool) -> ResponseTransport {
    match response {
        InvokeResponse::Success(InvokeResponseBody::Json(v)) =>
            if !apple && v@.len() > 0 && (v@[0] == '{' || v@[0] == '[') && can_use_channel(cmd, custom_protocol_ipc_blocked) {
                ResponseTransport::Channel
            } else {
                ResponseTransport::Eval
            },
        InvokeResponse::Success(InvokeResponseBody::Raw(_)) =>
            if apple || !can_use_channel(cmd, custom_protocol_ipc_blocked) {
                ResponseTransport::Eval
            } else {
                ResponseTransport::Channel
            },
        InvokeResponse::Failure(_) => ResponseTransport::Eval,
    }
}

/// When an answer goes through a channel: never on Apple platforms, never for the channel fetch
/// command's own answer, never when the custom protocol IPC is blocked, and never for an error;
/// otherwise always for raw bytes, and for JSON exactly when it is an object or an array.
pub proof fn lemma_transport_rules(response: InvokeResponse, cmd: Seq<char>, custom_protocol_ipc_blocked: bool, apple: bool)
    ensures
        apple ==> transport_of(response, cmd, custom_protocol_ipc_blocked, apple) == ResponseTransport::Eval,
        cmd == FETCH_CHANNEL_DATA_COMMAND@ ==> transport_of(response, cmd, custom_protocol_ipc_blocked, apple) == ResponseTransport::Eval,
        custom_protocol_ipc_blocked ==> transport_of(response, cmd, custom_protocol_ipc_blocked, apple) == ResponseTransport::Eval,
        response is Failure ==> transport_of(response, cmd, custom_protocol_ipc_blocked, apple) == ResponseTransport::Eval,
        !apple && cmd != FETCH_CHANNEL_DATA_COMMAND@ && !custom_protocol_ipc_blocked ==> (
            response matches InvokeResponse::Success(InvokeResponseBody::Raw(_))
                ==> transport_of(response, cmd, custom_protocol_ipc_blocked, apple) == ResponseTransport::Channel),
        !apple && cmd != FETCH_CHANNEL_DATA_COMMAND@ && !custom_protocol_ipc_blocked ==> (
            response matches InvokeResponse::Success(InvokeResponseBody::Json(v))
                ==> (transport_of(response, cmd, custom_protocol_ipc_blocked, apple) == ResponseTransport::Channel
                    <==> v@.len() > 0 && (v@[0] == '{' || v@[0] == '['))),
{
}

/// How the answer to a `postMessage` invoke request of command `cmd` reaches the webview (see
/// [`transport_of`]).
pub fn response_transport(response: &InvokeResponse, cmd: &str, custom_protocol_ipc_blocked: bool, apple: bool) -> (r: ResponseTransport)
    ensures
        r == transport_of(*response, cmd@, custom_protocol_ipc_blocked, apple),
        apple || cmd@ == FETCH_CHANNEL_DATA_COMMAND@ || custom_protocol_ipc_blocked || response is Failure ==> r == ResponseTransport::Eval,
{
    proof {
        lemma_transport_rules(*response, cmd@, custom_protocol_ipc_blocked, apple);
    }
    let can_use = !str_eq(cmd, FETCH_CHANNEL_DATA_COMMAND) && !custom_protocol_ipc_blocked;
    match response {
        InvokeResponse::Success(InvokeResponseBody::Json(v)) => {
            if !apple && (starts_with_char(v.as_str(), '{') || starts_with_char(v.as_str(), '[')) && can_use {
                ResponseTransport::Channel
            } else {
                ResponseTransport::Eval
            }
        },
        InvokeResponse::Success(InvokeResponseBody::Raw(_)) => {
            if apple || !can_use {
                ResponseTransport::Eval
            } else {
                ResponseTransport::Channel
            }
        },
        InvokeResponse::Failure(_) => ResponseTransport::Eval,
    }
}

/// The `Tauri-Response` header value and the media type of the custom protocol's answer to a
/// command: `ok` with JSON or octet-stream for a success, `error` with JSON for an error.
pub fn protocol_response_kind(response: &InvokeResponse) -> (r: (&'static str, &'static str))
    ensures
        r.0@ == (if response is Success { TAURI_RESPONSE_HEADER_OK@ } else { TAURI_RESPONSE_HEADER_ERROR@ }),
        r.1@ == (match response {
            InvokeResponse::Success(InvokeResponseBody::Raw(_)) => APPLICATION_OCTET_STREAM@,
            _ => APPLICATION_JSON@,
        }),
{
    match response {
        InvokeResponse::Success(InvokeResponseBody::Json(_)) => (TAURI_RESPONSE_HEADER_OK, APPLICATION_JSON),
        InvokeResponse::Success(InvokeResponseBody::Raw(_)) => (TAURI_RESPONSE_HEADER_OK, APPLICATION_OCTET_STREAM),
        InvokeResponse::Failure(_) => (TAURI_RESPONSE_HEADER_ERROR, APPLICATION_JSON),
    }
}

/// What the custom protocol IPC does with a request, by its method.
#[derive(Clone, Copy, Debug, PartialEq, Eq)]
pub enum MethodAnswer {
    /// `POST`: an invoke request.
    Invoke,
    /// `OPTIONS`: a preflight, answered with `Access-Control-Allow-Headers: *`.
    Preflight,
    /// Any other method: refused with 405.
    NotAllowed,
}

/// The body of the answer to a method other than `POST` and `OPTIONS`.
pub const METHOD_NOT_ALLOWED_MESSAGE: &'static str = "only POST and OPTIONS are allowed";

/// The body of the answer when the webview is gone.
pub const WEBVIEW_NOT_FOUND_MESSAGE: &'static str = "failed to acquire webview reference";

/// What the custom protocol IPC does with a request of the given method.
pub fn method_answer(method: &str) -> (r: MethodAnswer)
    ensures
        r == (if method@ == "POST"@ {
            MethodAnswer::Invoke
        } else if method@ == "OPTIONS"@ {
            MethodAnswer::Preflight
        } else {
            MethodAnswer::NotAllowed
        }),
{
    if str_eq(method, "POST") {
        MethodAnswer::Invoke
    } else if str_eq(method, "OPTIONS") {
        MethodAnswer::Preflight
    } else {
        MethodAnswer::NotAllowed
    }
}


/// The lowercase hexadecimal digit of `n` (below sixteen).
pub open spec fn hex_digit_lower(n: int) -> char {
    if n < 10 {
        ('0' as int + n) as char
    } else {
        ('a' as int + n - 10) as char
    }
}

/// How `serde_json` writes a character inside a string literal: `"` and `\` behind a
/// backslash; backspace, form feed, line feed, carriage return and tab as `\b`, `\f`, `\n`,
/// `\r`, `\t`; the other characters below `0x20` as `\u00` and two lowercase hexadecimal
/// digits; every other character as it is.
pub open spec fn json_char(c: char) -> Seq<char> {
    let n = c as int;
    if c == '"' {
        seq!['\\', '"']
    } else if c == '\\' {
        seq!['\\', '\\']
    } else if n == 0x08 {
        seq!['\\', 'b']
    } else if n == 0x0c {
        seq!['\\', 'f']
    } else if c == '\n' {
        seq!['\\', 'n']
    } else if c == '\r' {
        seq!['\\', 'r']
    } else if c == '\t' {
        seq!['\\', 't']
    } else if n < 0x20 {
        seq!['\\', 'u', '0', '0', hex_digit_lower(n / 16), hex_digit_lower(n % 16)]
    } else {
        seq![c]
    }
}

/// The characters of a text as they stand inside a JSON string literal.
pub open spec fn json_escaped(s: Seq<char>) -> Seq<char>
    decreases s.len(),
{
    if s.len() == 0 {
        Seq::empty()
    } else {
        json_escaped(s.drop_last()) + json_char(s.last())
    }
}

/// `serde_json::Value::String(s).to_string()`: the JSON string literal of a text, in double
/// quotes.
pub open spec fn json_string_literal(s: Seq<char>) -> Seq<char> {
    seq!['"'] + json_escaped(s) + seq!['"']
}

/// The JSON string literal of a text.
#[verifier::external_body]
fn json_string(s: &str) -> (r: String)
    ensures
        r@ == json_string_literal(s@),
{
    serde_json::Value::String(s.to_string()).to_string()
}

/// The script that reports, in the webview's console, a `postMessage` request that could not be
/// read: `console.error(<message as a JSON string>)`.
pub fn console_error_script(message: &str) -> (r: String)
    ensures
        r@ == "console.error("@ + json_string_literal(message@) + ")"@,
{
    let mut r = String::from_str("console.error(");
    let literal = json_string(message);
    r.append(literal.as_str());
    r.append(")");
    r
}

} // verus!
