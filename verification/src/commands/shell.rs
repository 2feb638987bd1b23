//! The interactive shell: the signed WebSocket upgrade request and the
//! binary frame protocol spoken over it.
//!
//! Frames carry a one-byte type before the payload: `0x00` stdin,
//! `0x01` stdout, `0x02` stderr, `0x04` resize (`{"width":N,"height":N}`),
//! `0x05` heartbeat, `0xFF` close.

use vstd::prelude::*;
use vstd::utf8::encode_utf8;
use aws_credential_types::Credentials;
use aws_sigv4::http_request::{sign, SignableBody, SignableRequest, SigningSettings};
use aws_sigv4::sign::v4::SigningParams;
use std::time::{Duration, UNIX_EPOCH};
use crate::table::pair_views;
use crate::text::{decimal, push_decimal, push_str, string_from_chars};

verus! {

// ------------------------------------------------------------ url encoding

/// Bytes left as they are by URL encoding: ASCII letters, digits and
/// `-`, `.`, `_`, `~`.
pub open spec fn is_unreserved(b: u8) -> bool {
    (48 <= b <= 57) || (65 <= b <= 90) || (97 <= b <= 122) || b == 45 || b == 46 || b == 95
        || b == 126
}

/// The upper-case hexadecimal digit for `d < 16`.
pub open spec fn hex_digit(d: u8) -> char {
    if d < 10 {
        (48 + d) as char
    } else {
        (55 + d) as char
    }
}

/// One byte, URL-encoded: itself if unreserved, else `%` and two upper-case
/// hex digits.
pub open spec fn percent_encode_byte(b: u8) -> Seq<char> {
    if is_unreserved(b) {
        seq![b as char]
    } else {
        seq!['%', hex_digit(b / 16), hex_digit(b % 16)]
    }
}

/// Bytes, URL-encoded one after another.
pub open spec fn percent_encoded(bytes: Seq<u8>) -> Seq<char>
    decreases bytes.len(),
{
    if bytes.len() == 0 {
        Seq::<char>::empty()
    } else {
        percent_encoded(bytes.drop_last()) + percent_encode_byte(bytes.last())
    }
}

/// `urlencoding::encode`: percent-encodes every byte of the UTF-8 encoding
/// except ASCII alphanumerics and `-`, `_`, `.`, `~`, with upper-case hex
/// digits (its documentation and `enc.rs` say so).
#[verifier::external_body]
fn url_encode(s: &str) -> (r: String)
    ensures
        r@ == percent_encoded(encode_utf8(s@)),
{
    urlencoding::encode(s).into_owned()
}

// ------------------------------------------------------------ endpoint

/// Where the shell of a runtime is reached.
pub struct ShellEndpoint {
    pub host: String,
    pub path: String,
    pub query: String,
}

pub open spec fn endpoint_host(region: Seq<char>) -> Seq<char> {
    "bedrock-agentcore."@ + region + ".amazonaws.com"@
}

pub open spec fn endpoint_path(arn: Seq<char>) -> Seq<char> {
    "/runtimes/"@ + percent_encoded(encode_utf8(arn)) + "/ws/shells"@
}

pub open spec fn endpoint_query(session_id: Seq<char>, shell_id: Option<Seq<char>>) -> Seq<char> {
    "qualifier=DEFAULT&runtimeSessionId="@ + percent_encoded(encode_utf8(session_id)) + match shell_id {
        Some(s) => "&shellId="@ + s,
        None => Seq::<char>::empty(),
    }
}

/// `scheme://host path ? query`.
pub open spec fn endpoint_uri(scheme: Seq<char>, e: ShellEndpoint) -> Seq<char> {
    scheme + "://"@ + e.host@ + e.path@ + "?"@ + e.query@
}

/// The endpoint of the shell of `arn` in `region`: the ARN and the session
/// id are URL-encoded; a shell id, given to reattach, goes in as it is.
pub fn shell_endpoint(arn: &str, session_id: &str, shell_id: Option<&str>, region: &str) -> (e: ShellEndpoint)
    ensures
        e.host@ == endpoint_host(region@),
        e.path@ == endpoint_path(arn@),
        e.query@ == endpoint_query(session_id@, match shell_id {
            Some(s) => Some(s@),
            None => None,
        }),
{
    let host = String::from_str("bedrock-agentcore.").concat(region).concat(".amazonaws.com");
    let encoded_arn = url_encode(arn);
    let path = String::from_str("/runtimes/").concat(encoded_arn.as_str()).concat("/ws/shells");
    let encoded_session = url_encode(session_id);
    let mut query = String::from_str("qualifier=DEFAULT&runtimeSessionId=").concat(
        encoded_session.as_str(),
    );
    match shell_id {
        Some(sid) => {
            query.append("&shellId=");
            query.append(sid);
        },
        None => {
            assert(query@ =~= query@ + Seq::<char>::empty());
        },
    }
    ShellEndpoint { host, path, query }
}

impl ShellEndpoint {
    /// The URI with the given scheme (`https` to sign, `wss` to connect).
    pub fn uri(&self, scheme: &str) -> (u: String)
        ensures
            u@ == endpoint_uri(scheme@, *self),
    {
        String::from_str(scheme).concat("://").concat(self.host.as_str()).concat(
            self.path.as_str(),
        ).concat("?").concat(self.query.as_str())
    }
}

// ------------------------------------------------------------ signing

/// What SigV4 header signing yields for the given credentials, region,
/// service, time (seconds since the Unix epoch), method, URI and headers:
/// the headers to add, or `None` when signing fails.
pub uninterp spec fn sigv4_signature_headers(
    access_key: Seq<char>,
    secret_key: Seq<char>,
    session_token: Option<Seq<char>>,
    region: Seq<char>,
    service: Seq<char>,
    unix_seconds: u64,
    method: Seq<char>,
    uri: Seq<char>,
    headers: Seq<(Seq<char>, Seq<char>)>,
) -> Option<Seq<(Seq<char>, Seq<char>)>>;

/// The character views of optional headers.
pub open spec fn opt_pair_views(o: Option<Vec<(String, String)>>) -> Option<Seq<(Seq<char>, Seq<char>)>> {
    match o {
        Some(v) => Some(pair_views(v@)),
        None => None,
    }
}

/// The last second that SigV4 can sign: 9999-12-31T23:59:59Z. The signer
/// formats dates with the `time` crate, whose years end at 9999, and panics
/// on later times.
pub const MAX_SIGNING_SECONDS: u64 = 253402300799;

/// `aws_sigv4::http_request::sign` with default settings (signature in
/// headers) and v4 parameters built from `aws_credential_types::Credentials`:
/// the headers it adds, or `None` where building the parameters, the
/// signable request, or the signature fails. The result is named, not
/// described; it depends on the arguments alone. The signer panics on a
/// time after 9999 and, without a `host` header, on a URI without a host;
/// those inputs are excluded.
#[verifier::external_body]
fn sigv4_sign(
    access_key: &str,
    secret_key: &str,
    session_token: Option<String>,
    region: &str,
    service: &str,
    unix_seconds: u64,
    method: &str,
    uri: &str,
    headers: &Vec<(String, String)>,
) -> (r: Option<Vec<(String, String)>>)
    requires
        unix_seconds <= MAX_SIGNING_SECONDS,
        exists|i: int| 0 <= i < headers.len() && #[trigger] headers@[i].0@ == "host"@,
    ensures
        opt_pair_views(r) == sigv4_signature_headers(
            access_key@,
            secret_key@,
            opt_string_view(session_token),
            region@,
            service@,
            unix_seconds,
            method@,
            uri@,
            pair_views(headers@),
        ),
{
    let identity = Credentials::new(access_key, secret_key, session_token, None, "agctl").into();
    let params = SigningParams::builder().identity(&identity).region(region).name(service).time(
        UNIX_EPOCH + Duration::from_secs(unix_seconds),
    ).settings(SigningSettings::default()).build().ok()?;
    let pairs = headers.iter().map(|h| (h.0.as_str(), h.1.as_str()));
    let request = SignableRequest::new(method, uri, pairs, SignableBody::empty()).ok()?;
    let instructions = sign(request, &params.into()).ok()?.into_parts().0;
    Some(instructions.headers().map(|(k, v)| (k.to_string(), v.to_string())).collect())
}

pub open spec fn opt_string_view(o: Option<String>) -> Option<Seq<char>> {
    match o {
        Some(s) => Some(s@),
        None => None,
    }
}

/// The service name the shell endpoint is signed for.
pub open spec fn signing_service() -> Seq<char> {
    "bedrock-agentcore"@
}

/// The header that carries the runtime session id.
pub open spec fn session_header() -> Seq<char> {
    "x-amzn-bedrock-agentcore-runtime-session-id"@
}

/// The headers that are signed: the host and the session id.
pub open spec fn signed_input_headers(host: Seq<char>, session_id: Seq<char>) -> Seq<(Seq<char>, Seq<char>)> {
    seq![("host"@, host), (session_header(), session_id)]
}

/// The upgrade request's headers: the signed ones, the WebSocket upgrade
/// ones with the given key, then the signature's headers.
pub open spec fn upgrade_headers(
    host: Seq<char>,
    session_id: Seq<char>,
    websocket_key: Seq<char>,
    signature: Seq<(Seq<char>, Seq<char>)>,
) -> Seq<(Seq<char>, Seq<char>)> {
    signed_input_headers(host, session_id) + seq![
        ("connection"@, "Upgrade"@),
        ("upgrade"@, "websocket"@),
        ("sec-websocket-version"@, "13"@),
        ("sec-websocket-key"@, websocket_key),
    ] + signature
}

/// A signed WebSocket upgrade request.
pub struct ShellRequest {
    pub uri: String,
    pub headers: Vec<(String, String)>,
}

/// AWS credentials, as plain strings.
pub struct AwsCredentials {
    pub access_key: String,
    pub secret_key: String,
    pub session_token: Option<String>,
}

fn pair(k: &str, v: &str) -> (p: (String, String))
    ensures
        p.0@ == k@,
        p.1@ == v@,
{
    (k.to_string(), v.to_string())
}

/// The upgrade request for the shell of `arn`: `GET` on the `https` URI,
/// signed at `unix_seconds` with the session id and host headers, sent to
/// the `wss` URI with the upgrade headers and the signature's. `None` when
/// signing fails.
pub fn build_signed_request(
    arn: &str,
    session_id: &str,
    shell_id: Option<&str>,
    region: &str,
    credentials: &AwsCredentials,
    unix_seconds: u64,
    websocket_key: &str,
) -> (r: Option<ShellRequest>)
    requires
        unix_seconds <= MAX_SIGNING_SECONDS,
    ensures
        ({
            let host = endpoint_host(region@);
            let opt_shell = match shell_id {
                Some(s) => Some(s@),
                None => None,
            };
            let tail = endpoint_path(arn@) + "?"@ + endpoint_query(session_id@, opt_shell);
            let signature = sigv4_signature_headers(
                credentials.access_key@,
                credentials.secret_key@,
                opt_string_view(credentials.session_token),
                region@,
                signing_service(),
                unix_seconds,
                "GET"@,
                "https"@ + "://"@ + host + tail,
                signed_input_headers(host, session_id@),
            );
            match r {
                None => signature is None,
                Some(req) => signature is Some && req.uri@ == "wss"@ + "://"@ + host + tail
                    && pair_views(req.headers@) == upgrade_headers(
                    host,
                    session_id@,
                    websocket_key@,
                    signature->0,
                ),
            }
        }),
{
    let e = shell_endpoint(arn, session_id, shell_id, region);
    let https = e.uri("https");
    let wss = e.uri("wss");
    let mut signed_in: Vec<(String, String)> = Vec::new();
    signed_in.push(pair("host", e.host.as_str()));
    signed_in.push(pair("x-amzn-bedrock-agentcore-runtime-session-id", session_id));
    assert(pair_views(signed_in@) =~= signed_input_headers(e.host@, session_id@));
    assert(signed_in@[0].0@ == "host"@);
    let token = match &credentials.session_token {
        Some(t) => Some(t.clone()),
        None => None,
    };
    let ghost tail = e.path@ + "?"@ + e.query@;
    assert(https@ =~= "https"@ + "://"@ + e.host@ + tail);
    assert(wss@ =~= "wss"@ + "://"@ + e.host@ + tail);
    let signature = sigv4_sign(
        credentials.access_key.as_str(),
        credentials.secret_key.as_str(),
        token,
        region,
        "bedrock-agentcore",
        unix_seconds,
        "GET",
        https.as_str(),
        &signed_in,
    );
    match signature {
        None => None,
        Some(extra) => Some(assemble_shell_request(e.host.as_str(), session_id, websocket_key, wss, extra)),
    }
}

/// The upgrade request sent to `uri`: the host and session id headers, the
/// WebSocket upgrade headers with `websocket_key`, then the `signature`
/// headers, in that order.
pub fn assemble_shell_request(
    host: &str,
    session_id: &str,
    websocket_key: &str,
    uri: String,
    signature: Vec<(String, String)>,
) -> (r: ShellRequest)
    ensures
        r.uri@ == uri@,
        pair_views(r.headers@) == upgrade_headers(host@, session_id@, websocket_key@, pair_views(signature@)),
{
    let mut extra = signature;
    let ghost extra_vec = extra@;
    let mut headers: Vec<(String, String)> = Vec::new();
    headers.push(pair("host", host));
    headers.push(pair("x-amzn-bedrock-agentcore-runtime-session-id", session_id));
    headers.push(pair("connection", "Upgrade"));
    headers.push(pair("upgrade", "websocket"));
    headers.push(pair("sec-websocket-version", "13"));
    headers.push(pair("sec-websocket-key", websocket_key));
    let ghost fixed = headers@;
    headers.append(&mut extra);
    assert(headers@ =~= fixed + extra_vec);
    assert(pair_views(headers@) =~= upgrade_headers(
        host@,
        session_id@,
        websocket_key@,
        pair_views(extra_vec),
    ));
    ShellRequest { uri, headers }
}

// ------------------------------------------------------------ frames

/// Frame type of terminal input sent to the server.
pub const FRAME_STDIN: u8 = 0x00;

/// Frame type of a terminal resize.
pub const FRAME_RESIZE: u8 = 0x04;

/// Frame type that closes the shell.
pub const FRAME_CLOSE: u8 = 0xFF;

/// The byte Ctrl+] sends, which detaches from the shell.
pub const DETACH_KEY: u8 = 0x1d;

/// The most terminal input read at once, and so carried by one stdin frame.
pub const STDIN_CHUNK_MAX: usize = 4096;

/// The longest payload of a WebSocket control frame such as a ping (RFC
/// 6455, section 5.5).
pub const CONTROL_PAYLOAD_MAX: usize = 125;

/// The longest frame the shell sends: a stdin frame of a full chunk.
pub const MAX_SENT_FRAME: usize = 4097;

/// The largest frame the service accepts.
pub const SERVICE_MAX_FRAME: usize = 65536;

/// The close code the server sends when another client took the session.
pub const CLOSE_TAKEN_OVER: u16 = 4000;

/// The resize message: `{"width":COLS,"height":ROWS}`.
pub open spec fn resize_json(cols: u16, rows: u16) -> Seq<char> {
    "{\"width\":"@ + decimal(cols as nat) + ",\"height\":"@ + decimal(rows as nat) + "}"@
}

/// A stdin frame carrying `data`.
pub fn stdin_frame(data: &Vec<u8>) -> (f: Vec<u8>)
    ensures
        f@ == seq![FRAME_STDIN] + data@,
{
    let mut f: Vec<u8> = Vec::new();
    f.push(FRAME_STDIN);
    let mut i: usize = 0;
    while i < data.len()
        invariant
            i <= data.len(),
            f@ == seq![FRAME_STDIN] + data@.take(i as int),
        decreases data.len() - i,
    {
        f.push(data[i]);
        i = i + 1;
        assert(f@ =~= seq![FRAME_STDIN] + data@.take(i as int));
    }
    assert(data@.take(data.len() as int) =~= data@);
    f
}

/// The frame that closes the shell.
pub fn close_frame() -> (f: Vec<u8>)
    ensures
        f@ == seq![FRAME_CLOSE],
{
    let mut f: Vec<u8> = Vec::new();
    f.push(FRAME_CLOSE);
    assert(f@ =~= seq![FRAME_CLOSE]);
    f
}

/// The resize frame for a terminal of `cols` columns and `rows` rows: the
/// resize type, then the UTF-8 bytes of the JSON message.
pub fn resize_frame(cols: u16, rows: u16) -> (f: Vec<u8>)
    ensures
        f@ == seq![FRAME_RESIZE] + encode_utf8(resize_json(cols, rows)),
        f@.len() <= 31,
{
    let mut text: Vec<char> = Vec::new();
    push_str(&mut text, "{\"width\":");
    push_decimal(&mut text, cols as u64);
    push_str(&mut text, ",\"height\":");
    push_decimal(&mut text, rows as u64);
    push_str(&mut text, "}");
    let json = string_from_chars(&text);
    assert(json@ =~= resize_json(cols, rows));
    proof {
        lemma_resize_json_ascii(cols, rows);
        vstd::utf8::is_ascii_chars_encode_utf8(json@);
    }
    let bytes = json.as_str().as_bytes_vec();
    let mut f: Vec<u8> = Vec::new();
    f.push(FRAME_RESIZE);
    let mut i: usize = 0;
    while i < bytes.len()
        invariant
            i <= bytes.len(),
            f@ == seq![FRAME_RESIZE] + bytes@.take(i as int),
        decreases bytes.len() - i,
    {
        f.push(bytes[i]);
        i = i + 1;
        assert(f@ =~= seq![FRAME_RESIZE] + bytes@.take(i as int));
    }
    assert(bytes@.take(bytes.len() as int) =~= bytes@);
    f
}

/// Whether terminal input asks to detach (holds Ctrl+]).
pub fn is_detach_request(data: &Vec<u8>) -> (b: bool)
    ensures
        b == data@.contains(DETACH_KEY),
{
    let mut i: usize = 0;
    while i < data.len()
        invariant
            i <= data.len(),
            forall|j: int| 0 <= j < i ==> data@[j] != DETACH_KEY,
        decreases data.len() - i,
    {
        if data[i] == DETACH_KEY {
            assert(data@[i as int] == DETACH_KEY);
            return true;
        }
        i = i + 1;
    }
    false
}

// ------------------------------------------------------------ session loop

/// What happened: terminal input, or a message from the server.
pub enum ShellEvent {
    /// Bytes typed at the terminal.
    Input(Vec<u8>),
    /// A binary frame from the server.
    Binary(Vec<u8>),
    /// A text frame (status and metadata).
    Text(String),
    /// The server closed the connection, with this close code if any.
    Closed(Option<u16>),
    /// A ping carrying these bytes.
    Ping(Vec<u8>),
    /// Any other frame.
    Other,
    /// The connection failed, with this description.
    Failed(String),
    /// The stream ended.
    Ended,
}

/// What to do in answer.
pub enum ShellAction {
    /// Send a binary frame.
    Send(Vec<u8>),
    /// Answer a ping with a pong carrying these bytes.
    Pong(Vec<u8>),
    /// Write these bytes to the terminal.
    Write(Vec<u8>),
    /// Write this text to the terminal.
    WriteText(String),
    /// Print this line on stderr.
    Notice(String),
}

pub enum ShellEventView {
    Input(Seq<u8>),
    Binary(Seq<u8>),
    Text(Seq<char>),
    Closed(Option<u16>),
    Ping(Seq<u8>),
    Other,
    Failed(Seq<char>),
    Ended,
}

pub enum ShellActionView {
    Send(Seq<u8>),
    Pong(Seq<u8>),
    Write(Seq<u8>),
    WriteText(Seq<char>),
    Notice(Seq<char>),
}

impl View for ShellEvent {
    type V = ShellEventView;

    open spec fn view(&self) -> ShellEventView {
        match self {
            ShellEvent::Input(d) => ShellEventView::Input(d@),
            ShellEvent::Binary(d) => ShellEventView::Binary(d@),
            ShellEvent::Text(t) => ShellEventView::Text(t@),
            ShellEvent::Closed(c) => ShellEventView::Closed(*c),
            ShellEvent::Ping(d) => ShellEventView::Ping(d@),
            ShellEvent::Other => ShellEventView::Other,
            ShellEvent::Failed(m) => ShellEventView::Failed(m@),
            ShellEvent::Ended => ShellEventView::Ended,
        }
    }
}

impl View for ShellAction {
    type V = ShellActionView;

    open spec fn view(&self) -> ShellActionView {
        match self {
            ShellAction::Send(d) => ShellActionView::Send(d@),
            ShellAction::Pong(d) => ShellActionView::Pong(d@),
            ShellAction::Write(d) => ShellActionView::Write(d@),
            ShellAction::WriteText(t) => ShellActionView::WriteText(t@),
            ShellAction::Notice(m) => ShellActionView::Notice(m@),
        }
    }
}

/// The answer to one event, and whether the session ends with it.
pub struct ShellStep {
    pub actions: Vec<ShellAction>,
    pub stop: bool,
}

/// The answer to an event: input with Ctrl+] sends the close frame and
/// detaches; other input goes out as a stdin frame; a binary frame of more
/// than one byte is written without its type byte, whatever the type; text
/// is written as it is; a close ends the session (with a notice for code
/// 4000); a ping is answered; an error is reported and ends the session;
/// the end of the stream ends it.
pub open spec fn shell_answer(e: ShellEventView) -> (Seq<ShellActionView>, bool) {
    match e {
        ShellEventView::Input(d) => if d.contains(DETACH_KEY) {
            (
                seq![
                    ShellActionView::Send(seq![FRAME_CLOSE]),
                    ShellActionView::Notice("\r\nDetached."@),
                ],
                true,
            )
        } else {
            (seq![ShellActionView::Send(seq![FRAME_STDIN] + d)], false)
        },
        ShellEventView::Binary(d) => if d.len() > 1 {
            (seq![ShellActionView::Write(d.drop_first())], false)
        } else {
            (Seq::empty(), false)
        },
        ShellEventView::Text(t) => (seq![ShellActionView::WriteText(t)], false),
        ShellEventView::Closed(code) => if code == Some(CLOSE_TAKEN_OVER) {
            (seq![ShellActionView::Notice("\r\nSession taken over by another client."@)], true)
        } else {
            (Seq::empty(), true)
        },
        ShellEventView::Ping(d) => (seq![ShellActionView::Pong(d)], false),
        ShellEventView::Other => (Seq::empty(), false),
        ShellEventView::Failed(m) => (seq![ShellActionView::Notice("\r\nWebSocket error: "@ + m)], true),
        ShellEventView::Ended => (Seq::empty(), true),
    }
}

/// The views of a list of actions.
pub open spec fn action_views(a: Seq<ShellAction>) -> Seq<ShellActionView> {
    a.map_values(|x: ShellAction| x@)
}

/// Decides the answer to one event of the shell session.
pub fn shell_step(event: ShellEvent) -> (s: ShellStep)
    ensures
        (action_views(s.actions@), s.stop) == shell_answer(event@),
{
    let ghost ev = event@;
    let mut actions: Vec<ShellAction> = Vec::new();
    let stop = match event {
        ShellEvent::Input(d) => {
            if is_detach_request(&d) {
                actions.push(ShellAction::Send(close_frame()));
                actions.push(ShellAction::Notice(String::from_str("\r\nDetached.")));
                true
            } else {
                actions.push(ShellAction::Send(stdin_frame(&d)));
                false
            }
        },
        ShellEvent::Binary(d) => {
            if d.len() > 1 {
                let mut payload: Vec<u8> = Vec::new();
                let mut i: usize = 1;
                while i < d.len()
                    invariant
                        1 <= i <= d.len(),
                        payload@ == d@.subrange(1, i as int),
                    decreases d.len() - i,
                {
                    payload.push(d[i]);
                    i = i + 1;
                    assert(payload@ =~= d@.subrange(1, i as int));
                }
                assert(payload@ =~= d@.drop_first());
                actions.push(ShellAction::Write(payload));
            }
            false
        },
        ShellEvent::Text(t) => {
            actions.push(ShellAction::WriteText(t));
            false
        },
        ShellEvent::Closed(code) => {
            if code == Some(CLOSE_TAKEN_OVER) {
                actions.push(
                    ShellAction::Notice(String::from_str("\r\nSession taken over by another client.")),
                );
            }
            true
        },
        ShellEvent::Ping(d) => {
            actions.push(ShellAction::Pong(d));
            false
        },
        ShellEvent::Other => false,
        ShellEvent::Failed(m) => {
            actions.push(ShellAction::Notice(String::from_str("\r\nWebSocket error: ").concat(m.as_str())));
            true
        },
        ShellEvent::Ended => true,
    };
    let s = ShellStep { actions, stop };
    assert(action_views(s.actions@) =~= shell_answer(ev).0);
    s
}

/// The resize message is ASCII and at most 30 characters long.
pub proof fn lemma_resize_json_ascii(cols: u16, rows: u16)
    ensures
        vstd::utf8::is_ascii_chars(resize_json(cols, rows)),
        resize_json(cols, rows).len() <= 30,
{
    reveal_strlit("{\"width\":");
    reveal_strlit(",\"height\":");
    reveal_strlit("}");
    reveal_with_fuel(crate::commands::exec::pow10, 6);
    crate::commands::exec::lemma_decimal_len(cols as nat, 5);
    crate::commands::exec::lemma_decimal_len(rows as nat, 5);
    crate::text::lemma_decimal_digits(cols as nat);
    crate::text::lemma_decimal_digits(rows as nat);
    let a = "{\"width\":"@;
    let c = decimal(cols as nat);
    let b = ",\"height\":"@;
    let r = decimal(rows as nat);
    let z = "}"@;
    let j = resize_json(cols, rows);
    assert(j == a + c + b + r + z);
    assert forall|i: int| 0 <= i < j.len() implies '\0' <= #[trigger] j[i] <= '\u{7f}' by {
        if i < a.len() {
            assert(j[i] == a[i]);
        } else if i < a.len() + c.len() {
            assert(j[i] == c[i - a.len()]);
        } else if i < a.len() + c.len() + b.len() {
            assert(j[i] == b[i - a.len() - c.len()]);
        } else if i < a.len() + c.len() + b.len() + r.len() {
            assert(j[i] == r[i - a.len() - c.len() - b.len()]);
        } else {
            assert(j[i] == z[i - a.len() - c.len() - b.len() - r.len()]);
        }
    }
}

/// Every frame the shell sends fits the service's frame limit: a stdin frame
/// carries at most one chunk of input plus its type byte, a pong the ping's
/// payload, and the close and resize frames are shorter still.
pub proof fn lemma_sent_frames_bounded(e: ShellEventView)
    requires
        e matches ShellEventView::Input(d) ==> d.len() <= STDIN_CHUNK_MAX,
        e matches ShellEventView::Ping(d) ==> d.len() <= CONTROL_PAYLOAD_MAX,
    ensures
        forall|i: int|
            0 <= i < shell_answer(e).0.len() ==> match #[trigger] shell_answer(e).0[i] {
                ShellActionView::Send(f) => f.len() <= MAX_SENT_FRAME,
                ShellActionView::Pong(f) => f.len() <= MAX_SENT_FRAME,
                _ => true,
            },
        MAX_SENT_FRAME <= SERVICE_MAX_FRAME,
{
}

/// A binary frame from the server, whatever its type byte (stdout `0x01`,
/// stderr `0x02` or any other), is written to the terminal without that
/// byte, and the session goes on.
pub proof fn lemma_binary_frames_written(t: u8, payload: Seq<u8>)
    requires
        payload.len() > 0,
    ensures
        shell_answer(ShellEventView::Binary(seq![t] + payload)) == (
            seq![ShellActionView::Write(payload)],
            false,
        ),
{
    assert((seq![t] + payload).drop_first() =~= payload);
}

/// The shell request is signed over exactly two headers: `host`, with the
/// endpoint's host, and the session id header, with the request's session
/// id; both are sent first, with the same values, in the upgrade request.
pub proof fn lemma_session_id_signed(
    host: Seq<char>,
    session_id: Seq<char>,
    websocket_key: Seq<char>,
    signature: Seq<(Seq<char>, Seq<char>)>,
)
    ensures
        signed_input_headers(host, session_id) == seq![
            ("host"@, host),
            ("x-amzn-bedrock-agentcore-runtime-session-id"@, session_id),
        ],
        upgrade_headers(host, session_id, websocket_key, signature).take(2) == signed_input_headers(
            host,
            session_id,
        ),
        upgrade_headers(host, session_id, websocket_key, signature).contains(
            ("x-amzn-bedrock-agentcore-runtime-session-id"@, session_id),
        ),
{
    let u = upgrade_headers(host, session_id, websocket_key, signature);
    assert(u.take(2) =~= signed_input_headers(host, session_id));
    assert(u[1] == ("x-amzn-bedrock-agentcore-runtime-session-id"@, session_id));
}

} // verus!
