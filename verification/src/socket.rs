//! One websocket that the connector opens to a router: its identity, the
//! handshake request, the status line of a relayed response, and the decisions
//! taken on each message that the router sends.
use vstd::prelude::*;
use crate::ids::{new_id, is_uuid_v4};
use crate::request::{Header, RequestHead, has_request_target, can_parse, parse, parse_request,
    request_path, request_method, request_headers};
use crate::text::{push_char, push_str};

verus! {

/// What a socket remembers between messages.
pub struct SocketState {
    /// The router has sent a request over this socket, so it is no longer idle.
    pub consumed: bool,
    /// A request with a body was started, so body bytes have somewhere to go.
    pub body_writer_open: bool,
    /// A request with a body was started and its response not yet awaited.
    pub response_pending: bool,
}

/// A message that arrives over the websocket, reduced to what the decisions read.
pub enum SocketMessage {
    /// A text frame: a request head followed by a two-character marker.
    Text(String),
    /// A binary frame: bytes of the body of the request being streamed.
    Binary,
    Ping,
    Pong,
    Close,
    Frame,
    /// The websocket reported an error.
    Failed,
}

/// What to do about one message.
pub enum SocketAction {
    /// Nothing.
    Ignore,
    /// Start this request with a body that the following binary frames fill.
    StreamRequest(RequestHead),
    /// Send this request without a body and relay its response.
    SendRequest(RequestHead),
    /// The streamed body is complete: await the pending response and relay it.
    AwaitResponse,
    /// Hand the binary frame's bytes to the body of the streamed request.
    ForwardBody,
    /// Stop the socket and report the error to its registration.
    Stop,
}

/// The outcome of one message: whether to tell the registration that this
/// socket is consumed, and what to do.
pub struct SocketStep {
    pub notify_consumed: bool,
    pub action: SocketAction,
}

/// `t` ends with an underscore and the marker digit `d`.
pub open spec fn ends_with_marker(t: Seq<char>, d: char) -> bool {
    t.len() >= 2 && t[t.len() - 2] == '_' && t[t.len() - 1] == d
}

/// A state of a socket that has received nothing.
pub open spec fn fresh_state() -> SocketState {
    SocketState { consumed: false, body_writer_open: false, response_pending: false }
}

/// The state after message `m` in state `s`.
pub open spec fn next_state(s: SocketState, m: SocketMessage) -> SocketState {
    match m {
        SocketMessage::Text(t) => SocketState {
            consumed: true,
            body_writer_open: s.body_writer_open || ends_with_marker(t@, '1'),
            response_pending: if ends_with_marker(t@, '1') {
                true
            } else if ends_with_marker(t@, '3') {
                false
            } else {
                s.response_pending
            },
        },
        _ => s,
    }
}

/// Message `m` tells the registration, in state `s`, that the socket is consumed.
pub open spec fn notifies_consumed(s: SocketState, m: SocketMessage) -> bool {
    m is Text && !s.consumed
}

/// Message `m` can be handled in state `s`: a request's text has a path, and
/// the end of a body comes after a request that has one.
pub open spec fn message_allowed(s: SocketState, m: SocketMessage) -> bool {
    match m {
        SocketMessage::Text(t) => {
            &&& (ends_with_marker(t@, '1') || ends_with_marker(t@, '2')) ==> has_request_target(t@)
            &&& ends_with_marker(t@, '3') ==> s.response_pending
        },
        _ => true,
    }
}

/// The action taken on `m` in state `s`, for a service at `target`.
pub open spec fn action_is(s: SocketState, m: SocketMessage, target: Seq<char>, a: SocketAction) -> bool {
    match m {
        SocketMessage::Text(t) => if ends_with_marker(t@, '1') {
            a matches SocketAction::StreamRequest(h) && h@ == parse_request(t@, target)
        } else if ends_with_marker(t@, '2') {
            a matches SocketAction::SendRequest(h) && h@ == parse_request(t@, target)
        } else if ends_with_marker(t@, '3') {
            a is AwaitResponse
        } else {
            a is Ignore
        },
        SocketMessage::Binary => if s.body_writer_open {
            a is ForwardBody
        } else {
            a is Ignore
        },
        SocketMessage::Failed => a is Stop,
        _ => a is Ignore,
    }
}

/// A request that a text frame starts, with a body or without, goes to the
/// service's URI followed by the request's path, with the request's method
/// and headers.
pub proof fn lemma_requests_go_to_target(s: SocketState, t: String, target: Seq<char>, a: SocketAction)
    requires
        action_is(s, SocketMessage::Text(t), target, a),
        ends_with_marker(t@, '1') || ends_with_marker(t@, '2'),
    ensures
        a matches SocketAction::StreamRequest(h) ==> h.uri@ == target + request_path(t@)
            && h.method@ == request_method(t@) && h@.headers == request_headers(t@),
        a matches SocketAction::SendRequest(h) ==> h.uri@ == target + request_path(t@)
            && h.method@ == request_method(t@) && h@.headers == request_headers(t@),
        a is StreamRequest <==> ends_with_marker(t@, '1'),
        a is SendRequest <==> ends_with_marker(t@, '2'),
{
}

/// The socket connects to `registration_uri` on behalf of connector
/// `connector_instance_id` and relays requests to `target_uri`.
pub struct ConnectorSocket {
    pub connector_instance_id: String,
    pub registration_uri: String,
    pub target_uri: String,
    pub component_name: String,
    pub route: String,
    pub socket_id: String,
    pub state: SocketState,
}

/// Whether the characters `t` end with an underscore and the digit `d`.
fn has_marker(t: &Vec<char>, d: char) -> (b: bool)
    ensures
        b == ends_with_marker(t@, d),
{
    let n: usize = t.len();
    n >= 2 && t[n - 2] == '_' && t[n - 1] == d
}

impl ConnectorSocket {
    /// A socket with a fresh random identifier that has received nothing.
    pub fn new(
        connector_instance_id: String,
        registration_uri: String,
        target_uri: String,
        component_name: String,
        route: String,
    ) -> (s: Self)
        ensures
            s.connector_instance_id == connector_instance_id,
            s.registration_uri == registration_uri,
            s.target_uri == target_uri,
            s.component_name == component_name,
            s.route == route,
            is_uuid_v4(s.socket_id@),
            s.state == fresh_state(),
    {
        ConnectorSocket {
            connector_instance_id,
            registration_uri,
            target_uri,
            component_name,
            route,
            socket_id: new_id(),
            state: SocketState { consumed: false, body_writer_open: false, response_pending: false },
        }
    }

    /// The address of the router's registration endpoint for this connector.
    pub open spec fn spec_register_url(&self) -> Seq<char> {
        self.registration_uri@ + "/register?connectorInstanceID="@ + self.connector_instance_id@
            + "&componentName="@ + self.component_name@
    }

    /// The registration URL names this connector and component in full: the
    /// identifier stands between `connectorInstanceID=` and `&componentName=`,
    /// and the component name follows to the end.
    pub proof fn lemma_register_url_fields(&self)
        ensures
            ({
                let u = self.spec_register_url();
                let a: int = self.registration_uri@.len() as int + 30;
                let b: int = a + self.connector_instance_id@.len();
                &&& u.take(self.registration_uri@.len() as int) == self.registration_uri@
                &&& u.subrange(self.registration_uri@.len() as int, a as int)
                    == "/register?connectorInstanceID="@
                &&& u.subrange(a as int, b as int) == self.connector_instance_id@
                &&& u.subrange(b as int, b + 15) == "&componentName="@
                &&& u.skip(b + 15) == self.component_name@
            }),
    {
        reveal_strlit("/register?connectorInstanceID=");
        reveal_strlit("&componentName=");
        let u = self.spec_register_url();
        let r = self.registration_uri@;
        let a: int = r.len() as int + 30;
        let b: int = a + self.connector_instance_id@.len();
        assert(u.take(r.len() as int) =~= r);
        assert(u.subrange(r.len() as int, a as int) =~= "/register?connectorInstanceID="@);
        assert(u.subrange(a as int, b as int) =~= self.connector_instance_id@);
        assert(u.subrange(b as int, b + 15) =~= "&componentName="@);
        assert(u.skip(b + 15) =~= self.component_name@);
    }

    /// `REGISTRATION_URI/register?connectorInstanceID=ID&componentName=NAME`.
    pub fn register_url(&self) -> (url: String)
        ensures
            url@ == self.spec_register_url(),
            url@ == self.registration_uri@ + "/register?connectorInstanceID="@
                + self.connector_instance_id@ + "&componentName="@ + self.component_name@,
    {
        let mut url = String::new();
        push_str(&mut url, self.registration_uri.as_str());
        push_str(&mut url, "/register?connectorInstanceID=");
        push_str(&mut url, self.connector_instance_id.as_str());
        push_str(&mut url, "&componentName=");
        push_str(&mut url, self.component_name.as_str());
        url
    }

    /// The websocket upgrade request to the registration endpoint, with the
    /// handshake key `key`.
    pub fn handshake_request(&self, key: &str) -> (head: RequestHead)
        ensures
            head.method@ == "GET"@,
            head.uri@ == self.spec_register_url(),
            head.uri@ == self.registration_uri@ + "/register?connectorInstanceID="@
                + self.connector_instance_id@ + "&componentName="@ + self.component_name@,
            head@.headers == seq![
                ("Host"@, "localhost"@),
                ("Connection"@, "Upgrade"@),
                ("Upgrade"@, "websocket"@),
                ("CrankerProtocol"@, "1.0"@),
                ("Route"@, self.route@),
                ("Sec-WebSocket-Version"@, "13"@),
                ("Sec-WebSocket-Key"@, key@),
            ],
    {
        let mut headers: Vec<Header> = Vec::new();
        headers.push(Header { name: "Host".to_owned(), value: "localhost".to_owned() });
        headers.push(Header { name: "Connection".to_owned(), value: "Upgrade".to_owned() });
        headers.push(Header { name: "Upgrade".to_owned(), value: "websocket".to_owned() });
        headers.push(Header { name: "CrankerProtocol".to_owned(), value: "1.0".to_owned() });
        headers.push(Header { name: "Route".to_owned(), value: self.route.clone() });
        headers.push(Header { name: "Sec-WebSocket-Version".to_owned(), value: "13".to_owned() });
        headers.push(Header { name: "Sec-WebSocket-Key".to_owned(), value: key.to_owned() });
        let head = RequestHead { method: "GET".to_owned(), uri: self.register_url(), headers };
        assert(head@.headers =~= seq![
            ("Host"@, "localhost"@),
            ("Connection"@, "Upgrade"@),
            ("Upgrade"@, "websocket"@),
            ("CrankerProtocol"@, "1.0"@),
            ("Route"@, self.route@),
            ("Sec-WebSocket-Version"@, "13"@),
            ("Sec-WebSocket-Key"@, key@),
        ]);
        head
    }

    /// Whether message `m` can be handled in the current state.
    pub fn accepts(&self, m: &SocketMessage) -> (ok: bool)
        ensures
            ok == message_allowed(self.state, *m),
    {
        match m {
            SocketMessage::Text(t) => {
                let chars = crate::text::chars_of(t.as_str());
                let request = has_marker(&chars, '1') || has_marker(&chars, '2');
                let body_end = has_marker(&chars, '3');
                (!request || can_parse(t.as_str())) && (!body_end || self.state.response_pending)
            },
            _ => true,
        }
    }

    /// Decides what to do about message `m`, and moves to the next state.
    pub fn on_message(&mut self, m: SocketMessage) -> (step: SocketStep)
        requires
            message_allowed(old(self).state, m),
        ensures
            final(self).state == next_state(old(self).state, m),
            step.notify_consumed == notifies_consumed(old(self).state, m),
            action_is(old(self).state, m, old(self).target_uri@, step.action),
            match m {
                SocketMessage::Text(t) => {
                    &&& ends_with_marker(t@, '1') ==> (step.action matches SocketAction::StreamRequest(h)
                        && h@ == parse_request(t@, old(self).target_uri@)
                        && h.uri@ == old(self).target_uri@ + request_path(t@)
                        && h.method@ == request_method(t@)
                        && h@.headers == request_headers(t@))
                    &&& ends_with_marker(t@, '2') ==> (step.action matches SocketAction::SendRequest(h)
                        && h@ == parse_request(t@, old(self).target_uri@)
                        && h.uri@ == old(self).target_uri@ + request_path(t@)
                        && h.method@ == request_method(t@)
                        && h@.headers == request_headers(t@))
                },
                _ => true,
            },
            final(self).connector_instance_id == old(self).connector_instance_id,
            final(self).registration_uri == old(self).registration_uri,
            final(self).target_uri == old(self).target_uri,
            final(self).component_name == old(self).component_name,
            final(self).route == old(self).route,
            final(self).socket_id == old(self).socket_id,
    {
        match m {
            SocketMessage::Text(t) => {
                let notify_consumed = !self.state.consumed;
                self.state.consumed = true;
                let chars = crate::text::chars_of(t.as_str());
                let action = if has_marker(&chars, '1') {
                    self.state.body_writer_open = true;
                    self.state.response_pending = true;
                    SocketAction::StreamRequest(parse(t.as_str(), self.target_uri.as_str()))
                } else if has_marker(&chars, '2') {
                    SocketAction::SendRequest(parse(t.as_str(), self.target_uri.as_str()))
                } else if has_marker(&chars, '3') {
                    self.state.response_pending = false;
                    SocketAction::AwaitResponse
                } else {
                    SocketAction::Ignore
                };
                SocketStep { notify_consumed, action }
            },
            SocketMessage::Binary => {
                let action = if self.state.body_writer_open {
                    SocketAction::ForwardBody
                } else {
                    SocketAction::Ignore
                };
                SocketStep { notify_consumed: false, action }
            },
            SocketMessage::Failed => SocketStep { notify_consumed: false, action: SocketAction::Stop },
            _ => SocketStep { notify_consumed: false, action: SocketAction::Ignore },
        }
    }
}

/// The state after the messages `ms`, in order, starting in state `s`.
pub open spec fn state_after(s: SocketState, ms: Seq<SocketMessage>) -> SocketState
    decreases ms.len(),
{
    if ms.len() == 0 {
        s
    } else {
        state_after(next_state(s, ms[0]), ms.drop_first())
    }
}

/// How many of the messages `ms`, starting in state `s`, tell the registration
/// that the socket is consumed.
pub open spec fn consumed_notices(s: SocketState, ms: Seq<SocketMessage>) -> nat
    decreases ms.len(),
{
    if ms.len() == 0 {
        0
    } else {
        (if notifies_consumed(s, ms[0]) { 1nat } else { 0nat }) + consumed_notices(
            next_state(s, ms[0]),
            ms.drop_first(),
        )
    }
}

/// Some message of `ms` is a text frame.
pub open spec fn has_text(ms: Seq<SocketMessage>) -> bool {
    exists|i: int| 0 <= i < ms.len() && #[trigger] ms[i] is Text
}

/// A socket tells its registration that it is consumed exactly once if it was
/// fresh and a text frame arrives, and never otherwise: once consumed, it
/// stays consumed.
pub proof fn lemma_consumed_notified_once(s: SocketState, ms: Seq<SocketMessage>)
    ensures
        consumed_notices(s, ms) == (if !s.consumed && has_text(ms) { 1nat } else { 0nat }),
        state_after(s, ms).consumed == (s.consumed || has_text(ms)),
    decreases ms.len(),
{
    if ms.len() > 0 {
        let rest = ms.drop_first();
        lemma_consumed_notified_once(next_state(s, ms[0]), rest);
        assert(has_text(ms) == (ms[0] is Text || has_text(rest))) by {
            if has_text(rest) {
                let i = choose|i: int| 0 <= i < rest.len() && #[trigger] rest[i] is Text;
                assert(ms[i + 1] is Text);
            }
            if has_text(ms) && !(ms[0] is Text) {
                let i = choose|i: int| 0 <= i < ms.len() && #[trigger] ms[i] is Text;
                assert(rest[i - 1] is Text);
            }
        }
    } else {
        assert(!has_text(ms));
    }
}

/// The decimal digit `d` as a character.
pub open spec fn digit_char(d: nat) -> char {
    if d == 0 { '0' }
    else if d == 1 { '1' }
    else if d == 2 { '2' }
    else if d == 3 { '3' }
    else if d == 4 { '4' }
    else if d == 5 { '5' }
    else if d == 6 { '6' }
    else if d == 7 { '7' }
    else if d == 8 { '8' }
    else { '9' }
}

/// `n` written in decimal, without leading zeros.
pub open spec fn decimal(n: nat) -> Seq<char>
    decreases n,
{
    if n < 10 {
        seq![digit_char(n)]
    } else {
        decimal(n / 10).push(digit_char(n % 10))
    }
}

/// The first line of a relayed response: `HTTP/1.1 CODE OK` and a line break.
pub open spec fn spec_status_line(code: nat) -> Seq<char> {
    "HTTP/1.1 "@ + decimal(code) + " OK\n"@
}

/// The value of the decimal digit character `c`.
pub open spec fn digit_value(c: char) -> nat {
    if c == '0' { 0 }
    else if c == '1' { 1 }
    else if c == '2' { 2 }
    else if c == '3' { 3 }
    else if c == '4' { 4 }
    else if c == '5' { 5 }
    else if c == '6' { 6 }
    else if c == '7' { 7 }
    else if c == '8' { 8 }
    else { 9 }
}

/// The number that the decimal digits `s` write.
pub open spec fn decimal_value(s: Seq<char>) -> nat
    decreases s.len(),
{
    if s.len() == 0 {
        0
    } else {
        decimal_value(s.drop_last()) * 10 + digit_value(s.last())
    }
}

/// The status line carries the code: reading its digits back gives `n`, and
/// there is at least one digit and never a leading zero.
pub proof fn lemma_decimal_reads_back(n: nat)
    ensures
        decimal_value(decimal(n)) == n,
        decimal(n).len() >= 1,
        decimal(n).len() > 1 ==> decimal(n)[0] != '0',
        forall|i: int| 0 <= i < decimal(n).len() ==> '0' <= #[trigger] decimal(n)[i] && decimal(n)[i] <= '9',
    decreases n,
{
    if n >= 10 {
        lemma_decimal_reads_back(n / 10);
        let d = decimal(n);
        assert(d.drop_last() =~= decimal(n / 10));
        assert forall|i: int| 0 <= i < d.len() implies '0' <= #[trigger] d[i] && d[i] <= '9' by {
            if i < d.len() - 1 {
                assert(d[i] == decimal(n / 10)[i]);
            }
        }
        if decimal(n / 10).len() == 1 {
            assert(n / 10 < 10) by {
                if n / 10 >= 10 {
                    assert(decimal(n / 10).len() == decimal(n / 100).len() + 1);
                }
            }
        }
        assert(d[0] == decimal(n / 10)[0]);
        assert(digit_value(digit_char(n % 10)) == n % 10);
        assert(d.last() == digit_char(n % 10));
        assert(decimal_value(d) == decimal_value(decimal(n / 10)) * 10 + n % 10);
    } else {
        let d = decimal(n);
        assert(digit_value(digit_char(n)) == n);
        assert(d.drop_last() =~= Seq::<char>::empty());
        assert(decimal_value(d) == decimal_value(d.drop_last()) * 10 + digit_value(d.last()));
    }
}

/// The status line of a response holds its code: between `HTTP/1.1 ` and
/// ` OK` and the line break stand decimal digits that read back as the code.
pub proof fn lemma_status_line_reads_back(code: nat)
    ensures
        ({
            let line = spec_status_line(code);
            &&& line.len() >= 13
            &&& line.take(9) == "HTTP/1.1 "@
            &&& line.skip(line.len() - 4) == " OK\n"@
            &&& decimal_value(line.subrange(9, line.len() - 4)) == code
        }),
{
    reveal_strlit("HTTP/1.1 ");
    reveal_strlit(" OK\n");
    lemma_decimal_reads_back(code);
    let line = spec_status_line(code);
    let d = decimal(code);
    assert(line.take(9) =~= "HTTP/1.1 "@);
    assert(line.skip(line.len() - 4) =~= " OK\n"@);
    assert(line.subrange(9, line.len() - 4) =~= d);
}

fn digit(d: u16) -> (c: char)
    requires
        d < 10,
    ensures
        c == digit_char(d as nat),
{
    if d == 0 { '0' }
    else if d == 1 { '1' }
    else if d == 2 { '2' }
    else if d == 3 { '3' }
    else if d == 4 { '4' }
    else if d == 5 { '5' }
    else if d == 6 { '6' }
    else if d == 7 { '7' }
    else if d == 8 { '8' }
    else { '9' }
}

/// Appends `n` in decimal to `s`.
fn push_decimal(s: &mut String, n: u16)
    ensures
        final(s)@ == old(s)@ + decimal(n as nat),
    decreases n,
{
    if n >= 10 {
        push_decimal(s, n / 10);
    }
    push_char(s, digit(n % 10));
    assert(s@ =~= old(s)@ + decimal(n as nat));
}

/// The status line sent to the router before a relayed response's body.
pub fn status_line(code: u16) -> (line: String)
    ensures
        line@ == spec_status_line(code as nat),
        line@ == "HTTP/1.1 "@ + decimal(code as nat) + " OK\n"@,
{
    let mut line = String::new();
    push_str(&mut line, "HTTP/1.1 ");
    push_decimal(&mut line, code);
    push_str(&mut line, " OK\n");
    line
}

} // verus!
