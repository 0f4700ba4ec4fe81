pub mod browse;
pub mod calendar;
pub mod handshake;
pub mod listing;
pub mod pull;

use vstd::prelude::*;
use vstd::string::StringExecFns;

use crate::protocol::messages::{ControlMessage, Direction, FileEntry, RequestId};
use crate::text::{chars_have_prefix, chars_have_suffix, chars_of, has_prefix, has_suffix, push_str, string_from_chars};

verus! {

/// `s` without the slashes at its end.
pub open spec fn trim_trailing_slashes(s: Seq<char>) -> Seq<char>
    decreases s.len(),
{
    if s.len() > 0 && s.last() == '/' {
        trim_trailing_slashes(s.drop_last())
    } else {
        s
    }
}

/// The WebSocket URL for a user-supplied target: `ws://` is put in front unless the target
/// names `ws://` or `wss://`; trailing slashes go, and `/ws` is appended unless the path
/// already ends with it.
pub open spec fn ws_url(target: Seq<char>) -> Seq<char> {
    let with_scheme = if has_prefix(target, "ws://"@) || has_prefix(target, "wss://"@) {
        target
    } else {
        "ws://"@ + target
    };
    let trimmed = trim_trailing_slashes(with_scheme);
    if has_suffix(trimmed, "/ws"@) {
        trimmed
    } else {
        trimmed + "/ws"@
    }
}

/// Whether a connection URL asks for TLS.
pub open spec fn uses_tls(url: Seq<char>) -> bool {
    has_prefix(url, "wss://"@)
}

/// Build the ws:// or wss:// URL from a user-supplied target string.
/// The path the user supplies is treated as a base prefix; `/ws` is appended
/// unless it's already there. Bare `host:port` defaults to `ws://`.
pub fn build_ws_url(target: &str) -> (r: String)
    ensures
        r@ == ws_url(target@),
{
    let t = chars_of(target);
    let ws = chars_of("ws://");
    let wss = chars_of("wss://");
    let mut v: Vec<char> = if chars_have_prefix(t.as_slice(), ws.as_slice()) || chars_have_prefix(
        t.as_slice(),
        wss.as_slice(),
    ) {
        t
    } else {
        let mut w = ws.clone();
        let mut rest = t;
        w.append(&mut rest);
        w
    };
    let ghost with_scheme = v@;
    while v.len() > 0 && v[v.len() - 1] == '/'
        invariant
            trim_trailing_slashes(v@) == trim_trailing_slashes(with_scheme),
        decreases v.len(),
    {
        v.pop();
    }
    assert(trim_trailing_slashes(v@) == v@);
    let suffix = chars_of("/ws");
    if !chars_have_suffix(v.as_slice(), suffix.as_slice()) {
        let mut tail = suffix;
        v.append(&mut tail);
    }
    string_from_chars(v.as_slice())
}

/// Whether to connect with TLS: the URL uses `wss://`.
pub fn url_uses_tls(url: &str) -> (r: bool)
    ensures
        r == uses_tls(url@),
{
    let u = chars_of(url);
    let wss = chars_of("wss://");
    chars_have_prefix(u.as_slice(), wss.as_slice())
}

/// The length of the scheme a target names (`ws://` or `wss://`), or 0.
pub open spec fn scheme_len(target: Seq<char>) -> int {
    if has_prefix(target, "ws://"@) {
        5
    } else if has_prefix(target, "wss://"@) {
        6
    } else {
        0
    }
}

/// Whether a target names something after its scheme: a character that is not `/`.
pub open spec fn has_host(target: Seq<char>) -> bool {
    exists|i: int| scheme_len(target) <= i < target.len() && target[i] != '/'
}

proof fn lemma_trim_keeps_prefix(s: Seq<char>, i: int)
    requires
        0 <= i < s.len(),
        s[i] != '/',
    ensures
        i < trim_trailing_slashes(s).len() <= s.len(),
        trim_trailing_slashes(s) == s.subrange(0, trim_trailing_slashes(s).len() as int),
    decreases s.len(),
{
    if s.last() == '/' {
        let d = s.drop_last();
        assert(d[i] == s[i]);
        lemma_trim_keeps_prefix(d, i);
        assert(trim_trailing_slashes(s) == trim_trailing_slashes(d));
        let n = trim_trailing_slashes(d).len() as int;
        assert(d.subrange(0, n) =~= s.subrange(0, n));
    } else {
        assert(trim_trailing_slashes(s) == s);
        assert(s.subrange(0, s.len() as int) =~= s);
    }
}

proof fn lemma_ws_url_shape(t: Seq<char>)
    requires
        has_host(t),
    ensures
        has_suffix(ws_url(t), "/ws"@),
        has_prefix(ws_url(t), "wss://"@) == has_prefix(t, "wss://"@),
        has_prefix(ws_url(t), "ws://"@) || has_prefix(ws_url(t), "wss://"@),
{
    reveal_strlit("ws://");
    reveal_strlit("wss://");
    reveal_strlit("/ws");
    let i = choose|i: int| scheme_len(t) <= i < t.len() && t[i] != '/';
    let ws: Seq<char> = "ws://"@;
    let wss: Seq<char> = "wss://"@;
    if has_prefix(t, wss) {
        assert(t.subrange(0, 6)[2] == 's');
        assert(!has_prefix(t, ws)) by {
            if has_prefix(t, ws) {
                assert(t.subrange(0, 5)[2] == ':');
            }
        }
    }
    let prefixed = has_prefix(t, ws) || has_prefix(t, wss);
    let with_scheme = if prefixed { t } else { ws + t };
    let j = if prefixed { i } else { i + 5 };
    assert(j >= 5);
    assert(with_scheme[j] != '/');
    lemma_trim_keeps_prefix(with_scheme, j);
    let trimmed = trim_trailing_slashes(with_scheme);
    assert(trimmed.len() >= 6);
    assert(trimmed.subrange(0, 5) =~= with_scheme.subrange(0, 5));
    assert(trimmed.subrange(0, 6) =~= with_scheme.subrange(0, 6));
    if !prefixed {
        assert(with_scheme.subrange(0, 5) =~= ws);
        assert(with_scheme.subrange(0, 6)[2] == ':');
    } else if has_prefix(t, ws) {
        assert(with_scheme.subrange(0, 6)[2] == ':');
    }
    let r = ws_url(t);
    if has_suffix(trimmed, "/ws"@) {
        assert(r == trimmed);
    } else {
        assert(r == trimmed + "/ws"@);
        assert(r.subrange(r.len() - 3, r.len() as int) =~= "/ws"@);
        assert(r.subrange(0, 5) =~= trimmed.subrange(0, 5));
        assert(r.subrange(0, 6) =~= trimmed.subrange(0, 6));
    }
    assert(r.subrange(0, 6)[2] == with_scheme.subrange(0, 6)[2]);
}

/// For a target with a host, the URL starts with `ws://` or `wss://` and ends in `/ws`; it
/// asks for TLS exactly when the target names `wss://`; and it is its own URL (building it
/// again changes nothing).
pub proof fn law_ws_url_shape(target: Seq<char>)
    requires
        has_host(target),
    ensures
        has_prefix(ws_url(target), "ws://"@) || has_prefix(ws_url(target), "wss://"@),
        has_suffix(ws_url(target), "/ws"@),
        uses_tls(ws_url(target)) == has_prefix(target, "wss://"@),
        ws_url(ws_url(target)) == ws_url(target),
{
    reveal_strlit("ws://");
    reveal_strlit("wss://");
    reveal_strlit("/ws");
    lemma_ws_url_shape(target);
    let r = ws_url(target);
    assert(r.subrange(r.len() - 3, r.len() as int)[2] == r[r.len() - 1]);
    assert(r.last() == 's');
    assert(trim_trailing_slashes(r) == r);
}

/// Where a control message received from the remote goes.
#[derive(Clone, Copy, Debug, PartialEq, Eq, Structural)]
pub enum ControlRoute {
    /// The remote finished sending a transfer to us: tell the receiver.
    SignalCompletion { id: RequestId, total_bytes: u64 },
    /// The remote confirmed a transfer we sent: wake its waiter.
    Finalized { id: RequestId },
    /// A request for us to answer.
    HandleRequest,
    /// A response to a request of ours.
    DeliverResponse,
}

/// Route a control message received from the remote.
pub fn route_control(msg: &ControlMessage) -> (r: ControlRoute)
    ensures
        r == (match msg {
            ControlMessage::TransferComplete { id, total_bytes } => ControlRoute::SignalCompletion {
                id: *id,
                total_bytes: *total_bytes,
            },
            ControlMessage::TransferFinalized { id } => ControlRoute::Finalized { id: *id },
            _ => if msg.expects_response() {
                ControlRoute::HandleRequest
            } else {
                ControlRoute::DeliverResponse
            },
        }),
{
    match msg {
        ControlMessage::TransferComplete { id, total_bytes } => ControlRoute::SignalCompletion {
            id: *id,
            total_bytes: *total_bytes,
        },
        ControlMessage::TransferFinalized { id } => ControlRoute::Finalized { id: *id },
        _ => if msg.is_request() {
            ControlRoute::HandleRequest
        } else {
            ControlRoute::DeliverResponse
        },
    }
}

/// How a request from the remote is answered.
#[derive(Clone, Debug)]
pub enum IncomingPlan {
    /// List a directory of ours and reply with the listing or the error (`browse_reply`),
    /// echoing the id.
    Browse { request_id: Option<RequestId>, path: String },
    /// Reply with this message.
    Reply(ControlMessage),
    /// Get ready to receive a pushed transfer, then accept it (`transfer_request_reply`).
    AcceptPush { id: RequestId },
    /// Send the requested entries back, then accept; refuse when there is no channel to send on
    /// (`transfer_request_reply`).
    ServePull { id: RequestId },
    /// Not a request we answer.
    Ignore,
}

/// Plan the answer to a request from the remote; info and ping are answered at once, with
/// our host name and root directory and the request's own correlation id.
pub fn plan_incoming_request(msg: &ControlMessage, hostname: &str, root_dir: &str) -> (r: IncomingPlan)
    ensures
        match msg {
            ControlMessage::BrowseRequest { request_id, path } => r matches IncomingPlan::Browse {
                request_id: rid,
                path: p,
            } && rid == request_id && p@ == path@,
            ControlMessage::InfoRequest { request_id } => r matches IncomingPlan::Reply(
                ControlMessage::InfoResponse { request_id: rid, hostname: h, root_dir: d },
            ) && rid == request_id && h@ == hostname@ && d@ == root_dir@,
            ControlMessage::TransferRequest { id, direction, .. } => match direction {
                Direction::Push => r == IncomingPlan::AcceptPush { id: *id },
                Direction::Pull => r == IncomingPlan::ServePull { id: *id },
            },
            ControlMessage::Ping { request_id } => r matches IncomingPlan::Reply(
                ControlMessage::Pong { request_id: rid },
            ) && rid == request_id,
            _ => r is Ignore,
        },
{
    match msg {
        ControlMessage::BrowseRequest { request_id, path } => IncomingPlan::Browse {
            request_id: *request_id,
            path: path.clone(),
        },
        ControlMessage::InfoRequest { request_id } => {
            let mut h = String::new();
            push_str(&mut h, hostname);
            let mut d = String::new();
            push_str(&mut d, root_dir);
            assert(h@ =~= hostname@ && d@ =~= root_dir@);
            IncomingPlan::Reply(
                ControlMessage::InfoResponse { request_id: *request_id, hostname: h, root_dir: d },
            )
        },
        ControlMessage::TransferRequest { id, direction, .. } => match direction {
            Direction::Push => IncomingPlan::AcceptPush { id: *id },
            Direction::Pull => IncomingPlan::ServePull { id: *id },
        },
        ControlMessage::Ping { request_id } => IncomingPlan::Reply(
            ControlMessage::Pong { request_id: *request_id },
        ),
        _ => IncomingPlan::Ignore,
    }
}

/// The reply to a transfer request from the remote: a push is accepted (once the receiver is
/// ready); a pull is accepted when there is a channel to send its data on, and refused
/// otherwise. Accepting asks for no resumption.
pub fn transfer_request_reply(id: RequestId, direction: Direction, can_send: bool) -> (r:
    ControlMessage)
    ensures
        (direction == Direction::Push || can_send) ==> (r matches ControlMessage::TransferAccepted {
            id: rid,
            resume_offsets,
        } && rid == id && resume_offsets@.len() == 0),
        (direction == Direction::Pull && !can_send) ==> (r matches ControlMessage::TransferError {
            id: rid,
            error,
        } && rid == id && error@ == "No remote connection to send pull data"@),
{
    match direction {
        Direction::Pull => if !can_send {
            return ControlMessage::TransferError {
                id,
                error: String::from_str("No remote connection to send pull data"),
            };
        },
        Direction::Push => {},
    }
    ControlMessage::TransferAccepted { id, resume_offsets: Vec::new() }
}

/// The reply to a browse request from the remote: the listing of the directory (under our
/// host name, with its resolved path), or the error met listing it; either carries the
/// request's id.
pub fn browse_reply(
    request_id: Option<RequestId>,
    hostname: &str,
    listing: Result<(String, Vec<FileEntry>), String>,
) -> (r: ControlMessage)
    ensures
        match listing {
            Ok((cwd, entries)) => r matches ControlMessage::BrowseResponse {
                request_id: rid,
                hostname: h,
                cwd: c,
                entries: e,
            } && rid == request_id && h@ == hostname@ && c == cwd && e == entries,
            Err(message) => r matches ControlMessage::Error { request_id: rid, message: m } && rid
                == request_id && m == message,
        },
{
    match listing {
        Ok((cwd, entries)) => {
            let mut h = String::new();
            push_str(&mut h, hostname);
            ControlMessage::BrowseResponse { request_id, hostname: h, cwd, entries }
        },
        Err(message) => ControlMessage::Error { request_id, message },
    }
}

} // verus!
