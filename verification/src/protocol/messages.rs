use vstd::prelude::*;
use vstd::string::StringExecFns;

verus! {

/// Current protocol version. Version 1: original format (no file index in frames);
/// version 2: file index in data frames for multi-file transfers; version 3: correlated
/// request/response ids for browse/info/ping.
pub const CURRENT_PROTOCOL_VERSION: u32 = 3;

/// First protocol version whose data frames carry a file index.
pub const MIN_MULTI_FILE_VERSION: u32 = 2;

/// First protocol version whose peers echo request ids on their replies.
pub const MIN_REQUEST_ID_VERSION: u32 = 3;

/// A correlation id (a UUID, held as its 128-bit value).
pub type RequestId = u128;

/// Destination used by a transfer request that names none: the served root.
pub fn default_destination() -> (r: String)
    ensures
        r@ == seq!['.'],
{
    proof {
        reveal_strlit(".");
    }
    String::from_str(".")
}

/// One entry of a directory listing.
#[derive(Clone, Debug)]
pub struct FileEntry {
    pub name: String,
    pub is_dir: bool,
    pub size: u64,
    pub modified: u64,
    pub permissions: u32,
}

/// One file or directory named by a transfer request.
#[derive(Clone, Debug)]
pub struct TransferEntry {
    pub relative_path: String,
    pub size: u64,
    pub is_dir: bool,
    pub permissions: u32,
    /// Compression hint: "none", "gzip", or absent (auto).
    pub compression: Option<String>,
}

/// Which way the bytes of a transfer travel.
#[derive(Clone, Copy, Debug, PartialEq, Eq, Structural)]
pub enum Direction {
    Push,
    Pull,
}

/// The control messages exchanged between peers and with the browser.
/// Maps from relative path to byte offset are held as lists of pairs.
#[derive(Clone, Debug)]
pub enum ControlMessage {
    KeyExchange { public_key: String, protocol_version: Option<u32> },
    PlaintextMode { protocol_version: Option<u32> },
    AuthChallenge { nonce: String },
    AuthResponse { proof: String },
    HandshakeComplete,
    BrowseRequest { request_id: Option<RequestId>, path: String },
    BrowseResponse {
        request_id: Option<RequestId>,
        hostname: String,
        cwd: String,
        entries: Vec<FileEntry>,
    },
    InfoRequest { request_id: Option<RequestId> },
    InfoResponse { request_id: Option<RequestId>, hostname: String, root_dir: String },
    TransferRequest {
        id: RequestId,
        entries: Vec<TransferEntry>,
        direction: Direction,
        destination_path: String,
        resume_hints: Vec<(String, u64)>,
    },
    TransferAccepted { id: RequestId, resume_offsets: Vec<(String, u64)> },
    TransferProgress { id: RequestId, path: String, bytes_done: u64, bytes_total: u64 },
    TransferComplete { id: RequestId, total_bytes: u64 },
    TransferFinalized { id: RequestId },
    TransferError { id: RequestId, error: String },
    ConnectionStatus { has_remote: bool },
    Ping { request_id: Option<RequestId> },
    Pong { request_id: Option<RequestId> },
    Error { request_id: Option<RequestId>, message: String },
}

impl ControlMessage {
    /// The messages that expect a response.
    pub open spec fn expects_response(self) -> bool {
        ||| self is BrowseRequest
        ||| self is InfoRequest
        ||| self is TransferRequest
        ||| self is Ping
    }

    /// The correlation id that tracks an outgoing request.
    pub open spec fn outgoing_id(self) -> Option<RequestId> {
        match self {
            ControlMessage::BrowseRequest { request_id, .. } => request_id,
            ControlMessage::InfoRequest { request_id } => request_id,
            ControlMessage::Ping { request_id } => request_id,
            ControlMessage::TransferRequest { id, .. } => Some(id),
            _ => None,
        }
    }

    /// The correlation id that routes a response to its waiting caller.
    pub open spec fn routing_id(self) -> Option<RequestId> {
        match self {
            ControlMessage::BrowseResponse { request_id, .. } => request_id,
            ControlMessage::InfoResponse { request_id, .. } => request_id,
            ControlMessage::Pong { request_id } => request_id,
            ControlMessage::Error { request_id, .. } => request_id,
            ControlMessage::TransferAccepted { id, .. } => Some(id),
            ControlMessage::TransferError { id, .. } => Some(id),
            _ => None,
        }
    }

    /// The message with `id` injected into a browse, info or ping request that has none.
    pub open spec fn tagged_with(self, id: RequestId) -> ControlMessage {
        match self {
            ControlMessage::BrowseRequest { request_id, path } => ControlMessage::BrowseRequest {
                request_id: if request_id is Some { request_id } else { Some(id) },
                path,
            },
            ControlMessage::InfoRequest { request_id } => ControlMessage::InfoRequest {
                request_id: if request_id is Some { request_id } else { Some(id) },
            },
            ControlMessage::Ping { request_id } => ControlMessage::Ping {
                request_id: if request_id is Some { request_id } else { Some(id) },
            },
            other => other,
        }
    }

    /// Returns true if this message expects a response.
    pub fn is_request(&self) -> (r: bool)
        ensures
            r == self.expects_response(),
    {
        match self {
            ControlMessage::BrowseRequest { .. } => true,
            ControlMessage::InfoRequest { .. } => true,
            ControlMessage::TransferRequest { .. } => true,
            ControlMessage::Ping { .. } => true,
            _ => false,
        }
    }

    /// Correlation id used to track an outgoing request.
    pub fn request_id(&self) -> (r: Option<RequestId>)
        ensures
            r == self.outgoing_id(),
    {
        match self {
            ControlMessage::BrowseRequest { request_id, .. } => *request_id,
            ControlMessage::InfoRequest { request_id } => *request_id,
            ControlMessage::Ping { request_id } => *request_id,
            ControlMessage::TransferRequest { id, .. } => Some(*id),
            _ => None,
        }
    }

    /// Correlation id used to route a response to its waiting caller.
    pub fn response_id(&self) -> (r: Option<RequestId>)
        ensures
            r == self.routing_id(),
    {
        match self {
            ControlMessage::BrowseResponse { request_id, .. } => *request_id,
            ControlMessage::InfoResponse { request_id, .. } => *request_id,
            ControlMessage::Pong { request_id } => *request_id,
            ControlMessage::Error { request_id, .. } => *request_id,
            ControlMessage::TransferAccepted { id, .. } => Some(*id),
            ControlMessage::TransferError { id, .. } => Some(*id),
            _ => None,
        }
    }

    /// Inject a correlation id into request variants that do not already have one.
    pub fn with_request_id(self, request_id: RequestId) -> (r: ControlMessage)
        ensures
            r == self.tagged_with(request_id),
    {
        match self {
            ControlMessage::BrowseRequest { request_id: existing, path } => {
                ControlMessage::BrowseRequest { request_id: if existing.is_some() { existing } else { Some(request_id) }, path }
            },
            ControlMessage::InfoRequest { request_id: existing } => {
                ControlMessage::InfoRequest { request_id: if existing.is_some() { existing } else { Some(request_id) } }
            },
            ControlMessage::Ping { request_id: existing } => {
                ControlMessage::Ping { request_id: if existing.is_some() { existing } else { Some(request_id) } }
            },
            other => other,
        }
    }
}

/// A message that carries a correlation id for its own request is a request.
pub proof fn law_request_id_only_on_requests(m: ControlMessage)
    ensures
        m.outgoing_id() is Some ==> m.expects_response(),
{
}

/// No message is both a routed response and a request.
pub proof fn law_responses_are_not_requests(m: ControlMessage)
    ensures
        m.routing_id() is Some ==> !m.expects_response(),
{
}

/// Tagging a browse, info or ping request leaves it with a correlation id: the one it had,
/// or else the new one; every other message is left unchanged.
pub proof fn law_tagging_sets_request_id(m: ControlMessage, id: RequestId)
    ensures
        (m is BrowseRequest || m is InfoRequest || m is Ping) ==> m.tagged_with(id).outgoing_id()
            == (if m.outgoing_id() is Some { m.outgoing_id() } else { Some(id) }),
        !(m is BrowseRequest || m is InfoRequest || m is Ping) ==> m.tagged_with(id) == m,
        m.tagged_with(id).expects_response() == m.expects_response(),
{
}

/// Tagging twice is tagging once: the first id that a request receives is kept.
pub proof fn law_tagging_is_idempotent(m: ControlMessage, a: RequestId, b: RequestId)
    ensures
        m.tagged_with(a).tagged_with(b) == m.tagged_with(a),
{
}

/// Every reply that carries an id is routed by it: a browse reply, an info reply, a pong or
/// an error with request id `x` is routed to `x`, and a transfer's acceptance or error to the
/// transfer's id; the requests, the handshake and the progress and completion notices carry
/// no routing id.
pub proof fn law_replies_route_by_their_id(
    x: Option<RequestId>,
    id: RequestId,
    a: String,
    b: String,
    entries: Vec<FileEntry>,
    offsets: Vec<(String, u64)>,
)
    ensures
        (ControlMessage::BrowseResponse { request_id: x, hostname: a, cwd: b, entries }).routing_id() == x,
        (ControlMessage::InfoResponse { request_id: x, hostname: a, root_dir: b }).routing_id() == x,
        (ControlMessage::Pong { request_id: x }).routing_id() == x,
        (ControlMessage::Error { request_id: x, message: a }).routing_id() == x,
        (ControlMessage::TransferAccepted { id, resume_offsets: offsets }).routing_id() == Some(id),
        (ControlMessage::TransferError { id, error: a }).routing_id() == Some(id),
        (ControlMessage::InfoRequest { request_id: x }).routing_id() is None,
        (ControlMessage::BrowseRequest { request_id: x, path: a }).routing_id() is None,
        (ControlMessage::Ping { request_id: x }).routing_id() is None,
        (ControlMessage::HandshakeComplete).routing_id() is None,
        (ControlMessage::TransferComplete { id, total_bytes: 0 }).routing_id() is None,
        (ControlMessage::TransferFinalized { id }).routing_id() is None,
{
}

/// A request's own id is the one its reply is routed by: tagging an info, browse or ping
/// request with `x` gives it the id `x` (when it had none), which is the id that the matching
/// reply carrying `x` is routed to.
pub proof fn law_tagged_request_matches_reply(x: RequestId, path: String, h: String, d: String)
    ensures
        (ControlMessage::InfoRequest { request_id: None }).tagged_with(x).outgoing_id() == Some(x),
        (ControlMessage::InfoResponse { request_id: Some(x), hostname: h, root_dir: d }).routing_id()
            == Some(x),
        (ControlMessage::BrowseRequest { request_id: None, path }).tagged_with(x).outgoing_id()
            == Some(x),
        (ControlMessage::Ping { request_id: None }).tagged_with(x).outgoing_id() == Some(x),
        (ControlMessage::Pong { request_id: Some(x) }).routing_id() == Some(x),
{
}

} // verus!
