pub mod browser_transfer;
pub mod pending;

use vstd::prelude::*;
use vstd::string::StringExecFns;

use crate::protocol::messages::{ControlMessage, RequestId};
use crate::server::pending::{connection_lost_error, drain_pending, PendingTable};

verus! {

/// The live connection to a remote peer: its instance id (which tells a connection apart from
/// the ones before and after it), what the peer reported of itself, the callers waiting for
/// its replies, and the channels and tasks that drive it (`links`, held by the runtime).
pub struct RemoteConnection<L, T> {
    pub instance_id: RequestId,
    pub hostname: String,
    pub root_dir: String,
    pub peer_version: Option<u32>,
    pub pending: PendingTable<T>,
    pub links: L,
}

/// Clear the remote slot only if it still holds the connection with `instance_id`, so that a
/// stale task cannot clear a newer connection. Returns whether it cleared.
pub fn clear_remote_if_instance<L, T>(
    remote: &mut Option<RemoteConnection<L, T>>,
    instance_id: RequestId,
) -> (r: bool)
    ensures
        r == (*old(remote) matches Some(c) && c.instance_id == instance_id),
        r ==> *final(remote) is None,
        !r ==> *final(remote) == *old(remote),
{
    let matches = match remote {
        Some(conn) => conn.instance_id == instance_id,
        None => false,
    };
    if matches {
        *remote = None;
    }
    matches
}

/// Every waiting caller, and no other, is answered once with the error of a lost connection
/// carrying the id it waits under.
pub open spec fn answers_all_with_lost<T>(
    waiting: Map<RequestId, T>,
    replies: Seq<(T, ControlMessage)>,
) -> bool {
    &&& replies.len() == waiting.len()
    &&& forall|i: int|
        0 <= i < replies.len() ==> ((#[trigger] replies[i]).1 matches ControlMessage::Error {
            request_id: Some(id),
            message,
        } && message@ == "Remote connection lost"@ && waiting.contains_key(id) && waiting[id]
            == replies[i].0)
    &&& forall|i: int, j: int|
        0 <= i < j < replies.len() ==> (#[trigger] replies[i]).1.routing_id() != (
        #[trigger] replies[j]).1.routing_id()
    &&& forall|k: RequestId|
        waiting.contains_key(k) ==> exists|i: int|
            0 <= i < replies.len() && (#[trigger] replies[i]).1.routing_id() == Some(k)
}

/// Tear down a remote connection: every caller still waiting for a reply is handed back with
/// the "Remote connection lost" error it is to receive, and the connection's tasks (`links`)
/// are handed back to be aborted.
pub fn abort_remote_connection<L, T>(conn: RemoteConnection<L, T>) -> (r: (
    L,
    Vec<(T, ControlMessage)>,
))
    ensures
        r.0 == conn.links,
        answers_all_with_lost(conn.pending@.waiting, r.1@),
{
    let RemoteConnection { pending, links, .. } = conn;
    let ghost waiting = pending@.waiting;
    let mut table = pending;
    let drained = drain_pending(&mut table);
    let mut replies: Vec<(T, ControlMessage)> = Vec::new();
    let n = drained.len();
    let mut rest = drained;
    let ghost all = rest@;
    let mut i: usize = 0;
    while i < n
        invariant
            n == all.len(),
            i <= n,
            rest@ == all.skip(i as int),
            replies@.len() == i,
            forall|j: int|
                0 <= j < i ==> (#[trigger] replies@[j]).0 == all[j].1 && (replies@[j].1 matches ControlMessage::Error {
                    request_id: Some(id),
                    message,
                } && message@ == "Remote connection lost"@ && id == all[j].0),
        decreases n - i,
    {
        let (id, tx) = rest.remove(0);
        proof {
            assert(all.skip(i as int)[0] == all[i as int]);
            assert(rest@ =~= all.skip(i + 1));
        }
        replies.push((tx, connection_lost_error(id)));
        i = i + 1;
    }
    proof {
        assert forall|j: int| 0 <= j < replies@.len() implies (#[trigger] replies@[j]).1.routing_id()
            == Some(all[j].0) by {}
        assert forall|a: int, b: int|
            0 <= a < b < replies@.len() implies (#[trigger] replies@[a]).1.routing_id() != (
            #[trigger] replies@[b]).1.routing_id() by {
            assert(replies@[a].1.routing_id() == Some(all[a].0));
            assert(replies@[b].1.routing_id() == Some(all[b].0));
        }
        assert forall|k: RequestId| waiting.contains_key(k) implies exists|j: int|
            0 <= j < replies@.len() && (#[trigger] replies@[j]).1.routing_id() == Some(k) by {
            let j = choose|j: int| 0 <= j < all.len() && #[trigger] all[j].0 == k;
            assert(replies@[j].1.routing_id() == Some(k));
        }
    }
    (links, replies)
}

/// What tearing down the session leaves to the runtime: the tasks of the connection taken out
/// (to abort), each waiting caller with the error it receives, and the notice for browsers.
pub struct Teardown<L, T> {
    pub links: Option<L>,
    pub replies: Vec<(T, ControlMessage)>,
    pub notice: ControlMessage,
}

/// Tear down the current remote connection, if any, from either side: the connection is
/// taken out and aborted (its waiting callers answered with "Remote connection lost"), the
/// fingerprint forgotten, and browsers told that there is no remote. The last target and
/// password, kept so that a dropped connection can be re-established, are forgotten only when
/// `clear_creds` is set (an intentional disconnect).
pub fn disconnect_remote<L, T>(
    remote: &mut Option<RemoteConnection<L, T>>,
    fingerprint: &mut Option<String>,
    last_target: &mut Option<String>,
    last_password: &mut Option<String>,
    clear_creds: bool,
) -> (r: Teardown<L, T>)
    ensures
        *final(remote) is None,
        *final(fingerprint) is None,
        clear_creds ==> *final(last_target) is None && *final(last_password) is None,
        !clear_creds ==> *final(last_target) == *old(last_target) && *final(last_password)
            == *old(last_password),
        r.notice == (ControlMessage::ConnectionStatus { has_remote: false }),
        match *old(remote) {
            Some(c) => r.links == Some(c.links) && answers_all_with_lost(
                c.pending@.waiting,
                r.replies@,
            ),
            None => r.replies@.len() == 0 && r.links is None,
        },
{
    let taken = remote.take();
    let (links, replies) = match taken {
        Some(conn) => {
            let (links, replies) = abort_remote_connection(conn);
            (Some(links), replies)
        },
        None => (None, Vec::new()),
    };
    *fingerprint = None;
    if clear_creds {
        *last_target = None;
        *last_password = None;
    }
    Teardown { links, replies, notice: ControlMessage::ConnectionStatus { has_remote: false } }
}

/// Where a control message from a browser is answered.
#[derive(Clone, Copy, Debug, PartialEq, Eq, Structural)]
pub enum BrowserRoute {
    /// A transfer request: run it as a browser transfer.
    Transfer,
    /// Forward it to the remote and relay the remote's reply.
    Forward,
    /// Answer it from this host.
    Local,
    /// A browse with no remote to browse: refuse it with "No remote connection".
    NoRemote,
}

/// Route a browser's control message: transfers run as browser transfers; an info request is
/// always answered here; anything else goes to the remote when there is one; without a
/// remote a browse is refused (it must not list this host instead) and the rest is answered
/// here.
pub fn route_browser_message(msg: &ControlMessage, has_remote: bool) -> (r: BrowserRoute)
    ensures
        msg is TransferRequest ==> r == BrowserRoute::Transfer,
        msg is InfoRequest ==> r == BrowserRoute::Local,
        !(msg is TransferRequest) && !(msg is InfoRequest) && has_remote ==> r
            == BrowserRoute::Forward,
        !(msg is TransferRequest) && !(msg is InfoRequest) && !has_remote ==> r == (if msg is BrowseRequest {
            BrowserRoute::NoRemote
        } else {
            BrowserRoute::Local
        }),
{
    match msg {
        ControlMessage::TransferRequest { .. } => BrowserRoute::Transfer,
        ControlMessage::InfoRequest { .. } => BrowserRoute::Local,
        ControlMessage::BrowseRequest { .. } => if has_remote {
            BrowserRoute::Forward
        } else {
            BrowserRoute::NoRemote
        },
        _ => if has_remote {
            BrowserRoute::Forward
        } else {
            BrowserRoute::Local
        },
    }
}

/// How a message forwarded to the remote for a browser came back.
#[derive(Clone, Debug)]
pub enum ForwardResult {
    Reply(ControlMessage),
    /// The request could not be queued, or its reply channel closed.
    ConnectionLost,
    TimedOut,
}

/// What the browser receives for a forwarded message: the remote's reply, or an error.
pub fn forwarded_reply(result: ForwardResult) -> (r: ControlMessage)
    ensures
        match result {
            ForwardResult::Reply(m) => r == m,
            ForwardResult::ConnectionLost => r matches ControlMessage::Error { request_id: None, message }
                && message@ == "Remote connection lost"@,
            ForwardResult::TimedOut => r matches ControlMessage::Error { request_id: None, message }
                && message@ == "Remote timeout"@,
        },
{
    match result {
        ForwardResult::Reply(m) => m,
        ForwardResult::ConnectionLost => ControlMessage::Error {
            request_id: None,
            message: String::from_str("Remote connection lost"),
        },
        ForwardResult::TimedOut => ControlMessage::Error {
            request_id: None,
            message: String::from_str("Remote timeout"),
        },
    }
}

/// The refusal of a browse when there is no remote.
pub fn no_remote_error() -> (r: ControlMessage)
    ensures
        r matches ControlMessage::Error { request_id: None, message } && message@
            == "No remote connection"@,
{
    ControlMessage::Error { request_id: None, message: String::from_str("No remote connection") }
}

} // verus!
