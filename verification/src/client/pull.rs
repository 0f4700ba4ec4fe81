use vstd::prelude::*;
use vstd::string::StringExecFns;

use crate::protocol::messages::{ControlMessage, FileEntry, RequestId};
use crate::text::{chars_of, find_last, last_index_of, push_str, string_from_chars};

verus! {

/// The parent and the name of a remote path: split at the last `/`, or `.` and the whole
/// path when there is none.
pub open spec fn remote_path_parts(path: Seq<char>) -> (Seq<char>, Seq<char>) {
    match last_index_of(path, '/') {
        Some(i) => (path.subrange(0, i), path.subrange(i + 1, path.len() as int)),
        None => ("."@, path),
    }
}

/// Split a remote path into (parent, filename).
/// "foo/bar.txt" gives ("foo", "bar.txt"); "bar.txt" gives (".", "bar.txt").
pub fn split_remote_path(path: &str) -> (r: (String, String))
    ensures
        (r.0@, r.1@) == remote_path_parts(path@),
{
    let chars = chars_of(path);
    match find_last(chars.as_slice(), '/') {
        Some(pos) => {
            let (head, tail) = chars.as_slice().split_at(pos);
            let parent = string_from_chars(head);
            let name = string_from_chars(tail.split_at(1).1);
            assert(parent@ =~= chars@.subrange(0, pos as int));
            assert(name@ =~= chars@.subrange(pos + 1, chars@.len() as int));
            (parent, name)
        },
        None => {
            let mut whole = String::new();
            push_str(&mut whole, path);
            assert(whole@ =~= path@);
            (String::from_str("."), whole)
        },
    }
}

/// Find the listing entry of the file or directory to pull.
pub fn find_entry_named(entries: &[FileEntry], name: &str) -> (r: Option<usize>)
    ensures
        match r {
            Some(i) => i < entries@.len() && entries@[i as int].name@ == name@ && forall|j: int|
                0 <= j < i ==> entries@[j].name@ != name@,
            None => forall|j: int| 0 <= j < entries@.len() ==> entries@[j].name@ != name@,
        },
{
    let target = String::from_str(name);
    let n = entries.len();
    let mut i: usize = 0;
    while i < n
        invariant
            n == entries@.len(),
            i <= n,
            target@ == name@,
            forall|j: int| 0 <= j < i ==> entries@[j].name@ != name@,
        decreases n - i,
    {
        if entries[i].name == target {
            return Some(i);
        }
        i = i + 1;
    }
    None
}

/// What a pull learns from the listing of the parent directory it asked for.
#[derive(Clone, Debug)]
pub enum PullLookup {
    /// The entry to pull is at this position of the listing.
    Found(usize),
    /// The pull stops with this error.
    Failed(String),
    /// Any other reply (reported with its debug form).
    Unexpected,
}

/// Find the entry to pull in the reply to the browse of its parent: the first entry of the
/// listing with its name, or the error that the entry is not there; a browse error stops the
/// pull with the remote's message.
pub fn locate_pull_entry(response: &ControlMessage, name: &str, remote_path: &str) -> (r: PullLookup)
    ensures
        match response {
            ControlMessage::BrowseResponse { entries, .. } => match r {
                PullLookup::Found(i) => i < entries@.len() && entries@[i as int].name@ == name@
                    && forall|j: int| 0 <= j < i ==> entries@[j].name@ != name@,
                PullLookup::Failed(m) => m@ == "'"@ + remote_path@ + "' not found on remote"@
                    && forall|j: int| 0 <= j < entries@.len() ==> entries@[j].name@ != name@,
                PullLookup::Unexpected => false,
            },
            ControlMessage::Error { message, .. } => r matches PullLookup::Failed(m) && m@
                == "Browse failed: "@ + message@,
            _ => r is Unexpected,
        },
{
    match response {
        ControlMessage::BrowseResponse { entries, .. } => match find_entry_named(entries.as_slice(), name) {
            Some(i) => PullLookup::Found(i),
            None => {
                let mut m = String::from_str("'");
                push_str(&mut m, remote_path);
                push_str(&mut m, "' not found on remote");
                PullLookup::Failed(m)
            },
        },
        ControlMessage::Error { message, .. } => {
            let mut m = String::from_str("Browse failed: ");
            push_str(&mut m, message.as_str());
            PullLookup::Failed(m)
        },
        _ => PullLookup::Unexpected,
    }
}

/// What a pull does with each message while it waits for its transfer to be accepted.
#[derive(Clone, Debug)]
pub enum Acceptance {
    Accepted,
    Rejected(String),
    KeepWaiting,
}

/// Acceptance of the pull `transfer_id`: its `TransferAccepted` accepts it, any
/// `TransferError` rejects it, and everything else is waited past.
pub fn acceptance_of(transfer_id: RequestId, msg: &ControlMessage) -> (r: Acceptance)
    ensures
        match msg {
            ControlMessage::TransferAccepted { id, .. } => if *id == transfer_id {
                r is Accepted
            } else {
                r is KeepWaiting
            },
            ControlMessage::TransferError { error, .. } => r matches Acceptance::Rejected(e) && e@
                == error@,
            _ => r is KeepWaiting,
        },
{
    match msg {
        ControlMessage::TransferAccepted { id, .. } => {
            if *id == transfer_id {
                Acceptance::Accepted
            } else {
                Acceptance::KeepWaiting
            }
        },
        ControlMessage::TransferError { error, .. } => Acceptance::Rejected(error.clone()),
        _ => Acceptance::KeepWaiting,
    }
}

/// Bytes received so far by a pull, and the last whole MiB count that was reported.
#[derive(Clone, Copy, Debug)]
pub struct ReceiveProgress {
    pub received: u64,
    pub reported_mib: u64,
}

/// A frame that arrives while a pull receives its data.
#[derive(Clone, Debug)]
pub enum ReceiveEvent {
    Data { transfer_id: RequestId, chunk_len: u64 },
    Control(ControlMessage),
}

/// What the pull does with a frame.
#[derive(Clone, Debug, PartialEq, Eq)]
pub enum ReceiveAction {
    /// Write the chunk; report the new total when a new whole MiB was reached.
    Write { report: bool },
    /// Finalize the file and acknowledge the transfer.
    Finalize { total_bytes: u64 },
    /// Give up with this error.
    Fail { error: String },
    /// Not ours: skip it.
    Skip,
}

/// One frame of a pull: data for this transfer is counted (and reported per MiB), its
/// completion finalizes it, its error ends it, and every other frame is skipped.
pub fn receive_step(transfer_id: RequestId, progress: ReceiveProgress, event: &ReceiveEvent) -> (r: (
    ReceiveProgress,
    ReceiveAction,
))
    requires
        match event {
            ReceiveEvent::Data { transfer_id: id, chunk_len } => *id == transfer_id ==> progress.received
                + *chunk_len <= u64::MAX,
            _ => true,
        },
    ensures
        match event {
            ReceiveEvent::Data { transfer_id: id, chunk_len } => if *id == transfer_id {
                let received = progress.received + *chunk_len;
                let mib = received / 1_048_576;
                &&& r.0.received == received
                &&& r.0.reported_mib == (if mib > progress.reported_mib {
                    mib
                } else {
                    progress.reported_mib as int
                })
                &&& r.1 == ReceiveAction::Write { report: mib > progress.reported_mib }
            } else {
                r.0 == progress && r.1 == ReceiveAction::Skip
            },
            ReceiveEvent::Control(ControlMessage::TransferComplete { id, total_bytes }) => if *id
                == transfer_id {
                r.0 == progress && r.1 == ReceiveAction::Finalize { total_bytes: *total_bytes }
            } else {
                r.0 == progress && r.1 == ReceiveAction::Skip
            },
            ReceiveEvent::Control(ControlMessage::TransferError { id, error }) => if *id
                == transfer_id {
                r.0 == progress && (r.1 matches ReceiveAction::Fail { error: e } && e@
                    == "Transfer error: "@ + error@)
            } else {
                r.0 == progress && r.1 == ReceiveAction::Skip
            },
            _ => r.0 == progress && r.1 == ReceiveAction::Skip,
        },
{
    match event {
        ReceiveEvent::Data { transfer_id: id, chunk_len } => {
            if *id == transfer_id {
                let received = progress.received + *chunk_len;
                let mib = received / 1_048_576;
                if mib > progress.reported_mib {
                    (ReceiveProgress { received, reported_mib: mib }, ReceiveAction::Write { report: true })
                } else {
                    (
                        ReceiveProgress { received, reported_mib: progress.reported_mib },
                        ReceiveAction::Write { report: false },
                    )
                }
            } else {
                (progress, ReceiveAction::Skip)
            }
        },
        ReceiveEvent::Control(ControlMessage::TransferComplete { id, total_bytes }) => {
            if *id == transfer_id {
                (progress, ReceiveAction::Finalize { total_bytes: *total_bytes })
            } else {
                (progress, ReceiveAction::Skip)
            }
        },
        ReceiveEvent::Control(ControlMessage::TransferError { id, error }) => {
            if *id == transfer_id {
                let mut text = String::from_str("Transfer error: ");
                push_str(&mut text, error.as_str());
                (progress, ReceiveAction::Fail { error: text })
            } else {
                (progress, ReceiveAction::Skip)
            }
        },
        _ => (progress, ReceiveAction::Skip),
    }
}

} // verus!
