use vstd::prelude::*;
use vstd::string::StringExecFns;

use crate::protocol::codec::{data_frame, data_frame_v2, encode_data_frame, encode_data_frame_v2};
use crate::protocol::messages::{ControlMessage, RequestId, TransferEntry, MIN_MULTI_FILE_VERSION};
use crate::text::{chars_of, push_str};

verus! {

/// A path segment that names something (not empty, not `.`).
pub open spec fn is_named_segment(s: Seq<char>) -> bool {
    s.len() > 0 && s != "."@
}

/// The named segments completed so far in `p`, and the segment being read at its end.
pub open spec fn segment_scan(p: Seq<char>) -> (Seq<Seq<char>>, Seq<char>)
    decreases p.len(),
{
    if p.len() == 0 {
        (Seq::empty(), Seq::empty())
    } else {
        let (done, cur) = segment_scan(p.drop_last());
        if p.last() == '/' {
            (if is_named_segment(cur) { done.push(cur) } else { done }, Seq::empty())
        } else {
            (done, cur.push(p.last()))
        }
    }
}

/// The named segments of a `/`-separated path, in order.
pub open spec fn path_segments(p: Seq<char>) -> Seq<Seq<char>> {
    let (done, cur) = segment_scan(p);
    if is_named_segment(cur) {
        done.push(cur)
    } else {
        done
    }
}

/// Whether `path` lies within `base`, component by component: both absolute or both
/// relative, and the segments of `base` begin those of `path`. On the canonical absolute
/// paths that `validate_path` compares (no `.` or `..` segments, no repeated `/`), this is
/// `Path::starts_with`; on other paths it differs from it in ignoring `.` segments after the
/// first.
pub open spec fn path_within(path: Seq<char>, base: Seq<char>) -> bool {
    &&& (path.len() > 0 && path[0] == '/') == (base.len() > 0 && base[0] == '/')
    &&& path_segments(base).len() <= path_segments(path).len()
    &&& path_segments(path).subrange(0, path_segments(base).len() as int) == path_segments(base)
}

/// The character views of a list of character vectors.
pub open spec fn seq_views(v: Seq<Vec<char>>) -> Seq<Seq<char>> {
    v.map_values(|x: Vec<char>| x@)
}

fn is_named(cur: &Vec<char>) -> (r: bool)
    ensures
        r == is_named_segment(cur@),
{
    proof {
        reveal_strlit(".");
    }
    if cur.len() == 0 {
        false
    } else if cur.len() == 1 && cur[0] == '.' {
        assert(cur@ =~= "."@);
        false
    } else {
        assert(cur@ != "."@) by {
            if cur@ == "."@ {
                assert(cur@.len() == 1);
            }
        }
        true
    }
}

/// The named segments of a path.
fn segments_of(path: &str) -> (r: Vec<Vec<char>>)
    ensures
        seq_views(r@) == path_segments(path@),
{
    let chars = chars_of(path);
    let mut done: Vec<Vec<char>> = Vec::new();
    let mut cur: Vec<char> = Vec::new();
    let n = chars.len();
    let mut i: usize = 0;
    while i < n
        invariant
            n == chars@.len(),
            i <= n,
            (seq_views(done@), cur@) == segment_scan(chars@.take(i as int)),
        decreases n - i,
    {
        let c = chars[i];
        proof {
            assert(chars@.take(i + 1).drop_last() == chars@.take(i as int));
            assert(chars@.take(i + 1).last() == c);
        }
        if c == '/' {
            if is_named(&cur) {
                let finished = cur;
                done.push(finished);
                assert(seq_views(done@) =~= segment_scan(chars@.take(i as int)).0.push(finished@));
            }
            cur = Vec::new();
        } else {
            cur.push(c);
        }
        i = i + 1;
    }
    assert(chars@.take(n as int) =~= chars@);
    if is_named(&cur) {
        let finished = cur;
        done.push(finished);
        assert(seq_views(done@) =~= segment_scan(chars@).0.push(finished@));
    }
    done
}

fn chars_equal(a: &Vec<char>, b: &Vec<char>) -> (r: bool)
    ensures
        r == (a@ == b@),
{
    if a.len() != b.len() {
        return false;
    }
    let n = a.len();
    let mut i: usize = 0;
    while i < n
        invariant
            n == a@.len(),
            n == b@.len(),
            i <= n,
            forall|j: int| 0 <= j < i ==> a@[j] == b@[j],
        decreases n - i,
    {
        if a[i] != b[i] {
            return false;
        }
        i = i + 1;
    }
    assert(a@ =~= b@);
    true
}

/// Whether `path` lies within `base`, component by component.
pub fn path_starts_with(path: &str, base: &str) -> (r: bool)
    ensures
        r == path_within(path@, base@),
{
    let p = chars_of(path);
    let b = chars_of(base);
    let p_abs = p.len() > 0 && p[0] == '/';
    let b_abs = b.len() > 0 && b[0] == '/';
    if p_abs != b_abs {
        return false;
    }
    let ps = segments_of(path);
    let bs = segments_of(base);
    if bs.len() > ps.len() {
        return false;
    }
    let n = bs.len();
    let mut i: usize = 0;
    while i < n
        invariant
            n == bs@.len(),
            n <= ps@.len(),
            i <= n,
            forall|j: int| 0 <= j < i ==> ps@[j]@ == bs@[j]@,
            seq_views(ps@) == path_segments(path@),
            seq_views(bs@) == path_segments(base@),
            (path@.len() > 0 && path@[0] == '/') == (base@.len() > 0 && base@[0] == '/'),
        decreases n - i,
    {
        if !chars_equal(&ps[i], &bs[i]) {
            proof {
                assert(seq_views(ps@)[i as int] == ps@[i as int]@);
                assert(seq_views(bs@)[i as int] == bs@[i as int]@);
                assert(seq_views(ps@).subrange(0, n as int)[i as int] != seq_views(bs@)[i as int]);
                assert(seq_views(ps@).subrange(0, n as int) != seq_views(bs@));
            }
            return false;
        }
        i = i + 1;
    }
    assert(seq_views(ps@).subrange(0, n as int) =~= seq_views(bs@));
    true
}

/// What the runtime found out about a path to check: the canonical target when it resolves,
/// else (for a target that does not exist yet) the canonical parent when the parent exists;
/// and the canonical root, or the error text of canonicalizing it.
#[derive(Debug)]
pub enum PathProbe {
    Resolved { canonical: String, root: Result<String, String> },
    Unresolved { target: String, parent: Option<Result<String, String>>, root: Result<String, String> },
}

/// The verdict on a probed path: the path to use, or the reason it is refused.
pub open spec fn path_verdict(probe: PathProbe) -> Result<Seq<char>, Seq<char>> {
    match probe {
        PathProbe::Resolved { canonical, root } => match root {
            Err(e) => Err("Invalid root: "@ + e@),
            Ok(r) => if path_within(canonical@, r@) {
                Ok(canonical@)
            } else {
                Err("Path traversal attempt blocked"@)
            },
        },
        PathProbe::Unresolved { target, parent, root } => match parent {
            None => Err("Invalid path"@),
            Some(Err(e)) => Err("Invalid parent: "@ + e@),
            Some(Ok(p)) => match root {
                Err(e) => Err("Invalid root: "@ + e@),
                Ok(r) => if path_within(p@, r@) {
                    Ok(target@)
                } else {
                    Err("Invalid path"@)
                },
            },
        },
    }
}

fn prefixed(prefix: &str, detail: &String) -> (r: String)
    ensures
        r@ == prefix@ + detail@,
{
    let mut r = String::new();
    push_str(&mut r, prefix);
    push_str(&mut r, detail.as_str());
    r
}

/// Check that a relative path resolves to a location within the root: an existing target
/// must canonicalize inside the root; a target that does not exist yet must have an existing
/// parent that canonicalizes inside the root. Returns the path to use, or the error message.
pub fn validate_path(probe: &PathProbe) -> (r: Result<String, String>)
    ensures
        match r {
            Ok(p) => path_verdict(*probe) == Ok::<Seq<char>, Seq<char>>(p@),
            Err(e) => path_verdict(*probe) == Err::<Seq<char>, Seq<char>>(e@),
        },
{
    match probe {
        PathProbe::Resolved { canonical, root } => match root {
            Err(e) => Err(prefixed("Invalid root: ", e)),
            Ok(r) => if path_starts_with(canonical.as_str(), r.as_str()) {
                Ok(canonical.clone())
            } else {
                Err(String::from_str("Path traversal attempt blocked"))
            },
        },
        PathProbe::Unresolved { target, parent, root } => match parent {
            None => Err(String::from_str("Invalid path")),
            Some(Err(e)) => Err(prefixed("Invalid parent: ", e)),
            Some(Ok(p)) => match root {
                Err(e) => Err(prefixed("Invalid root: ", e)),
                Ok(r) => if path_starts_with(p.as_str(), r.as_str()) {
                    Ok(target.clone())
                } else {
                    Err(String::from_str("Invalid path"))
                },
            },
        },
    }
}

/// A path is only ever accepted when the path that was checked (the canonical target, or the
/// canonical parent of a target yet to be created) lies within the canonical root.
pub proof fn law_accepted_paths_stay_within_root(probe: PathProbe)
    ensures
        path_verdict(probe) is Ok ==> match probe {
            PathProbe::Resolved { canonical, root } => root matches Ok(r) && path_within(
                canonical@,
                r@,
            ),
            PathProbe::Unresolved { parent, root, .. } => (parent matches Some(Ok(p)) && root matches Ok(
                r,
            ) && path_within(p@, r@)),
        },
{
}

/// The offset to resume an entry from: the first hint for its path, or 0.
pub open spec fn resume_offset_of(hints: Seq<(String, u64)>, path: Seq<char>) -> u64
    decreases hints.len(),
{
    if hints.len() == 0 {
        0
    } else if hints[0].0@ == path {
        hints[0].1
    } else {
        resume_offset_of(hints.drop_first(), path)
    }
}

/// Look up the offset already received of an entry, from the client's resume hints.
pub fn lookup_resume_offset(hints: &[(String, u64)], path: &str) -> (r: u64)
    ensures
        r == resume_offset_of(hints@, path@),
{
    let target = String::from_str(path);
    let n = hints.len();
    let mut i: usize = 0;
    assert(hints@.skip(0) =~= hints@);
    while i < n
        invariant
            n == hints@.len(),
            i <= n,
            target@ == path@,
            resume_offset_of(hints@, path@) == resume_offset_of(hints@.skip(i as int), path@),
        decreases n - i,
    {
        proof {
            assert(hints@.skip(i as int).drop_first() == hints@.skip(i + 1));
            assert(hints@.skip(i as int)[0] == hints@[i as int]);
        }
        if hints[i].0 == target {
            return hints[i].1;
        }
        i = i + 1;
    }
    0
}

/// No path is named by two hints (as in the map the hints are read from).
pub open spec fn hint_paths_distinct(hints: Seq<(String, u64)>) -> bool {
    forall|i: int, j: int| 0 <= i < j < hints.len() ==> hints[i].0@ != hints[j].0@
}

proof fn lemma_first_hint(hints: Seq<(String, u64)>, path: Seq<char>, i: int)
    requires
        0 <= i < hints.len(),
        hints[i].0@ == path,
        forall|j: int| 0 <= j < i ==> hints[j].0@ != path,
    ensures
        resume_offset_of(hints, path) == hints[i].1,
    decreases i,
{
    if i > 0 {
        lemma_first_hint(hints.drop_first(), path, i - 1);
    }
}

proof fn lemma_no_hint(hints: Seq<(String, u64)>, path: Seq<char>)
    requires
        forall|j: int| 0 <= j < hints.len() ==> hints[j].0@ != path,
    ensures
        resume_offset_of(hints, path) == 0,
    decreases hints.len(),
{
    if hints.len() > 0 {
        lemma_no_hint(hints.drop_first(), path);
    }
}

/// Read as a map: when no path is named twice, the offset looked up for a path is that of the
/// hint naming it, and 0 when none does.
pub proof fn law_resume_lookup_reads_the_map(hints: Seq<(String, u64)>, path: Seq<char>)
    requires
        hint_paths_distinct(hints),
    ensures
        forall|i: int|
            0 <= i < hints.len() && #[trigger] hints[i].0@ == path ==> resume_offset_of(hints, path)
                == hints[i].1,
        (forall|i: int| 0 <= i < hints.len() ==> #[trigger] hints[i].0@ != path) ==> resume_offset_of(
            hints,
            path,
        ) == 0,
{
    assert forall|i: int| 0 <= i < hints.len() && #[trigger] hints[i].0@ == path implies resume_offset_of(
        hints,
        path,
    ) == hints[i].1 by {
        lemma_first_hint(hints, path, i);
    }
    if forall|i: int| 0 <= i < hints.len() ==> #[trigger] hints[i].0@ != path {
        lemma_no_hint(hints, path);
    }
}

/// Whether data frames to this peer carry a file index (protocol version 2 and later).
pub open spec fn uses_file_index(peer_version: Option<u32>) -> bool {
    peer_version matches Some(v) && v >= MIN_MULTI_FILE_VERSION
}

/// Whether data frames to this peer carry a file index.
pub fn peer_uses_file_index(peer_version: Option<u32>) -> (r: bool)
    ensures
        r == uses_file_index(peer_version),
{
    match peer_version {
        Some(v) => v >= MIN_MULTI_FILE_VERSION,
        None => false,
    }
}

/// Whether to read the files concurrently: only for several files to a peer whose frames
/// carry a file index.
pub fn sends_in_parallel(peer_version: Option<u32>, file_count: usize) -> (r: bool)
    ensures
        r == (uses_file_index(peer_version) && file_count > 1),
{
    peer_uses_file_index(peer_version) && file_count > 1
}

/// A file ready to be sent: the name it is shown under, the path it is read from, its size,
/// the temporary archive to delete afterwards (for a compressed directory), and the offset
/// to resume from.
#[derive(Clone, Debug)]
pub struct PlannedFile {
    pub display_name: String,
    pub path: String,
    pub size: u64,
    pub cleanup: Option<String>,
    pub resume_offset: u64,
}

/// The temporary archives of the planned files, in order.
pub open spec fn cleanup_paths(files: Seq<PlannedFile>) -> Seq<Seq<char>>
    decreases files.len(),
{
    if files.len() == 0 {
        Seq::empty()
    } else {
        let rest = cleanup_paths(files.drop_last());
        match files.last().cleanup {
            Some(p) => rest.push(p@),
            None => rest,
        }
    }
}

/// The temporary archives to delete once the planned files have been sent (or the send
/// abandoned).
pub fn archives_to_clean(files: &[PlannedFile]) -> (r: Vec<String>)
    ensures
        seq_string_views(r@) == cleanup_paths(files@),
{
    let mut r: Vec<String> = Vec::new();
    let n = files.len();
    let mut i: usize = 0;
    while i < n
        invariant
            n == files@.len(),
            i <= n,
            seq_string_views(r@) == cleanup_paths(files@.take(i as int)),
        decreases n - i,
    {
        proof {
            assert(files@.take(i + 1).drop_last() == files@.take(i as int));
        }
        match &files[i].cleanup {
            Some(p) => {
                let ghost before = r@;
                r.push(p.clone());
                assert(seq_string_views(r@) =~= seq_string_views(before).push(p@));
            },
            None => {},
        }
        i = i + 1;
    }
    assert(files@.take(n as int) =~= files@);
    r
}

/// The character views of a list of strings.
pub open spec fn seq_string_views(v: Seq<String>) -> Seq<Seq<char>> {
    v.map_values(|x: String| x@)
}

/// The total size of the planned files.
pub open spec fn planned_size(files: Seq<PlannedFile>) -> nat
    decreases files.len(),
{
    if files.len() == 0 {
        0
    } else {
        planned_size(files.drop_last()) + files.last().size as nat
    }
}

/// The total size of the planned files (for progress reports), or `None` when it does not fit
/// in 64 bits.
pub fn planned_total_size(files: &[PlannedFile]) -> (r: Option<u64>)
    ensures
        match r {
            Some(t) => t == planned_size(files@),
            None => planned_size(files@) > u64::MAX,
        },
{
    let mut total: u64 = 0;
    let n = files.len();
    let mut i: usize = 0;
    while i < n
        invariant
            n == files@.len(),
            i <= n,
            total == planned_size(files@.take(i as int)),
        decreases n - i,
    {
        proof {
            assert(files@.take(i + 1).drop_last() == files@.take(i as int));
        }
        match total.checked_add(files[i].size) {
            Some(t) => total = t,
            None => {
                proof {
                    lemma_planned_size_grows(files@, i + 1);
                }
                return None;
            },
        }
        i = i + 1;
    }
    assert(files@.take(n as int) =~= files@);
    Some(total)
}

proof fn lemma_planned_size_grows(files: Seq<PlannedFile>, k: int)
    requires
        0 <= k <= files.len(),
    ensures
        planned_size(files.take(k)) <= planned_size(files),
    decreases files.len() - k,
{
    if k < files.len() {
        lemma_planned_size_grows(files, k + 1);
        assert(files.take(k + 1).drop_last() == files.take(k));
        assert(files.take(files.len() as int) == files);
    } else {
        assert(files.take(k) == files);
    }
}

/// The message that reports a failed transfer to the browser.
pub fn transfer_error(id: RequestId, error: &str) -> (r: ControlMessage)
    ensures
        r matches ControlMessage::TransferError { id: rid, error: e } && rid == id && e@ == error@,
{
    let mut e = String::new();
    push_str(&mut e, error);
    assert(e@ =~= error@);
    ControlMessage::TransferError { id, error: e }
}

/// How the remote answered a forwarded transfer request.
#[derive(Clone, Debug)]
pub enum RemoteReply {
    Message(ControlMessage),
    ChannelClosed,
    TimedOut,
}

/// What to do with the remote's answer to a forwarded transfer request.
#[derive(Clone, Debug)]
pub enum ReplyDecision {
    /// Tell the browser the transfer is accepted and carry it out.
    Proceed,
    /// Report this error to the browser (taking the pending request out first if asked).
    Fail { error: String, forget_pending: bool },
}

/// Decide on the remote's answer to a forwarded transfer request: an acceptance proceeds;
/// a rejection, any other message, a closed channel or a timeout fail the transfer.
pub fn reply_decision(reply: &RemoteReply) -> (r: ReplyDecision)
    ensures
        match reply {
            RemoteReply::Message(ControlMessage::TransferAccepted { .. }) => r is Proceed,
            RemoteReply::Message(ControlMessage::TransferError { error, .. }) => r matches ReplyDecision::Fail {
                error: e,
                forget_pending: false,
            } && e@ == error@,
            RemoteReply::Message(_) => r matches ReplyDecision::Fail { error: e, forget_pending: false }
                && e@ == "Unexpected response from remote"@,
            RemoteReply::ChannelClosed => r matches ReplyDecision::Fail {
                error: e,
                forget_pending: false,
            } && e@ == "Remote response channel closed"@,
            RemoteReply::TimedOut => r matches ReplyDecision::Fail { error: e, forget_pending: true }
                && e@ == "Remote response timeout"@,
        },
{
    match reply {
        RemoteReply::Message(ControlMessage::TransferAccepted { .. }) => ReplyDecision::Proceed,
        RemoteReply::Message(ControlMessage::TransferError { error, .. }) => ReplyDecision::Fail {
            error: error.clone(),
            forget_pending: false,
        },
        RemoteReply::Message(_) => ReplyDecision::Fail {
            error: String::from_str("Unexpected response from remote"),
            forget_pending: false,
        },
        RemoteReply::ChannelClosed => ReplyDecision::Fail {
            error: String::from_str("Remote response channel closed"),
            forget_pending: false,
        },
        RemoteReply::TimedOut => ReplyDecision::Fail {
            error: String::from_str("Remote response timeout"),
            forget_pending: true,
        },
    }
}

/// How the wait for a transfer's completion ended.
#[derive(Clone, Debug)]
pub enum CompletionWait {
    TimedOut,
    ChannelClosed,
    Failed(String),
    Done(u64),
}

/// The message the browser receives when a pull it asked for ends: its completion with the
/// byte count, or an error.
pub fn pull_outcome(id: RequestId, wait: &CompletionWait) -> (r: ControlMessage)
    ensures
        match wait {
            CompletionWait::Done(total) => r == ControlMessage::TransferComplete { id, total_bytes: *total },
            CompletionWait::Failed(error) => r matches ControlMessage::TransferError { id: rid, error: e }
                && rid == id && e@ == error@,
            CompletionWait::TimedOut => r matches ControlMessage::TransferError { id: rid, error: e }
                && rid == id && e@ == "Pull transfer timed out"@,
            CompletionWait::ChannelClosed => r matches ControlMessage::TransferError { id: rid, error: e }
                && rid == id && e@ == "Pull transfer channel closed unexpectedly"@,
        },
{
    match wait {
        CompletionWait::Done(total) => ControlMessage::TransferComplete { id, total_bytes: *total },
        CompletionWait::Failed(error) => ControlMessage::TransferError { id, error: error.clone() },
        CompletionWait::TimedOut => ControlMessage::TransferError {
            id,
            error: String::from_str("Pull transfer timed out"),
        },
        CompletionWait::ChannelClosed => ControlMessage::TransferError {
            id,
            error: String::from_str("Pull transfer channel closed unexpectedly"),
        },
    }
}

/// Whether `r` is the message the browser receives when a push ends as `wait` says:
/// completion with the bytes sent once the remote confirmed, or an error. (A confirmation
/// carries no count; `Done`'s is ignored.)
pub open spec fn is_push_outcome(id: RequestId, total_sent: u64, wait: CompletionWait, r: ControlMessage) -> bool {
    match wait {
        CompletionWait::Done(_) => r == ControlMessage::TransferComplete { id, total_bytes: total_sent },
        CompletionWait::Failed(error) => r matches ControlMessage::TransferError { id: rid, error: e }
            && rid == id && e@ == error@,
        CompletionWait::TimedOut => r matches ControlMessage::TransferError { id: rid, error: e }
            && rid == id && e@ == "Remote did not confirm transfer within 5 minutes"@,
        CompletionWait::ChannelClosed => r matches ControlMessage::TransferError { id: rid, error: e }
            && rid == id && e@ == "Remote completion channel closed unexpectedly"@,
    }
}

/// The message the browser receives when a push it asked for ends.
pub fn push_outcome(id: RequestId, total_sent: u64, wait: &CompletionWait) -> (r: ControlMessage)
    ensures
        is_push_outcome(id, total_sent, *wait, r),
{
    match wait {
        CompletionWait::Done(_) => ControlMessage::TransferComplete { id, total_bytes: total_sent },
        CompletionWait::Failed(error) => ControlMessage::TransferError { id, error: error.clone() },
        CompletionWait::TimedOut => ControlMessage::TransferError {
            id,
            error: String::from_str("Remote did not confirm transfer within 5 minutes"),
        },
        CompletionWait::ChannelClosed => ControlMessage::TransferError {
            id,
            error: String::from_str("Remote completion channel closed unexpectedly"),
        },
    }
}

/// What the runtime found out about one entry of a transfer to send.
#[derive(Debug)]
pub enum EntryCheck {
    /// The entry's path failed validation, for this reason.
    InvalidPath(String),
    /// A regular file, read from `path`.
    File { path: String },
    /// A directory: the archive made of it (its path and size), or the compression error text.
    Archived(Result<(String, u64), String>),
}

/// Why planning stopped: the error to report, and the temporary archives planned so far,
/// which are to be deleted.
#[derive(Clone, Debug)]
pub struct PlanFailure {
    pub error: String,
    pub delete: Vec<String>,
}

/// Whether planning an entry took `before` to `after` with result `r`: a file is planned as
/// it is, with its announced size; a directory as its archive, deleted afterwards; a failed
/// check stops planning with its error, leaves the plan as it was, and names every archive
/// planned before it for deletion.
pub open spec fn entry_planned(
    before: Seq<PlannedFile>,
    after: Seq<PlannedFile>,
    r: Result<(), PlanFailure>,
    relative_path: Seq<char>,
    size: u64,
    resume_offset: u64,
    check: EntryCheck,
) -> bool {
    &&& r matches Err(f) ==> seq_string_views(f.delete@) == cleanup_paths(before)
    &&& match check {
        EntryCheck::InvalidPath(e) => r matches Err(f) && f.error@ == "Invalid path "@
            + relative_path + ": "@ + e@ && after == before,
        EntryCheck::Archived(Err(e)) => r matches Err(f) && f.error@ == "Failed to compress "@
            + relative_path + ": "@ + e@ && after == before,
        EntryCheck::File { path } => {
            &&& r is Ok
            &&& after.len() == before.len() + 1 && after.drop_last() == before
            &&& after.last().display_name@ == relative_path && after.last().path == path
            &&& after.last().size == size && after.last().cleanup is None
            &&& after.last().resume_offset == resume_offset
        },
        EntryCheck::Archived(Ok((archive, archive_size))) => {
            &&& r is Ok
            &&& after.len() == before.len() + 1 && after.drop_last() == before
            &&& after.last().display_name@ == relative_path && after.last().path == archive
            &&& after.last().size == archive_size && after.last().cleanup == Some(archive)
            &&& after.last().resume_offset == resume_offset
        },
    }
}

/// Plan one entry of a transfer: a file is sent as it is, with its announced size; a directory
/// is sent as its archive, which is deleted afterwards. A path that failed validation, or a
/// directory that could not be archived, stops the transfer with the error to report, and
/// every archive planned before it is to be deleted.
pub fn plan_entry(
    files: &mut Vec<PlannedFile>,
    relative_path: &str,
    size: u64,
    resume_offset: u64,
    check: &EntryCheck,
) -> (r: Result<(), PlanFailure>)
    ensures
        entry_planned(old(files)@, final(files)@, r, relative_path@, size, resume_offset, *check),
{
    match check {
        EntryCheck::InvalidPath(e) => {
            let mut m = String::from_str("Invalid path ");
            push_str(&mut m, relative_path);
            push_str(&mut m, ": ");
            push_str(&mut m, e.as_str());
            Err(PlanFailure { error: m, delete: archives_to_clean(files.as_slice()) })
        },
        EntryCheck::Archived(Err(e)) => {
            let mut m = String::from_str("Failed to compress ");
            push_str(&mut m, relative_path);
            push_str(&mut m, ": ");
            push_str(&mut m, e.as_str());
            Err(PlanFailure { error: m, delete: archives_to_clean(files.as_slice()) })
        },
        EntryCheck::File { path } => {
            let mut name = String::new();
            push_str(&mut name, relative_path);
            files.push(
                PlannedFile {
                    display_name: name,
                    path: path.clone(),
                    size,
                    cleanup: None,
                    resume_offset,
                },
            );
            proof {
                assert(final(files)@.drop_last() =~= old(files)@);
            }
            Ok(())
        },
        EntryCheck::Archived(Ok((archive, archive_size))) => {
            let mut name = String::new();
            push_str(&mut name, relative_path);
            files.push(
                PlannedFile {
                    display_name: name,
                    path: archive.clone(),
                    size: *archive_size,
                    cleanup: Some(archive.clone()),
                    resume_offset,
                },
            );
            proof {
                assert(final(files)@.drop_last() =~= old(files)@);
            }
            Ok(())
        },
    }
}

/// Account for one chunk read from a file being pushed: its data frame goes at the bytes sent
/// so far, which then grow by the chunk; the browser hears how far the transfer has come.
pub fn chunk_sent(
    id: RequestId,
    display_name: &str,
    total_sent: &mut u64,
    chunk_len: usize,
    bytes_total: u64,
) -> (r: (u64, ControlMessage))
    requires
        *old(total_sent) + chunk_len <= u64::MAX,
    ensures
        r.0 == *old(total_sent),
        *final(total_sent) == *old(total_sent) + chunk_len,
        r.1 matches ControlMessage::TransferProgress { id: rid, path, bytes_done, bytes_total: t }
            && rid == id && path@ == display_name@ && bytes_done == *final(total_sent) && t
            == bytes_total,
{
    let offset = *total_sent;
    *total_sent = offset + chunk_len as u64;
    let mut path = String::new();
    push_str(&mut path, display_name);
    (offset, ControlMessage::TransferProgress { id, path, bytes_done: *total_sent, bytes_total })
}

/// Where a push stands once its files are planned: sending file `file`, waiting for the
/// remote to confirm, or over.
#[derive(Clone, Copy, Debug, PartialEq, Eq, Structural)]
pub enum PushStage {
    Sending { file: usize },
    Confirming,
    Ended,
}

/// A push under way: its planned files, their total size and the bytes sent so far.
#[derive(Debug)]
pub struct PushRun {
    pub id: RequestId,
    pub stage: PushStage,
    pub files: Vec<PlannedFile>,
    pub total_size: u64,
    pub total_sent: u64,
}

/// A push is well formed when the file it is sending exists.
pub open spec fn push_wf(run: PushRun) -> bool {
    run.stage matches PushStage::Sending { file } ==> file < run.files@.len()
}

/// What the runtime reports to a push.
#[derive(Debug)]
pub enum PushEvent {
    /// The current file could not be opened, for this reason.
    OpenFailed(String),
    /// A chunk of `len` bytes of the current file was read; its data frame, written at the
    /// bytes sent so far, was queued (`queued`) or the channel to the remote is closed.
    Chunk { len: u64, queued: bool },
    /// The current file was read to its end.
    FileDone,
    /// How the wait for the remote's confirmation ended.
    Confirmation(CompletionWait),
}

/// What the runtime does after a push step: messages for the browser and for the remote,
/// registering or dropping the waiter for the remote's confirmation, and the temporary
/// archives to delete.
#[derive(Debug)]
pub struct PushAction {
    pub to_browser: Option<ControlMessage>,
    pub to_remote: Option<ControlMessage>,
    pub register_waiter: bool,
    pub drop_waiter: bool,
    pub delete: Vec<String>,
}

fn quiet() -> (a: PushAction)
    ensures
        a.to_browser is None,
        a.to_remote is None,
        !a.register_waiter,
        !a.drop_waiter,
        a.delete@.len() == 0,
{
    PushAction { to_browser: None, to_remote: None, register_waiter: false, drop_waiter: false, delete: Vec::new() }
}

impl PushRun {
    /// Start sending the planned files: the waiter for the remote's confirmation is registered
    /// before any data goes out; with no file to send, the remote is told at once that the
    /// transfer is complete.
    pub fn start(id: RequestId, files: Vec<PlannedFile>) -> (r: (PushRun, PushAction))
        requires
            planned_size(files@) <= u64::MAX,
        ensures
            push_wf(r.0),
            r.0.id == id,
            r.0.files@ == files@,
            r.0.total_size == planned_size(files@),
            r.0.total_sent == 0,
            r.1.register_waiter,
            !r.1.drop_waiter,
            r.1.to_browser is None,
            r.1.delete@.len() == 0,
            files@.len() > 0 ==> r.0.stage == (PushStage::Sending { file: 0 }) && r.1.to_remote is None,
            files@.len() == 0 ==> r.0.stage == PushStage::Confirming && r.1.to_remote == Some(
                ControlMessage::TransferComplete { id, total_bytes: 0 },
            ),
    {
        let total = planned_total_size(files.as_slice());
        let total_size = match total {
            Some(t) => t,
            None => 0,
        };
        let empty = files.len() == 0;
        let run = PushRun {
            id,
            stage: if empty { PushStage::Confirming } else { PushStage::Sending { file: 0 } },
            files,
            total_size,
            total_sent: 0,
        };
        let to_remote = if empty {
            Some(ControlMessage::TransferComplete { id, total_bytes: 0 })
        } else {
            None
        };
        (run, PushAction { to_browser: None, to_remote, register_waiter: true, drop_waiter: false, delete: Vec::new() })
    }
}

/// One step of a push. An error while sending (a file that cannot be opened, a closed
/// channel) ends it with the error for the browser and the waiter dropped; each queued chunk
/// moves the bytes sent on and reports progress; after the last file the remote is told that
/// the transfer is complete; the remote's confirmation (or its absence) ends it with the
/// browser's outcome. Whenever a push ends, every temporary archive is deleted. Events that do
/// not fit the stage change nothing.
pub fn push_step(run: &mut PushRun, event: PushEvent) -> (a: PushAction)
    requires
        push_wf(*old(run)),
        old(run).stage is Sending ==> (event matches PushEvent::Chunk { len, queued } ==> (queued
            ==> old(run).total_sent + len <= u64::MAX)),
    ensures
        push_wf(*final(run)),
        final(run).id == old(run).id,
        final(run).files@ == old(run).files@,
        final(run).total_size == old(run).total_size,
        !a.register_waiter,
        final(run).stage is Ended && !(old(run).stage is Ended) ==> seq_string_views(a.delete@)
            == cleanup_paths(old(run).files@) && (old(run).stage is Sending ==> a.drop_waiter),
        !(final(run).stage is Ended && !(old(run).stage is Ended)) ==> a.delete@.len() == 0,
        match (old(run).stage, event) {
            (PushStage::Sending { file }, PushEvent::OpenFailed(error)) => final(run).stage
                == PushStage::Ended && a.to_remote is None && (a.to_browser matches Some(
                ControlMessage::TransferError { id, error: e },
            ) && id == old(run).id && e@ == "Failed to open "@ + old(run).files@[file as int].display_name@
                + ": "@ + error@),
            (PushStage::Sending { file }, PushEvent::Chunk { len, queued }) => if queued {
                &&& final(run).stage == old(run).stage
                &&& final(run).total_sent == old(run).total_sent + len
                &&& !a.drop_waiter && a.to_remote is None
                &&& a.to_browser matches Some(
                    ControlMessage::TransferProgress { id, path, bytes_done, bytes_total },
                ) && id == old(run).id && path@ == old(run).files@[file as int].display_name@
                    && bytes_done == final(run).total_sent && bytes_total == old(run).total_size
            } else {
                &&& final(run).stage == PushStage::Ended
                &&& a.to_remote is None
                &&& a.to_browser matches Some(ControlMessage::TransferError { id, error: e }) && id
                    == old(run).id && e@ == "Connection to remote lost"@
            },
            (PushStage::Sending { file }, PushEvent::FileDone) => {
                &&& !a.drop_waiter && a.to_browser is None
                &&& final(run).total_sent == old(run).total_sent
                &&& file + 1 < old(run).files@.len() ==> final(run).stage == (PushStage::Sending {
                    file: (file + 1) as usize,
                }) && a.to_remote is None
                &&& file + 1 >= old(run).files@.len() ==> final(run).stage == PushStage::Confirming
                    && a.to_remote == Some(
                    ControlMessage::TransferComplete { id: old(run).id, total_bytes: old(run).total_sent },
                )
            },
            (PushStage::Confirming, PushEvent::Confirmation(wait)) => {
                &&& final(run).stage == PushStage::Ended
                &&& a.to_remote is None
                &&& a.drop_waiter == (wait is TimedOut)
                &&& a.to_browser matches Some(m) && is_push_outcome(
                    old(run).id,
                    old(run).total_sent,
                    wait,
                    m,
                )
            },
            _ => final(run).stage == old(run).stage && final(run).total_sent == old(run).total_sent
                && a.to_browser is None && a.to_remote is None && !a.drop_waiter,
        },
{
    let id = run.id;
    match (run.stage, event) {
        (PushStage::Sending { file }, PushEvent::OpenFailed(error)) => {
            let mut m = String::from_str("Failed to open ");
            push_str(&mut m, run.files[file].display_name.as_str());
            push_str(&mut m, ": ");
            push_str(&mut m, error.as_str());
            run.stage = PushStage::Ended;
            PushAction {
                to_browser: Some(ControlMessage::TransferError { id, error: m }),
                to_remote: None,
                register_waiter: false,
                drop_waiter: true,
                delete: archives_to_clean(run.files.as_slice()),
            }
        },
        (PushStage::Sending { file }, PushEvent::Chunk { len, queued }) => {
            if queued {
                run.total_sent = run.total_sent + len;
                let mut path = String::new();
                push_str(&mut path, run.files[file].display_name.as_str());
                PushAction {
                    to_browser: Some(
                        ControlMessage::TransferProgress {
                            id,
                            path,
                            bytes_done: run.total_sent,
                            bytes_total: run.total_size,
                        },
                    ),
                    to_remote: None,
                    register_waiter: false,
                    drop_waiter: false,
                    delete: Vec::new(),
                }
            } else {
                run.stage = PushStage::Ended;
                PushAction {
                    to_browser: Some(
                        ControlMessage::TransferError {
                            id,
                            error: String::from_str("Connection to remote lost"),
                        },
                    ),
                    to_remote: None,
                    register_waiter: false,
                    drop_waiter: true,
                    delete: archives_to_clean(run.files.as_slice()),
                }
            }
        },
        (PushStage::Sending { file }, PushEvent::FileDone) => {
            let n = run.files.len();
            assert(file < n);
            if file < n - 1 {
                run.stage = PushStage::Sending { file: file + 1 };
                quiet()
            } else {
                run.stage = PushStage::Confirming;
                PushAction {
                    to_browser: None,
                    to_remote: Some(ControlMessage::TransferComplete { id, total_bytes: run.total_sent }),
                    register_waiter: false,
                    drop_waiter: false,
                    delete: Vec::new(),
                }
            }
        },
        (PushStage::Confirming, PushEvent::Confirmation(wait)) => {
            let outcome = push_outcome(id, run.total_sent, &wait);
            let timed_out = match wait {
                CompletionWait::TimedOut => true,
                _ => false,
            };
            run.stage = PushStage::Ended;
            PushAction {
                to_browser: Some(outcome),
                to_remote: None,
                register_waiter: false,
                drop_waiter: timed_out,
                delete: archives_to_clean(run.files.as_slice()),
            }
        },
        _ => quiet(),
    }
}

/// Plan one entry of a transfer that this side serves: it resumes from the offset that the
/// requester's hints give for its path (0 without a hint), and is planned with its announced
/// size as `plan_entry` plans it.
pub fn plan_served_entry(
    files: &mut Vec<PlannedFile>,
    entry: &TransferEntry,
    resume_hints: &[(String, u64)],
    check: &EntryCheck,
) -> (r: Result<(), PlanFailure>)
    ensures
        entry_planned(
            old(files)@,
            final(files)@,
            r,
            entry.relative_path@,
            entry.size,
            resume_offset_of(resume_hints@, entry.relative_path@),
            *check,
        ),
{
    let offset = lookup_resume_offset(resume_hints, entry.relative_path.as_str());
    plan_entry(files, entry.relative_path.as_str(), entry.size, offset, check)
}

/// The data frame of a chunk that goes at `total_sent`, the bytes sent so far, after which
/// those grow by the chunk: a multi-file frame naming file `file` when the peer reads them,
/// a single-file frame otherwise. (Readers that run side by side share `total_sent`.)
pub fn frame_for_chunk(
    id: RequestId,
    use_v2: bool,
    file: u32,
    total_sent: &mut u64,
    chunk: &[u8],
) -> (frame: Vec<u8>)
    requires
        *old(total_sent) + chunk@.len() <= u64::MAX,
    ensures
        frame@ == (if use_v2 {
            data_frame_v2(id, file, *old(total_sent), chunk@)
        } else {
            data_frame(id, *old(total_sent), chunk@)
        }),
        *final(total_sent) == *old(total_sent) + chunk@.len(),
{
    let offset = *total_sent;
    let frame = if use_v2 {
        encode_data_frame_v2(id, file, offset, chunk)
    } else {
        encode_data_frame(id, offset, chunk)
    };
    *total_sent = offset + chunk.len() as u64;
    frame
}

/// The sum of a list of chunk lengths.
pub open spec fn sum_lens(lens: Seq<nat>) -> nat
    decreases lens.len(),
{
    if lens.len() == 0 {
        0
    } else {
        sum_lens(lens.drop_last()) + lens.last()
    }
}

/// Where the serving of a transfer stands: sending file `file`, or over.
#[derive(Clone, Copy, Debug, PartialEq, Eq, Structural)]
pub enum SendStage {
    Sending { file: usize },
    Ended,
}

/// A transfer being served one file after the other: its planned files, whether frames carry
/// a file index, the bytes sent so far, and (for the proof) the lengths of the chunks framed.
pub struct SendRun {
    pub id: RequestId,
    pub stage: SendStage,
    pub files: Vec<PlannedFile>,
    pub use_v2: bool,
    pub total_sent: u64,
    pub chunk_lens: Ghost<Seq<nat>>,
}

/// A served transfer is well formed when the file it sends exists and the bytes sent are the
/// sum of the chunks framed.
pub open spec fn send_wf(run: SendRun) -> bool {
    &&& run.stage matches SendStage::Sending { file } ==> file < run.files@.len()
    &&& run.total_sent == sum_lens(run.chunk_lens@)
}

/// What the runtime reports to a served transfer.
#[derive(Debug)]
pub enum SendEvent {
    /// The current file could not be opened, for this reason.
    OpenFailed(String),
    /// A chunk of the current file was read.
    Chunk(Vec<u8>),
    /// A frame could not be queued: the channel to the requester is closed.
    ChannelClosed,
    /// The current file was read to its end.
    FileDone,
}

/// What the runtime does after a step of a served transfer: a data frame to queue, a control
/// message for the requester, and the temporary archives to delete.
#[derive(Debug)]
pub struct SendAction {
    pub frame: Option<Vec<u8>>,
    pub to_remote: Option<ControlMessage>,
    pub delete: Vec<String>,
}

impl SendRun {
    /// Start serving the planned files; frames carry a file index when the peer reads them.
    /// With no file to send, the requester is told at once that the transfer is complete (and
    /// the run is over).
    pub fn start(id: RequestId, files: Vec<PlannedFile>, peer_version: Option<u32>) -> (r: (
        SendRun,
        SendAction,
    ))
        ensures
            send_wf(r.0),
            r.0.id == id,
            r.0.files@ == files@,
            r.0.use_v2 == uses_file_index(peer_version),
            r.0.total_sent == 0,
            r.0.chunk_lens@.len() == 0,
            r.1.frame is None,
            files@.len() > 0 ==> r.0.stage == (SendStage::Sending { file: 0 }) && r.1.to_remote is None
                && r.1.delete@.len() == 0,
            files@.len() == 0 ==> r.0.stage == SendStage::Ended && r.1.to_remote == Some(
                ControlMessage::TransferComplete { id, total_bytes: 0 },
            ) && r.1.delete@.len() == 0,
    {
        let use_v2 = peer_uses_file_index(peer_version);
        let empty = files.len() == 0;
        let run = SendRun {
            id,
            stage: if empty { SendStage::Ended } else { SendStage::Sending { file: 0 } },
            files,
            use_v2,
            total_sent: 0,
            chunk_lens: Ghost(Seq::empty()),
        };
        let to_remote = if empty {
            Some(ControlMessage::TransferComplete { id, total_bytes: 0 })
        } else {
            None
        };
        (run, SendAction { frame: None, to_remote, delete: Vec::new() })
    }
}

/// One step of serving a transfer, file after file. Each chunk becomes the data frame at the
/// bytes sent so far (a multi-file frame naming the file when the peer reads them), so the
/// frames tile the transfer; after the last file the requester is told the transfer is
/// complete with the total of all chunks; a file that cannot be opened, or a closed channel,
/// ends it with an error for the requester. Whenever it ends, every temporary archive is
/// deleted. Events that do not fit the stage change nothing.
pub fn send_step(run: &mut SendRun, event: SendEvent) -> (a: SendAction)
    requires
        send_wf(*old(run)),
        old(run).stage is Sending ==> (event matches SendEvent::Chunk(c) ==> old(run).total_sent
            + c@.len() <= u64::MAX),
    ensures
        send_wf(*final(run)),
        final(run).id == old(run).id,
        final(run).files@ == old(run).files@,
        final(run).use_v2 == old(run).use_v2,
        final(run).stage is Ended && !(old(run).stage is Ended) ==> seq_string_views(a.delete@)
            == cleanup_paths(old(run).files@),
        !(final(run).stage is Ended && !(old(run).stage is Ended)) ==> a.delete@.len() == 0,
        match (old(run).stage, event) {
            (SendStage::Sending { file }, SendEvent::OpenFailed(error)) => {
                &&& final(run).stage == SendStage::Ended
                &&& a.frame is None
                &&& a.to_remote matches Some(ControlMessage::TransferError { id, error: e }) && id
                    == old(run).id && e@ == "Failed to open "@ + old(run).files@[file as int].display_name@
                    + ": "@ + error@
            },
            (SendStage::Sending { file }, SendEvent::Chunk(c)) => {
                &&& final(run).stage == old(run).stage
                &&& a.to_remote is None
                &&& a.frame matches Some(f) && f@ == (if old(run).use_v2 {
                    data_frame_v2(old(run).id, file as u32, old(run).total_sent, c@)
                } else {
                    data_frame(old(run).id, old(run).total_sent, c@)
                })
                &&& final(run).total_sent == old(run).total_sent + c@.len()
                &&& final(run).chunk_lens@ == old(run).chunk_lens@.push(c@.len())
            },
            (SendStage::Sending { .. }, SendEvent::ChannelClosed) => {
                &&& final(run).stage == SendStage::Ended
                &&& a.frame is None
                &&& a.to_remote matches Some(ControlMessage::TransferError { id, error: e }) && id
                    == old(run).id && e@ == "Connection lost while sending"@
            },
            (SendStage::Sending { file }, SendEvent::FileDone) => {
                &&& a.frame is None
                &&& final(run).total_sent == old(run).total_sent
                &&& file + 1 < old(run).files@.len() ==> final(run).stage == (SendStage::Sending {
                    file: (file + 1) as usize,
                }) && a.to_remote is None
                &&& file + 1 >= old(run).files@.len() ==> final(run).stage == SendStage::Ended
                    && a.to_remote == Some(
                    ControlMessage::TransferComplete { id: old(run).id, total_bytes: old(run).total_sent },
                ) && old(run).total_sent == sum_lens(old(run).chunk_lens@)
            },
            _ => final(run).stage == old(run).stage && final(run).total_sent == old(run).total_sent
                && a.frame is None && a.to_remote is None,
        },
{
    let id = run.id;
    match (run.stage, event) {
        (SendStage::Sending { file }, SendEvent::OpenFailed(error)) => {
            let mut m = String::from_str("Failed to open ");
            push_str(&mut m, run.files[file].display_name.as_str());
            push_str(&mut m, ": ");
            push_str(&mut m, error.as_str());
            run.stage = SendStage::Ended;
            SendAction {
                frame: None,
                to_remote: Some(ControlMessage::TransferError { id, error: m }),
                delete: archives_to_clean(run.files.as_slice()),
            }
        },
        (SendStage::Sending { file }, SendEvent::Chunk(c)) => {
            let ghost before = run.chunk_lens@;
            let mut total = run.total_sent;
            let frame = frame_for_chunk(id, run.use_v2, file as u32, &mut total, c.as_slice());
            run.total_sent = total;
            proof {
                run.chunk_lens@ = before.push(c@.len());
                assert(run.chunk_lens@.drop_last() == before);
            }
            SendAction { frame: Some(frame), to_remote: None, delete: Vec::new() }
        },
        (SendStage::Sending { .. }, SendEvent::ChannelClosed) => {
            run.stage = SendStage::Ended;
            SendAction {
                frame: None,
                to_remote: Some(
                    ControlMessage::TransferError {
                        id,
                        error: String::from_str("Connection lost while sending"),
                    },
                ),
                delete: archives_to_clean(run.files.as_slice()),
            }
        },
        (SendStage::Sending { file }, SendEvent::FileDone) => {
            let n = run.files.len();
            assert(file < n);
            if file < n - 1 {
                run.stage = SendStage::Sending { file: file + 1 };
                SendAction { frame: None, to_remote: None, delete: Vec::new() }
            } else {
                run.stage = SendStage::Ended;
                SendAction {
                    frame: None,
                    to_remote: Some(ControlMessage::TransferComplete { id, total_bytes: run.total_sent }),
                    delete: archives_to_clean(run.files.as_slice()),
                }
            }
        },
        _ => SendAction { frame: None, to_remote: None, delete: Vec::new() },
    }
}

/// What the requester is told once the files have been sent side by side: an error when any
/// reader failed or the channel closed, otherwise completion with the bytes sent.
pub fn parallel_outcome(id: RequestId, failed: bool, total_sent: u64) -> (m: ControlMessage)
    ensures
        failed ==> (m matches ControlMessage::TransferError { id: rid, error } && rid == id && error@
            == "Connection lost or read error during parallel transfer"@),
        !failed ==> m == (ControlMessage::TransferComplete { id, total_bytes: total_sent }),
{
    if failed {
        ControlMessage::TransferError {
            id,
            error: String::from_str("Connection lost or read error during parallel transfer"),
        }
    } else {
        ControlMessage::TransferComplete { id, total_bytes: total_sent }
    }
}

/// What starting a browser transfer leads to.
#[derive(Clone, Debug)]
pub enum StartDecision {
    /// Report this error to the browser (taking the just-registered request out first if asked).
    Fail { error: String, unregister: bool },
    /// Wait for the remote's answer.
    AwaitReply,
}

/// Decide how a browser transfer starts: without a remote it fails with "No remote
/// connection"; a pull whose receiver could not be prepared fails with the receiver's error;
/// once the request is registered, a request that cannot be forwarded is taken out again and
/// fails with "Failed to send to remote"; otherwise the remote's answer is awaited.
pub fn transfer_start(remote_present: bool, receiver: &Result<(), String>, forwarded: bool) -> (r:
    StartDecision)
    ensures
        !remote_present ==> (r matches StartDecision::Fail { error, unregister } && !unregister
            && error@ == "No remote connection"@),
        remote_present ==> (receiver matches Err(e) ==> (r matches StartDecision::Fail {
            error,
            unregister,
        } && !unregister && error@ == e@)),
        remote_present && receiver is Ok && !forwarded ==> (r matches StartDecision::Fail {
            error,
            unregister,
        } && unregister && error@ == "Failed to send to remote"@),
        remote_present && receiver is Ok && forwarded ==> r is AwaitReply,
{
    if !remote_present {
        return StartDecision::Fail { error: String::from_str("No remote connection"), unregister: false };
    }
    match receiver {
        Err(e) => StartDecision::Fail { error: e.clone(), unregister: false },
        Ok(()) => if forwarded {
            StartDecision::AwaitReply
        } else {
            StartDecision::Fail { error: String::from_str("Failed to send to remote"), unregister: true }
        },
    }
}

/// Frames carry a file index for every peer of protocol version 2 or later (the current
/// version 3 included) and for no older or unknown peer; so the choice only grows with the
/// version, and several files go side by side exactly to such peers.
pub proof fn law_file_index_from_version_two(v: u32, w: u32, file_count: usize)
    ensures
        uses_file_index(Some(v)) <==> v >= 2,
        uses_file_index(Some(3)),
        !uses_file_index(None),
        v <= w && uses_file_index(Some(v)) ==> uses_file_index(Some(w)),
        (uses_file_index(Some(v)) && file_count > 1) <==> (v >= 2 && file_count >= 2),
{
}

} // verus!
