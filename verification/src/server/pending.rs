use std::collections::HashMap;
use std::collections::VecDeque;
use vstd::prelude::*;
use vstd::string::StringExecFns;
use vstd::std_specs::iter::IteratorSpec;

use crate::protocol::messages::{ControlMessage, RequestId, MIN_REQUEST_ID_VERSION};

verus! {

broadcast use vstd::std_specs::hash::group_hash_axioms;

/// Whether a peer of this protocol version echoes request ids on its replies.
pub open spec fn supports_request_ids(peer_version: Option<u32>) -> bool {
    peer_version matches Some(v) && v >= MIN_REQUEST_ID_VERSION
}

/// `s` with its first occurrence of `x` taken out (unchanged when `x` does not occur).
pub open spec fn without_first(s: Seq<RequestId>, x: RequestId) -> Seq<RequestId> {
    match s.index_of_first(x) {
        Some(i) => s.remove(i),
        None => s,
    }
}

/// The position of the first id in `order` that is still in `live`.
pub open spec fn fifo_next(order: Seq<RequestId>, live: Set<RequestId>) -> Option<int>
    decreases order.len(),
{
    if order.len() == 0 {
        None
    } else if live.contains(order[0]) {
        Some(0)
    } else {
        match fifo_next(order.drop_first(), live) {
            Some(k) => Some(k + 1),
            None => None,
        }
    }
}


/// The abstract state of a pending table: the waiting callers by correlation id, and the
/// registration order kept for peers that do not echo ids.
pub ghost struct PendingModel<T> {
    pub waiting: Map<RequestId, T>,
    pub order: Seq<RequestId>,
}

impl<T> PendingModel<T> {
    /// No caller waiting, nothing queued.
    pub open spec fn empty() -> PendingModel<T> {
        PendingModel { waiting: Map::empty(), order: Seq::empty() }
    }

    /// The state after registering `tx` under `id`.
    pub open spec fn registered(
        self,
        id: RequestId,
        tx: T,
        peer_version: Option<u32>,
        use_fifo_fallback: bool,
    ) -> PendingModel<T> {
        PendingModel {
            waiting: self.waiting.insert(id, tx),
            order: if use_fifo_fallback && !supports_request_ids(peer_version) {
                self.order.push(id)
            } else {
                self.order
            },
        }
    }

    /// The caller taken out under `id`, and the state after taking it out.
    pub open spec fn removed(self, id: RequestId) -> (Option<T>, PendingModel<T>) {
        if self.waiting.contains_key(id) {
            (
                Some(self.waiting[id]),
                PendingModel { waiting: self.waiting.remove(id), order: without_first(self.order, id) },
            )
        } else {
            (None, self)
        }
    }

    /// The caller that receives `msg`, and the state after delivering it.
    pub open spec fn delivered(self, msg: ControlMessage, peer_version: Option<u32>) -> (
        Option<T>,
        PendingModel<T>,
    ) {
        match msg.routing_id() {
            Some(id) => self.removed(id),
            None => if supports_request_ids(peer_version) {
                (None, self)
            } else {
                match fifo_next(self.order, self.waiting.dom()) {
                    Some(k) => (
                        Some(self.waiting[self.order[k]]),
                        PendingModel {
                            waiting: self.waiting.remove(self.order[k]),
                            order: self.order.skip(k + 1),
                        },
                    ),
                    None => (None, PendingModel { waiting: self.waiting, order: Seq::empty() }),
                }
            },
        }
    }
}

/// The callers waiting for a response, keyed by correlation id, and the order in which the
/// callers that may be answered without an id registered.
pub struct PendingTable<T> {
    waiting: HashMap<RequestId, T>,
    order: VecDeque<RequestId>,
}

impl<T> View for PendingTable<T> {
    type V = PendingModel<T>;

    closed spec fn view(&self) -> PendingModel<T> {
        PendingModel { waiting: self.waiting@, order: self.order@ }
    }
}

impl<T> PendingTable<T> {
    /// An empty table.
    pub fn new() -> (r: Self)
        ensures
            r@ == PendingModel::<T>::empty(),
    {
        PendingTable { waiting: HashMap::new(), order: VecDeque::new() }
    }

    /// The number of waiting callers.
    pub fn len(&self) -> (r: usize)
        ensures
            r == self@.waiting.len(),
    {
        self.waiting.len()
    }

    /// Whether no caller is waiting.
    pub fn is_empty(&self) -> (r: bool)
        ensures
            r == (self@.waiting.len() == 0),
    {
        self.waiting.len() == 0
    }

    /// Whether a caller waits under `request_id`.
    pub fn contains(&self, request_id: RequestId) -> (r: bool)
        ensures
            r == self@.waiting.contains_key(request_id),
    {
        self.waiting.contains_key(&request_id)
    }

    /// The registered ids in registration order.
    pub fn queued_ids(&self) -> (r: Vec<RequestId>)
        ensures
            r@ == self@.order,
    {
        let mut r: Vec<RequestId> = Vec::new();
        let n = self.order.len();
        let mut i: usize = 0;
        while i < n
            invariant
                n == self.order@.len(),
                i <= n,
                r@ == self.order@.take(i as int),
            decreases n - i,
        {
            r.push(self.order[i]);
            i = i + 1;
            assert(r@ == self.order@.take(i as int));
        }
        r
    }
}

/// Whether a peer of this protocol version echoes request ids on its replies.
pub fn peer_supports_request_ids(peer_version: Option<u32>) -> (r: bool)
    ensures
        r == supports_request_ids(peer_version),
{
    match peer_version {
        Some(v) => v >= MIN_REQUEST_ID_VERSION,
        None => false,
    }
}

/// Register a caller waiting for the response to `request_id`. It is also queued in
/// registration order when the FIFO fallback is asked for and the peer does not echo ids.
pub fn register_pending_response<T>(
    table: &mut PendingTable<T>,
    request_id: RequestId,
    response_tx: T,
    peer_version: Option<u32>,
    use_fifo_fallback: bool,
)
    ensures
        final(table)@ == old(table)@.registered(request_id, response_tx, peer_version, use_fifo_fallback),
{
    table.waiting.insert(request_id, response_tx);
    if use_fifo_fallback && !peer_supports_request_ids(peer_version) {
        table.order.push_back(request_id);
    }
}

proof fn lemma_first_index_unique(s: Seq<RequestId>, x: RequestId, pos: int)
    requires
        0 <= pos < s.len(),
        s[pos] == x,
        forall|j: int| 0 <= j < pos ==> s[j] != x,
    ensures
        s.index_of_first(x) == Some(pos),
{
    s.index_of_first_ensures(x);
    assert(s.contains(x));
    let k = s.index_of_first(x)->0;
    if k < pos {
        assert(s[k] != x);
    } else if k > pos {
        assert(s[pos] != x);
    }
}

/// Take the caller waiting under `request_id` out of the table, and its queued id with it.
pub fn remove_pending_response<T>(table: &mut PendingTable<T>, request_id: RequestId) -> (r:
    Option<T>)
    ensures
        (r, final(table)@) == old(table)@.removed(request_id),
{
    let removed = table.waiting.remove(&request_id);
    if removed.is_some() {
        let n = table.order.len();
        let mut i: usize = 0;
        while i < n
            invariant
                n == table.order@.len(),
                i <= n,
                forall|j: int| 0 <= j < i ==> table.order@[j] != request_id,
                table.order@ == old(table).order@,
                table.waiting@ == old(table).waiting@.remove(request_id),
                old(table).waiting@.contains_key(request_id),
                removed == Some(old(table).waiting@[request_id]),
            decreases n - i,
        {
            if table.order[i] == request_id {
                proof {
                    lemma_first_index_unique(table.order@, request_id, i as int);
                }
                table.order.remove(i);
                return removed;
            }
            i = i + 1;
        }
        proof {
            table.order@.index_of_first_ensures(request_id);
        }
    } else {
        proof {
            assert(table.waiting@ =~= old(table).waiting@);
        }
    }
    removed
}

proof fn lemma_fifo_next_skips(order: Seq<RequestId>, live: Set<RequestId>, i: int)
    requires
        0 <= i <= order.len(),
        forall|j: int| 0 <= j < i ==> !live.contains(order[j]),
    ensures
        fifo_next(order, live) == (match fifo_next(order.skip(i), live) {
            Some(k) => Some(k + i),
            None => None,
        }),
    decreases i,
{
    if i > 0 {
        lemma_fifo_next_skips(order.drop_first(), live, i - 1);
        assert(order.drop_first().skip(i - 1) == order.skip(i));
    } else {
        assert(order.skip(0) == order);
    }
}

proof fn lemma_fifo_next_found(order: Seq<RequestId>, live: Set<RequestId>)
    ensures
        fifo_next(order, live) matches Some(k) ==> 0 <= k < order.len() && live.contains(order[k])
            && forall|j: int| 0 <= j < k ==> !live.contains(order[j]),
        fifo_next(order, live) is None ==> forall|j: int|
            0 <= j < order.len() ==> !live.contains(order[j]),
    decreases order.len(),
{
    if order.len() > 0 {
        lemma_fifo_next_found(order.drop_first(), live);
        if !live.contains(order[0]) {
            assert forall|j: int| 0 < j < order.len() implies order[j] == order.drop_first()[j
                - 1] by {}
        }
    }
}

/// Route a response to the caller waiting for it. A response that carries a correlation id
/// goes to the caller registered under that id, if any. A response without one goes, for a
/// peer that does not echo ids, to the earliest queued caller still waiting; queued ids whose
/// caller is gone are dropped on the way. The caller found, if any, is returned.
pub fn deliver_pending_response<T>(
    table: &mut PendingTable<T>,
    control_msg: &ControlMessage,
    peer_version: Option<u32>,
) -> (r: Option<T>)
    ensures
        (r, final(table)@) == old(table)@.delivered(*control_msg, peer_version),
{
    if let Some(response_id) = control_msg.response_id() {
        return remove_pending_response(table, response_id);
    }
    if peer_supports_request_ids(peer_version) {
        return None;
    }
    let ghost order0 = table.order@;
    let ghost live = table.waiting@.dom();
    proof {
        lemma_fifo_next_found(order0, live);
    }
    let n = table.order.len();
    let mut i: usize = 0;
    loop
        invariant
            n == order0.len(),
            control_msg.routing_id() is None,
            !supports_request_ids(peer_version),
            table.waiting@ == old(table).waiting@,
            order0 == old(table).order@,
            live == table.waiting@.dom(),
            i <= order0.len(),
            table.order@ == order0.skip(i as int),
            forall|j: int| 0 <= j < i ==> !live.contains(order0[j]),
        decreases order0.len() - i,
    {
        let next = table.order.pop_front();
        match next {
            None => {
                proof {
                    lemma_fifo_next_skips(order0, live, i as int);
                    assert(order0.skip(i as int).len() == 0);
                    assert(table.order@ =~= Seq::<RequestId>::empty());
                }
                return None;
            },
            Some(request_id) => {
                proof {
                    assert(request_id == order0[i as int]);
                    lemma_fifo_next_skips(order0, live, i as int);
                }
                let found = table.waiting.remove(&request_id);
                match found {
                    Some(tx) => {
                        proof {
                            assert(live.contains(order0[i as int]));
                            assert(fifo_next(order0.skip(i as int), live) == Some(0int));
                            assert(order0.skip(i as int).drop_first() == order0.skip(i + 1));
                        }
                        return Some(tx);
                    },
                    None => {
                        proof {
                            assert(order0.skip(i as int).drop_first() == order0.skip(i + 1));
                        }
                        i = i + 1;
                    },
                }
            },
        }
    }
}

/// Empty the table, handing back every waiting caller with the id it waits under.
pub fn drain_pending<T>(table: &mut PendingTable<T>) -> (r: Vec<(RequestId, T)>)
    ensures
        final(table)@ == PendingModel::<T>::empty(),
        r@.len() == old(table)@.waiting.len(),
        forall|i: int|
            0 <= i < r@.len() ==> #[trigger] old(table)@.waiting.contains_key(r@[i].0)
                && old(table)@.waiting[r@[i].0] == r@[i].1,
        forall|i: int, j: int| 0 <= i < j < r@.len() ==> r@[i].0 != r@[j].0,
        forall|k: RequestId|
            old(table)@.waiting.contains_key(k) ==> exists|i: int|
                0 <= i < r@.len() && #[trigger] r@[i].0 == k,
{
    let mut keys: Vec<RequestId> = Vec::new();
    for k in it: table.waiting.keys()
        invariant
            keys@ == it.seq().take(it.index() as int).map_values(|p: &RequestId| *p),
    {
        keys.push(*k);
    }
    let ghost all = table.waiting@;
    proof {
        let s = vstd::std_specs::hash::spec_keys_iter(&table.waiting).remaining();
        assert(keys@ =~= s.map_values(|p: &RequestId| *p));
        assert(s.unref() =~= keys@);
        assert(keys@.to_set() == all.dom());
        assert(keys@.no_duplicates());
        assert(keys@.len() == all.dom().len());
    }
    let mut r: Vec<(RequestId, T)> = Vec::new();
    let n = keys.len();
    let mut i: usize = 0;
    while i < n
        invariant
            n == keys@.len(),
            i <= n,
            keys@.to_set() == all.dom(),
            keys@.no_duplicates(),
            keys@.len() == all.len(),
            all == old(table).waiting@,
            r@.len() == i,
            forall|j: int| 0 <= j < i ==> (#[trigger] r@[j]).0 == keys@[j] && all[keys@[j]] == r@[j].1,
            table.waiting@ == all.remove_keys(keys@.take(i as int).to_set()),
        decreases n - i,
    {
        let k = keys[i];
        proof {
            assert(keys@.to_set().contains(k));
            assert(!keys@.take(i as int).contains(k));
            assert(table.waiting@.contains_key(k));
        }
        let v = table.waiting.remove(&k);
        match v {
            Some(v) => {
                r.push((k, v));
            },
            None => {
                proof {
                    assert(false);
                }
            },
        }
        proof {
            assert(keys@.take(i + 1).to_set() == keys@.take(i as int).to_set().insert(k)) by {
                assert(keys@.take(i + 1) == keys@.take(i as int).push(k));
                keys@.take(i as int).lemma_push_to_set_commute(k);
            }
        }
        i = i + 1;
    }
    proof {
        assert(keys@.take(n as int) == keys@);
        assert(table.waiting@ =~= Map::<RequestId, T>::empty());
        assert forall|k: RequestId| all.contains_key(k) implies exists|j: int|
            0 <= j < r@.len() && #[trigger] r@[j].0 == k by {
            assert(keys@.to_set().contains(k));
            let j = choose|j: int| 0 <= j < keys@.len() && keys@[j] == k;
            assert(r@[j].0 == k);
        }
    }
    table.order.clear();
    r
}

/// The reply a waiting caller receives when the remote connection is torn down.
pub fn connection_lost_error(request_id: RequestId) -> (r: ControlMessage)
    ensures
        r matches ControlMessage::Error { request_id: rid, message } && rid == Some(request_id)
            && message@ == "Remote connection lost"@,
{
    ControlMessage::Error {
        request_id: Some(request_id),
        message: String::from_str("Remote connection lost"),
    }
}

/// Responses that carry correlation ids reach their own callers, whatever the order in which
/// they arrive: with callers registered under `a` and then `b`, the response for `b` reaches
/// `b`'s caller and the response for `a` then reaches `a`'s, and both leave the table.
pub proof fn law_out_of_order_responses<T>(
    m: PendingModel<T>,
    a: RequestId,
    b: RequestId,
    tx_a: T,
    tx_b: T,
    peer_version: Option<u32>,
    use_fifo_fallback: bool,
    response_a: ControlMessage,
    response_b: ControlMessage,
)
    requires
        a != b,
        response_a.routing_id() == Some(a),
        response_b.routing_id() == Some(b),
    ensures
        ({
            let s = m.registered(a, tx_a, peer_version, use_fifo_fallback).registered(
                b,
                tx_b,
                peer_version,
                use_fifo_fallback,
            );
            let (got_b, s1) = s.delivered(response_b, peer_version);
            let (got_a, s2) = s1.delivered(response_a, peer_version);
            &&& got_b == Some(tx_b)
            &&& got_a == Some(tx_a)
            &&& s2.waiting == m.waiting.remove(a).remove(b)
        }),
{
    let s = m.registered(a, tx_a, peer_version, use_fifo_fallback).registered(
        b,
        tx_b,
        peer_version,
        use_fifo_fallback,
    );
    let s1 = s.delivered(response_b, peer_version).1;
    let s2 = s1.delivered(response_a, peer_version).1;
    assert(s1.waiting.contains_key(a));
    assert(s2.waiting =~= m.waiting.remove(a).remove(b));
}

/// A caller that was taken out (it timed out, or its request could not be sent) receives
/// nothing: a late response for its id is dropped and leaves the table as it is.
pub proof fn law_removed_caller_receives_nothing<T>(
    m: PendingModel<T>,
    id: RequestId,
    response: ControlMessage,
    peer_version: Option<u32>,
)
    requires
        response.routing_id() == Some(id),
    ensures
        m.removed(id).1.delivered(response, peer_version) == (None::<T>, m.removed(id).1),
{
}

/// With a peer that echoes ids, a response without an id reaches no caller and changes nothing.
pub proof fn law_unrouted_ignored_for_id_peers<T>(
    m: PendingModel<T>,
    response: ControlMessage,
    peer_version: Option<u32>,
)
    requires
        response.routing_id() is None,
        supports_request_ids(peer_version),
    ensures
        m.delivered(response, peer_version) == (None::<T>, m),
{
}

/// Every queued id belongs to a waiting caller, and no id is queued twice.
pub open spec fn queue_consistent<T>(m: PendingModel<T>) -> bool {
    &&& m.order.no_duplicates()
    &&& forall|i: int| 0 <= i < m.order.len() ==> m.waiting.contains_key(#[trigger] m.order[i])
}

/// With a peer that does not echo ids, a response without an id reaches the caller that
/// registered first among those still queued, and the queue stays consistent.
pub proof fn law_unrouted_reaches_oldest_caller<T>(
    m: PendingModel<T>,
    response: ControlMessage,
    peer_version: Option<u32>,
)
    requires
        queue_consistent(m),
        m.order.len() > 0,
        response.routing_id() is None,
        !supports_request_ids(peer_version),
    ensures
        m.delivered(response, peer_version).0 == Some(m.waiting[m.order[0]]),
        m.delivered(response, peer_version).1.order == m.order.drop_first(),
        queue_consistent(m.delivered(response, peer_version).1),
{
    assert(m.waiting.contains_key(m.order[0]));
    let s = m.delivered(response, peer_version).1;
    assert(m.order.skip(1) == m.order.drop_first());
    assert forall|i: int| 0 <= i < s.order.len() implies s.waiting.contains_key(
        #[trigger] s.order[i],
    ) by {
        assert(s.order[i] == m.order[i + 1]);
        assert(m.waiting.contains_key(m.order[i + 1]));
    }
}

/// Registering a fresh id with the FIFO fallback, for a peer that does not echo ids, keeps the
/// queue consistent and puts the id last.
pub proof fn law_register_keeps_queue_consistent<T>(
    m: PendingModel<T>,
    id: RequestId,
    tx: T,
    peer_version: Option<u32>,
)
    requires
        queue_consistent(m),
        !m.waiting.contains_key(id),
        !supports_request_ids(peer_version),
    ensures
        queue_consistent(m.registered(id, tx, peer_version, true)),
        m.registered(id, tx, peer_version, true).order == m.order.push(id),
{
    let s = m.registered(id, tx, peer_version, true);
    assert forall|i: int| 0 <= i < s.order.len() implies s.waiting.contains_key(
        #[trigger] s.order[i],
    ) by {
        if i < m.order.len() {
            assert(s.order[i] == m.order[i]);
        }
    }
    assert(!m.order.contains(id));
}

/// With a peer that does not echo ids, two callers registered one after the other on an empty
/// queue receive the responses without ids in the order they registered.
pub proof fn law_legacy_responses_in_registration_order<T>(
    m: PendingModel<T>,
    a: RequestId,
    b: RequestId,
    tx_a: T,
    tx_b: T,
    peer_version: Option<u32>,
    first: ControlMessage,
    second: ControlMessage,
)
    requires
        a != b,
        m.order.len() == 0,
        !supports_request_ids(peer_version),
        first.routing_id() is None,
        second.routing_id() is None,
    ensures
        ({
            let s = m.registered(a, tx_a, peer_version, true).registered(b, tx_b, peer_version, true);
            let (got_first, s1) = s.delivered(first, peer_version);
            let (got_second, s2) = s1.delivered(second, peer_version);
            &&& got_first == Some(tx_a)
            &&& got_second == Some(tx_b)
            &&& s2.order.len() == 0
        }),
{
    let s = m.registered(a, tx_a, peer_version, true).registered(b, tx_b, peer_version, true);
    assert(s.order =~= seq![a, b]);
    let s1 = s.delivered(first, peer_version).1;
    assert(s1.order =~= seq![b]);
    assert(s1.waiting.contains_key(b));
    assert(fifo_next(s1.order, s1.waiting.dom()) == Some(0int));
    let s2 = s1.delivered(second, peer_version).1;
    assert(s2.order =~= Seq::<RequestId>::empty());
}

/// A reply that echoes the id its caller registered under reaches that caller, whatever the
/// peer's version: an info reply, a browse reply or a pong carrying `x` hands back the caller
/// registered under `x`, which leaves the table.
pub proof fn law_echoed_reply_reaches_its_caller<T>(
    m: PendingModel<T>,
    x: RequestId,
    tx: T,
    peer_version: Option<u32>,
    use_fifo_fallback: bool,
    h: String,
    d: String,
)
    ensures
        ({
            let s = m.registered(x, tx, peer_version, use_fifo_fallback);
            let (got, after) = s.delivered(
                ControlMessage::InfoResponse { request_id: Some(x), hostname: h, root_dir: d },
                peer_version,
            );
            got == Some(tx) && !after.waiting.contains_key(x) && after.waiting == m.waiting.remove(x)
        }),
        m.registered(x, tx, peer_version, use_fifo_fallback).delivered(
            ControlMessage::Pong { request_id: Some(x) },
            peer_version,
        ).0 == Some(tx),
{
    let s = m.registered(x, tx, peer_version, use_fifo_fallback);
    assert(s.waiting.remove(x) =~= m.waiting.remove(x));
}

} // verus!
