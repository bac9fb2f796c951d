//! The live-client registry: a concurrency-safe store of client
//! connections keyed by routing key. The surrounding process guards one
//! `Registry` with a single lock and never holds that lock across
//! network pushes; the registry itself only supplies the in-memory
//! operations: register, snapshot, per-key filtering, and targeted
//! removal of a specific set of dead connection identifiers.

use crate::errors::BridgeError;
use crate::routing_key::RoutingKey;
use vstd::prelude::*;

verus! {

/// One live subscriber entry. Routing key and subscription token are
/// write-once; the entry is only ever removed, never mutated.
pub struct ClientConnection {
    /// Registry-unique identifier, assigned at registration.
    pub id: u64,
    /// The topic this connection is subscribed to.
    pub routing_key: RoutingKey,
    /// Opaque name of the outbound push handle owned by this entry; the
    /// surrounding process maps it to the real client stream.
    pub outbound: u64,
    /// Opaque upstream subscription identifier, used once at eviction
    /// to cancel the matching queue subscription.
    pub subscription_token: String,
    /// Creation timestamp, diagnostic only.
    pub created_at: u64,
}

impl ClientConnection {
    /// An equal copy of the entry, for snapshots.
    pub fn duplicate(&self) -> (r: ClientConnection)
        ensures
            r == *self,
    {
        ClientConnection {
            id: self.id,
            routing_key: self.routing_key.duplicate(),
            outbound: self.outbound,
            subscription_token: self.subscription_token.clone(),
            created_at: self.created_at,
        }
    }
}

/// No two entries share an identifier.
pub open spec fn unique_ids(conns: Seq<ClientConnection>) -> bool {
    forall|i: int, j: int| 0 <= i < j < conns.len() ==> conns[i].id != conns[j].id
}

/// The entries of `conns` whose routing key equals `key`, in order.
pub open spec fn matching(conns: Seq<ClientConnection>, key: Seq<char>) -> Seq<ClientConnection>
    decreases conns.len(),
{
    if conns.len() == 0 {
        conns
    } else {
        let rest = matching(conns.drop_last(), key);
        if conns.last().routing_key@ == key {
            rest.push(conns.last())
        } else {
            rest
        }
    }
}

/// The entries of `conns` whose identifier is not in `dead`, in order.
pub open spec fn retain_live(conns: Seq<ClientConnection>, dead: Seq<u64>) -> Seq<ClientConnection>
    decreases conns.len(),
{
    if conns.len() == 0 {
        conns
    } else {
        let rest = retain_live(conns.drop_last(), dead);
        if dead.contains(conns.last().id) {
            rest
        } else {
            rest.push(conns.last())
        }
    }
}

/// The store of live connections. One instance is created at startup
/// and shared, behind a lock, by registrations, the dispatcher and the
/// heartbeat sweeper.
pub struct Registry {
    conns: Vec<ClientConnection>,
    next_id: u64,
}

impl Registry {
    /// The current entries, in registration order.
    pub closed spec fn connections(&self) -> Seq<ClientConnection> {
        self.conns@
    }

    /// The identifier the next registration will receive; every
    /// existing entry's identifier is below it.
    pub closed spec fn next_id(&self) -> u64 {
        self.next_id
    }

    /// Identifiers are unique and below `next_id`, and every stored
    /// routing key has the fixed width.
    pub open spec fn wf(&self) -> bool {
        &&& unique_ids(self.connections())
        &&& forall|i: int|
            0 <= i < self.connections().len() ==> (#[trigger] self.connections()[i]).id
                < self.next_id()
        &&& forall|i: int|
            0 <= i < self.connections().len()
                ==> (#[trigger] self.connections()[i]).routing_key.wf()
    }

    /// An empty registry.
    pub fn new() -> (r: Registry)
        ensures
            r.wf(),
            r.connections() == Seq::<ClientConnection>::empty(),
            r.next_id() == 0,
    {
        Registry { conns: Vec::new(), next_id: 0 }
    }

    /// The identifier the next registration will receive, so a caller
    /// can rule out identifier exhaustion before registering.
    pub fn next_id_value(&self) -> (n: u64)
        ensures
            n == self.next_id(),
    {
        self.next_id
    }

    /// Number of live entries.
    pub fn len(&self) -> (n: usize)
        ensures
            n == self.connections().len(),
    {
        self.conns.len()
    }

    /// Inserts a new entry; always succeeds, the first entry under a
    /// key implicitly creates its grouping. Returns the new entry's
    /// identifier.
    pub fn register(
        &mut self,
        routing_key: RoutingKey,
        outbound: u64,
        subscription_token: String,
        created_at: u64,
    ) -> (id: u64)
        requires
            old(self).wf(),
            old(self).next_id() < u64::MAX,
            routing_key.wf(),
        ensures
            final(self).wf(),
            id == old(self).next_id(),
            final(self).next_id() == old(self).next_id() + 1,
            final(self).connections() == old(self).connections().push(
                ClientConnection { id, routing_key, outbound, subscription_token, created_at },
            ),
    {
        let id = self.next_id;
        self.conns.push(
            ClientConnection { id, routing_key, outbound, subscription_token, created_at },
        );
        self.next_id = self.next_id + 1;
        id
    }

    /// A consistent point-in-time copy of every entry, so that probing
    /// and dispatch can iterate without holding the registry's lock
    /// during network sends.
    pub fn snapshot(&self) -> (r: Vec<ClientConnection>)
        ensures
            r@ == self.connections(),
    {
        let mut r: Vec<ClientConnection> = Vec::new();
        let mut i: usize = 0;
        while i < self.conns.len()
            invariant
                i <= self.conns.len(),
                r@ == self.conns@.subrange(0, i as int),
            decreases self.conns.len() - i,
        {
            r.push(self.conns[i].duplicate());
            proof {
                assert(r@ =~= self.conns@.subrange(0, i + 1));
            }
            i = i + 1;
        }
        proof {
            assert(r@ =~= self.connections());
        }
        r
    }

    /// The snapshot filtered down to one routing key: the dispatch
    /// targets for a broadcast under that key.
    pub fn connections_for(&self, key: &RoutingKey) -> (r: Vec<ClientConnection>)
        ensures
            r@ == matching(self.connections(), key@),
    {
        let mut r: Vec<ClientConnection> = Vec::new();
        let mut i: usize = 0;
        while i < self.conns.len()
            invariant
                i <= self.conns.len(),
                r@ == matching(self.conns@.subrange(0, i as int), key@),
            decreases self.conns.len() - i,
        {
            proof {
                let pre = self.conns@.subrange(0, i + 1);
                assert(pre.drop_last() =~= self.conns@.subrange(0, i as int));
                assert(pre.last() == self.conns@[i as int]);
            }
            if self.conns[i].routing_key.key_eq(key) {
                r.push(self.conns[i].duplicate());
            }
            i = i + 1;
        }
        proof {
            assert(self.conns@.subrange(0, self.conns@.len() as int) =~= self.conns@);
        }
        r
    }

    /// Removes exactly the entries whose identifier is in `dead_ids`
    /// and keeps everything else, in order. The sweep commits through
    /// this targeted removal, never by writing back a stale snapshot,
    /// so entries registered after the sweep's snapshot survive.
    pub fn replace(&mut self, dead_ids: &Vec<u64>)
        requires
            old(self).wf(),
        ensures
            final(self).wf(),
            final(self).connections() == retain_live(old(self).connections(), dead_ids@),
            final(self).next_id() == old(self).next_id(),
    {
        let ghost conns0 = self.conns@;
        let mut kept: Vec<ClientConnection> = Vec::new();
        let mut i: usize = 0;
        while i < self.conns.len()
            invariant
                self.conns@ == conns0,
                old(self).wf(),
                conns0 == old(self).connections(),
                i <= conns0.len(),
                kept@ == retain_live(conns0.subrange(0, i as int), dead_ids@),
                forall|k: int|
                    0 <= k < kept@.len() ==> exists|j: int|
                        0 <= j < i && conns0[j] == #[trigger] kept@[k],
                unique_ids(kept@),
            decreases conns0.len() - i,
        {
            proof {
                let pre = conns0.subrange(0, i + 1);
                assert(pre.drop_last() =~= conns0.subrange(0, i as int));
                assert(pre.last() == conns0[i as int]);
            }
            if !id_in(dead_ids, self.conns[i].id) {
                let ghost kept0 = kept@;
                kept.push(self.conns[i].duplicate());
                proof {
                    assert(conns0[i as int] == kept@[kept@.len() - 1]);
                    assert forall|k1: int, k2: int|
                        0 <= k1 < k2 < kept@.len() implies kept@[k1].id != kept@[k2].id by {
                        if k2 == kept@.len() - 1 {
                            let j = choose|j: int| 0 <= j < i && conns0[j] == kept0[k1];
                            assert(conns0[j].id != conns0[i as int].id);
                        }
                    }
                }
            }
            i = i + 1;
        }
        proof {
            assert(conns0.subrange(0, conns0.len() as int) =~= conns0);
        }
        self.conns = kept;
    }
}

/// Vector membership for identifiers.
fn id_in(ids: &Vec<u64>, id: u64) -> (r: bool)
    ensures
        r == ids@.contains(id),
{
    let mut i: usize = 0;
    while i < ids.len()
        invariant
            i <= ids@.len(),
            forall|k: int| 0 <= k < i ==> ids@[k] != id,
        decreases ids@.len() - i,
    {
        if ids[i] == id {
            return true;
        }
        i = i + 1;
    }
    false
}

/// Admits one arriving client, given the outcome of the upstream
/// subscription that was opened for it. On `Ok` the client is
/// registered with the returned token and gets a fresh identifier; on
/// `Err` the registry is left untouched and the arrival fails with
/// `SubscriptionFailure`, so no entry ever exists without a matching
/// upstream subscription.
pub fn admit_client(
    reg: &mut Registry,
    routing_key: &RoutingKey,
    outbound: u64,
    created_at: u64,
    subscription: Result<String, BridgeError>,
) -> (r: Result<u64, BridgeError>)
    requires
        old(reg).wf(),
        old(reg).next_id() < u64::MAX,
        routing_key.wf(),
    ensures
        final(reg).wf(),
        subscription matches Ok(token) ==> {
            &&& r == Ok::<u64, BridgeError>(old(reg).next_id())
            &&& final(reg).next_id() == old(reg).next_id() + 1
            &&& final(reg).connections() == old(reg).connections().push(
                ClientConnection {
                    id: old(reg).next_id(),
                    routing_key: *routing_key,
                    outbound,
                    subscription_token: token,
                    created_at,
                },
            )
        },
        subscription is Err ==> {
            &&& r == Err::<u64, BridgeError>(BridgeError::SubscriptionFailure)
            &&& *final(reg) == *old(reg)
        },
{
    match subscription {
        Ok(token) => {
            let id = reg.register(routing_key.duplicate(), outbound, token, created_at);
            Ok(id)
        },
        Err(_) => Err(BridgeError::SubscriptionFailure),
    }
}

/// Fan-out correctness: the targets of a broadcast under `key` are
/// exactly the registered connections whose routing key equals `key` —
/// every such connection is a target, and nothing else is.
pub proof fn lemma_fanout(conns: Seq<ClientConnection>, key: Seq<char>)
    ensures
        forall|k: int|
            0 <= k < matching(conns, key).len() ==> (#[trigger] matching(conns, key)[k]).routing_key@
                == key,
        forall|k: int|
            0 <= k < matching(conns, key).len() ==> conns.contains(
                #[trigger] matching(conns, key)[k],
            ),
        forall|j: int|
            0 <= j < conns.len() && (#[trigger] conns[j]).routing_key@ == key ==> matching(
                conns,
                key,
            ).contains(conns[j]),
    decreases conns.len(),
{
    if conns.len() > 0 {
        lemma_fanout(conns.drop_last(), key);
        let rest = matching(conns.drop_last(), key);
        assert forall|k: int|
            0 <= k < matching(conns, key).len() implies conns.contains(
            #[trigger] matching(conns, key)[k],
        ) by {
            if k < rest.len() {
                assert(conns.drop_last().contains(rest[k]));
                let j = choose|j: int|
                    0 <= j < conns.drop_last().len() && conns.drop_last()[j] == rest[k];
                assert(conns[j] == rest[k]);
            } else {
                assert(conns[conns.len() - 1] == matching(conns, key)[k]);
            }
        }
        assert forall|j: int|
            0 <= j < conns.len() && (#[trigger] conns[j]).routing_key@ == key implies matching(
            conns,
            key,
        ).contains(conns[j]) by {
            if j < conns.len() - 1 {
                assert(conns.drop_last()[j] == conns[j]);
                assert(rest.contains(conns[j]));
                let k = choose|k: int| 0 <= k < rest.len() && rest[k] == conns[j];
                assert(matching(conns, key)[k] == conns[j]);
            } else {
                assert(matching(conns, key).last() == conns[j]);
            }
        }
    }
}

/// Targeted removal removes what it is told to: after a commit, no
/// surviving entry carries an identifier from the dead set.
pub proof fn lemma_replace_removes(conns: Seq<ClientConnection>, dead: Seq<u64>)
    ensures
        forall|k: int|
            0 <= k < retain_live(conns, dead).len() ==> !dead.contains(
                (#[trigger] retain_live(conns, dead)[k]).id,
            ),
    decreases conns.len(),
{
    if conns.len() > 0 {
        lemma_replace_removes(conns.drop_last(), dead);
        let rest = retain_live(conns.drop_last(), dead);
        assert forall|k: int|
            0 <= k < retain_live(conns, dead).len() implies !dead.contains(
            (retain_live(conns, dead)[k]).id,
        ) by {
            if k < rest.len() {
                assert(retain_live(conns, dead)[k] == rest[k]);
            }
        }
    }
}

/// Targeted removal keeps what it is not told to remove: every entry
/// whose identifier is outside the dead set survives a commit.
pub proof fn lemma_replace_keeps(conns: Seq<ClientConnection>, dead: Seq<u64>, j: int)
    requires
        0 <= j < conns.len(),
        !dead.contains(conns[j].id),
    ensures
        retain_live(conns, dead).contains(conns[j]),
    decreases conns.len(),
{
    if j == conns.len() - 1 {
        let r = retain_live(conns, dead);
        assert(r.last() == conns[j]);
    } else {
        assert(conns.drop_last()[j] == conns[j]);
        lemma_replace_keeps(conns.drop_last(), dead, j);
        let rest = retain_live(conns.drop_last(), dead);
        let k = choose|k: int| 0 <= k < rest.len() && rest[k] == conns[j];
        assert(retain_live(conns, dead)[k] == conns[j]);
    }
}

/// No lost registration under race: a connection registered after a
/// sweep's snapshot was taken carries an identifier at or above the
/// registry's `next_id` at snapshot time, while the sweep's dead set
/// only holds identifiers from that snapshot, all below it. So the
/// commit — a targeted removal of the dead set — keeps the late
/// registration, wherever in the registry it sits.
pub proof fn lemma_no_lost_registration(
    conns: Seq<ClientConnection>,
    dead: Seq<u64>,
    j: int,
)
    requires
        0 <= j < conns.len(),
        forall|k: int| 0 <= k < dead.len() ==> dead[k] < conns[j].id,
    ensures
        retain_live(conns, dead).contains(conns[j]),
{
    if dead.contains(conns[j].id) {
        let k = choose|k: int| 0 <= k < dead.len() && dead[k] == conns[j].id;
        assert(false);
    }
    lemma_replace_keeps(conns, dead, j);
}

} // verus!
