//! The heartbeat sweep cycle: `Idle -> Probing -> Evicting -> Idle`.
//!
//! The surrounding process drives one `SweepCycle` per tick of a fixed
//! period. It takes a snapshot, probes every snapshotted connection
//! with a lightweight keep-alive push (a push failure is the sole death
//! signal), records each outcome here, then walks the dead entries,
//! issuing exactly one upstream cancellation per dead connection —
//! cancellation failures are absorbed — and finally commits by removing
//! exactly the dead identifiers from the live registry.

use crate::errors::BridgeError;
use crate::registry::{lemma_replace_keeps, lemma_replace_removes, retain_live, unique_ids, ClientConnection, Registry};
use vstd::prelude::*;

verus! {

/// One pending eviction: the connection to remove and the upstream
/// subscription token to cancel, once, on its behalf.
pub struct Eviction {
    pub connection_id: u64,
    pub subscription_token: String,
}

/// Where a sweep cycle stands.
#[derive(Clone, Copy, PartialEq, Eq, Structural, Debug)]
pub enum SweepPhase {
    Idle,
    Probing,
    Evicting,
}

/// The evictions a finished probe pass calls for: one per snapshot
/// entry whose probe failed, in snapshot order.
pub open spec fn dead_of(snapshot: Seq<ClientConnection>, alive: Seq<bool>) -> Seq<Eviction>
    decreases snapshot.len(),
{
    if snapshot.len() == 0 || alive.len() != snapshot.len() {
        Seq::empty()
    } else {
        let rest = dead_of(snapshot.drop_last(), alive.drop_last());
        if alive.last() {
            rest
        } else {
            rest.push(
                Eviction {
                    connection_id: snapshot.last().id,
                    subscription_token: snapshot.last().subscription_token,
                },
            )
        }
    }
}

/// The connection identifiers a plan removes.
pub open spec fn eviction_ids(evictions: Seq<Eviction>) -> Seq<u64> {
    evictions.map_values(|e: Eviction| e.connection_id)
}

/// How many cancellations a plan issues for one connection.
pub open spec fn cancels_for(evictions: Seq<Eviction>, id: u64) -> nat
    decreases evictions.len(),
{
    if evictions.len() == 0 {
        0
    } else {
        cancels_for(evictions.drop_last(), id) + if evictions.last().connection_id == id {
            1nat
        } else {
            0nat
        }
    }
}

/// One sweep cycle over the registry.
pub struct SweepCycle {
    phase: SweepPhase,
    snapshot: Vec<ClientConnection>,
    alive: Vec<bool>,
    dead: Vec<Eviction>,
    cancelled: usize,
}

impl SweepCycle {
    pub closed spec fn phase(&self) -> SweepPhase {
        self.phase
    }

    /// The point-in-time copy the probe pass walks.
    pub closed spec fn snapshot(&self) -> Seq<ClientConnection> {
        self.snapshot@
    }

    /// Probe outcomes recorded so far, aligned with the snapshot.
    pub closed spec fn alive(&self) -> Seq<bool> {
        self.alive@
    }

    /// The pending evictions, once probing has finished.
    pub closed spec fn dead(&self) -> Seq<Eviction> {
        self.dead@
    }

    /// How many pending evictions have had their cancellation issued.
    pub closed spec fn cancelled(&self) -> int {
        self.cancelled as int
    }

    /// Starts a cycle: takes the snapshot and enters the probe pass.
    /// The registry's lock is only needed for the copy itself; every
    /// probe push then happens outside it.
    pub fn start(reg: &Registry) -> (r: SweepCycle)
        ensures
            r.phase() == SweepPhase::Probing,
            r.snapshot() == reg.connections(),
            r.alive() == Seq::<bool>::empty(),
    {
        SweepCycle {
            phase: SweepPhase::Probing,
            snapshot: reg.snapshot(),
            alive: Vec::new(),
            dead: Vec::new(),
            cancelled: 0,
        }
    }

    /// The outbound handle the next keep-alive push must probe, or
    /// `None` once every snapshotted connection has an outcome.
    pub fn next_probe(&self) -> (r: Option<u64>)
        requires
            self.phase() == SweepPhase::Probing,
        ensures
            self.alive().len() < self.snapshot().len() ==> r == Some(
                self.snapshot()[self.alive().len() as int].outbound,
            ),
            self.alive().len() >= self.snapshot().len() ==> r is None,
    {
        if self.alive.len() < self.snapshot.len() {
            Some(self.snapshot[self.alive.len()].outbound)
        } else {
            None
        }
    }

    /// Records one probe outcome. A failed push marks the connection
    /// dead — failure is the sole death signal — and the failure itself
    /// is absorbed here, never surfaced.
    pub fn record_probe(&mut self, outcome: Result<(), BridgeError>)
        requires
            old(self).phase() == SweepPhase::Probing,
            old(self).alive().len() < old(self).snapshot().len(),
        ensures
            final(self).phase() == SweepPhase::Probing,
            final(self).snapshot() == old(self).snapshot(),
            final(self).alive() == old(self).alive().push(outcome is Ok),
    {
        self.alive.push(outcome.is_ok());
    }

    /// Ends the probe pass: computes the pending evictions, one per
    /// dead connection, and enters the eviction pass.
    pub fn begin_evicting(&mut self)
        requires
            old(self).phase() == SweepPhase::Probing,
            old(self).alive().len() == old(self).snapshot().len(),
        ensures
            final(self).phase() == SweepPhase::Evicting,
            final(self).dead() == dead_of(old(self).snapshot(), old(self).alive()),
            final(self).cancelled() == 0,
    {
        let ghost snap = self.snapshot@;
        let ghost flags = self.alive@;
        let mut dead: Vec<Eviction> = Vec::new();
        let mut i: usize = 0;
        while i < self.snapshot.len()
            invariant
                self.snapshot@ == snap,
                self.alive@ == flags,
                flags.len() == snap.len(),
                i <= snap.len(),
                dead@ == dead_of(snap.subrange(0, i as int), flags.subrange(0, i as int)),
            decreases snap.len() - i,
        {
            proof {
                let s1 = snap.subrange(0, i + 1);
                let a1 = flags.subrange(0, i + 1);
                assert(s1.drop_last() =~= snap.subrange(0, i as int));
                assert(a1.drop_last() =~= flags.subrange(0, i as int));
                assert(s1.last() == snap[i as int]);
                assert(a1.last() == flags[i as int]);
            }
            if !self.alive[i] {
                dead.push(
                    Eviction {
                        connection_id: self.snapshot[i].id,
                        subscription_token: self.snapshot[i].subscription_token.clone(),
                    },
                );
            }
            i = i + 1;
        }
        proof {
            assert(snap.subrange(0, snap.len() as int) =~= snap);
            assert(flags.subrange(0, flags.len() as int) =~= flags);
        }
        self.dead = dead;
        self.cancelled = 0;
        self.phase = SweepPhase::Evicting;
    }

    /// The subscription token whose upstream cancellation is owed next,
    /// or `None` once every pending eviction has had its one
    /// cancellation issued.
    pub fn next_cancellation(&self) -> (r: Option<String>)
        requires
            self.phase() == SweepPhase::Evicting,
        ensures
            self.cancelled() < self.dead().len() ==> r == Some(
                self.dead()[self.cancelled()].subscription_token,
            ),
            self.cancelled() >= self.dead().len() ==> r is None,
    {
        if self.cancelled < self.dead.len() {
            Some(self.dead[self.cancelled].subscription_token.clone())
        } else {
            None
        }
    }

    /// Records the outcome of one cancellation and moves on. A
    /// cancellation failure is logged upstream and ignored here: it
    /// must never block the eviction of the remaining connections, so
    /// the cycle advances the same way on `Ok` and on `Err`.
    pub fn record_cancellation(&mut self, outcome: Result<(), BridgeError>)
        requires
            old(self).phase() == SweepPhase::Evicting,
            old(self).cancelled() < old(self).dead().len(),
        ensures
            final(self).phase() == SweepPhase::Evicting,
            final(self).dead() == old(self).dead(),
            final(self).cancelled() == old(self).cancelled() + 1,
    {
        let _ = outcome;
        let n = self.dead.len();
        assert(self.cancelled < n);
        self.cancelled = self.cancelled + 1;
    }

    /// Commits the sweep: removes exactly the dead identifiers from the
    /// live registry — a targeted removal, never a wholesale overwrite,
    /// so registrations that arrived after the snapshot survive — and
    /// returns to `Idle`. Requires every owed cancellation to have been
    /// issued first.
    pub fn commit(&mut self, reg: &mut Registry)
        requires
            old(self).phase() == SweepPhase::Evicting,
            old(self).cancelled() == old(self).dead().len(),
            old(reg).wf(),
        ensures
            final(self).phase() == SweepPhase::Idle,
            final(reg).wf(),
            final(reg).connections() == retain_live(
                old(reg).connections(),
                eviction_ids(old(self).dead()),
            ),
            final(reg).next_id() == old(reg).next_id(),
    {
        let ghost evs = self.dead@;
        let mut ids: Vec<u64> = Vec::new();
        let mut i: usize = 0;
        while i < self.dead.len()
            invariant
                self.dead@ == evs,
                i <= evs.len(),
                ids@ == eviction_ids(evs.subrange(0, i as int)),
            decreases evs.len() - i,
        {
            ids.push(self.dead[i].connection_id);
            proof {
                assert(ids@ =~= eviction_ids(evs.subrange(0, i + 1)));
            }
            i = i + 1;
        }
        proof {
            assert(evs.subrange(0, evs.len() as int) =~= evs);
        }
        reg.replace(&ids);
        self.phase = SweepPhase::Idle;
    }
}

/// A plan never cancels on behalf of a connection that is not in the
/// snapshot.
proof fn lemma_no_cancel_for_absent(snapshot: Seq<ClientConnection>, alive: Seq<bool>, id: u64)
    requires
        forall|i: int| 0 <= i < snapshot.len() ==> (#[trigger] snapshot[i]).id != id,
    ensures
        cancels_for(dead_of(snapshot, alive), id) == 0,
    decreases snapshot.len(),
{
    if snapshot.len() > 0 && alive.len() == snapshot.len() {
        assert forall|i: int|
            0 <= i < snapshot.drop_last().len() implies (#[trigger] snapshot.drop_last()[i]).id
            != id by {
            assert(snapshot.drop_last()[i] == snapshot[i]);
        }
        lemma_no_cancel_for_absent(snapshot.drop_last(), alive.drop_last(), id);
        let rest = dead_of(snapshot.drop_last(), alive.drop_last());
        if !alive.last() {
            assert(dead_of(snapshot, alive).drop_last() =~= rest);
        }
    }
}

/// Counting splits over the last element of a plan.
proof fn lemma_cancels_for_push(evictions: Seq<Eviction>, e: Eviction, id: u64)
    ensures
        cancels_for(evictions.push(e), id) == cancels_for(evictions, id) + if e.connection_id
            == id {
            1nat
        } else {
            0nat
        },
{
    assert(evictions.push(e).drop_last() =~= evictions);
}

/// Eviction correctness, cancellation half: a sweep over a snapshot
/// with unique identifiers issues exactly one cancellation — with the
/// connection's own subscription token — for every connection whose
/// probe failed, and none for a connection whose probe succeeded.
pub proof fn lemma_sweep_cancels_each_dead_once(
    snapshot: Seq<ClientConnection>,
    alive: Seq<bool>,
    j: int,
)
    requires
        alive.len() == snapshot.len(),
        unique_ids(snapshot),
        0 <= j < snapshot.len(),
    ensures
        !alive[j] ==> cancels_for(dead_of(snapshot, alive), snapshot[j].id) == 1,
        alive[j] ==> cancels_for(dead_of(snapshot, alive), snapshot[j].id) == 0,
        !alive[j] ==> dead_of(snapshot, alive).contains(
            Eviction {
                connection_id: snapshot[j].id,
                subscription_token: snapshot[j].subscription_token,
            },
        ),
    decreases snapshot.len(),
{
    let rest = dead_of(snapshot.drop_last(), alive.drop_last());
    let plan = dead_of(snapshot, alive);
    if j == snapshot.len() - 1 {
        assert forall|i: int|
            0 <= i < snapshot.drop_last().len() implies (#[trigger] snapshot.drop_last()[i]).id
            != snapshot[j].id by {
            assert(snapshot.drop_last()[i] == snapshot[i]);
        }
        lemma_no_cancel_for_absent(snapshot.drop_last(), alive.drop_last(), snapshot[j].id);
        if !alive[j] {
            let e = Eviction {
                connection_id: snapshot[j].id,
                subscription_token: snapshot[j].subscription_token,
            };
            lemma_cancels_for_push(rest, e, snapshot[j].id);
            assert(plan == rest.push(e));
            assert(plan.last() == e);
        }
    } else {
        assert(unique_ids(snapshot.drop_last())) by {
            assert forall|i1: int, i2: int|
                0 <= i1 < i2 < snapshot.drop_last().len() implies snapshot.drop_last()[i1].id
                != snapshot.drop_last()[i2].id by {
                assert(snapshot.drop_last()[i1] == snapshot[i1]);
                assert(snapshot.drop_last()[i2] == snapshot[i2]);
            }
        }
        assert(snapshot.drop_last()[j] == snapshot[j]);
        lemma_sweep_cancels_each_dead_once(snapshot.drop_last(), alive.drop_last(), j);
        if !alive.last() {
            lemma_cancels_for_push(
                rest,
                Eviction {
                    connection_id: snapshot.last().id,
                    subscription_token: snapshot.last().subscription_token,
                },
                snapshot[j].id,
            );
            assert(snapshot.last().id != snapshot[j].id);
            if !alive[j] {
                let e = Eviction {
                    connection_id: snapshot[j].id,
                    subscription_token: snapshot[j].subscription_token,
                };
                let k = choose|k: int| 0 <= k < rest.len() && rest[k] == e;
                assert(plan[k] == e);
            }
        } else {
            if !alive[j] {
                let e = Eviction {
                    connection_id: snapshot[j].id,
                    subscription_token: snapshot[j].subscription_token,
                };
                let k = choose|k: int| 0 <= k < rest.len() && rest[k] == e;
                assert(plan[k] == e);
            }
        }
    }
}

/// Eviction correctness, removal half: every eviction a sweep plans
/// names a connection from its snapshot, and after the commit no entry
/// with a planned identifier remains. Stated over the plan so it
/// composes with `lemma_replace_removes` on the commit itself.
pub proof fn lemma_dead_are_snapshotted(snapshot: Seq<ClientConnection>, alive: Seq<bool>, k: int)
    requires
        alive.len() == snapshot.len(),
        0 <= k < dead_of(snapshot, alive).len(),
    ensures
        exists|j: int|
            0 <= j < snapshot.len() && !alive[j] && dead_of(snapshot, alive)[k] == (Eviction {
                connection_id: snapshot[j].id,
                subscription_token: snapshot[j].subscription_token,
            }),
    decreases snapshot.len(),
{
    let rest = dead_of(snapshot.drop_last(), alive.drop_last());
    let plan = dead_of(snapshot, alive);
    if k < rest.len() {
        lemma_dead_are_snapshotted(snapshot.drop_last(), alive.drop_last(), k);
        let j2 = choose|j: int|
            0 <= j < snapshot.drop_last().len() && !alive.drop_last()[j] && rest[k] == (Eviction {
                connection_id: snapshot.drop_last()[j].id,
                subscription_token: snapshot.drop_last()[j].subscription_token,
            });
        assert(snapshot.drop_last()[j2] == snapshot[j2]);
        assert(plan[k] == rest[k]);
    } else {
        assert(!alive.last());
        assert(plan[k] == plan.last());
    }
}

/// Eviction correctness, end to end: a connection whose probe failed in
/// a sweep over a snapshot with unique identifiers has exactly one
/// cancellation issued on its behalf, and after the sweep commits —
/// against whatever the registry holds by then — no entry with its
/// identifier remains.
pub proof fn lemma_eviction_correct(
    conns: Seq<ClientConnection>,
    snapshot: Seq<ClientConnection>,
    alive: Seq<bool>,
    j: int,
)
    requires
        alive.len() == snapshot.len(),
        unique_ids(snapshot),
        0 <= j < snapshot.len(),
        !alive[j],
    ensures
        cancels_for(dead_of(snapshot, alive), snapshot[j].id) == 1,
        forall|k: int|
            0 <= k < retain_live(conns, eviction_ids(dead_of(snapshot, alive))).len()
                ==> (#[trigger] retain_live(
                conns,
                eviction_ids(dead_of(snapshot, alive)),
            )[k]).id != snapshot[j].id,
{
    let plan = dead_of(snapshot, alive);
    let ids = eviction_ids(plan);
    lemma_sweep_cancels_each_dead_once(snapshot, alive, j);
    let e = Eviction {
        connection_id: snapshot[j].id,
        subscription_token: snapshot[j].subscription_token,
    };
    let k0 = choose|k0: int| 0 <= k0 < plan.len() && plan[k0] == e;
    assert(ids[k0] == snapshot[j].id);
    assert(ids.contains(snapshot[j].id));
    lemma_replace_removes(conns, ids);
}

/// Eviction correctness, survivors half: a connection whose probe
/// succeeded is never evicted — any registry entry carrying its
/// identifier survives the commit.
pub proof fn lemma_live_connection_survives(
    conns: Seq<ClientConnection>,
    snapshot: Seq<ClientConnection>,
    alive: Seq<bool>,
    j: int,
    i: int,
)
    requires
        alive.len() == snapshot.len(),
        unique_ids(snapshot),
        0 <= j < snapshot.len(),
        alive[j],
        0 <= i < conns.len(),
        conns[i].id == snapshot[j].id,
    ensures
        retain_live(conns, eviction_ids(dead_of(snapshot, alive))).contains(conns[i]),
{
    let plan = dead_of(snapshot, alive);
    let ids = eviction_ids(plan);
    if ids.contains(snapshot[j].id) {
        let k = choose|k: int| 0 <= k < ids.len() && ids[k] == snapshot[j].id;
        lemma_dead_are_snapshotted(snapshot, alive, k);
        let j2 = choose|j2: int|
            0 <= j2 < snapshot.len() && !alive[j2] && plan[k] == (Eviction {
                connection_id: snapshot[j2].id,
                subscription_token: snapshot[j2].subscription_token,
            });
        assert(snapshot[j2].id == snapshot[j].id);
        assert(j2 == j);
        assert(false);
    }
    lemma_replace_keeps(conns, ids, i);
}

/// The upstream cancellations owed at process shutdown: one token per
/// still-live connection, in registration order. Running these drains
/// every open subscription so none is leaked on the queue side.
pub fn shutdown_cancellations(reg: &Registry) -> (r: Vec<String>)
    ensures
        r@ == reg.connections().map_values(|c: ClientConnection| c.subscription_token),
{
    let snap = reg.snapshot();
    let mut tokens: Vec<String> = Vec::new();
    let mut i: usize = 0;
    while i < snap.len()
        invariant
            snap@ == reg.connections(),
            i <= snap@.len(),
            tokens@ == snap@.subrange(0, i as int).map_values(
                |c: ClientConnection| c.subscription_token,
            ),
        decreases snap@.len() - i,
    {
        tokens.push(snap[i].subscription_token.clone());
        proof {
            assert(tokens@ =~= snap@.subrange(0, i + 1).map_values(
                |c: ClientConnection| c.subscription_token,
            ));
        }
        i = i + 1;
    }
    proof {
        assert(snap@.subrange(0, snap@.len() as int) =~= snap@);
    }
    tokens
}

} // verus!
