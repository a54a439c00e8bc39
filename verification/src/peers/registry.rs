//! In-memory peer registry.
//!
//! Liveness is derived from how long ago a peer was last seen: a peer
//! decays Online -> Stale -> Offline instead of being deleted, and only
//! peers unseen for longer than the eviction threshold are dropped by
//! `evict_offline`. All times are nanoseconds on the registry's
//! monotonic clock, the resolution at which the thresholds are compared.

use vstd::prelude::*;

use crate::clock::MonotonicClock;
use crate::net::SocketAddress;
use crate::text::{bytes_le, lemma_bytes_le_total_order, owned, same_text, text_bytes, text_le};

verus! {

/// Nanoseconds in a second.
pub const NANOS_PER_SEC: u64 = 1_000_000_000;

/// How long (ns) a peer can go unseen before it is `Stale`: 30 s.
pub const STALE_AFTER: u64 = 30_000_000_000;

/// How long (ns) a peer can go unseen before it is `Offline`: 120 s.
pub const OFFLINE_AFTER: u64 = 120_000_000_000;

/// How long (ns) a peer can go unseen before `evict_offline` drops it: 600 s.
pub const EVICTION_THRESHOLD: u64 = 600_000_000_000;

/// Liveness state, derived from the time since a peer was last seen.
#[derive(Clone, Copy, Debug, PartialEq, Eq, PartialOrd, Ord, Hash, Structural)]
pub enum PeerStatus {
    /// Seen recently: actively part of the mesh.
    Online,
    /// Not seen for a while but probably still around.
    Stale,
    /// Likely gone (sleeping laptop, network blip, app closed).
    Offline,
}

/// The status of a peer unseen for `elapsed` nanoseconds.
pub open spec fn spec_classify(elapsed: u64) -> PeerStatus {
    if elapsed < STALE_AFTER {
        PeerStatus::Online
    } else if elapsed < OFFLINE_AFTER {
        PeerStatus::Stale
    } else {
        PeerStatus::Offline
    }
}

/// The display rank of a status: Online < Stale < Offline.
pub open spec fn spec_rank(s: PeerStatus) -> u8 {
    match s {
        PeerStatus::Online => 0,
        PeerStatus::Stale => 1,
        PeerStatus::Offline => 2,
    }
}

/// Classify how long a peer has gone unseen (in nanoseconds) into a
/// liveness state.
pub fn classify(elapsed_ns: u64) -> (s: PeerStatus)
    ensures
        s == spec_classify(elapsed_ns),
{
    if elapsed_ns < STALE_AFTER {
        PeerStatus::Online
    } else if elapsed_ns < OFFLINE_AFTER {
        PeerStatus::Stale
    } else {
        PeerStatus::Offline
    }
}

impl PeerStatus {
    /// Position in the display order: Online (0) < Stale (1) < Offline (2).
    pub fn rank(&self) -> (r: u8)
        ensures
            r == spec_rank(*self),
    {
        match self {
            PeerStatus::Online => 0,
            PeerStatus::Stale => 1,
            PeerStatus::Offline => 2,
        }
    }
}

/// A snapshot of one peer, with liveness computed at listing time.
#[derive(Clone, Debug)]
pub struct Peer {
    pub id: String,
    pub name: String,
    pub addr: SocketAddress,
    /// CPU thread count advertised by the peer.
    pub cpu_threads: Option<u32>,
    /// RAM in GiB advertised by the peer.
    pub ram_gib: Option<u64>,
    /// Whole seconds since we last heard from this peer.
    pub last_seen_secs_ago: u64,
    pub status: PeerStatus,
}

/// The mathematical content of a [`Peer`].
pub struct PeerView {
    pub id: Seq<char>,
    pub name: Seq<char>,
    pub addr: SocketAddress,
    pub cpu_threads: Option<u32>,
    pub ram_gib: Option<u64>,
    pub last_seen_secs_ago: u64,
    pub status: PeerStatus,
}

impl View for Peer {
    type V = PeerView;

    open spec fn view(&self) -> PeerView {
        PeerView {
            id: self.id@,
            name: self.name@,
            addr: self.addr,
            cpu_threads: self.cpu_threads,
            ram_gib: self.ram_gib,
            last_seen_secs_ago: self.last_seen_secs_ago,
            status: self.status,
        }
    }
}

/// What the registry knows of one peer.
pub struct PeerEntry {
    pub id: Seq<char>,
    pub name: Seq<char>,
    pub addr: SocketAddress,
    pub cpu_threads: Option<u32>,
    pub ram_gib: Option<u64>,
    pub last_seen_ns: u64,
}

struct PeerRecord {
    id: String,
    name: String,
    addr: SocketAddress,
    cpu_threads: Option<u32>,
    ram_gib: Option<u64>,
    last_seen_ns: u64,
}

impl View for PeerRecord {
    type V = PeerEntry;

    closed spec fn view(&self) -> PeerEntry {
        PeerEntry {
            id: self.id@,
            name: self.name@,
            addr: self.addr,
            cpu_threads: self.cpu_threads,
            ram_gib: self.ram_gib,
            last_seen_ns: self.last_seen_ns,
        }
    }
}

// ---------------------------------------------------------------------
// The model.
// ---------------------------------------------------------------------

/// Nanoseconds from `then` to `now`, 0 when `now` is earlier.
pub open spec fn elapsed_since(now: u64, then: u64) -> u64 {
    if now >= then {
        (now - then) as u64
    } else {
        0
    }
}

/// No two entries share a node id.
pub open spec fn peer_ids_distinct(s: Seq<PeerEntry>) -> bool {
    forall|i: int, j: int| 0 <= i < s.len() && 0 <= j < s.len() && i != j ==> s[i].id != s[j].id
}

/// Some entry carries node id `id`.
pub open spec fn has_peer(s: Seq<PeerEntry>, id: Seq<char>) -> bool {
    exists|i: int| 0 <= i < s.len() && s[i].id == id
}

/// The entry for node id `id`, if any.
pub open spec fn find_peer(s: Seq<PeerEntry>, id: Seq<char>) -> Option<PeerEntry> {
    if has_peer(s, id) {
        Some(s[choose|i: int| 0 <= i < s.len() && s[i].id == id])
    } else {
        None
    }
}

/// An entry refreshed by a new announcement: name and address replaced,
/// specs replaced only when advertised, last-seen time reset.
pub open spec fn refreshed(
    e: PeerEntry,
    name: Seq<char>,
    addr: SocketAddress,
    cpu_threads: Option<u32>,
    ram_gib: Option<u64>,
    now: u64,
) -> PeerEntry {
    PeerEntry {
        id: e.id,
        name,
        addr,
        cpu_threads: if cpu_threads is Some {
            cpu_threads
        } else {
            e.cpu_threads
        },
        ram_gib: if ram_gib is Some {
            ram_gib
        } else {
            e.ram_gib
        },
        last_seen_ns: now,
    }
}

/// The entries after an announcement from node `id` at time `now`.
pub open spec fn upserted(
    s: Seq<PeerEntry>,
    id: Seq<char>,
    name: Seq<char>,
    addr: SocketAddress,
    cpu_threads: Option<u32>,
    ram_gib: Option<u64>,
    now: u64,
) -> Seq<PeerEntry> {
    if has_peer(s, id) {
        s.map_values(
            |e: PeerEntry|
                if e.id == id {
                    refreshed(e, name, addr, cpu_threads, ram_gib, now)
                } else {
                    e
                },
        )
    } else {
        s.push(PeerEntry { id, name, addr, cpu_threads, ram_gib, last_seen_ns: now })
    }
}

/// The entries after removing node `id`.
pub open spec fn removed(s: Seq<PeerEntry>, id: Seq<char>) -> Seq<PeerEntry> {
    if has_peer(s, id) {
        s.remove(choose|i: int| 0 <= i < s.len() && s[i].id == id)
    } else {
        s
    }
}

/// Whether an entry was seen recently enough at `now` to survive eviction.
pub open spec fn survives_eviction(now: u64) -> spec_fn(PeerEntry) -> bool {
    |e: PeerEntry| elapsed_since(now, e.last_seen_ns) < EVICTION_THRESHOLD
}

/// The entries left after evicting long-gone peers at time `now`.
pub open spec fn evicted(s: Seq<PeerEntry>, now: u64) -> Seq<PeerEntry> {
    s.filter(survives_eviction(now))
}

/// The snapshot of an entry at time `now`.
pub open spec fn snapshot(e: PeerEntry, now: u64) -> PeerView {
    PeerView {
        id: e.id,
        name: e.name,
        addr: e.addr,
        cpu_threads: e.cpu_threads,
        ram_gib: e.ram_gib,
        last_seen_secs_ago: (elapsed_since(now, e.last_seen_ns) / NANOS_PER_SEC) as u64,
        status: spec_classify(elapsed_since(now, e.last_seen_ns)),
    }
}

/// The snapshots of all entries at time `now`, in registry order.
pub open spec fn snapshots(s: Seq<PeerEntry>, now: u64) -> Seq<PeerView> {
    s.map_values(|e: PeerEntry| snapshot(e, now))
}

/// Display order: by status rank, then by name bytes.
pub open spec fn display_le(a: PeerView, b: PeerView) -> bool {
    spec_rank(a.status) < spec_rank(b.status) || (spec_rank(a.status) == spec_rank(b.status)
        && bytes_le(text_bytes(a.name), text_bytes(b.name)))
}

/// Peers listed Online first, then Stale, then Offline, each by name.
pub open spec fn display_sorted(s: Seq<PeerView>) -> bool {
    forall|i: int, j: int| 0 <= i < j < s.len() ==> display_le(s[i], s[j])
}

/// The views of a vector of peers.
pub open spec fn peer_views(v: Seq<Peer>) -> Seq<PeerView> {
    v.map_values(|p: Peer| p@)
}

proof fn lemma_display_order(a: PeerView, b: PeerView, c: PeerView)
    ensures
        display_le(a, b) || display_le(b, a),
        display_le(a, b) && display_le(b, c) ==> display_le(a, c),
{
    lemma_bytes_le_total_order(text_bytes(a.name), text_bytes(b.name), text_bytes(c.name));
}

fn peer_display_le(a: &Peer, b: &Peer) -> (r: bool)
    ensures
        r == display_le(a@, b@),
{
    let ra = a.status.rank();
    let rb = b.status.rank();
    if ra < rb {
        true
    } else if ra > rb {
        false
    } else {
        text_le(&a.name, &b.name)
    }
}

fn copy_text(s: &String) -> (r: String)
    ensures
        r@ == s@,
{
    s.clone()
}

/// Map from node id to what we know of that peer.
pub struct PeerRegistry {
    peers: Vec<PeerRecord>,
    clock: MonotonicClock,
    /// The latest clock reading taken by an operation that reads the clock.
    latest: u64,
}

/// The entries of a vector of records.
spec fn entries(v: Seq<PeerRecord>) -> Seq<PeerEntry> {
    v.map_values(|r: PeerRecord| r@)
}

impl View for PeerRegistry {
    type V = Seq<PeerEntry>;

    /// The known peers, in the order they were first seen.
    closed spec fn view(&self) -> Seq<PeerEntry> {
        entries(self.peers@)
    }
}

impl Default for PeerRegistry {
    fn default() -> (r: Self)
        ensures
            r@ == Seq::<PeerEntry>::empty(),
    {
        PeerRegistry::new()
    }
}

impl PeerRegistry {
    #[verifier::type_invariant]
    closed spec fn keyed_by_node_id(self) -> bool {
        peer_ids_distinct(entries(self.peers@))
    }

    /// An empty registry whose clock starts now.
    pub fn new() -> (r: Self)
        ensures
            r@ == Seq::<PeerEntry>::empty(),
            peer_ids_distinct(r@),
            r.last_reading() == 0,
    {
        let r = PeerRegistry { peers: Vec::new(), clock: MonotonicClock::start(), latest: 0 };
        assert(r@ =~= Seq::<PeerEntry>::empty());
        r
    }

    /// The latest reading of the registry's clock taken by `upsert` or
    /// `evict_offline` (0 before any).
    pub closed spec fn last_reading(&self) -> u64 {
        self.latest
    }

    /// The current reading of the registry's monotonic clock (ns). The
    /// clock never goes backwards, so a reading is never earlier than the
    /// last one taken.
    pub fn now(&self) -> (ns: u64)
        ensures
            ns >= self.last_reading(),
    {
        let t = self.clock.read_ns();
        if t < self.latest {
            self.latest
        } else {
            t
        }
    }

    fn position(&self, node_id: &str) -> (r: Option<usize>)
        ensures
            match r {
                Some(i) => i < self@.len() && self@[i as int].id == node_id@,
                None => !has_peer(self@, node_id@),
            },
    {
        let n = self.peers.len();
        let mut i: usize = 0;
        while i < n
            invariant
                n == self.peers@.len(),
                i <= n,
                forall|j: int| 0 <= j < i ==> self@[j].id != node_id@,
            decreases n - i,
        {
            if same_text(&self.peers[i].id, node_id) {
                return Some(i);
            }
            i = i + 1;
        }
        None
    }

    /// Insert or refresh a peer announced at time `now`.
    pub fn upsert_at(
        &mut self,
        node_id: &str,
        name: &str,
        addr: SocketAddress,
        cpu_threads: Option<u32>,
        ram_gib: Option<u64>,
        now: u64,
    )
        ensures
            final(self)@ == upserted(
                old(self)@,
                node_id@,
                name@,
                addr,
                cpu_threads,
                ram_gib,
                now,
            ),
            peer_ids_distinct(final(self)@),
            final(self).last_reading() == old(self).last_reading(),
    {
        proof {
            use_type_invariant(&*self);
        }
        let ghost s0 = self@;
        let pos = self.position(node_id);
        let mut recs: Vec<PeerRecord> = Vec::new();
        std::mem::swap(&mut recs, &mut self.peers);
        match pos {
            Some(i) => {
                let old_cpu = recs[i].cpu_threads;
                let old_ram = recs[i].ram_gib;
                let rec = PeerRecord {
                    id: copy_text(&recs[i].id),
                    name: owned(name),
                    addr,
                    cpu_threads: if cpu_threads.is_some() {
                        cpu_threads
                    } else {
                        old_cpu
                    },
                    ram_gib: if ram_gib.is_some() {
                        ram_gib
                    } else {
                        old_ram
                    },
                    last_seen_ns: now,
                };
                recs.set(i, rec);
                proof {
                    assert(entries(recs@) =~= upserted(
                        s0,
                        node_id@,
                        name@,
                        addr,
                        cpu_threads,
                        ram_gib,
                        now,
                    ));
                }
            },
            None => {
                let rec = PeerRecord {
                    id: owned(node_id),
                    name: owned(name),
                    addr,
                    cpu_threads,
                    ram_gib,
                    last_seen_ns: now,
                };
                recs.push(rec);
                proof {
                    assert(entries(recs@) =~= upserted(
                        s0,
                        node_id@,
                        name@,
                        addr,
                        cpu_threads,
                        ram_gib,
                        now,
                    ));
                }
            },
        }
        self.peers = recs;
        proof {
            use_type_invariant(&*self);
        }
    }

    /// Insert or refresh a peer, stamping it as seen now. Idempotent
    /// apart from the timestamp: calling it on every announcement is the
    /// intended use.
    pub fn upsert(
        &mut self,
        node_id: &str,
        name: &str,
        addr: SocketAddress,
        cpu_threads: Option<u32>,
        ram_gib: Option<u64>,
    )
        ensures
            exists|now: u64|
                now >= old(self).last_reading() && final(self).last_reading() == now
                    && final(self)@ == upserted(
                    old(self)@,
                    node_id@,
                    name@,
                    addr,
                    cpu_threads,
                    ram_gib,
                    now,
                ),
            peer_ids_distinct(final(self)@),
    {
        proof {
            use_type_invariant(&*self);
        }
        let ghost s0 = self@;
        let ghost floor = self.last_reading();
        let now = self.now();
        self.latest = now;
        assert(self@ == s0);
        self.upsert_at(node_id, name, addr, cpu_threads, ram_gib, now);
        assert(now >= floor && self.last_reading() == now && self@ == upserted(
            s0,
            node_id@,
            name@,
            addr,
            cpu_threads,
            ram_gib,
            now,
        ));
    }

    /// Remove a peer immediately (e.g. when its service is withdrawn).
    pub fn remove(&mut self, node_id: &str)
        ensures
            final(self)@ == removed(old(self)@, node_id@),
            peer_ids_distinct(final(self)@),
            final(self).last_reading() == old(self).last_reading(),
    {
        proof {
            use_type_invariant(&*self);
        }
        let ghost s0 = self@;
        match self.position(node_id) {
            Some(i) => {
                let mut recs: Vec<PeerRecord> = Vec::new();
                std::mem::swap(&mut recs, &mut self.peers);
                let _ = recs.remove(i);
                proof {
                    let j = choose|j: int| 0 <= j < s0.len() && s0[j].id == node_id@;
                    assert(j == i);
                    assert(entries(recs@) =~= s0.remove(i as int));
                }
                self.peers = recs;
            },
            None => {},
        }
        proof {
            use_type_invariant(&*self);
        }
    }

    /// Snapshot of every known peer with liveness computed at `now`:
    /// Online first, then Stale, then Offline, each group by name.
    pub fn list_at(&self, now: u64) -> (out: Vec<Peer>)
        ensures
            peer_views(out@).to_multiset() == snapshots(self@, now).to_multiset(),
            display_sorted(peer_views(out@)),
    {
        let n = self.peers.len();
        let mut out: Vec<Peer> = Vec::new();
        let mut k: usize = 0;
        assert(peer_views(out@) =~= snapshots(self@, now).take(0));
        while k < n
            invariant
                n == self.peers@.len(),
                k <= n,
                peer_views(out@).to_multiset() == snapshots(self@, now).take(k as int).to_multiset(),
                display_sorted(peer_views(out@)),
            decreases n - k,
        {
            let r = &self.peers[k];
            let elapsed = now.saturating_sub(r.last_seen_ns);
            let p = Peer {
                id: copy_text(&r.id),
                name: copy_text(&r.name),
                addr: r.addr,
                cpu_threads: r.cpu_threads,
                ram_gib: r.ram_gib,
                last_seen_secs_ago: elapsed / NANOS_PER_SEC,
                status: classify(elapsed),
            };
            assert(p@ == snapshot(self@[k as int], now));
            let m = out.len();
            let mut q: usize = 0;
            while q < m && peer_display_le(&out[q], &p)
                invariant
                    m == out@.len(),
                    q <= m,
                    forall|t: int| 0 <= t < q ==> display_le(out@[t]@, p@),
                decreases m - q,
            {
                q = q + 1;
            }
            let ghost before = peer_views(out@);
            out.insert(q, p);
            proof {
                assert(peer_views(out@) =~= before.insert(q as int, p@));
                crate::tasks::tracker::lemma_insert_to_multiset(before, q as int, p@);
                let sn = snapshots(self@, now);
                assert(sn.take(k + 1) =~= sn.take(k as int).push(sn[k as int]));
                sn.take(k as int).to_multiset_ensures();
                let after = peer_views(out@);
                assert forall|i: int, j: int| 0 <= i < j < after.len() implies display_le(
                    after[i],
                    after[j],
                ) by {
                    if j < q {
                    } else if j == q {
                    } else if i < q {
                        lemma_display_order(before[i], p@, before[j - 1]);
                        lemma_display_order(p@, before[q as int], before[j - 1]);
                        lemma_display_order(before[i], before[q as int], before[j - 1]);
                    } else if i == q {
                        lemma_display_order(p@, before[q as int], before[j - 1]);
                        lemma_display_order(before[q as int], p@, before[j - 1]);
                    } else {
                    }
                }
            }
            k = k + 1;
        }
        proof {
            assert(snapshots(self@, now).take(n as int) =~= snapshots(self@, now));
        }
        out
    }

    /// Snapshot of every known peer with liveness computed now.
    pub fn list(&self) -> (out: Vec<Peer>)
        ensures
            exists|now: u64|
                now >= self.last_reading() && peer_views(out@).to_multiset() == snapshots(
                    self@,
                    now,
                ).to_multiset(),
            display_sorted(peer_views(out@)),
    {
        let now = self.now();
        self.list_at(now)
    }

    /// Number of peers tracked, in any status.
    pub fn len(&self) -> (n: usize)
        ensures
            n == self@.len(),
            peer_ids_distinct(self@),
    {
        proof {
            use_type_invariant(self);
        }
        self.peers.len()
    }

    /// True when the registry has no peers.
    pub fn is_empty(&self) -> (b: bool)
        ensures
            b == (self@.len() == 0),
    {
        self.peers.len() == 0
    }

    /// Drop the peers unseen for at least the eviction threshold at `now`.
    pub fn evict_offline_at(&mut self, now: u64)
        ensures
            final(self)@ == evicted(old(self)@, now),
            peer_ids_distinct(final(self)@),
            final(self).last_reading() == old(self).last_reading(),
    {
        proof {
            use_type_invariant(&*self);
        }
        let ghost s0 = self@;
        let mut recs: Vec<PeerRecord> = Vec::new();
        std::mem::swap(&mut recs, &mut self.peers);
        let n = recs.len();
        let mut kept: Vec<PeerRecord> = Vec::new();
        let mut i: usize = 0;
        assert(s0.take(0).filter(survives_eviction(now)) =~= Seq::<PeerEntry>::empty()) by {
            reveal_with_fuel(Seq::filter, 1);
        }
        assert(entries(kept@) =~= Seq::<PeerEntry>::empty());
        while i < n
            invariant
                n == recs@.len(),
                entries(recs@) == s0,
                i <= n,
                entries(kept@) == s0.take(i as int).filter(survives_eviction(now)),
            decreases n - i,
        {
            proof {
                assert(s0.take(i + 1) =~= s0.take(i as int).push(s0[i as int]));
                s0.take(i as int).lemma_filter_push(s0[i as int], survives_eviction(now));
            }
            let r = &recs[i];
            if now.saturating_sub(r.last_seen_ns) < EVICTION_THRESHOLD {
                let ghost kv = entries(kept@);
                let c = PeerRecord {
                    id: copy_text(&r.id),
                    name: copy_text(&r.name),
                    addr: r.addr,
                    cpu_threads: r.cpu_threads,
                    ram_gib: r.ram_gib,
                    last_seen_ns: r.last_seen_ns,
                };
                kept.push(c);
                assert(entries(kept@) =~= kv.push(s0[i as int]));
            }
            i = i + 1;
        }
        proof {
            assert(s0.take(n as int) =~= s0);
            lemma_filter_keeps_distinct(s0, survives_eviction(now));
        }
        self.peers = kept;
    }

    /// Drop peers unseen for longer than the eviction threshold. Call
    /// periodically; a typical cadence is once a minute.
    pub fn evict_offline(&mut self)
        ensures
            exists|now: u64|
                now >= old(self).last_reading() && final(self).last_reading() == now
                    && final(self)@ == evicted(old(self)@, now),
            peer_ids_distinct(final(self)@),
    {
        proof {
            use_type_invariant(&*self);
        }
        let ghost s0 = self@;
        let ghost floor = self.last_reading();
        let now = self.now();
        self.latest = now;
        assert(self@ == s0);
        self.evict_offline_at(now);
        assert(now >= floor && self.last_reading() == now && self@ == evicted(s0, now));
    }
}

proof fn lemma_filter_keeps_distinct(s: Seq<PeerEntry>, p: spec_fn(PeerEntry) -> bool)
    requires
        peer_ids_distinct(s),
    ensures
        peer_ids_distinct(s.filter(p)),
    decreases s.len(),
{
    broadcast use vstd::seq_lib::group_filter_ensures;

    if s.len() > 0 {
        let init = s.drop_last();
        lemma_filter_keeps_distinct(init, p);
        init.lemma_filter_push(s.last(), p);
        assert(init.push(s.last()) =~= s);
        if p(s.last()) {
            let f = init.filter(p);
            assert forall|i: int| 0 <= i < f.len() implies f[i].id != s.last().id by {
                assert(f.contains(f[i]));
                init.lemma_filter_contains_rev(p, f[i]);
                let j = choose|j: int| 0 <= j < init.len() && init[j] == f[i];
                assert(s[j] == init[j]);
            }
        }
    }
}

// ---------------------------------------------------------------------
// Laws of the registry.
// ---------------------------------------------------------------------

proof fn lemma_find_at(s: Seq<PeerEntry>, id: Seq<char>, i: int)
    requires
        peer_ids_distinct(s),
        0 <= i < s.len(),
        s[i].id == id,
    ensures
        find_peer(s, id) == Some(s[i]),
{
    let j = choose|j: int| 0 <= j < s.len() && s[j].id == id;
    assert(0 <= j < s.len() && s[j].id == id);
}

/// Liveness only decays with time: a peer unseen for longer never ranks
/// as more alive.
pub proof fn law_classify_is_monotone(e1: u64, e2: u64)
    requires
        e1 <= e2,
    ensures
        spec_rank(spec_classify(e1)) <= spec_rank(spec_classify(e2)),
{
}

/// Reading a peer back after an announcement: its name and address are
/// the announced ones, advertised specs replace the known ones while
/// missing specs keep them, it was last seen at the announcement, and
/// every other peer is untouched. A peer just announced lists as Online.
pub proof fn law_upsert_read_back(
    s: Seq<PeerEntry>,
    id: Seq<char>,
    name: Seq<char>,
    addr: SocketAddress,
    cpu_threads: Option<u32>,
    ram_gib: Option<u64>,
    now: u64,
)
    requires
        peer_ids_distinct(s),
    ensures
        ({
            let t = upserted(s, id, name, addr, cpu_threads, ram_gib, now);
            &&& peer_ids_distinct(t)
            &&& find_peer(t, id) == Some(
                match find_peer(s, id) {
                    Some(e) => refreshed(e, name, addr, cpu_threads, ram_gib, now),
                    None => PeerEntry { id, name, addr, cpu_threads, ram_gib, last_seen_ns: now },
                },
            )
            &&& snapshot(find_peer(t, id).unwrap(), now).status == PeerStatus::Online
            &&& snapshot(find_peer(t, id).unwrap(), now).last_seen_secs_ago == 0
            &&& forall|other: Seq<char>| other != id ==> find_peer(t, other) == find_peer(s, other)
        }),
{
    let t = upserted(s, id, name, addr, cpu_threads, ram_gib, now);
    if has_peer(s, id) {
        let i = choose|i: int| 0 <= i < s.len() && s[i].id == id;
        lemma_find_at(s, id, i);
        assert(peer_ids_distinct(t));
        lemma_find_at(t, id, i);
        assert forall|other: Seq<char>| other != id implies find_peer(t, other) == find_peer(
            s,
            other,
        ) by {
            if has_peer(s, other) {
                let j = choose|j: int| 0 <= j < s.len() && s[j].id == other;
                lemma_find_at(s, other, j);
                lemma_find_at(t, other, j);
            } else {
                assert(!has_peer(t, other));
            }
        }
    } else {
        assert(peer_ids_distinct(t));
        lemma_find_at(t, id, s.len() as int);
        assert forall|other: Seq<char>| other != id implies find_peer(t, other) == find_peer(
            s,
            other,
        ) by {
            if has_peer(s, other) {
                let j = choose|j: int| 0 <= j < s.len() && s[j].id == other;
                lemma_find_at(s, other, j);
                lemma_find_at(t, other, j);
            } else {
                assert(!has_peer(t, other));
            }
        }
    }
}

/// After a removal the peer is gone and every other peer is untouched.
pub proof fn law_remove_read_back(s: Seq<PeerEntry>, id: Seq<char>)
    requires
        peer_ids_distinct(s),
    ensures
        peer_ids_distinct(removed(s, id)),
        find_peer(removed(s, id), id) is None,
        forall|other: Seq<char>| other != id ==> find_peer(removed(s, id), other) == find_peer(s, other),
{
    let t = removed(s, id);
    if has_peer(s, id) {
        let i = choose|i: int| 0 <= i < s.len() && s[i].id == id;
        assert(t =~= s.subrange(0, i) + s.subrange(i + 1, s.len() as int));
        assert forall|a: int, b: int|
            0 <= a < t.len() && 0 <= b < t.len() && a != b implies t[a].id != t[b].id by {
            let sa = if a < i { a } else { a + 1 };
            let sb = if b < i { b } else { b + 1 };
            assert(t[a] == s[sa] && t[b] == s[sb]);
        }
        assert(!has_peer(t, id)) by {
            if has_peer(t, id) {
                let k = choose|k: int| 0 <= k < t.len() && t[k].id == id;
                let sk = if k < i { k } else { k + 1 };
                assert(t[k] == s[sk]);
            }
        }
        assert forall|other: Seq<char>| other != id implies find_peer(t, other) == find_peer(
            s,
            other,
        ) by {
            if has_peer(s, other) {
                let j = choose|j: int| 0 <= j < s.len() && s[j].id == other;
                lemma_find_at(s, other, j);
                assert(j != i);
                let tj = if j < i { j } else { j - 1 };
                assert(t[tj] == s[j]);
                lemma_find_at(t, other, tj);
            } else {
                assert(!has_peer(t, other)) by {
                    if has_peer(t, other) {
                        let k = choose|k: int| 0 <= k < t.len() && t[k].id == other;
                        let sk = if k < i { k } else { k + 1 };
                        assert(t[k] == s[sk]);
                    }
                }
            }
        }
    }
}

/// Eviction keeps exactly the peers seen within the threshold, and every
/// peer it drops is already Offline.
pub proof fn law_eviction_drops_only_offline_peers(s: Seq<PeerEntry>, now: u64)
    ensures
        forall|e: PeerEntry|
            #[trigger] evicted(s, now).contains(e) <==> (s.contains(e) && elapsed_since(
                now,
                e.last_seen_ns,
            ) < EVICTION_THRESHOLD),
        forall|e: PeerEntry|
            s.contains(e) && !evicted(s, now).contains(e) ==> spec_classify(
                elapsed_since(now, e.last_seen_ns),
            ) == PeerStatus::Offline,
{
    broadcast use vstd::seq_lib::group_filter_ensures;

    assert forall|e: PeerEntry|
        #[trigger] evicted(s, now).contains(e) <==> (s.contains(e) && elapsed_since(
            now,
            e.last_seen_ns,
        ) < EVICTION_THRESHOLD) by {
        if evicted(s, now).contains(e) {
            s.lemma_filter_contains_rev(survives_eviction(now), e);
            let k = choose|k: int| 0 <= k < evicted(s, now).len() && evicted(s, now)[k] == e;
        }
        if s.contains(e) && elapsed_since(now, e.last_seen_ns) < EVICTION_THRESHOLD {
            let i = choose|i: int| 0 <= i < s.len() && s[i] == e;
            s.lemma_filter_contains(survives_eviction(now), i);
        }
    }
}

} // verus!
