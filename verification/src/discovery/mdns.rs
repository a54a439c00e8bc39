//! What a node does with what mDNS tells it.
//!
//! A resolved service is mirrored into the peer registry, logged the
//! first time a peer is seen this session, and, the first time only,
//! answered with the demo task. A removed service drops the peer with
//! that service name from the registry.

use vstd::prelude::*;

use crate::net::{spec_is_ipv4, spec_is_link_local_v4, spec_is_loopback, IpAddress, SocketAddress};
use crate::peers::registry::{
    display_le, display_sorted, has_peer, peer_views, removed, snapshot, snapshots, spec_rank,
    upserted, PeerEntry, PeerRegistry,
};
use crate::tasks::task::{Task, TaskView};
use crate::text::{
    byte_prefix, decimal, decode_lossy, on_char_boundary, opt_view, owned, parse_u32, parse_u64,
    parsed_unsigned, prefix_bytes, render_u64, same_text, text_bytes, utf8_lossy,
};
use crate::utils::sysinfo::NodeSpecs;

verus! {

/// Service type advertised on the local network.
pub const SERVICE_TYPE: &'static str = "_sangam._udp.local.";

/// One key/value pair of an mDNS TXT record. A key may carry no value.
#[derive(Clone, Debug)]
pub struct TxtProperty {
    pub key: String,
    pub val: Option<Vec<u8>>,
}

/// The mathematical content of a [`TxtProperty`].
pub struct TxtPropertyView {
    pub key: Seq<char>,
    pub val: Option<Seq<u8>>,
}

impl View for TxtProperty {
    type V = TxtPropertyView;

    open spec fn view(&self) -> TxtPropertyView {
        TxtPropertyView {
            key: self.key@,
            val: match self.val {
                Some(v) => Some(v@),
                None => None,
            },
        }
    }
}

/// The views of a sequence of TXT properties.
pub open spec fn txt_views(s: Seq<TxtProperty>) -> Seq<TxtPropertyView> {
    s.map_values(|p: TxtProperty| p@)
}

/// The value slot of the first property named `key`: `None` when no
/// property has that key, `Some(None)` when the first one has no value.
pub open spec fn txt_slot(props: Seq<TxtPropertyView>, key: Seq<char>) -> Option<Option<Seq<u8>>>
    decreases props.len(),
{
    if props.len() == 0 {
        None
    } else if props[0].key == key {
        Some(props[0].val)
    } else {
        txt_slot(props.drop_first(), key)
    }
}

/// The text value of the first property named `key`, decoded lossily.
pub open spec fn txt_text(props: Seq<TxtPropertyView>, key: Seq<char>) -> Option<Seq<char>> {
    match txt_slot(props, key) {
        Some(Some(b)) => Some(utf8_lossy(b)),
        _ => None,
    }
}

/// The unsigned number (at most `max`) in the first property named `key`.
pub open spec fn txt_number(props: Seq<TxtPropertyView>, key: Seq<char>, max: nat) -> Option<nat> {
    match txt_text(props, key) {
        Some(t) => parsed_unsigned(t, max),
        None => None,
    }
}

/// The TXT key carrying a node's id.
pub open spec fn node_id_key() -> Seq<char> {
    seq!['n', 'o', 'd', 'e', '_', 'i', 'd']
}

/// The TXT key carrying a node's CPU thread count.
pub open spec fn cpu_key() -> Seq<char> {
    seq!['c', 'p', 'u']
}

/// The TXT key carrying a node's RAM in GiB.
pub open spec fn ram_key() -> Seq<char> {
    seq!['r', 'a', 'm', '_', 'g', 'i', 'b']
}

/// Read a string-valued TXT property by key: the value of the first
/// property with that key, decoded lossily, or `None` when that property
/// is missing or has no value.
pub fn extract_txt_string(properties: &[TxtProperty], key: &str) -> (r: Option<String>)
    ensures
        opt_view(r) == txt_text(txt_views(properties@), key@),
{
    let n = properties.len();
    let ghost all = txt_views(properties@);
    let mut i: usize = 0;
    assert(all.skip(0) =~= all);
    while i < n
        invariant
            n == properties@.len(),
            all == txt_views(properties@),
            i <= n,
            txt_slot(all, key@) == txt_slot(all.skip(i as int), key@),
        decreases n - i,
    {
        let p = &properties[i];
        proof {
            assert(all.skip(i as int)[0] == p@);
            assert(all.skip(i as int).drop_first() =~= all.skip(i + 1));
        }
        if same_text(&p.key, key) {
            return match &p.val {
                Some(v) => Some(decode_lossy(v.as_slice())),
                None => None,
            };
        }
        i = i + 1;
    }
    None
}

/// Read an unsigned TXT property by key: `None` if missing, valueless,
/// or not a decimal number that fits in a `u32`.
pub fn extract_txt_u32(properties: &[TxtProperty], key: &str) -> (r: Option<u32>)
    ensures
        r == match txt_number(txt_views(properties@), key@, u32::MAX as nat) {
            Some(v) => Some(v as u32),
            None => None::<u32>,
        },
{
    match extract_txt_string(properties, key) {
        Some(s) => parse_u32(s.as_str()),
        None => None,
    }
}

/// Read an unsigned TXT property by key: `None` if missing, valueless,
/// or not a decimal number that fits in a `u64`.
pub fn extract_txt_u64(properties: &[TxtProperty], key: &str) -> (r: Option<u64>)
    ensures
        r == match txt_number(txt_views(properties@), key@, u64::MAX as nat) {
            Some(v) => Some(v as u64),
            None => None::<u64>,
        },
{
    match extract_txt_string(properties, key) {
        Some(s) => parse_u64(s.as_str()),
        None => None,
    }
}

/// The `node_id` a peer puts in its TXT record, if present.
pub fn extract_peer_node_id(properties: &[TxtProperty]) -> (r: Option<String>)
    ensures
        opt_view(r) == txt_text(txt_views(properties@), node_id_key()),
{
    let r = extract_txt_string(properties, "node_id");
    proof {
        reveal_strlit("node_id");
        assert("node_id"@ =~= node_id_key());
    }
    r
}

// ---------------------------------------------------------------------
// Choosing the address to reach a peer on.
// ---------------------------------------------------------------------

/// A typical LAN address: IPv4, neither loopback nor link-local.
pub open spec fn is_lan_v4(a: IpAddress) -> bool {
    spec_is_ipv4(a) && !spec_is_loopback(a) && !spec_is_link_local_v4(a)
}

/// The first address in `s` that is a LAN IPv4 address.
pub open spec fn first_lan_v4(s: Seq<IpAddress>) -> Option<IpAddress>
    decreases s.len(),
{
    if s.len() == 0 {
        None
    } else if is_lan_v4(s[0]) {
        Some(s[0])
    } else {
        first_lan_v4(s.drop_first())
    }
}

/// The first address in `s` that is not loopback.
pub open spec fn first_non_loopback(s: Seq<IpAddress>) -> Option<IpAddress>
    decreases s.len(),
{
    if s.len() == 0 {
        None
    } else if !spec_is_loopback(s[0]) {
        Some(s[0])
    } else {
        first_non_loopback(s.drop_first())
    }
}

/// The preferred address among those a peer advertises: a LAN IPv4
/// address, else any non-loopback address, else the first one.
pub open spec fn preferred_address(s: Seq<IpAddress>) -> Option<IpAddress> {
    if first_lan_v4(s) is Some {
        first_lan_v4(s)
    } else if first_non_loopback(s) is Some {
        first_non_loopback(s)
    } else if s.len() > 0 {
        Some(s[0])
    } else {
        None
    }
}

proof fn lemma_first_lan_v4(s: Seq<IpAddress>)
    ensures
        first_lan_v4(s) is None <==> forall|i: int| 0 <= i < s.len() ==> !is_lan_v4(#[trigger] s[i]),
        first_lan_v4(s) matches Some(a) ==> exists|k: int|
            0 <= k < s.len() && s[k] == a && is_lan_v4(a) && forall|j: int|
                0 <= j < k ==> !is_lan_v4(#[trigger] s[j]),
    decreases s.len(),
{
    if s.len() > 0 {
        let t = s.drop_first();
        lemma_first_lan_v4(t);
        if !is_lan_v4(s[0]) {
            assert forall|i: int| 1 <= i < s.len() implies s[i] == t[i - 1] by {}
            if first_lan_v4(t) is None {
                assert forall|i: int| 0 <= i < s.len() implies !is_lan_v4(#[trigger] s[i]) by {
                    if i > 0 {
                        assert(s[i] == t[i - 1]);
                    }
                }
            } else {
                let a = first_lan_v4(t)->0;
                let k = choose|k: int|
                    0 <= k < t.len() && t[k] == a && is_lan_v4(a) && forall|j: int|
                        0 <= j < k ==> !is_lan_v4(#[trigger] t[j]);
                assert(s[k + 1] == a);
                assert forall|j: int| 0 <= j < k + 1 implies !is_lan_v4(#[trigger] s[j]) by {
                    if j > 0 {
                        assert(s[j] == t[j - 1]);
                    }
                }
                assert(!(forall|i: int| 0 <= i < s.len() ==> !is_lan_v4(#[trigger] s[i]))) by {
                    assert(is_lan_v4(s[k + 1]));
                }
            }
        }
    }
}

proof fn lemma_first_non_loopback(s: Seq<IpAddress>)
    ensures
        first_non_loopback(s) is None <==> forall|i: int|
            0 <= i < s.len() ==> spec_is_loopback(#[trigger] s[i]),
        first_non_loopback(s) matches Some(a) ==> exists|k: int|
            0 <= k < s.len() && s[k] == a && !spec_is_loopback(a) && forall|j: int|
                0 <= j < k ==> spec_is_loopback(#[trigger] s[j]),
    decreases s.len(),
{
    if s.len() > 0 {
        let t = s.drop_first();
        lemma_first_non_loopback(t);
        if spec_is_loopback(s[0]) {
            if first_non_loopback(t) is None {
                assert forall|i: int| 0 <= i < s.len() implies spec_is_loopback(#[trigger] s[i]) by {
                    if i > 0 {
                        assert(s[i] == t[i - 1]);
                    }
                }
            } else {
                let a = first_non_loopback(t)->0;
                let k = choose|k: int|
                    0 <= k < t.len() && t[k] == a && !spec_is_loopback(a) && forall|j: int|
                        0 <= j < k ==> spec_is_loopback(#[trigger] t[j]);
                assert(s[k + 1] == a);
                assert forall|j: int| 0 <= j < k + 1 implies spec_is_loopback(#[trigger] s[j]) by {
                    if j > 0 {
                        assert(s[j] == t[j - 1]);
                    }
                }
                assert(!(forall|i: int| 0 <= i < s.len() ==> spec_is_loopback(#[trigger] s[i]))) by {
                    assert(!spec_is_loopback(s[k + 1]));
                }
            }
        }
    }
}

/// The address preference, stated over the addresses themselves: nothing
/// is chosen only from no addresses; when some address is a LAN IPv4
/// address the first such address is chosen; when none is but some
/// address is not loopback, the first non-loopback address is chosen;
/// when every address is loopback, the first address is chosen.
pub proof fn law_address_preference(s: Seq<IpAddress>)
    ensures
        preferred_address(s) is None <==> s.len() == 0,
        (exists|i: int| 0 <= i < s.len() && is_lan_v4(#[trigger] s[i])) ==> exists|k: int|
            0 <= k < s.len() && preferred_address(s) == Some(s[k]) && is_lan_v4(s[k]) && forall|
                j: int,
            | 0 <= j < k ==> !is_lan_v4(#[trigger] s[j]),
        (forall|i: int| 0 <= i < s.len() ==> !is_lan_v4(#[trigger] s[i])) && (exists|i: int|
            0 <= i < s.len() && !spec_is_loopback(#[trigger] s[i])) ==> exists|k: int|
            0 <= k < s.len() && preferred_address(s) == Some(s[k]) && !spec_is_loopback(s[k])
                && forall|j: int| 0 <= j < k ==> spec_is_loopback(#[trigger] s[j]),
        (forall|i: int| 0 <= i < s.len() ==> spec_is_loopback(#[trigger] s[i])) && s.len() > 0
            ==> preferred_address(s) == Some(s[0]),
{
    lemma_first_lan_v4(s);
    lemma_first_non_loopback(s);
}

/// Choose the most useful address from a peer's advertised addresses:
/// the first IPv4 address that is neither loopback nor link-local, else
/// the first non-loopback address (covers IPv6-only peers), else the
/// first address at all, so that something is still tried.
pub fn pick_peer_address(addresses: &[IpAddress]) -> (r: Option<IpAddress>)
    ensures
        r == preferred_address(addresses@),
        r is None <==> addresses@.len() == 0,
        (exists|i: int| 0 <= i < addresses@.len() && is_lan_v4(#[trigger] addresses@[i])) ==> exists|
            k: int,
        |
            0 <= k < addresses@.len() && r == Some(addresses@[k]) && is_lan_v4(addresses@[k])
                && forall|j: int| 0 <= j < k ==> !is_lan_v4(#[trigger] addresses@[j]),
        (forall|i: int| 0 <= i < addresses@.len() ==> !is_lan_v4(#[trigger] addresses@[i])) && (
        exists|i: int| 0 <= i < addresses@.len() && !spec_is_loopback(#[trigger] addresses@[i]))
            ==> exists|k: int|
            0 <= k < addresses@.len() && r == Some(addresses@[k]) && !spec_is_loopback(
                addresses@[k],
            ) && forall|j: int| 0 <= j < k ==> spec_is_loopback(#[trigger] addresses@[j]),
        (forall|i: int| 0 <= i < addresses@.len() ==> spec_is_loopback(#[trigger] addresses@[i]))
            && addresses@.len() > 0 ==> r == Some(addresses@[0]),
{
    let r = first_preferred(addresses);
    proof {
        law_address_preference(addresses@);
    }
    r
}

fn first_preferred(addresses: &[IpAddress]) -> (r: Option<IpAddress>)
    ensures
        r == preferred_address(addresses@),
{
    let n = addresses.len();
    let ghost s = addresses@;
    let mut i: usize = 0;
    assert(s.skip(0) =~= s);
    while i < n
        invariant
            n == s.len(),
            s == addresses@,
            i <= n,
            first_lan_v4(s) == first_lan_v4(s.skip(i as int)),
        decreases n - i,
    {
        let a = addresses[i];
        proof {
            assert(s.skip(i as int)[0] == a);
            assert(s.skip(i as int).drop_first() =~= s.skip(i + 1));
        }
        if a.is_ipv4() && !a.is_loopback() && !a.is_link_local_v4() {
            return Some(a);
        }
        i = i + 1;
    }
    let mut j: usize = 0;
    while j < n
        invariant
            n == s.len(),
            s == addresses@,
            j <= n,
            first_lan_v4(s) is None,
            first_non_loopback(s) == first_non_loopback(s.skip(j as int)),
        decreases n - j,
    {
        let a = addresses[j];
        proof {
            assert(s.skip(j as int)[0] == a);
            assert(s.skip(j as int).drop_first() =~= s.skip(j + 1));
        }
        if !a.is_loopback() {
            return Some(a);
        }
        j = j + 1;
    }
    if n > 0 {
        Some(addresses[0])
    } else {
        None
    }
}

// ---------------------------------------------------------------------
// Advertising this node.
// ---------------------------------------------------------------------

/// The mDNS instance name of a node: `sangam-node-` and the first 8 bytes
/// of its id.
pub fn instance_name(node_id: &str) -> (s: String)
    requires
        on_char_boundary(node_id@, 8),
    ensures
        s@ == "sangam-node-"@ + byte_prefix(node_id@, 8),
{
    let head = match prefix_bytes(node_id, 8) {
        Some(p) => p,
        None => node_id,
    };
    let mut s = owned("sangam-node-");
    s.append(head);
    s
}

/// The host name an instance advertises: the instance name under `.local.`.
pub fn host_name(instance: &str) -> (s: String)
    ensures
        s@ == instance@ + ".local."@,
{
    let mut s = owned(instance);
    s.append(".local.");
    s
}

/// The TXT properties a node advertises: its id, its CPU thread count
/// and its RAM in GiB, in that order.
pub fn advertised_properties(node_id: &str, specs: &NodeSpecs) -> (props: Vec<(String, String)>)
    ensures
        props@.len() == 3,
        props@[0].0@ == node_id_key() && props@[0].1@ == node_id@,
        props@[1].0@ == cpu_key() && props@[1].1@ == decimal(specs.cpu_threads as nat),
        props@[2].0@ == ram_key() && props@[2].1@ == decimal(specs.ram_gib as nat),
{
    let mut props: Vec<(String, String)> = Vec::new();
    props.push((owned("node_id"), owned(node_id)));
    props.push((owned("cpu"), render_u64(specs.cpu_threads as u64)));
    props.push((owned("ram_gib"), render_u64(specs.ram_gib)));
    proof {
        reveal_strlit("node_id");
        reveal_strlit("cpu");
        reveal_strlit("ram_gib");
        assert("node_id"@ =~= node_id_key());
        assert("cpu"@ =~= cpu_key());
        assert("ram_gib"@ =~= ram_key());
    }
    props
}

// ---------------------------------------------------------------------
// Reacting to what mDNS reports.
// ---------------------------------------------------------------------

/// The number of leading bytes of a node id used to tag task ids.
pub open spec fn tag_len(p: Seq<char>) -> int {
    if text_bytes(p).len() < 8 {
        text_bytes(p).len() as int
    } else {
        8
    }
}

/// The tag of a peer in the ids of tasks sent to it: the first (up to) 8
/// bytes of its node id, or `anon` for a peer that gave none.
pub open spec fn peer_tag(pid: Option<Seq<char>>) -> Seq<char> {
    match pid {
        Some(p) => byte_prefix(p, tag_len(p)),
        None => seq!['a', 'n', 'o', 'n'],
    }
}

/// A node id can be tagged: its first (up to) 8 bytes end on a
/// character boundary.
pub open spec fn taggable(pid: Option<Seq<char>>) -> bool {
    pid matches Some(p) ==> on_char_boundary(p, tag_len(p))
}

/// The first (up to) 8 bytes of a node id, when they end on a character
/// boundary; `None` when slicing there would split a character.
pub fn node_id_tag(node_id: &str) -> (r: Option<&str>)
    ensures
        r is Some <==> taggable(Some(node_id@)),
        r matches Some(t) ==> t@ == peer_tag(Some(node_id@)),
{
    let n = node_id.as_bytes().len();
    let k = if n < 8 {
        n
    } else {
        8
    };
    prefix_bytes(node_id, k)
}

/// The id of the copy of a task sent to a given peer: the base id, a
/// dash, and the peer's tag.
pub open spec fn outbound_task_id(base: Seq<char>, pid: Option<Seq<char>>) -> Seq<char> {
    base + seq!['-'] + peer_tag(pid)
}

/// The peer has been contacted before in this session.
pub open spec fn seen_before(contacted: Set<Seq<char>>, pid: Option<Seq<char>>) -> bool {
    pid matches Some(p) && contacted.contains(p)
}

/// The contacted peers after a resolution from `pid`.
pub open spec fn session_after(contacted: Set<Seq<char>>, pid: Option<Seq<char>>) -> Set<Seq<char>> {
    match pid {
        Some(p) => contacted.insert(p),
        None => contacted,
    }
}

/// Whether a resolution from `pid` is answered with the demo task: on
/// first contact, when the peer can be reached at some address.
pub open spec fn answers(contacted: Set<Seq<char>>, pid: Option<Seq<char>>, reachable: bool) -> bool {
    !seen_before(contacted, pid) && reachable
}

/// A connection the node should open: send `task` to `target`.
pub struct Dispatch {
    pub target: SocketAddress,
    /// Our own node id, sent as the message's sender.
    pub sender_id: String,
    pub task: Task,
    /// The node id of the peer, recorded as the task's worker.
    pub peer_id: Option<String>,
}

/// A service resolved by mDNS, as plain values.
pub struct ResolvedService {
    pub fullname: String,
    pub port: u16,
    pub addresses: Vec<IpAddress>,
    pub properties: Vec<TxtProperty>,
}

/// What the node does about a resolved service.
pub struct ResolvedOutcome {
    /// The service is this node's own announcement; nothing else happens.
    pub own_announcement: bool,
    /// The node id the peer advertises.
    pub peer_id: Option<String>,
    /// The address chosen to reach the peer.
    pub address: Option<IpAddress>,
    /// First time this session the peer is seen with an id and address:
    /// worth a "peer joined" log line.
    pub newly_seen: bool,
    /// First contact with this peer this session (always for anonymous
    /// peers): worth announcing, and answering if there is an address.
    pub first_contact: bool,
    /// The demo task to send, if any.
    pub dispatch: Option<Dispatch>,
}

/// The session state of discovery: our own id, and the peers we have
/// already contacted.
pub struct DiscoveryState {
    node_id: String,
    contacted: Vec<String>,
}

/// The mathematical content of a [`DiscoveryState`].
pub struct DiscoveryView {
    pub node_id: Seq<char>,
    pub contacted: Set<Seq<char>>,
}

spec fn text_views(v: Seq<String>) -> Seq<Seq<char>> {
    v.map_values(|s: String| s@)
}

impl View for DiscoveryState {
    type V = DiscoveryView;

    closed spec fn view(&self) -> DiscoveryView {
        DiscoveryView { node_id: self.node_id@, contacted: text_views(self.contacted@).to_set() }
    }
}

/// A CPU count from TXT, as the registry stores it.
pub open spec fn advertised_cpu(props: Seq<TxtPropertyView>) -> Option<u32> {
    match txt_number(props, cpu_key(), u32::MAX as nat) {
        Some(v) => Some(v as u32),
        None => None,
    }
}

/// A RAM size from TXT, as the registry stores it.
pub open spec fn advertised_ram(props: Seq<TxtPropertyView>) -> Option<u64> {
    match txt_number(props, ram_key(), u64::MAX as nat) {
        Some(v) => Some(v as u64),
        None => None,
    }
}

/// Entry `i` of `s` carries the service name `name` and is listed first
/// among the entries with that name at time `now`: none of them has a
/// better status (Online before Stale before Offline).
pub open spec fn first_listed_named(s: Seq<PeerEntry>, name: Seq<char>, now: u64, i: int) -> bool {
    &&& 0 <= i < s.len()
    &&& s[i].name == name
    &&& forall|j: int|
        0 <= j < s.len() && s[j].name == name ==> spec_rank(snapshot(s[i], now).status) <= spec_rank(
            snapshot(#[trigger] s[j], now).status,
        )
}

/// Whether a resolution can be handled: a peer that would be answered
/// has a node id whose first (up to) 8 bytes end on a character boundary.
pub open spec fn may_resolve(d: DiscoveryView, service: ResolvedService) -> bool {
    let pid = txt_text(txt_views(service.properties@), node_id_key());
    pid != Some(d.node_id) && answers(d.contacted, pid, preferred_address(service.addresses@) is Some)
        ==> taggable(pid)
}

/// What handling a resolved service does: `before`/`after` are the
/// session, `reg0`/`reg1` the registry, before and after the call, and
/// `out` the outcome returned.
pub open spec fn resolution(
    before: DiscoveryView,
    after: DiscoveryView,
    reg0: Seq<PeerEntry>,
    reg1: Seq<PeerEntry>,
    service: ResolvedService,
    demo_task: Task,
    out: ResolvedOutcome,
) -> bool {
    let props = txt_views(service.properties@);
    let pid = txt_text(props, node_id_key());
    let picked = preferred_address(service.addresses@);
    let seen = seen_before(before.contacted, pid);
    if pid == Some(before.node_id) {
        &&& out.own_announcement
        &&& out.dispatch is None
        &&& !out.newly_seen
        &&& !out.first_contact
        &&& after == before
        &&& reg1 == reg0
    } else {
        &&& !out.own_announcement
        &&& opt_view(out.peer_id) == pid
        &&& out.address == picked
        &&& after.node_id == before.node_id
        &&& after.contacted == session_after(before.contacted, pid)
        &&& (pid is Some && picked is Some) ==> exists|now: u64|
            reg1 == upserted(
                reg0,
                pid->0,
                service.fullname@,
                SocketAddress { ip: picked->0, port: service.port },
                advertised_cpu(props),
                advertised_ram(props),
                now,
            )
        &&& !(pid is Some && picked is Some) ==> reg1 == reg0
        &&& out.newly_seen == (pid is Some && picked is Some && !seen)
        &&& out.first_contact == !seen
        &&& (out.dispatch is Some <==> answers(before.contacted, pid, picked is Some))
        &&& out.dispatch matches Some(d) ==> {
            &&& d.target == SocketAddress { ip: picked->0, port: service.port }
            &&& d.sender_id@ == before.node_id
            &&& opt_view(d.peer_id) == pid
            &&& d.task@ == (TaskView {
                task_id: outbound_task_id(demo_task.task_id@, pid),
                task_type: demo_task.task_type,
                numbers: demo_task.numbers@,
            })
        }
    }
}

fn copy_task(base: &Task, task_id: String) -> (t: Task)
    ensures
        t@ == (TaskView { task_id: task_id@, task_type: base.task_type, numbers: base.numbers@ }),
{
    Task { task_id, task_type: base.task_type, numbers: base.numbers.clone() }
}

impl DiscoveryState {
    #[verifier::type_invariant]
    closed spec fn contacted_once(self) -> bool {
        text_views(self.contacted@).no_duplicates()
    }

    /// A fresh session for the node `node_id`, having contacted no one.
    pub fn new(node_id: &str) -> (d: Self)
        ensures
            d@.node_id == node_id@,
            d@.contacted == Set::<Seq<char>>::empty(),
    {
        let d = DiscoveryState { node_id: owned(node_id), contacted: Vec::new() };
        assert(text_views(d.contacted@) =~= Seq::<Seq<char>>::empty());
        assert(d@.contacted =~= Set::<Seq<char>>::empty());
        d
    }

    fn contacted_index(&self, id: &str) -> (r: Option<usize>)
        ensures
            r is Some <==> self@.contacted.contains(id@),
            r matches Some(i) ==> i < self.contacted@.len() && self.contacted@[i as int]@ == id@,
    {
        let n = self.contacted.len();
        let mut i: usize = 0;
        while i < n
            invariant
                n == self.contacted@.len(),
                i <= n,
                forall|j: int| 0 <= j < i ==> self.contacted@[j]@ != id@,
            decreases n - i,
        {
            if same_text(&self.contacted[i], id) {
                proof {
                    assert(text_views(self.contacted@)[i as int] == id@);
                    assert(text_views(self.contacted@).contains(id@));
                }
                return Some(i);
            }
            i = i + 1;
        }
        proof {
            if self@.contacted.contains(id@) {
                let j = choose|j: int|
                    0 <= j < text_views(self.contacted@).len() && text_views(self.contacted@)[j]
                        == id@;
                assert(self.contacted@[j]@ == id@);
            }
        }
        None
    }

    /// Whether the peer `id` has already been contacted this session.
    pub fn has_contacted(&self, id: &str) -> (b: bool)
        ensures
            b == self@.contacted.contains(id@),
    {
        self.contacted_index(id).is_some()
    }

    /// Note `id` as contacted; true if it was not contacted before.
    fn note_contacted(&mut self, id: &str) -> (fresh: bool)
        ensures
            fresh == !old(self)@.contacted.contains(id@),
            final(self)@.contacted == old(self)@.contacted.insert(id@),
            final(self)@.node_id == old(self)@.node_id,
    {
        proof {
            use_type_invariant(&*self);
        }
        if self.contacted_index(id).is_some() {
            proof {
                assert(self@.contacted =~= self@.contacted.insert(id@));
            }
            false
        } else {
            let ghost before = text_views(self.contacted@);
            let mut c: Vec<String> = Vec::new();
            std::mem::swap(&mut c, &mut self.contacted);
            c.push(owned(id));
            proof {
                assert(text_views(c@) =~= before.push(id@));
                before.lemma_push_to_set_commute(id@);
            }
            self.contacted = c;
            true
        }
    }

    /// Forget that `id` was contacted, so that it is answered again when
    /// it comes back.
    pub fn forget(&mut self, id: &str)
        ensures
            final(self)@.contacted == old(self)@.contacted.remove(id@),
            final(self)@.node_id == old(self)@.node_id,
    {
        proof {
            use_type_invariant(&*self);
        }
        match self.contacted_index(id) {
            Some(i) => {
                let ghost before = text_views(self.contacted@);
                let mut c: Vec<String> = Vec::new();
                std::mem::swap(&mut c, &mut self.contacted);
                let _ = c.remove(i);
                proof {
                    let after = text_views(c@);
                    assert(after =~= before.remove(i as int));
                    assert forall|x: Seq<char>| after.to_set().contains(x)
                        <==> before.to_set().remove(id@).contains(x) by {
                        if after.to_set().contains(x) {
                            assert(after.contains(x));
                            let k = choose|k: int| 0 <= k < after.len() && after[k] == x;
                            if k < i {
                                assert(before[k] == x);
                                assert(before[i as int] == id@);
                                assert(before.contains(x));
                            } else {
                                assert(before[k + 1] == x);
                                assert(before[i as int] == id@);
                                assert(before.contains(x));
                            }
                        }
                        if before.to_set().remove(id@).contains(x) {
                            assert(before.contains(x));
                            let k = choose|k: int| 0 <= k < before.len() && before[k] == x;
                            assert(k != i);
                            if k < i {
                                assert(after[k] == x);
                                assert(after.contains(x));
                            } else {
                                assert(after[k - 1] == x);
                                assert(after.contains(x));
                            }
                        }
                    }
                    assert(after.to_set() =~= before.to_set().remove(id@));
                }
                self.contacted = c;
            },
            None => {
                proof {
                    assert(self@.contacted =~= self@.contacted.remove(id@));
                }
            },
        }
    }

    /// Decide what to do about a resolved service.
    ///
    /// A peer is only answered when its id can be tagged (its first 8
    /// bytes end on a character boundary); `requires` leaves the other
    /// case out, and [`DiscoveryState::try_on_resolved`] tests it first.
    ///
    /// Our own announcement (same node id) is ignored. Otherwise a peer
    /// with both an id and a reachable address is mirrored into
    /// `registry` on every resolution; the first contact with a peer in
    /// this session yields the demo task, re-tagged for that peer, to be
    /// sent to its preferred address.
    pub fn on_resolved(
        &mut self,
        registry: &mut PeerRegistry,
        service: &ResolvedService,
        demo_task: &Task,
    ) -> (out: ResolvedOutcome)
        requires
            may_resolve(old(self)@, *service),
        ensures
            resolution(
                old(self)@,
                final(self)@,
                old(registry)@,
                final(registry)@,
                *service,
                *demo_task,
                out,
            ),
    {
        let peer_id = extract_peer_node_id(service.properties.as_slice());
        let is_self = match &peer_id {
            Some(p) => same_text(p, self.node_id.as_str()),
            None => false,
        };
        if is_self {
            return ResolvedOutcome {
                own_announcement: true,
                peer_id,
                address: None,
                newly_seen: false,
                first_contact: false,
                dispatch: None,
            };
        }
        let picked = pick_peer_address(service.addresses.as_slice());
        let mut newly_seen = false;
        match (&peer_id, picked) {
            (Some(pid), Some(ip)) => {
                let cpu_threads = extract_txt_u32(service.properties.as_slice(), "cpu");
                let ram_gib = extract_txt_u64(service.properties.as_slice(), "ram_gib");
                proof {
                    reveal_strlit("cpu");
                    reveal_strlit("ram_gib");
                    assert("cpu"@ =~= cpu_key());
                    assert("ram_gib"@ =~= ram_key());
                }
                newly_seen = !self.has_contacted(pid.as_str());
                registry.upsert(
                    pid.as_str(),
                    service.fullname.as_str(),
                    SocketAddress { ip, port: service.port },
                    cpu_threads,
                    ram_gib,
                );
            },
            _ => {},
        }
        let first_contact = match &peer_id {
            Some(pid) => self.note_contacted(pid.as_str()),
            None => true,
        };
        let dispatch = if first_contact {
            match picked {
                Some(ip) => {
                    let tag = match &peer_id {
                        Some(pid) => match node_id_tag(pid.as_str()) {
                            Some(t) => t,
                            None => pid.as_str(),
                        },
                        None => "anon",
                    };
                    let mut task_id = owned(demo_task.task_id.as_str());
                    task_id.append("-");
                    task_id.append(tag);
                    proof {
                        reveal_strlit("-");
                        reveal_strlit("anon");
                        assert("anon"@ =~= seq!['a', 'n', 'o', 'n']);
                        assert(task_id@ =~= outbound_task_id(demo_task.task_id@, opt_view(peer_id)));
                    }
                    let peer_copy = match &peer_id {
                        Some(pid) => Some(pid.clone()),
                        None => None,
                    };
                    Some(
                        Dispatch {
                            target: SocketAddress { ip, port: service.port },
                            sender_id: self.node_id.clone(),
                            task: copy_task(demo_task, task_id),
                            peer_id: peer_copy,
                        },
                    )
                },
                None => None,
            }
        } else {
            None
        };
        ResolvedOutcome { own_announcement: false, peer_id, address: picked, newly_seen, first_contact, dispatch }
    }

    /// Handle a resolved service when it can be handled: `None`, with the
    /// session and the registry untouched, for a peer that would be
    /// answered but whose node id cannot be tagged (its first 8 bytes split
    /// a character); otherwise what [`DiscoveryState::on_resolved`] does.
    pub fn try_on_resolved(
        &mut self,
        registry: &mut PeerRegistry,
        service: &ResolvedService,
        demo_task: &Task,
    ) -> (out: Option<ResolvedOutcome>)
        ensures
            out is Some <==> may_resolve(old(self)@, *service),
            out is None ==> final(self)@ == old(self)@ && final(registry)@ == old(registry)@,
            out matches Some(o) ==> resolution(
                old(self)@,
                final(self)@,
                old(registry)@,
                final(registry)@,
                *service,
                *demo_task,
                o,
            ),
    {
        let peer_id = extract_peer_node_id(service.properties.as_slice());
        let can = match &peer_id {
            Some(p) => {
                if same_text(p, self.node_id.as_str()) || self.has_contacted(p.as_str()) {
                    true
                } else if pick_peer_address(service.addresses.as_slice()).is_none() {
                    true
                } else {
                    node_id_tag(p.as_str()).is_some()
                }
            },
            None => true,
        };
        if can {
            Some(self.on_resolved(registry, service, demo_task))
        } else {
            None
        }
    }

    /// React to a service that left the network: the registry is keyed
    /// by node id but removal events only carry the service name, so the
    /// first listed peer with that name (the one with the best status) is
    /// dropped from `registry` and forgotten as contacted. Returns the id of
    /// the peer dropped. Among peers with the same name and status, which
    /// one comes first is left open.
    pub fn on_removed(&mut self, registry: &mut PeerRegistry, fullname: &str) -> (gone: Option<String>)
        ensures
            final(self)@.node_id == old(self)@.node_id,
            (exists|i: int| 0 <= i < old(registry)@.len() && old(registry)@[i].name == fullname@)
                <==> gone is Some,
            gone matches Some(id) ==> {
                &&& exists|now: u64, i: int|
                    first_listed_named(old(registry)@, fullname@, now, i) && old(registry)@[i].id
                        == id@
                &&& final(registry)@ == removed(old(registry)@, id@)
                &&& final(self)@.contacted == old(self)@.contacted.remove(id@)
            },
            gone is None ==> final(registry)@ == old(registry)@ && final(self)@ == old(self)@,
    {
        let listed = registry.list();
        let ghost now = choose|now: u64|
            peer_views(listed@).to_multiset() == snapshots(registry@, now).to_multiset();
        let ghost sn = snapshots(registry@, now);
        let n = listed.len();
        let mut i: usize = 0;
        let mut found: Option<usize> = None;
        while i < n
            invariant_except_break
                found is None,
            invariant
                n == listed@.len(),
                i <= n,
                forall|j: int| 0 <= j < i ==> listed@[j].name@ != fullname@,
            ensures
                found matches Some(f) ==> f < n && listed@[f as int].name@ == fullname@ && forall|
                    j: int,
                | 0 <= j < f ==> listed@[j].name@ != fullname@,
                found is None ==> forall|j: int| 0 <= j < n ==> listed@[j].name@ != fullname@,
            decreases n - i,
        {
            if same_text(&listed[i].name, fullname) {
                found = Some(i);
                break;
            }
            i = i + 1;
        }
        proof {
            peer_views(listed@).to_multiset_ensures();
            sn.to_multiset_ensures();
            assert(sn.len() == registry@.len());
            assert(peer_views(listed@).len() == n);
        }
        match found {
            Some(f) => {
                let victim = &listed[f];
                proof {
                    assert(peer_views(listed@)[f as int] == victim@);
                    assert(peer_views(listed@).contains(victim@));
                    assert(peer_views(listed@).to_multiset().count(victim@) > 0);
                    assert(sn.to_multiset().count(victim@) > 0);
                    assert(sn.contains(victim@));
                    let k = choose|k: int| 0 <= k < sn.len() && sn[k] == victim@;
                    assert(registry@[k].name == fullname@ && registry@[k].id == victim.id@);
                    let pv = peer_views(listed@);
                    assert forall|j: int|
                        0 <= j < registry@.len() && registry@[j].name == fullname@ implies spec_rank(
                        snapshot(registry@[k], now).status,
                    ) <= spec_rank(snapshot(#[trigger] registry@[j], now).status) by {
                        assert(sn[j] == snapshot(registry@[j], now));
                        assert(sn.contains(sn[j]));
                        assert(sn.to_multiset().count(sn[j]) > 0);
                        assert(pv.to_multiset().count(sn[j]) > 0);
                        assert(pv.contains(sn[j]));
                        let jj = choose|jj: int| 0 <= jj < pv.len() && pv[jj] == sn[j];
                        assert(listed@[jj].name@ == fullname@);
                        if jj > f {
                            assert(display_sorted(pv));
                            assert(display_le(pv[f as int], pv[jj]));
                        }
                    }
                    assert(first_listed_named(registry@, fullname@, now, k));
                }
                registry.remove(victim.id.as_str());
                self.forget(victim.id.as_str());
                Some(victim.id.clone())
            },
            None => {
                proof {
                    assert forall|k: int| 0 <= k < registry@.len() implies registry@[k].name
                        != fullname@ by {
                        assert(sn[k] == sn[k]);
                        assert(sn.contains(sn[k]));
                        assert(sn.to_multiset().count(sn[k]) > 0);
                        assert(peer_views(listed@).to_multiset().count(sn[k]) > 0);
                        assert(peer_views(listed@).contains(sn[k]));
                        let j = choose|j: int| 0 <= j < n && peer_views(listed@)[j] == sn[k];
                    }
                }
                None
            },
        }
    }
}

/// A peer that advertises a node id is answered at most once per
/// session: once a resolution from it has been handled, no later
/// resolution from it is answered, whatever its address.
pub proof fn law_named_peer_is_answered_once(
    contacted: Set<Seq<char>>,
    p: Seq<char>,
    reachable: bool,
)
    ensures
        !answers(session_after(contacted, Some(p)), Some(p), reachable),
        seen_before(session_after(contacted, Some(p)), Some(p)),
{
}

/// A peer that left (and was forgotten) is answered again when it
/// returns with an address.
pub proof fn law_returning_peer_is_answered_again(contacted: Set<Seq<char>>, p: Seq<char>)
    ensures
        answers(session_after(contacted, Some(p)).remove(p), Some(p), true),
{
}

/// A peer that advertises no node id cannot be told apart from others,
/// so each of its reachable resolutions is answered.
pub proof fn law_anonymous_peer_is_always_answered(contacted: Set<Seq<char>>)
    ensures
        answers(contacted, None, true),
        session_after(contacted, None) == contacted,
{
}

} // verus!
