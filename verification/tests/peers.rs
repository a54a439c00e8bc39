use sangam::net::{IpAddress, SocketAddress};
use sangam::peers::registry::{
    classify, PeerRegistry, PeerStatus, EVICTION_THRESHOLD, NANOS_PER_SEC, OFFLINE_AFTER, STALE_AFTER,
};

const SEC: u64 = NANOS_PER_SEC;

fn fixture_addr() -> SocketAddress {
    SocketAddress { ip: IpAddress::V4(192, 168, 1, 5), port: 8080 }
}

#[test]
fn classify_buckets_durations_into_status() {
    assert_eq!(classify(0), PeerStatus::Online);
    assert_eq!(classify(STALE_AFTER - 1), PeerStatus::Online);
    assert_eq!(classify(STALE_AFTER), PeerStatus::Stale);
    assert_eq!(classify(OFFLINE_AFTER - 1), PeerStatus::Stale);
    assert_eq!(classify(OFFLINE_AFTER), PeerStatus::Offline);
    assert_eq!(classify(3600 * SEC), PeerStatus::Offline);
}

#[test]
fn peer_status_orders_online_before_stale_before_offline() {
    let mut v = vec![PeerStatus::Offline, PeerStatus::Online, PeerStatus::Stale];
    v.sort();
    assert_eq!(v, vec![PeerStatus::Online, PeerStatus::Stale, PeerStatus::Offline]);
}

#[test]
fn peer_status_rank_matches_display_order() {
    assert_eq!(PeerStatus::Online.rank(), 0);
    assert_eq!(PeerStatus::Stale.rank(), 1);
    assert_eq!(PeerStatus::Offline.rank(), 2);
}

#[test]
fn upsert_inserts_a_new_peer() {
    let mut reg = PeerRegistry::new();
    reg.upsert("nid-1", "alex-mbp", fixture_addr(), Some(8), Some(16));
    let peers = reg.list();
    assert_eq!(peers.len(), 1);
    assert_eq!(peers[0].id, "nid-1");
    assert_eq!(peers[0].name, "alex-mbp");
    assert_eq!(peers[0].cpu_threads, Some(8));
    assert_eq!(peers[0].ram_gib, Some(16));
    assert_eq!(peers[0].status, PeerStatus::Online);
}

#[test]
fn upsert_refreshes_last_seen_for_existing_peer() {
    let mut reg = PeerRegistry::new();
    reg.upsert_at("nid-1", "alex-mbp", fixture_addr(), None, None, 0);
    // Sixty seconds later the peer has gone stale...
    assert_eq!(reg.list_at(60 * SEC)[0].status, PeerStatus::Stale);
    // ...and a fresh announcement brings it back to Online.
    reg.upsert_at("nid-1", "alex-mbp", fixture_addr(), None, None, 60 * SEC);
    assert_eq!(reg.list_at(60 * SEC)[0].status, PeerStatus::Online);
    assert_eq!(reg.len(), 1);
}

#[test]
fn upsert_preserves_existing_specs_when_called_with_none() {
    let mut reg = PeerRegistry::new();
    reg.upsert("nid-1", "alex-mbp", fixture_addr(), Some(8), Some(16));
    reg.upsert("nid-1", "alex-mbp", fixture_addr(), None, None);
    let peers = reg.list();
    assert_eq!(peers[0].cpu_threads, Some(8));
    assert_eq!(peers[0].ram_gib, Some(16));
}

#[test]
fn upsert_replaces_name_address_and_advertised_specs() {
    let mut reg = PeerRegistry::new();
    reg.upsert_at("nid-1", "old-name", fixture_addr(), Some(8), None, 0);
    let moved = SocketAddress { ip: IpAddress::V4(10, 0, 0, 9), port: 9090 };
    reg.upsert_at("nid-1", "new-name", moved, Some(4), Some(32), 5);
    let peers = reg.list_at(5);
    assert_eq!(peers.len(), 1);
    assert_eq!(peers[0].name, "new-name");
    assert_eq!(peers[0].addr, moved);
    assert_eq!(peers[0].cpu_threads, Some(4));
    assert_eq!(peers[0].ram_gib, Some(32));
}

#[test]
fn remove_drops_the_peer() {
    let mut reg = PeerRegistry::new();
    reg.upsert("nid-1", "alex-mbp", fixture_addr(), None, None);
    assert_eq!(reg.len(), 1);
    reg.remove("nid-1");
    assert!(reg.is_empty());
}

#[test]
fn remove_of_unknown_peer_changes_nothing() {
    let mut reg = PeerRegistry::new();
    reg.upsert("nid-1", "alex-mbp", fixture_addr(), None, None);
    reg.remove("nid-2");
    assert_eq!(reg.len(), 1);
}

#[test]
fn list_at_reports_stale_after_threshold() {
    let mut reg = PeerRegistry::new();
    reg.upsert_at("nid-1", "alex-mbp", fixture_addr(), None, None, SEC);
    let peers = reg.list_at(SEC + STALE_AFTER + SEC);
    assert_eq!(peers[0].status, PeerStatus::Stale);
}

#[test]
fn list_at_reports_offline_after_threshold() {
    let mut reg = PeerRegistry::new();
    reg.upsert_at("nid-1", "alex-mbp", fixture_addr(), None, None, SEC);
    let peers = reg.list_at(SEC + OFFLINE_AFTER + SEC);
    assert_eq!(peers[0].status, PeerStatus::Offline);
    assert!(peers[0].last_seen_secs_ago >= OFFLINE_AFTER / SEC);
    assert_eq!(peers[0].last_seen_secs_ago, 121);
}

#[test]
fn list_at_before_last_seen_counts_as_just_seen() {
    let mut reg = PeerRegistry::new();
    reg.upsert_at("nid-1", "alex-mbp", fixture_addr(), None, None, 50 * SEC);
    let peers = reg.list_at(10 * SEC);
    assert_eq!(peers[0].last_seen_secs_ago, 0);
    assert_eq!(peers[0].status, PeerStatus::Online);
}

#[test]
fn list_sorts_online_peers_before_offline() {
    let mut reg = PeerRegistry::new();
    let now = OFFLINE_AFTER + SEC;
    reg.upsert_at("nid-online", "zeta", fixture_addr(), None, None, now);
    reg.upsert_at("nid-offline", "alpha", fixture_addr(), None, None, 0);
    let peers = reg.list_at(now);
    assert_eq!(peers[0].name, "zeta", "online peer comes first");
    assert_eq!(peers[1].name, "alpha");
}

#[test]
fn list_sorts_peers_of_equal_status_by_name() {
    let mut reg = PeerRegistry::new();
    reg.upsert_at("c", "charlie", fixture_addr(), None, None, 0);
    reg.upsert_at("a", "alpha", fixture_addr(), None, None, 0);
    reg.upsert_at("b", "bravo", fixture_addr(), None, None, 0);
    let names: Vec<String> = reg.list_at(0).into_iter().map(|p| p.name).collect();
    assert_eq!(names, vec!["alpha", "bravo", "charlie"]);
}

#[test]
fn evict_offline_drops_only_long_gone_peers() {
    let mut reg = PeerRegistry::new();
    let now = EVICTION_THRESHOLD + SEC;
    reg.upsert_at("recent", "a", fixture_addr(), None, None, now);
    reg.upsert_at("ancient", "b", fixture_addr(), None, None, 0);
    reg.evict_offline_at(now);
    let ids: Vec<String> = reg.list_at(now).into_iter().map(|p| p.id).collect();
    assert_eq!(ids, vec!["recent"]);
}

#[test]
fn evict_offline_keeps_peers_just_under_the_threshold() {
    let mut reg = PeerRegistry::new();
    reg.upsert_at("edge", "a", fixture_addr(), None, None, 0);
    reg.evict_offline_at(EVICTION_THRESHOLD - 1);
    assert_eq!(reg.len(), 1);
    reg.evict_offline_at(EVICTION_THRESHOLD);
    assert!(reg.is_empty());
}

#[test]
fn evict_offline_keeps_freshly_seen_peers() {
    let mut reg = PeerRegistry::new();
    reg.upsert("nid-1", "alex-mbp", fixture_addr(), None, None);
    reg.evict_offline();
    assert_eq!(reg.len(), 1);
}

#[test]
fn liveness_is_judged_below_the_millisecond() {
    let mut reg = PeerRegistry::new();
    // Seen 0.4 ms after start, listed 30 000.2 ms after start: unseen for
    // 29 999.8 ms, still under the 30 s threshold.
    reg.upsert_at("nid-1", "alex-mbp", fixture_addr(), None, None, 400_000);
    let peers = reg.list_at(30_000_200_000);
    assert_eq!(peers[0].status, PeerStatus::Online);
    assert_eq!(peers[0].last_seen_secs_ago, 29);
    let peers = reg.list_at(30_000_400_000);
    assert_eq!(peers[0].status, PeerStatus::Stale);
    assert_eq!(peers[0].last_seen_secs_ago, 30);
}
