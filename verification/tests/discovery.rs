use sangam::discovery::mdns::{
    advertised_properties, extract_peer_node_id, extract_txt_string, extract_txt_u32,
    extract_txt_u64, host_name, instance_name, node_id_tag, pick_peer_address, DiscoveryState,
    ResolvedService, TxtProperty, SERVICE_TYPE,
};
use sangam::net::{IpAddress, SocketAddress};
use sangam::peers::registry::PeerRegistry;
use sangam::tasks::task::{Task, TaskType};
use sangam::utils::sysinfo::NodeSpecs;

#[test]
fn service_type_uses_correct_mdns_format() {
    assert!(
        SERVICE_TYPE.ends_with("._tcp.local.") || SERVICE_TYPE.ends_with("._udp.local."),
        "SERVICE_TYPE `{}` must end with `._tcp.local.` or `._udp.local.`",
        SERVICE_TYPE
    );
    assert!(SERVICE_TYPE.starts_with('_'), "SERVICE_TYPE `{}` must start with an underscore", SERVICE_TYPE);
}

#[test]
fn pick_peer_address_prefers_ipv4_lan_over_loopback() {
    let addrs = [IpAddress::V4(127, 0, 0, 1), IpAddress::V4(192, 168, 1, 42)];
    assert_eq!(pick_peer_address(&addrs), Some(IpAddress::V4(192, 168, 1, 42)));
}

#[test]
fn pick_peer_address_skips_link_local() {
    let addrs = [IpAddress::V4(169, 254, 10, 5), IpAddress::V4(10, 0, 0, 7)];
    assert_eq!(pick_peer_address(&addrs), Some(IpAddress::V4(10, 0, 0, 7)));
}

#[test]
fn pick_peer_address_falls_back_to_ipv6_when_no_ipv4() {
    let addrs = [IpAddress::V6(0, 0, 0, 0, 0, 0, 0, 1), IpAddress::V6(0x2001, 0xdb8, 0, 0, 0, 0, 0, 1)];
    assert_eq!(
        pick_peer_address(&addrs),
        Some(IpAddress::V6(0x2001, 0xdb8, 0, 0, 0, 0, 0, 1)),
        "should pick non-loopback IPv6 over IPv6 loopback"
    );
}

#[test]
fn pick_peer_address_returns_none_for_empty_set() {
    let addrs: Vec<IpAddress> = vec![];
    assert_eq!(pick_peer_address(&addrs), None);
}

#[test]
fn pick_peer_address_falls_back_to_loopback_when_only_option() {
    let addrs = [IpAddress::V4(127, 0, 0, 1)];
    assert_eq!(pick_peer_address(&addrs), Some(IpAddress::V4(127, 0, 0, 1)));
}

#[test]
fn pick_peer_address_takes_link_local_over_loopback() {
    let addrs = [IpAddress::V4(127, 0, 0, 1), IpAddress::V4(169, 254, 1, 1)];
    assert_eq!(pick_peer_address(&addrs), Some(IpAddress::V4(169, 254, 1, 1)));
}

fn prop(key: &str, val: Option<&[u8]>) -> TxtProperty {
    TxtProperty { key: key.to_string(), val: val.map(|v| v.to_vec()) }
}

#[test]
fn txt_values_are_read_from_the_first_matching_key() {
    let props = vec![
        prop("cpu", Some(b"8")),
        prop("node_id", Some(b"abc")),
        prop("node_id", Some(b"def")),
        prop("empty", None),
    ];
    assert_eq!(extract_peer_node_id(&props), Some("abc".to_string()));
    assert_eq!(extract_txt_string(&props, "empty"), None);
    assert_eq!(extract_txt_string(&props, "missing"), None);
    assert_eq!(extract_txt_u32(&props, "cpu"), Some(8));
}

#[test]
fn txt_numbers_reject_malformed_values() {
    let props = vec![
        prop("a", Some(b"+12")),
        prop("b", Some(b"-1")),
        prop("c", Some(b"16GB")),
        prop("d", Some(b"4294967296")),
        prop("e", Some(b"")),
    ];
    assert_eq!(extract_txt_u32(&props, "a"), Some(12));
    assert_eq!(extract_txt_u32(&props, "b"), None);
    assert_eq!(extract_txt_u32(&props, "c"), None);
    assert_eq!(extract_txt_u32(&props, "d"), None);
    assert_eq!(extract_txt_u64(&props, "d"), Some(4_294_967_296));
    assert_eq!(extract_txt_u64(&props, "e"), None);
}

#[test]
fn txt_strings_decode_invalid_utf8_lossily() {
    let props = vec![prop("node_id", Some(&[0x61, 0xff, 0x62]))];
    assert_eq!(extract_peer_node_id(&props), Some("a\u{fffd}b".to_string()));
}

#[test]
fn node_identity_texts_are_derived_from_the_id() {
    let id = "0123456789abcdef";
    let inst = instance_name(id);
    assert_eq!(inst, "sangam-node-01234567");
    assert_eq!(host_name(&inst), "sangam-node-01234567.local.");
    assert_eq!(node_id_tag("abc"), Some("abc"));
    assert_eq!(node_id_tag(id), Some("01234567"));
    assert_eq!(node_id_tag("1234567é"), None);
}

#[test]
fn advertised_properties_carry_id_and_specs() {
    let props = advertised_properties("node-1", &NodeSpecs { cpu_threads: 12, ram_gib: 64 });
    assert_eq!(
        props,
        vec![
            ("node_id".to_string(), "node-1".to_string()),
            ("cpu".to_string(), "12".to_string()),
            ("ram_gib".to_string(), "64".to_string()),
        ]
    );
}

fn demo_task() -> Task {
    Task { task_id: "demo-sum-001".to_string(), task_type: TaskType::Sum, numbers: vec![1, 2, 3, 4, 5] }
}

fn service(node_id: Option<&str>, name: &str, addrs: Vec<IpAddress>) -> ResolvedService {
    let mut properties = vec![prop("cpu", Some(b"8")), prop("ram_gib", Some(b"16"))];
    if let Some(id) = node_id {
        properties.push(prop("node_id", Some(id.as_bytes())));
    }
    ResolvedService { fullname: name.to_string(), port: 8080, addresses: addrs, properties }
}

#[test]
fn own_announcement_is_ignored() {
    let mut state = DiscoveryState::new("self-node-id");
    let mut reg = PeerRegistry::new();
    let svc = service(Some("self-node-id"), "me._sangam._udp.local.", vec![IpAddress::V4(10, 0, 0, 2)]);
    let out = state.on_resolved(&mut reg, &svc, &demo_task());
    assert!(out.own_announcement);
    assert!(out.dispatch.is_none());
    assert!(reg.is_empty());
}

#[test]
fn first_resolution_registers_and_dispatches_once() {
    let mut state = DiscoveryState::new("self-node-id");
    let mut reg = PeerRegistry::new();
    let svc = service(
        Some("peer-node-1234"),
        "peer._sangam._udp.local.",
        vec![IpAddress::V4(127, 0, 0, 1), IpAddress::V4(192, 168, 1, 42)],
    );
    let out = state.on_resolved(&mut reg, &svc, &demo_task());
    assert!(!out.own_announcement);
    assert!(out.newly_seen);
    assert!(out.first_contact);
    let d = out.dispatch.expect("first contact dispatches the demo task");
    assert_eq!(d.target, SocketAddress { ip: IpAddress::V4(192, 168, 1, 42), port: 8080 });
    assert_eq!(d.sender_id, "self-node-id");
    assert_eq!(d.task.task_id, "demo-sum-001-peer-nod");
    assert_eq!(d.task.numbers, vec![1, 2, 3, 4, 5]);
    assert_eq!(d.peer_id.as_deref(), Some("peer-node-1234"));
    let peers = reg.list();
    assert_eq!(peers.len(), 1);
    assert_eq!(peers[0].id, "peer-node-1234");
    assert_eq!(peers[0].name, "peer._sangam._udp.local.");
    assert_eq!(peers[0].cpu_threads, Some(8));
    assert_eq!(peers[0].ram_gib, Some(16));

    // Re-resolution refreshes the registry but neither logs nor dispatches.
    let again = state.on_resolved(&mut reg, &svc, &demo_task());
    assert!(!again.newly_seen);
    assert!(!again.first_contact);
    assert!(again.dispatch.is_none());
    assert_eq!(reg.len(), 1);
}

#[test]
fn anonymous_peers_are_answered_every_time_but_not_registered() {
    let mut state = DiscoveryState::new("self-node-id");
    let mut reg = PeerRegistry::new();
    let svc = service(None, "anon._sangam._udp.local.", vec![IpAddress::V4(10, 0, 0, 3)]);
    for _ in 0..2 {
        let out = state.on_resolved(&mut reg, &svc, &demo_task());
        assert!(!out.newly_seen);
        assert!(out.first_contact);
        assert_eq!(out.dispatch.unwrap().task.task_id, "demo-sum-001-anon");
    }
    assert!(reg.is_empty());
}

#[test]
fn peer_without_address_is_remembered_but_not_dispatched() {
    let mut state = DiscoveryState::new("self-node-id");
    let mut reg = PeerRegistry::new();
    let svc = service(Some("p1"), "p1._sangam._udp.local.", vec![]);
    let out = state.on_resolved(&mut reg, &svc, &demo_task());
    assert!(out.first_contact);
    assert!(out.dispatch.is_none());
    assert!(reg.is_empty());
    assert!(state.has_contacted("p1"));
}

#[test]
fn removal_drops_the_peer_and_allows_a_new_contact() {
    let mut state = DiscoveryState::new("self-node-id");
    let mut reg = PeerRegistry::new();
    let svc = service(Some("p1"), "p1._sangam._udp.local.", vec![IpAddress::V4(10, 0, 0, 4)]);
    state.on_resolved(&mut reg, &svc, &demo_task());
    assert_eq!(state.on_removed(&mut reg, "unknown._sangam._udp.local."), None);
    assert_eq!(reg.len(), 1);
    assert_eq!(state.on_removed(&mut reg, "p1._sangam._udp.local."), Some("p1".to_string()));
    assert!(reg.is_empty());
    assert!(!state.has_contacted("p1"));
    let out = state.on_resolved(&mut reg, &svc, &demo_task());
    assert!(out.newly_seen);
    assert!(out.dispatch.is_some());
}

#[test]
fn resolution_is_refused_when_the_peer_id_cannot_be_tagged() {
    let mut state = DiscoveryState::new("self-node-id");
    let mut reg = PeerRegistry::new();
    // Seven ASCII bytes, then a two-byte character across the 8-byte cut.
    let svc = service(Some("abcdefgé-rest"), "odd._sangam._udp.local.", vec![IpAddress::V4(10, 0, 0, 5)]);
    assert!(state.try_on_resolved(&mut reg, &svc, &demo_task()).is_none());
    assert!(reg.is_empty());
    assert!(!state.has_contacted("abcdefgé-rest"));
}

#[test]
fn resolution_is_handled_when_the_peer_id_can_be_tagged() {
    let mut state = DiscoveryState::new("self-node-id");
    let mut reg = PeerRegistry::new();
    let svc = service(Some("peer-node-1234"), "peer._sangam._udp.local.", vec![IpAddress::V4(10, 0, 0, 6)]);
    let out = state.try_on_resolved(&mut reg, &svc, &demo_task()).expect("taggable peer");
    assert_eq!(out.dispatch.unwrap().task.task_id, "demo-sum-001-peer-nod");
    assert_eq!(reg.len(), 1);
    // Once contacted, the same id is handled again without a tag.
    let again = state.try_on_resolved(&mut reg, &svc, &demo_task()).expect("known peer");
    assert!(again.dispatch.is_none());
}

#[test]
fn own_announcement_is_handled_whatever_the_id() {
    let mut state = DiscoveryState::new("abcdefgé-self");
    let mut reg = PeerRegistry::new();
    let svc = service(Some("abcdefgé-self"), "me._sangam._udp.local.", vec![IpAddress::V4(10, 0, 0, 7)]);
    let out = state.try_on_resolved(&mut reg, &svc, &demo_task()).expect("own announcement");
    assert!(out.own_announcement);
}
