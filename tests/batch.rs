use nmlinkd::batch::{initial_state, BatchOutcome, KernelSnapshot, LinkAddresses, Notification, ObjectAction};
use nmlinkd::events::{device_from_link_msg, parse_default_gateway, LinkInfo, NetlinkEvent, PendingEvents, RouteInfo};
use nmlinkd::mapping::{IFF_LOWER_UP, IFF_RUNNING, IFF_UP};
use nmlinkd::state::{AddrInfo, AppState};

const UP_CARRIER: u32 = IFF_UP | IFF_RUNNING | IFF_LOWER_UP;

fn link(ifindex: i32, name: &str, flags: u32) -> LinkInfo {
    LinkInfo { ifindex, flags, name: Some(name.to_string()), mac: None, wireguard: false }
}

fn addr(a: &str, p: u8) -> AddrInfo {
    AddrInfo { address: a.to_string(), prefix_len: p }
}

fn v4(ifindex: i32, a: &str, p: u8) -> LinkAddresses {
    LinkAddresses { ifindex, ipv4: vec![addr(a, p)], ipv6: Vec::new() }
}

fn default_route(gw: &str, oif: i32) -> RouteInfo {
    RouteInfo { dst_prefix_len: 0, gateway: Some(gw.to_string()), oif: Some(oif) }
}

fn snapshot(addresses: Vec<LinkAddresses>, routes4: Vec<RouteInfo>) -> KernelSnapshot {
    KernelSnapshot { addresses, routes4, routes6: Vec::new(), nameservers: None }
}

fn pending(events: Vec<NetlinkEvent>) -> PendingEvents {
    let mut p = PendingEvents::new();
    for e in events {
        p.accumulate(e);
    }
    p
}

fn cold_start() -> (AppState, BatchOutcome) {
    let mut l = link(3, "eth0", UP_CARRIER);
    l.mac = Some(vec![0xaa, 0xbb, 0xcc, 0xdd, 0xee, 0xff]);
    let snap = snapshot(vec![v4(3, "192.0.2.10", 24)], vec![default_route("192.0.2.1", 3)]);
    initial_state(vec![l], &snap)
}

fn count(out: &BatchOutcome, n: Notification) -> usize {
    out.notifications.iter().filter(|x| **x == n).count()
}

#[test]
fn cold_start_one_ethernet() {
    let (st, out) = cold_start();
    assert_eq!(st.global_state, 70);
    assert_eq!(st.connectivity, 4);
    assert_eq!(st.devices.len(), 1);
    let d = &st.devices[0];
    assert_eq!(d.ifindex, 3);
    assert_eq!(d.nm_state, 100);
    assert_eq!(d.hw_address, "AA:BB:CC:DD:EE:FF");
    assert_eq!(d.ipv4_addrs.len(), 1);
    assert_eq!(d.ipv4_addrs[0].address, "192.0.2.10");
    assert_eq!(d.ipv4_addrs[0].prefix_len, 24);
    assert_eq!(d.gateway4, Some("192.0.2.1".to_string()));
    assert_eq!(st.device_paths(), vec!["/org/freedesktop/NetworkManager/Devices/3".to_string()]);
    assert_eq!(st.primary_connection(), "/org/freedesktop/NetworkManager/ActiveConnection/3");
    assert_eq!(st.primary_connection_type(), "802-3-ethernet");
    assert_eq!(out.actions, vec![ObjectAction::Register { ifindex: 3, device_type: 1 }]);
}

#[test]
fn cable_unplug() {
    let (mut st, _) = cold_start();
    let p = pending(vec![NetlinkEvent::NewLink(link(3, "eth0", IFF_UP)), NetlinkEvent::DelRoute]);
    let snap = snapshot(vec![v4(3, "192.0.2.10", 24)], Vec::new());
    let out = st.apply_batch(&p, &snap);
    assert_eq!(st.devices[0].nm_state, 20);
    assert_eq!(st.devices[0].gateway4, None);
    assert_eq!(st.global_state, 50);
    assert_eq!(count(&out, Notification::DeviceStateChanged { ifindex: 3, new_state: 20, old_state: 100 }), 1);
    assert_eq!(count(&out, Notification::GlobalStateChanged(50)), 1);
    assert_eq!(out.ip_config_changed, vec![3]);
    assert!(out.actions.is_empty());
    assert_eq!(st.primary_connection(), "/");
}

#[test]
fn cable_unplug_without_address_disconnects_globally() {
    let (mut st, _) = cold_start();
    let p = pending(vec![
        NetlinkEvent::NewLink(link(3, "eth0", IFF_UP)),
        NetlinkEvent::DelAddress(3),
        NetlinkEvent::DelRoute,
    ]);
    let snap = snapshot(vec![LinkAddresses { ifindex: 3, ipv4: Vec::new(), ipv6: Vec::new() }], Vec::new());
    let out = st.apply_batch(&p, &snap);
    assert_eq!(st.devices[0].nm_state, 20);
    assert_eq!(st.global_state, 20);
    assert_eq!(st.connectivity, 1);
    assert_eq!(count(&out, Notification::DeviceStateChanged { ifindex: 3, new_state: 20, old_state: 100 }), 1);
}

#[test]
fn hotplug_new_ethernet() {
    let (mut st, _) = cold_start();
    let p = pending(vec![NetlinkEvent::NewLink(link(7, "eth1", UP_CARRIER)), NetlinkEvent::NewAddress(7)]);
    assert_eq!(p.address_queries(), vec![7]);
    assert!(p.needs_routes());
    let snap = snapshot(
        vec![v4(7, "198.51.100.7", 24)],
        vec![default_route("192.0.2.1", 3)],
    );
    let out = st.apply_batch(&p, &snap);
    assert_eq!(out.actions, vec![ObjectAction::Register { ifindex: 7, device_type: 1 }]);
    assert_eq!(count(&out, Notification::DeviceAdded(7)), 1);
    let d = st.devices.iter().find(|d| d.ifindex == 7).unwrap();
    assert_eq!(d.nm_state, 100);
    assert_eq!(d.name, "eth1");
    assert_eq!(st.devices.len(), 2);
    assert_eq!(st.global_state, 70);
}

#[test]
fn ignored_interface_filtered() {
    let (mut st, _) = cold_start();
    let before = st.device_paths();
    let p = pending(vec![NetlinkEvent::NewLink(link(11, "docker0", UP_CARRIER))]);
    let out = st.apply_batch(&p, &snapshot(Vec::new(), vec![default_route("192.0.2.1", 3)]));
    assert!(out.actions.is_empty());
    assert_eq!(count(&out, Notification::DeviceAdded(11)), 0);
    assert_eq!(st.device_paths(), before);
}

#[test]
fn debounce_coalescing() {
    let (mut st, _) = initial_state(vec![link(3, "eth0", UP_CARRIER)], &snapshot(Vec::new(), Vec::new()));
    assert_eq!(st.devices[0].nm_state, 70);
    let p = pending((0..10).map(|_| NetlinkEvent::NewAddress(3)).collect());
    assert_eq!(p.address_changed, vec![3]);
    let snap = snapshot(vec![v4(3, "10.0.0.9", 8)], Vec::new());
    let out = st.apply_batch(&p, &snap);
    let device_changes = out
        .notifications
        .iter()
        .filter(|n| matches!(n, Notification::DeviceStateChanged { ifindex: 3, .. }))
        .count();
    assert_eq!(device_changes, 1);
    assert_eq!(out.ip_config_changed, vec![3]);
    assert_eq!(st.devices[0].ipv4_addrs.len(), 1);
    assert_eq!(st.devices[0].ipv4_addrs[0].address, "10.0.0.9");
    assert_eq!(st.devices[0].nm_state, 100);
}

#[test]
fn activation_then_link_up() {
    let (mut st, _) = initial_state(vec![link(3, "eth0", 0)], &snapshot(vec![v4(3, "192.0.2.10", 24)], Vec::new()));
    assert_eq!(st.devices[0].nm_state, 30);
    let target = st.resolve_activation_target("/org/freedesktop/NetworkManager/Settings/3", "/");
    assert_eq!(target, Some(3));
    let p = pending(vec![NetlinkEvent::NewLink(link(3, "eth0", UP_CARRIER))]);
    let out = st.apply_batch(&p, &snapshot(vec![v4(3, "192.0.2.10", 24)], Vec::new()));
    assert_eq!(st.devices[0].nm_state, 100);
    assert_eq!(count(&out, Notification::DeviceStateChanged { ifindex: 3, new_state: 100, old_state: 30 }), 1);
}

#[test]
fn removal_unregisters_and_recomputes() {
    let (mut st, _) = cold_start();
    let p = pending(vec![NetlinkEvent::DelLink(3), NetlinkEvent::DelLink(3), NetlinkEvent::DelLink(9)]);
    assert_eq!(p.del_links, vec![3, 9]);
    let out = st.apply_batch(&p, &snapshot(Vec::new(), Vec::new()));
    assert_eq!(out.actions, vec![ObjectAction::Unregister { ifindex: 3, device_type: 1 }]);
    assert_eq!(count(&out, Notification::DeviceRemoved(3)), 1);
    assert_eq!(count(&out, Notification::GlobalStateChanged(20)), 1);
    assert!(st.devices.is_empty());
    assert_eq!(st.global_state, 20);
    assert_eq!(st.connectivity, 1);
}

#[test]
fn flap_within_one_window_re_adds_once() {
    let (mut st, _) = cold_start();
    let p = pending(vec![NetlinkEvent::DelLink(3), NetlinkEvent::NewLink(link(3, "eth0", UP_CARRIER))]);
    let snap = snapshot(vec![v4(3, "192.0.2.10", 24)], vec![default_route("192.0.2.1", 3)]);
    let out = st.apply_batch(&p, &snap);
    assert_eq!(
        out.actions,
        vec![
            ObjectAction::Unregister { ifindex: 3, device_type: 1 },
            ObjectAction::Register { ifindex: 3, device_type: 1 },
        ]
    );
    assert_eq!(st.devices.len(), 1);
    assert_eq!(st.global_state, 70);
}

#[test]
fn routes_rebind_gateways_last_wins() {
    let (mut st, _) = cold_start();
    let p = pending(vec![NetlinkEvent::NewRoute]);
    let routes = vec![
        default_route("192.0.2.1", 3),
        RouteInfo { dst_prefix_len: 24, gateway: Some("192.0.2.99".to_string()), oif: Some(3) },
        default_route("192.0.2.254", 3),
        default_route("203.0.113.1", 42),
    ];
    let out = st.apply_batch(&p, &snapshot(Vec::new(), routes));
    assert_eq!(st.devices[0].gateway4, Some("192.0.2.254".to_string()));
    assert_eq!(out.ip_config_changed, vec![3]);
    assert_eq!(count(&out, Notification::GlobalStateChanged(70)), 1);
}

#[test]
fn nameservers_replace_when_reported() {
    let (mut st, _) = cold_start();
    let p = pending(vec![NetlinkEvent::NewAddress(3)]);
    let mut snap = snapshot(vec![v4(3, "192.0.2.10", 24)], Vec::new());
    snap.nameservers = Some(vec!["9.9.9.9".to_string()]);
    st.apply_batch(&p, &snap);
    assert_eq!(st.nameservers, vec!["9.9.9.9".to_string()]);
}

#[test]
fn link_update_takes_new_mac() {
    let (mut st, _) = cold_start();
    let mut l = link(3, "eth0", UP_CARRIER);
    l.mac = Some(vec![1, 2, 3, 4, 5, 6]);
    let out = st.apply_batch(&pending(vec![NetlinkEvent::NewLink(l)]), &snapshot(Vec::new(), vec![default_route("192.0.2.1", 3)]));
    assert_eq!(st.devices[0].hw_address, "01:02:03:04:05:06");
    assert!(out.notifications.is_empty());
}

#[test]
fn accumulate_keeps_last_link_message() {
    let p = pending(vec![
        NetlinkEvent::NewLink(link(5, "eth5", 0)),
        NetlinkEvent::NewLink(link(6, "eth6", 0)),
        NetlinkEvent::NewLink(link(5, "eth5", IFF_UP)),
        NetlinkEvent::Other,
    ]);
    assert_eq!(p.new_links.len(), 2);
    assert_eq!(p.new_links[0].flags, IFF_UP);
    assert!(!p.routes_changed);
    assert!(!p.is_empty());
    assert!(PendingEvents::new().is_empty());
}

#[test]
fn device_from_link_cases() {
    let mut l = link(4, "eth2", UP_CARRIER);
    l.mac = Some(vec![0xde, 0xad, 0xbe, 0xef, 0, 1]);
    let d = device_from_link_msg(&l).unwrap();
    assert_eq!(d.hw_address, "DE:AD:BE:EF:00:01");
    assert_eq!(d.nm_state, 70);
    assert_eq!(d.device_type, 1);
    let mut w = link(8, "mywg", UP_CARRIER);
    w.wireguard = true;
    assert_eq!(device_from_link_msg(&w).unwrap().device_type, 29);
    assert!(device_from_link_msg(&link(1, "lo", UP_CARRIER)).is_none());
    let unnamed = LinkInfo { ifindex: 2, flags: 0, name: None, mac: None, wireguard: false };
    assert!(device_from_link_msg(&unnamed).is_none());
}

#[test]
fn default_gateway_extraction() {
    assert_eq!(parse_default_gateway(&default_route("10.0.0.1", 2)), Some(("10.0.0.1".to_string(), 2)));
    assert_eq!(
        parse_default_gateway(&RouteInfo { dst_prefix_len: 8, gateway: Some("10.0.0.1".to_string()), oif: Some(2) }),
        None
    );
    assert_eq!(parse_default_gateway(&RouteInfo { dst_prefix_len: 0, gateway: None, oif: Some(2) }), None);
    assert_eq!(parse_default_gateway(&RouteInfo { dst_prefix_len: 0, gateway: Some("x".to_string()), oif: None }), None);
}

#[test]
fn ignored_link_leaves_everything_unchanged() {
    let (mut st, _) = cold_start();
    let p = pending(vec![NetlinkEvent::NewLink(link(11, "docker0", UP_CARRIER))]);
    let out = st.apply_batch(&p, &snapshot(vec![v4(11, "172.17.0.1", 16)], vec![default_route("192.0.2.1", 3)]));
    assert!(out.notifications.is_empty());
    assert_eq!(st.devices.len(), 1);
    assert_eq!(st.devices[0].gateway4, Some("192.0.2.1".to_string()));
    assert_eq!(st.devices[0].ipv4_addrs[0].address, "192.0.2.10");
    assert_eq!(st.global_state, 70);
}

#[test]
fn two_step_change_is_announced_once_from_the_old_state() {
    let (mut st, _) = initial_state(vec![link(3, "eth0", 0)], &snapshot(Vec::new(), Vec::new()));
    assert_eq!(st.devices[0].nm_state, 30);
    let p = pending(vec![NetlinkEvent::NewLink(link(3, "eth0", UP_CARRIER)), NetlinkEvent::NewAddress(3)]);
    let out = st.apply_batch(&p, &snapshot(vec![v4(3, "10.0.0.3", 24)], Vec::new()));
    let changes: Vec<&Notification> = out
        .notifications
        .iter()
        .filter(|n| matches!(n, Notification::DeviceStateChanged { .. }))
        .collect();
    assert_eq!(changes, vec![&Notification::DeviceStateChanged { ifindex: 3, new_state: 100, old_state: 30 }]);
    assert_eq!(count(&out, Notification::GlobalStateChanged(50)), 1);
}

#[test]
fn address_lists_are_replaced_in_report_order() {
    let (mut st, _) = cold_start();
    let p = pending(vec![NetlinkEvent::NewAddress(3)]);
    let report = LinkAddresses {
        ifindex: 3,
        ipv4: vec![addr("192.0.2.20", 25), addr("192.0.2.30", 26)],
        ipv6: vec![addr("2001:db8::3", 64)],
    };
    st.apply_batch(&p, &snapshot(vec![report], Vec::new()));
    let d = &st.devices[0];
    let v4: Vec<(&str, u8)> = d.ipv4_addrs.iter().map(|a| (a.address.as_str(), a.prefix_len)).collect();
    assert_eq!(v4, vec![("192.0.2.20", 25), ("192.0.2.30", 26)]);
    assert_eq!(d.ipv6_addrs[0].address, "2001:db8::3");
    assert_eq!(d.gateway4, Some("192.0.2.1".to_string()));
}

#[test]
fn new_device_takes_only_its_own_gateways() {
    let (mut st, _) = cold_start();
    let p = pending(vec![NetlinkEvent::NewLink(link(7, "eth1", UP_CARRIER))]);
    let snap = snapshot(vec![v4(7, "198.51.100.7", 24)], vec![default_route("198.51.100.1", 7)]);
    st.apply_batch(&p, &snap);
    let d3 = st.devices.iter().find(|d| d.ifindex == 3).unwrap();
    let d7 = st.devices.iter().find(|d| d.ifindex == 7).unwrap();
    assert_eq!(d3.gateway4, Some("192.0.2.1".to_string()));
    assert_eq!(d7.gateway4, Some("198.51.100.1".to_string()));
}

#[test]
fn link_only_unplug_invalidates_ip_config() {
    let (mut st, _) = cold_start();
    let p = pending(vec![NetlinkEvent::NewLink(link(3, "eth0", IFF_UP))]);
    let out = st.apply_batch(&p, &snapshot(Vec::new(), Vec::new()));
    assert_eq!(st.devices[0].gateway4, None);
    assert_eq!(out.ip_config_changed, vec![3]);
    assert_eq!(count(&out, Notification::DeviceStateChanged { ifindex: 3, new_state: 20, old_state: 100 }), 1);
    assert_eq!(count(&out, Notification::GlobalStateChanged(50)), 1);
}

#[test]
fn ignored_links_cause_no_queries() {
    let unnamed = LinkInfo { ifindex: 12, flags: UP_CARRIER, name: None, mac: None, wireguard: false };
    let p = pending(vec![NetlinkEvent::NewLink(link(11, "docker0", UP_CARRIER)), NetlinkEvent::NewLink(unnamed)]);
    assert!(p.address_queries().is_empty());
    assert!(!p.needs_routes());
    assert!(!p.needs_nameservers());
    let q = pending(vec![NetlinkEvent::NewLink(link(11, "docker0", UP_CARRIER)), NetlinkEvent::NewAddress(4)]);
    assert_eq!(q.address_queries(), vec![4]);
}

#[test]
fn unreadable_resolver_files_empty_the_nameservers() {
    let (mut st, _) = cold_start();
    st.nameservers = vec!["9.9.9.9".to_string()];
    let p = pending(vec![NetlinkEvent::NewAddress(3)]);
    let mut snap = snapshot(vec![v4(3, "192.0.2.10", 24)], Vec::new());
    snap.nameservers = Some(Vec::new());
    st.apply_batch(&p, &snap);
    assert!(st.nameservers.is_empty());
}

#[test]
fn startup_keeps_a_shown_message_beside_an_ignored_one() {
    let snap = snapshot(Vec::new(), Vec::new());
    let unnamed = LinkInfo { ifindex: 5, flags: 0, name: None, mac: None, wireguard: false };
    let (st, out) = initial_state(vec![link(5, "eth5", UP_CARRIER), unnamed], &snap);
    assert_eq!(st.devices.len(), 1);
    assert_eq!(st.devices[0].name, "eth5");
    assert_eq!(st.devices[0].nm_state, 70);
    assert_eq!(out.actions, vec![ObjectAction::Register { ifindex: 5, device_type: 1 }]);
}
