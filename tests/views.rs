use nmlinkd::mapping::{IFF_LOWER_UP, IFF_RUNNING, IFF_UP};
use nmlinkd::state::{AddrInfo, AppState, DeviceInfo};
use nmlinkd::uuid::connection_uuid;
use nmlinkd::views::{device_state_signal, get_permissions};

fn device(ifindex: i32, name: &str, state: u32) -> DeviceInfo {
    let mut d = DeviceInfo::new(ifindex, name.to_string());
    d.link_flags = IFF_UP | IFF_RUNNING | IFF_LOWER_UP;
    d.nm_state = state;
    if state == 100 {
        d.ipv4_addrs.push(AddrInfo { address: "10.0.0.2".to_string(), prefix_len: 24 });
    }
    d
}

fn table() -> AppState {
    let mut st = AppState::new();
    st.devices.push(device(2, "eth0", 70));
    let mut a = device(3, "eth1", 100);
    a.device_type = 29;
    st.devices.push(a);
    let mut b = device(4, "eth2", 100);
    b.gateway4 = Some("10.0.0.1".to_string());
    st.devices.push(b);
    st.recompute_global_state();
    st
}

#[test]
fn active_connections_list_activated_devices() {
    let st = table();
    assert_eq!(
        st.active_connection_paths(),
        vec![
            "/org/freedesktop/NetworkManager/ActiveConnection/3".to_string(),
            "/org/freedesktop/NetworkManager/ActiveConnection/4".to_string(),
        ]
    );
    assert_eq!(st.settings_paths().len(), 3);
    assert_eq!(st.settings_paths()[0], "/org/freedesktop/NetworkManager/Settings/2");
}

#[test]
fn primary_connection_needs_gateway() {
    let st = table();
    assert_eq!(st.primary_device(), Some(2));
    assert_eq!(st.primary_connection(), "/org/freedesktop/NetworkManager/ActiveConnection/4");
    assert_eq!(st.primary_connection_type(), "802-3-ethernet");
    let empty = AppState::new();
    assert_eq!(empty.primary_connection(), "/");
    assert_eq!(empty.primary_connection_type(), "");
}

#[test]
fn global_signal_payload() {
    let st = table();
    let g = st.global_state_signal(70);
    assert_eq!(g.state, 70);
    assert_eq!(g.connectivity, 4);
    assert_eq!(g.active_connections.len(), 2);
    assert_eq!(g.primary_connection, "/org/freedesktop/NetworkManager/ActiveConnection/4");
}

#[test]
fn device_signal_payload() {
    let s = device_state_signal(3, 20, 100);
    assert_eq!(s.state, 20);
    assert_eq!(s.old_state, 100);
    assert_eq!(s.active_connection, "/");
    assert_eq!(s.ac_state, 4);
    assert!(s.ac_state_changed);
    let t = device_state_signal(3, 100, 70);
    assert_eq!(t.active_connection, "/org/freedesktop/NetworkManager/ActiveConnection/3");
    assert_eq!(t.ac_state, 2);
    assert!(t.ac_state_changed);
    assert!(!device_state_signal(3, 30, 20).ac_state_changed);
}

#[test]
fn device_lookup_by_name() {
    let st = table();
    assert_eq!(st.get_device_by_ip_iface("eth1"), Some(3));
    assert_eq!(st.get_device_by_ip_iface("eth"), None);
    assert_eq!(st.get_device_by_ip_iface("eth10"), None);
}

#[test]
fn path_resolution_checks_the_table() {
    let st = table();
    assert_eq!(st.resolve_ifindex_from_path("/org/freedesktop/NetworkManager/Devices/4"), Some(4));
    assert_eq!(st.resolve_ifindex_from_path("/org/freedesktop/NetworkManager/Devices/9"), None);
    assert_eq!(st.resolve_ifindex_from_path("/org/freedesktop/NetworkManager/Devices/x"), None);
    assert_eq!(
        st.resolve_activation_target("/org/freedesktop/NetworkManager/Settings/2", "/org/freedesktop/NetworkManager/Devices/3"),
        Some(3)
    );
    assert_eq!(st.resolve_activation_target("/org/freedesktop/NetworkManager/Settings/2", "/"), Some(2));
}

#[test]
fn active_connection_state_lookup() {
    let st = table();
    assert_eq!(st.ac_state(2), Some(4));
    assert_eq!(st.ac_state(3), Some(2));
    assert_eq!(st.ac_state(5), None);
}

#[test]
fn settings_of_known_and_unknown_devices() {
    let st = table();
    let s = st.connection_settings(2);
    assert_eq!(s.id, "eth0");
    assert_eq!(s.interface_name, "eth0");
    assert_eq!(s.uuid, connection_uuid("eth0"));
    assert_eq!(s.connection_type, "802-3-ethernet");
    assert!(s.ethernet_section);
    let w = st.connection_settings(3);
    assert_eq!(w.connection_type, "wireguard");
    assert!(!w.ethernet_section);
    let u = st.connection_settings(12);
    assert_eq!(u.id, "eth12");
    assert!(u.ethernet_section);
}

#[test]
fn permissions_grant_network_control_only() {
    let p = get_permissions();
    assert_eq!(p.len(), 17);
    assert_eq!(p[0], ("org.freedesktop.NetworkManager.network-control", "yes"));
    assert!(p[1..].iter().all(|(_, v)| *v == "no"));
    assert!(p.iter().any(|(k, _)| *k == "org.freedesktop.NetworkManager.wifi.scan"));
}

#[test]
fn user_disconnect_is_recorded_once() {
    let mut st = table();
    st.record_user_disconnect(3);
    st.record_user_disconnect(3);
    assert_eq!(st.user_disconnect_pending, vec![3]);
}
