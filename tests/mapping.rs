use nmlinkd::mapping::{
    active_connection_state, device_type_to_connection_type, global_state_to_connectivity,
    netlink_flags_to_nm_device, IFF_DORMANT, IFF_LOWER_UP, IFF_RUNNING, IFF_UP,
};
use nmlinkd::state::{deduce_global_state, AddrInfo, AppState, DeviceInfo};

fn addr(a: &str, p: u8) -> AddrInfo {
    AddrInfo { address: a.to_string(), prefix_len: p }
}

#[test]
fn flags_down_is_disconnected() {
    assert_eq!(netlink_flags_to_nm_device(0, true, true), 30);
    assert_eq!(netlink_flags_to_nm_device(IFF_RUNNING | IFF_LOWER_UP, true, false), 30);
}

#[test]
fn flags_dormant_is_unavailable() {
    assert_eq!(netlink_flags_to_nm_device(IFF_UP | IFF_DORMANT | IFF_RUNNING, true, true), 20);
}

#[test]
fn flags_without_carrier_is_unavailable() {
    assert_eq!(netlink_flags_to_nm_device(IFF_UP, true, true), 20);
    assert_eq!(netlink_flags_to_nm_device(IFF_UP, false, false), 20);
}

#[test]
fn flags_carrier_without_ip_is_ip_config() {
    assert_eq!(netlink_flags_to_nm_device(IFF_UP | IFF_RUNNING, false, false), 70);
    assert_eq!(netlink_flags_to_nm_device(IFF_UP | IFF_LOWER_UP, false, false), 70);
}

#[test]
fn flags_carrier_with_ip_is_activated() {
    assert_eq!(netlink_flags_to_nm_device(IFF_UP | IFF_RUNNING | IFF_LOWER_UP, true, false), 100);
    assert_eq!(netlink_flags_to_nm_device(IFF_UP | IFF_LOWER_UP, false, true), 100);
}

#[test]
fn connectivity_of_global_states() {
    assert_eq!(global_state_to_connectivity(20), 1);
    assert_eq!(global_state_to_connectivity(50), 4);
    assert_eq!(global_state_to_connectivity(60), 4);
    assert_eq!(global_state_to_connectivity(70), 4);
    assert_eq!(global_state_to_connectivity(0), 0);
    assert_eq!(global_state_to_connectivity(10), 0);
    assert_eq!(global_state_to_connectivity(71), 0);
}

#[test]
fn connection_types() {
    assert_eq!(device_type_to_connection_type(1), "802-3-ethernet");
    assert_eq!(device_type_to_connection_type(29), "wireguard");
    assert_eq!(device_type_to_connection_type(5), "802-3-ethernet");
}

#[test]
fn active_connection_states() {
    assert_eq!(active_connection_state(100), 2);
    assert_eq!(active_connection_state(70), 4);
    assert_eq!(active_connection_state(20), 4);
}

#[test]
fn global_state_empty_table_is_disconnected() {
    assert_eq!(deduce_global_state(&Vec::new()), 20);
}

#[test]
fn global_state_address_only_is_local() {
    let mut d = DeviceInfo::new(2, "eth0".to_string());
    d.ipv4_addrs.push(addr("10.0.0.2", 24));
    let mut e = DeviceInfo::new(3, "eth1".to_string());
    e.gateway4 = Some("10.0.0.1".to_string());
    assert_eq!(deduce_global_state(&vec![d, e]), 50);
}

#[test]
fn global_state_address_and_gateway_is_global() {
    let mut d = DeviceInfo::new(2, "eth0".to_string());
    d.ipv6_addrs.push(addr("2001:db8::2", 64));
    d.gateway6 = Some("fe80::1".to_string());
    let e = DeviceInfo::new(3, "eth1".to_string());
    assert_eq!(deduce_global_state(&vec![e, d]), 70);
}

#[test]
fn recompute_sets_both_fields() {
    let mut st = AppState::new();
    let mut d = DeviceInfo::new(4, "eth0".to_string());
    d.ipv4_addrs.push(addr("10.0.0.2", 24));
    st.devices.push(d);
    st.recompute_global_state();
    assert_eq!(st.global_state, 50);
    assert_eq!(st.connectivity, 4);
}

#[test]
fn ip_change_leaves_low_states_alone() {
    let mut d = DeviceInfo::new(4, "eth0".to_string());
    d.nm_state = 20;
    d.ipv4_addrs.push(addr("10.0.0.2", 24));
    assert_eq!(d.update_state_on_ip_change(), None);
    assert_eq!(d.nm_state, 20);
}

#[test]
fn ip_change_promotes_and_demotes() {
    let mut d = DeviceInfo::new(4, "eth0".to_string());
    d.nm_state = 70;
    d.ipv4_addrs.push(addr("10.0.0.2", 24));
    assert_eq!(d.update_state_on_ip_change(), Some((100, 70)));
    assert_eq!(d.update_state_on_ip_change(), None);
    d.ipv4_addrs.clear();
    assert_eq!(d.update_state_on_ip_change(), Some((70, 100)));
}

#[test]
fn link_change_clears_gateways_on_loss_of_carrier() {
    let mut d = DeviceInfo::new(4, "eth0".to_string());
    d.nm_state = 100;
    d.ipv4_addrs.push(addr("10.0.0.2", 24));
    d.gateway4 = Some("10.0.0.1".to_string());
    d.gateway6 = Some("fe80::1".to_string());
    assert_eq!(d.update_state_on_link_change(IFF_UP), Some((20, 100)));
    assert_eq!(d.gateway4, None);
    assert_eq!(d.gateway6, None);
    assert_eq!(d.link_flags, IFF_UP);
}

#[test]
fn link_change_without_state_change_keeps_gateways() {
    let mut d = DeviceInfo::new(4, "eth0".to_string());
    d.nm_state = 100;
    d.ipv4_addrs.push(addr("10.0.0.2", 24));
    d.gateway4 = Some("10.0.0.1".to_string());
    assert_eq!(d.update_state_on_link_change(IFF_UP | IFF_RUNNING), None);
    assert_eq!(d.gateway4, Some("10.0.0.1".to_string()));
}
