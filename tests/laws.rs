use std::collections::BTreeSet;

use nmlinkd::batch::{initial_state, KernelSnapshot, LinkAddresses, ObjectAction};
use nmlinkd::events::{LinkInfo, NetlinkEvent, PendingEvents, RouteInfo};
use nmlinkd::mapping::{global_state_to_connectivity, netlink_flags_to_nm_device, IFF_LOWER_UP, IFF_RUNNING, IFF_UP};
use nmlinkd::state::{deduce_global_state, AddrInfo, AppState};

const UP_CARRIER: u32 = IFF_UP | IFF_RUNNING | IFF_LOWER_UP;

fn link(ifindex: i32, name: &str, flags: u32) -> LinkInfo {
    LinkInfo { ifindex, flags, name: Some(name.to_string()), mac: None, wireguard: false }
}

fn report(ifindex: i32, v4: &[&str]) -> LinkAddresses {
    LinkAddresses {
        ifindex,
        ipv4: v4.iter().map(|a| AddrInfo { address: a.to_string(), prefix_len: 24 }).collect(),
        ipv6: Vec::new(),
    }
}

fn gw(g: &str, oif: i32) -> RouteInfo {
    RouteInfo { dst_prefix_len: 0, gateway: Some(g.to_string()), oif: Some(oif) }
}

fn check_invariants(st: &AppState, registered: &BTreeSet<i32>) {
    assert_eq!(st.global_state, deduce_global_state(&st.devices));
    assert_eq!(st.connectivity, global_state_to_connectivity(st.global_state));
    for d in &st.devices {
        let expected = netlink_flags_to_nm_device(d.link_flags, !d.ipv4_addrs.is_empty(), !d.ipv6_addrs.is_empty());
        assert_eq!(d.nm_state, expected, "device {}", d.ifindex);
    }
    let devices: BTreeSet<i32> = st.devices.iter().map(|d| d.ifindex).collect();
    assert_eq!(&devices, registered);
    assert_eq!(devices.len(), st.devices.len());
}

fn apply_actions(registered: &mut BTreeSet<i32>, actions: &[ObjectAction]) {
    for a in actions {
        match *a {
            ObjectAction::Register { ifindex, .. } => assert!(registered.insert(ifindex)),
            ObjectAction::Unregister { ifindex, .. } => assert!(registered.remove(&ifindex)),
        }
    }
}

#[test]
fn invariants_hold_after_every_batch() {
    let snap0 = KernelSnapshot {
        addresses: vec![report(2, &["10.0.0.2"]), report(3, &[])],
        routes4: vec![gw("10.0.0.1", 2)],
        routes6: Vec::new(),
        nameservers: None,
    };
    let (mut st, out) = initial_state(
        vec![link(1, "lo", UP_CARRIER), link(2, "eth0", UP_CARRIER), link(3, "eth1", IFF_UP)],
        &snap0,
    );
    let mut registered = BTreeSet::new();
    apply_actions(&mut registered, &out.actions);
    check_invariants(&st, &registered);
    assert_eq!(registered, BTreeSet::from([2, 3]));

    let batches: Vec<(Vec<NetlinkEvent>, KernelSnapshot)> = vec![
        (
            vec![NetlinkEvent::NewLink(link(3, "eth1", UP_CARRIER)), NetlinkEvent::NewAddress(3)],
            KernelSnapshot { addresses: vec![report(3, &["10.1.0.3"])], routes4: vec![gw("10.0.0.1", 2)], routes6: Vec::new(), nameservers: None },
        ),
        (
            vec![NetlinkEvent::DelLink(2), NetlinkEvent::NewRoute],
            KernelSnapshot { addresses: Vec::new(), routes4: Vec::new(), routes6: Vec::new(), nameservers: None },
        ),
        (
            vec![NetlinkEvent::NewLink(link(4, "eth2", UP_CARRIER)), NetlinkEvent::NewLink(link(5, "veth0", UP_CARRIER))],
            KernelSnapshot { addresses: vec![report(4, &[])], routes4: vec![gw("10.1.0.1", 3)], routes6: Vec::new(), nameservers: None },
        ),
        (
            vec![NetlinkEvent::NewLink(link(3, "eth1", 0)), NetlinkEvent::DelAddress(3), NetlinkEvent::DelRoute],
            KernelSnapshot { addresses: vec![report(3, &[])], routes4: Vec::new(), routes6: Vec::new(), nameservers: None },
        ),
    ];
    for (events, snap) in batches {
        let mut p = PendingEvents::new();
        for e in events {
            p.accumulate(e);
        }
        let out = st.apply_batch(&p, &snap);
        apply_actions(&mut registered, &out.actions);
        check_invariants(&st, &registered);
    }
    assert_eq!(registered, BTreeSet::from([3, 4]));
    assert_eq!(st.global_state, 20);
}

#[test]
fn initial_state_skips_ignored_and_unnamed_links() {
    let mut wg = link(9, "mullvad", UP_CARRIER);
    wg.wireguard = true;
    let unnamed = LinkInfo { ifindex: 8, flags: UP_CARRIER, name: None, mac: None, wireguard: false };
    let snap = KernelSnapshot { addresses: Vec::new(), routes4: Vec::new(), routes6: Vec::new(), nameservers: Some(vec!["1.1.1.1".to_string()]) };
    let (st, out) = initial_state(vec![link(1, "lo", UP_CARRIER), unnamed, wg, link(7, "docker0", 0)], &snap);
    assert_eq!(out.actions, vec![ObjectAction::Register { ifindex: 9, device_type: 29 }]);
    assert_eq!(st.devices.len(), 1);
    assert_eq!(st.nameservers, vec!["1.1.1.1".to_string()]);
    assert_eq!(st.global_state, 20);
    assert_eq!(st.connectivity, 1);
}

#[test]
fn empty_initial_state() {
    let snap = KernelSnapshot { addresses: Vec::new(), routes4: Vec::new(), routes6: Vec::new(), nameservers: None };
    let (st, out) = initial_state(Vec::new(), &snap);
    assert!(st.devices.is_empty());
    assert!(out.actions.is_empty());
    assert_eq!(st.global_state, 20);
}
