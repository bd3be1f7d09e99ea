//! Applying one debounced batch of kernel events to the model, in the order
//! removals, links, addresses, routes, and listing the object registrations
//! and the notifications that the batch calls for.

use vstd::prelude::*;

use crate::events::{
    default_gateway_of, device_from_link_msg, find_link, link_device_type, link_is_shown,
    no_dups, parse_default_gateway, push_unique, LinkInfo, PendingEvents, RouteInfo,
};
use crate::mapping::{
    device_state_of, netlink_flags_to_nm_device, DEVICE_STATE_DISCONNECTED,
    DEVICE_STATE_UNAVAILABLE,
};
use crate::state::{has_ifindex, ifindex_set, unique_ifindexes, AddrInfo, AppState, DeviceInfo};
use crate::text::{format_mac, mac_text};

verus! {

broadcast use vstd::seq_lib::lemma_seq_contains_after_push;

/// The addresses that the kernel reports for one interface.
#[derive(Debug)]
pub struct LinkAddresses {
    pub ifindex: i32,
    pub ipv4: Vec<AddrInfo>,
    pub ipv6: Vec<AddrInfo>,
}

/// What the kernel reported when queried for one batch: the addresses of
/// the interfaces that were asked for, the routes of both families, and the
/// nameservers (`None` when the batch did not read the resolver files).
#[derive(Debug)]
pub struct KernelSnapshot {
    pub addresses: Vec<LinkAddresses>,
    pub routes4: Vec<RouteInfo>,
    pub routes6: Vec<RouteInfo>,
    pub nameservers: Option<Vec<String>>,
}

/// A change to the set of exported per-device objects.
#[derive(Debug, Clone, Copy, PartialEq, Eq, Structural)]
pub enum ObjectAction {
    Register { ifindex: i32, device_type: u32 },
    Unregister { ifindex: i32, device_type: u32 },
}

/// A notification owed to bus clients.
#[derive(Debug, Clone, Copy, PartialEq, Eq, Structural)]
pub enum Notification {
    DeviceAdded(i32),
    DeviceRemoved(i32),
    DeviceStateChanged { ifindex: i32, new_state: u32, old_state: u32 },
    GlobalStateChanged(u32),
}

/// What a batch asks of the bus side: object changes first, then
/// notifications, in order.
#[derive(Debug)]
pub struct BatchOutcome {
    pub actions: Vec<ObjectAction>,
    pub notifications: Vec<Notification>,
    /// Interfaces whose IP configuration objects must be re-read, each once;
    /// announced after all other notifications.
    pub ip_config_changed: Vec<i32>,
}

/// The registered ifindexes after `acts`, starting from `reg`.
pub open spec fn registered_after(reg: Set<i32>, acts: Seq<ObjectAction>) -> Set<i32>
    decreases acts.len(),
{
    if acts.len() == 0 {
        reg
    } else {
        let s = registered_after(reg, acts.drop_last());
        match acts.last() {
            ObjectAction::Register { ifindex, .. } => s.insert(ifindex),
            ObjectAction::Unregister { ifindex, .. } => s.remove(ifindex),
        }
    }
}

/// Starting from `reg`, every registration in `acts` is of an unregistered
/// ifindex and every removal of a registered one.
pub open spec fn actions_consistent(reg: Set<i32>, acts: Seq<ObjectAction>) -> bool
    decreases acts.len(),
{
    if acts.len() == 0 {
        true
    } else {
        let s = registered_after(reg, acts.drop_last());
        &&& actions_consistent(reg, acts.drop_last())
        &&& match acts.last() {
            ObjectAction::Register { ifindex, .. } => !s.contains(ifindex),
            ObjectAction::Unregister { ifindex, .. } => s.contains(ifindex),
        }
    }
}

/// The actions so far, started from `reg`, leave exactly the devices of
/// `st` registered.
pub open spec fn registry_tracks(reg: Set<i32>, acts: Seq<ObjectAction>, st: AppState) -> bool {
    &&& registered_after(reg, acts) == ifindex_set(st.devices@)
    &&& actions_consistent(reg, acts)
}

/// Whether device `x` is in the table after a batch that started with the
/// devices `before`: it was there and was not removed, or a link message of
/// the batch that names a shown interface brought it.
pub open spec fn batch_keeps(before: Set<i32>, pending: PendingEvents, x: i32) -> bool {
    (before.contains(x) && !pending.del_links@.contains(x)) || exists|m: int|
        0 <= m < pending.new_links@.len() && #[trigger] pending.new_links@[m].ifindex == x
            && link_is_shown(pending.new_links@[m])
}

/// The gateway text of the last default route of `routes` through `ifindex`.
pub open spec fn last_gateway(routes: Seq<RouteInfo>, ifindex: i32) -> Option<Seq<char>>
    decreases routes.len(),
{
    if routes.len() == 0 {
        None
    } else {
        match default_gateway_of(routes.last()) {
            Some((g, oif)) => if oif == ifindex {
                Some(g)
            } else {
                last_gateway(routes.drop_last(), ifindex)
            },
            None => last_gateway(routes.drop_last(), ifindex),
        }
    }
}

/// The text of an optional string.
pub open spec fn opt_text(o: Option<String>) -> Option<Seq<char>> {
    match o {
        Some(s) => Some(s@),
        None => None,
    }
}

/// `r` is the first report of `reports` about interface `ifindex`.
pub open spec fn is_first_report(reports: Seq<LinkAddresses>, ifindex: i32, r: int) -> bool {
    &&& 0 <= r < reports.len()
    &&& reports[r].ifindex == ifindex
    &&& forall|j: int| 0 <= j < r ==> #[trigger] reports[j].ifindex != ifindex
}


/// The first report of `reports` about interface `x`, if any.
pub open spec fn report_for(reports: Seq<LinkAddresses>, x: i32) -> Option<LinkAddresses> {
    if exists|r: int| #[trigger] is_first_report(reports, x, r) {
        Some(reports[choose|r: int| #[trigger] is_first_report(reports, x, r)])
    } else {
        None
    }
}

/// The link message of `links` about interface `x`, if any.
pub open spec fn link_for(links: Seq<LinkInfo>, x: i32) -> Option<LinkInfo> {
    if exists|m: int| 0 <= m < links.len() && #[trigger] links[m].ifindex == x {
        Some(links[choose|m: int| 0 <= m < links.len() && #[trigger] links[m].ifindex == x])
    } else {
        None
    }
}

/// The device of `devs` with ifindex `x` (meaningful when there is one).
pub open spec fn dev_for(devs: Seq<DeviceInfo>, x: i32) -> DeviceInfo {
    devs[choose|i: int| 0 <= i < devs.len() && #[trigger] devs[i].ifindex == x]
}

/// Interface `x` had a device before the batch and the batch does not
/// remove it.
pub open spec fn persists(before: Seq<DeviceInfo>, pending: PendingEvents, x: i32) -> bool {
    has_ifindex(before, x) && !pending.del_links@.contains(x)
}

/// The hardware address after a link message: the message's, when it
/// carries one, else `current`.
pub open spec fn mac_after(l: LinkInfo, current: Seq<char>) -> Seq<char> {
    match l.mac {
        Some(m) => mac_text(m@),
        None => current,
    }
}

/// A link message moves device `o` to Disconnected or Unavailable, which
/// drops its gateways.
pub open spec fn link_drops_gateways(o: DeviceInfo, l: LinkInfo) -> bool {
    let s = device_state_of(l.flags, o.ipv4_addrs@.len() > 0, o.ipv6_addrs@.len() > 0);
    s != o.nm_state && (s == DEVICE_STATE_DISCONNECTED || s == DEVICE_STATE_UNAVAILABLE)
}

/// The device's gateways have the texts `g4` and `g6`.
pub open spec fn gateways_are(d: DeviceInfo, g4: Option<Seq<char>>, g6: Option<Seq<char>>) -> bool {
    opt_text(d.gateway4) == g4 && opt_text(d.gateway6) == g6
}

/// `d` is device `o` after the batch: the batch's link message about it (if
/// any) sets its flags and hardware address and drops its gateways when it
/// falls to Disconnected or Unavailable; an address change replaces its
/// addresses with the first kernel report (if any); a route change sets its
/// gateways from the last default routes through it; its state is the one
/// its flags and addresses give; everything else is kept.
pub open spec fn kept_device(o: DeviceInfo, d: DeviceInfo, pending: PendingEvents, snap: KernelSnapshot) -> bool {
    let link = link_for(pending.new_links@, o.ifindex);
    let rep = if pending.address_changed@.contains(o.ifindex) {
        report_for(snap.addresses@, o.ifindex)
    } else {
        None
    };
    &&& d.ifindex == o.ifindex
    &&& d.name == o.name
    &&& d.device_type == o.device_type
    &&& d.link_flags == match link {
        Some(l) => l.flags,
        None => o.link_flags,
    }
    &&& d.hw_address@ == match link {
        Some(l) => mac_after(l, o.hw_address@),
        None => o.hw_address@,
    }
    &&& d.ipv4_addrs@ == match rep {
        Some(r) => r.ipv4@,
        None => o.ipv4_addrs@,
    }
    &&& d.ipv6_addrs@ == match rep {
        Some(r) => r.ipv6@,
        None => o.ipv6_addrs@,
    }
    &&& if pending.routes_changed {
        gateways_are(d, last_gateway(snap.routes4@, o.ifindex), last_gateway(snap.routes6@, o.ifindex))
    } else if link.is_some() && link_drops_gateways(o, link.unwrap()) {
        d.gateway4.is_none() && d.gateway6.is_none()
    } else {
        d.gateway4 == o.gateway4 && d.gateway6 == o.gateway6
    }
    &&& d.nm_state == d.flag_state()
}

/// `d` is the device that link message `l` brings: what the message says of
/// the interface, the addresses of the first kernel report about it (none
/// without one), the gateways of the last default routes through it, and
/// the state that its flags and addresses give.
pub open spec fn created_device(l: LinkInfo, d: DeviceInfo, snap: KernelSnapshot) -> bool {
    let rep = report_for(snap.addresses@, l.ifindex);
    &&& link_is_shown(l)
    &&& d.ifindex == l.ifindex
    &&& d.name@ == l.name.unwrap()@
    &&& d.device_type == link_device_type(l)
    &&& d.hw_address@ == mac_after(l, Seq::empty())
    &&& d.link_flags == l.flags
    &&& d.ipv4_addrs@ == match rep {
        Some(r) => r.ipv4@,
        None => Seq::empty(),
    }
    &&& d.ipv6_addrs@ == match rep {
        Some(r) => r.ipv6@,
        None => Seq::empty(),
    }
    &&& gateways_are(d, last_gateway(snap.routes4@, l.ifindex), last_gateway(snap.routes6@, l.ifindex))
    &&& d.nm_state == d.flag_state()
}

/// `d` is what the batch makes of its interface: a kept device evolved by
/// the batch, or a device that a link message of the batch brought.
pub open spec fn device_after(before: Seq<DeviceInfo>, pending: PendingEvents, snap: KernelSnapshot, d: DeviceInfo) -> bool {
    if persists(before, pending, d.ifindex) {
        kept_device(dev_for(before, d.ifindex), d, pending, snap)
    } else {
        &&& link_for(pending.new_links@, d.ifindex).is_some()
        &&& created_device(link_for(pending.new_links@, d.ifindex).unwrap(), d, snap)
    }
}

/// The notifications a batch owes: DeviceRemoved for each removed device,
/// DeviceAdded for each new one, DeviceStateChanged from the state before
/// the batch to the state after it for each kept device whose state moved,
/// and the global state when it moved or a route changed.
pub open spec fn note_owed(before: AppState, after: AppState, pending: PendingEvents, n: Notification) -> bool {
    match n {
        Notification::DeviceRemoved(x) => has_ifindex(before.devices@, x) && pending.del_links@.contains(x),
        Notification::DeviceAdded(x) => has_ifindex(after.devices@, x) && !persists(before.devices@, pending, x),
        Notification::DeviceStateChanged { ifindex, new_state, old_state } => {
            &&& persists(before.devices@, pending, ifindex)
            &&& new_state == dev_for(after.devices@, ifindex).nm_state
            &&& old_state == dev_for(before.devices@, ifindex).nm_state
            &&& new_state != old_state
        },
        Notification::GlobalStateChanged(g) => g == after.global_state && (after.global_state
            != before.global_state || pending.routes_changed),
    }
}

/// The kind of a notification and the interface it is about.
pub open spec fn note_key(n: Notification) -> (int, i32) {
    match n {
        Notification::DeviceRemoved(x) => (0, x),
        Notification::DeviceAdded(x) => (1, x),
        Notification::DeviceStateChanged { ifindex, .. } => (2, ifindex),
        Notification::GlobalStateChanged(_) => (3, 0),
    }
}

/// No two notifications of `notes` are of one kind about one interface.
pub open spec fn keys_distinct(notes: Seq<Notification>) -> bool {
    forall|a: int, b: int|
        0 <= a < notes.len() && 0 <= b < notes.len() && note_key(#[trigger] notes[a]) == note_key(#[trigger] notes[b])
            ==> a == b
}

/// An action of a batch: registering a device that the batch brought, with
/// its type, or unregistering a removed one, with its type.
pub open spec fn action_allowed(before: Seq<DeviceInfo>, after: Seq<DeviceInfo>, pending: PendingEvents, a: ObjectAction) -> bool {
    match a {
        ObjectAction::Register { ifindex, device_type } => has_ifindex(after, ifindex) && !persists(before, pending, ifindex)
            && device_type == dev_for(after, ifindex).device_type,
        ObjectAction::Unregister { ifindex, device_type } => has_ifindex(before, ifindex) && pending.del_links@.contains(ifindex)
            && device_type == dev_for(before, ifindex).device_type,
    }
}

/// Whether `x` occurs in `v`.
pub fn vec_contains(v: &Vec<i32>, x: i32) -> (r: bool)
    ensures
        r == v@.contains(x),
{
    let mut i: usize = 0;
    while i < v.len()
        invariant
            0 <= i <= v@.len(),
            forall|j: int| 0 <= j < i ==> v@[j] != x,
        decreases v@.len() - i,
    {
        if v[i] == x {
            assert(v@[i as int] == x);
            return true;
        }
        i += 1;
    }
    false
}

/// The position of the device with ifindex `x` in `devs`, if there is one.
pub fn position_of(devs: &Vec<DeviceInfo>, x: i32) -> (r: Option<usize>)
    ensures
        match r {
            Some(i) => i < devs@.len() && devs@[i as int].ifindex == x,
            None => !has_ifindex(devs@, x),
        },
{
    let mut i: usize = 0;
    while i < devs.len()
        invariant
            0 <= i <= devs@.len(),
            forall|j: int| 0 <= j < i ==> #[trigger] devs@[j].ifindex != x,
        decreases devs@.len() - i,
    {
        if devs[i].ifindex == x {
            return Some(i);
        }
        i += 1;
    }
    None
}

/// A copy of an address list.
pub fn clone_addrs(v: &Vec<AddrInfo>) -> (r: Vec<AddrInfo>)
    ensures
        r@ == v@,
{
    let mut r: Vec<AddrInfo> = Vec::new();
    let mut i: usize = 0;
    while i < v.len()
        invariant
            0 <= i <= v@.len(),
            r@ == v@.subrange(0, i as int),
        decreases v@.len() - i,
    {
        let a = &v[i];
        r.push(AddrInfo { address: a.address.clone(), prefix_len: a.prefix_len });
        assert(r@ =~= v@.subrange(0, i + 1));
        i += 1;
    }
    assert(v@.subrange(0, v@.len() as int) =~= v@);
    r
}

/// A copy of an optional string.
pub fn clone_text(o: &Option<String>) -> (r: Option<String>)
    ensures
        r == *o,
{
    match o {
        Some(s) => Some(s.clone()),
        None => None,
    }
}

/// The gateway of the last default route of `routes` through `ifindex`.
pub fn gateway_for(routes: &Vec<RouteInfo>, ifindex: i32) -> (r: Option<String>)
    ensures
        opt_text(r) == last_gateway(routes@, ifindex),
{
    let mut r: Option<String> = None;
    let mut k: usize = 0;
    while k < routes.len()
        invariant
            0 <= k <= routes@.len(),
            opt_text(r) == last_gateway(routes@.subrange(0, k as int), ifindex),
        decreases routes@.len() - k,
    {
        let ghost next = routes@.subrange(0, k + 1);
        assert(next.drop_last() =~= routes@.subrange(0, k as int));
        assert(next.last() == routes@[k as int]);
        match parse_default_gateway(&routes[k]) {
            Some((g, oif)) => {
                if oif == ifindex {
                    r = Some(g);
                }
            },
            None => {},
        }
        k += 1;
    }
    assert(routes@.subrange(0, routes@.len() as int) =~= routes@);
    r
}

/// The position of the first address report of this ifindex, if there is one.
pub fn find_addresses(reports: &Vec<LinkAddresses>, ifindex: i32) -> (r: Option<usize>)
    ensures
        match r {
            Some(k) => is_first_report(reports@, ifindex, k as int),
            None => forall|j: int| 0 <= j < reports@.len() ==> #[trigger] reports@[j].ifindex != ifindex,
        },
{
    let mut k: usize = 0;
    while k < reports.len()
        invariant
            0 <= k <= reports@.len(),
            forall|j: int| 0 <= j < k ==> #[trigger] reports@[j].ifindex != ifindex,
        decreases reports@.len() - k,
    {
        if reports[k].ifindex == ifindex {
            return Some(k);
        }
        k += 1;
    }
    None
}


/// The batch's link message about the kept device `o` drops its gateways.
pub open spec fn link_drops(o: DeviceInfo, pending: PendingEvents) -> bool {
    link_for(pending.new_links@, o.ifindex).is_some() && link_drops_gateways(o, link_for(pending.new_links@, o.ifindex).unwrap())
}

/// Interface `y` is one of the first `len` kept devices, and its link
/// message dropped its gateways.
pub open spec fn dropped_kept(before: Seq<DeviceInfo>, kept: Seq<DeviceInfo>, src: Seq<int>, len: int, pending: PendingEvents, y: i32) -> bool {
    exists|j: int| 0 <= j < len && #[trigger] kept[j].ifindex == y && link_drops(before[src[j]], pending)
}

/// The interfaces whose IP configuration objects a batch must invalidate:
/// those with an address change, every device after a route change, and
/// every kept device whose gateways its link message dropped.
pub open spec fn ip_owed(before: Seq<DeviceInfo>, after: Seq<DeviceInfo>, pending: PendingEvents, x: i32) -> bool {
    ||| pending.address_changed@.contains(x)
    ||| pending.routes_changed && has_ifindex(after, x)
    ||| persists(before, pending, x) && link_drops(dev_for(before, x), pending)
}

/// Whether the batch's link message about `o` drops its gateways.
pub fn link_dropping(o: &DeviceInfo, pending: &PendingEvents) -> (r: bool)
    requires
        pending.wf(),
    ensures
        r == link_drops(*o, *pending),
{
    match find_link(&pending.new_links, o.ifindex) {
        Some(k) => {
            proof {
                let c = choose|m: int| 0 <= m < pending.new_links@.len() && #[trigger] pending.new_links@[m].ifindex == o.ifindex;
                assert(pending.new_links@[c].ifindex == pending.new_links@[k as int].ifindex);
            }
            let l = &pending.new_links[k];
            let s1 = netlink_flags_to_nm_device(l.flags, !o.ipv4_addrs.is_empty(), !o.ipv6_addrs.is_empty());
            s1 != o.nm_state && (s1 == DEVICE_STATE_DISCONNECTED || s1 == DEVICE_STATE_UNAVAILABLE)
        },
        None => false,
    }
}

/// The device `o` after the batch (see `kept_device`).
pub fn evolve_device(o: &DeviceInfo, pending: &PendingEvents, snap: &KernelSnapshot) -> (d: DeviceInfo)
    requires
        pending.wf(),
    ensures
        kept_device(*o, d, *pending, *snap),
{
    let x = o.ifindex;
    let mut flags = o.link_flags;
    let mut hw = o.hw_address.clone();
    let mut g4 = clone_text(&o.gateway4);
    let mut g6 = clone_text(&o.gateway6);
    match find_link(&pending.new_links, x) {
        Some(k) => {
            let l = &pending.new_links[k];
            proof {
                let c = choose|m: int| 0 <= m < pending.new_links@.len() && #[trigger] pending.new_links@[m].ifindex == x;
                assert(pending.new_links@[c].ifindex == pending.new_links@[k as int].ifindex);
            }
            match &l.mac {
                Some(m) => {
                    hw = format_mac(m.as_slice());
                },
                None => {},
            }
            let s1 = netlink_flags_to_nm_device(l.flags, !o.ipv4_addrs.is_empty(), !o.ipv6_addrs.is_empty());
            if s1 != o.nm_state && (s1 == DEVICE_STATE_DISCONNECTED || s1 == DEVICE_STATE_UNAVAILABLE) {
                g4 = None;
                g6 = None;
            }
            flags = l.flags;
        },
        None => {},
    }
    let mut v4 = clone_addrs(&o.ipv4_addrs);
    let mut v6 = clone_addrs(&o.ipv6_addrs);
    if vec_contains(&pending.address_changed, x) {
        match find_addresses(&snap.addresses, x) {
            Some(r) => {
                proof {
                    let c = choose|q: int| #[trigger] is_first_report(snap.addresses@, x, q);
                    if c < r {
                        assert(snap.addresses@[c].ifindex != x);
                    } else if r < c {
                        assert(snap.addresses@[r as int].ifindex != x);
                    }
                }
                v4 = clone_addrs(&snap.addresses[r].ipv4);
                v6 = clone_addrs(&snap.addresses[r].ipv6);
            },
            None => {},
        }
    }
    if pending.routes_changed {
        g4 = gateway_for(&snap.routes4, x);
        g6 = gateway_for(&snap.routes6, x);
    }
    let state = netlink_flags_to_nm_device(flags, !v4.is_empty(), !v6.is_empty());
    DeviceInfo {
        ifindex: x,
        name: o.name.clone(),
        device_type: o.device_type,
        hw_address: hw,
        link_flags: flags,
        nm_state: state,
        ipv4_addrs: v4,
        ipv6_addrs: v6,
        gateway4: g4,
        gateway6: g6,
    }
}

/// The device that link message `l` brings (see `created_device`); `None`
/// when the message names no interface or an ignored one.
pub fn create_device(l: &LinkInfo, snap: &KernelSnapshot) -> (r: Option<DeviceInfo>)
    ensures
        r.is_some() == link_is_shown(*l),
        match r {
            Some(d) => created_device(*l, d, *snap),
            None => true,
        },
{
    let mut d = match device_from_link_msg(l) {
        Some(d) => d,
        None => return None,
    };
    match find_addresses(&snap.addresses, l.ifindex) {
        Some(r) => {
            proof {
                let c = choose|q: int| #[trigger] is_first_report(snap.addresses@, l.ifindex, q);
                if c < r {
                    assert(snap.addresses@[c].ifindex != l.ifindex);
                } else if r < c {
                    assert(snap.addresses@[r as int].ifindex != l.ifindex);
                }
            }
            d.ipv4_addrs = clone_addrs(&snap.addresses[r].ipv4);
            d.ipv6_addrs = clone_addrs(&snap.addresses[r].ipv6);
        },
        None => {},
    }
    d.gateway4 = gateway_for(&snap.routes4, l.ifindex);
    d.gateway6 = gateway_for(&snap.routes6, l.ifindex);
    d.nm_state = netlink_flags_to_nm_device(l.flags, !d.ipv4_addrs.is_empty(), !d.ipv6_addrs.is_empty());
    assert(d.ipv4_addrs@ == match report_for(snap.addresses@, l.ifindex) { Some(r) => r.ipv4@, None => Seq::empty() });
    assert(d.ipv6_addrs@ == match report_for(snap.addresses@, l.ifindex) { Some(r) => r.ipv6@, None => Seq::empty() });
    assert(created_device(*l, d, *snap));
    Some(d)
}


/// Some device among the first `i` of `before` has ifindex `x`, and the batch
/// removes `x`.
pub open spec fn removed_upto(before: Seq<DeviceInfo>, pending: PendingEvents, i: int, x: i32) -> bool {
    exists|i2: int| 0 <= i2 < i && #[trigger] before[i2].ifindex == x && pending.del_links@.contains(x)
}

/// `n` announces a state move of one of the first `len` kept devices.
pub open spec fn moved_note(before: Seq<DeviceInfo>, kept: Seq<DeviceInfo>, src: Seq<int>, len: int, n: Notification) -> bool {
    match n {
        Notification::DeviceStateChanged { ifindex, new_state, old_state } => exists|j: int|
            0 <= j < len && #[trigger] kept[j].ifindex == ifindex && new_state == kept[j].nm_state && old_state
                == before[src[j]].nm_state && new_state != old_state,
        _ => false,
    }
}

/// `n` announces one of the devices of `devs` from position `from` on.
pub open spec fn added_note(devs: Seq<DeviceInfo>, from: int, n: Notification) -> bool {
    match n {
        Notification::DeviceAdded(x) => exists|j: int| from <= j < devs.len() && #[trigger] devs[j].ifindex == x,
        _ => false,
    }
}

/// `n` announces the removal of one of the first `i` devices of `before`.
pub open spec fn removed_note(before: Seq<DeviceInfo>, pending: PendingEvents, i: int, n: Notification) -> bool {
    match n {
        Notification::DeviceRemoved(x) => removed_upto(before, pending, i, x),
        _ => false,
    }
}

proof fn lemma_dev_for(devs: Seq<DeviceInfo>, j: int)
    requires
        unique_ifindexes(devs),
        0 <= j < devs.len(),
    ensures
        dev_for(devs, devs[j].ifindex) == devs[j],
{
    let c = choose|i: int| 0 <= i < devs.len() && #[trigger] devs[i].ifindex == devs[j].ifindex;
    assert(devs[c].ifindex == devs[j].ifindex);
}

impl AppState {
    /// Applies one batch: removed devices go, every kept device is evolved
    /// by the batch's link message, address change and route change about it
    /// in that order (see `kept_device`), and every shown link message about
    /// an interface without a kept device brings a new one (see
    /// `created_device`). The global state and the connectivity are then
    /// derived from the table. The actions unregister exactly the removed
    /// devices and register exactly the new ones; the notifications are
    /// exactly those owed (see `note_owed`), each at most once.
    pub fn apply_batch(&mut self, pending: &PendingEvents, snap: &KernelSnapshot) -> (out: BatchOutcome)
        requires
            old(self).wf(),
            pending.wf(),
        ensures
            final(self).wf(),
            forall|j: int| 0 <= j < final(self).devices@.len() ==> device_after(old(self).devices@, *pending, *snap, #[trigger] final(self).devices@[j]),
            forall|x: i32| #[trigger] ifindex_set(final(self).devices@).contains(x) == batch_keeps(ifindex_set(old(self).devices@), *pending, x),
            registry_tracks(ifindex_set(old(self).devices@), out.actions@, *final(self)),
            forall|a: ObjectAction| #[trigger] out.actions@.contains(a) ==> action_allowed(old(self).devices@, final(self).devices@, *pending, a),
            forall|n: Notification| #[trigger] out.notifications@.contains(n) == note_owed(*old(self), *final(self), *pending, n),
            keys_distinct(out.notifications@),
            no_dups(out.ip_config_changed@),
            forall|x: i32| #[trigger] out.ip_config_changed@.contains(x) == ip_owed(old(self).devices@, final(self).devices@, *pending, x),
            if snap.nameservers.is_some() && (pending.address_changed@.len() > 0 || exists|j: int| 0 <= j < final(self).devices@.len()
                && !persists(old(self).devices@, *pending, #[trigger] final(self).devices@[j].ifindex)) {
                &&& final(self).nameservers@.len() == snap.nameservers.unwrap()@.len()
                &&& forall|i: int| 0 <= i < final(self).nameservers@.len() ==> (#[trigger] final(self).nameservers@[i])@ == snap.nameservers.unwrap()@[i]@
            } else {
                final(self).nameservers == old(self).nameservers
            },
            final(self).user_disconnect_pending == old(self).user_disconnect_pending,
    {
        let ghost before = self.devices@;
        let ghost reg = ifindex_set(before);
        let n = self.devices.len();
        let mut actions: Vec<ObjectAction> = Vec::new();
        let mut notes: Vec<Notification> = Vec::new();
        let mut i: usize = 0;
        while i < n
            invariant
                0 <= i <= n,
                n == before.len(),
                self.devices@ == before,
                unique_ifindexes(before),
                reg == ifindex_set(before),
                actions_consistent(reg, actions@),
                forall|y: i32| #[trigger] registered_after(reg, actions@).contains(y) == (has_ifindex(before, y) && !removed_upto(before, *pending, i as int, y)),
                forall|a: ObjectAction| #[trigger] actions@.contains(a) ==> match a {
                    ObjectAction::Unregister { ifindex, device_type } => exists|i2: int| 0 <= i2 < i && #[trigger] before[i2].ifindex == ifindex
                        && device_type == before[i2].device_type && pending.del_links@.contains(ifindex),
                    ObjectAction::Register { .. } => false,
                },
                forall|m: Notification| #[trigger] notes@.contains(m) == removed_note(before, *pending, i as int, m),
                keys_distinct(notes@),
            decreases n - i,
        {
            let x = self.devices[i].ifindex;
            let ghost acts0 = actions@;
            let ghost notes0 = notes@;
            if vec_contains(&pending.del_links, x) {
                let a = ObjectAction::Unregister { ifindex: x, device_type: self.devices[i].device_type };
                actions.push(a);
                notes.push(Notification::DeviceRemoved(x));
                proof {
                    assert(actions@.drop_last() =~= acts0);
                    assert(!removed_upto(before, *pending, i as int, x)) by {
                        if removed_upto(before, *pending, i as int, x) {
                            let i2 = choose|i2: int| 0 <= i2 < i && #[trigger] before[i2].ifindex == x && pending.del_links@.contains(x);
                            assert(before[i2].ifindex == before[i as int].ifindex);
                        }
                    }
                    assert(has_ifindex(before, x)) by {
                        assert(before[i as int].ifindex == x);
                    }
                    assert forall|y: i32| #[trigger] registered_after(reg, actions@).contains(y) == (has_ifindex(before, y)
                        && !removed_upto(before, *pending, i + 1, y)) by {
                        assert(registered_after(reg, acts0).contains(y) == (has_ifindex(before, y) && !removed_upto(before, *pending, i as int, y)));
                        if y == x {
                            assert(before[i as int].ifindex == y);
                        } else if removed_upto(before, *pending, i + 1, y) {
                            let i2 = choose|i2: int| 0 <= i2 < i + 1 && #[trigger] before[i2].ifindex == y && pending.del_links@.contains(y);
                            assert(i2 < i);
                        }
                    }
                    assert forall|a2: ObjectAction| #[trigger] actions@.contains(a2) implies match a2 {
                        ObjectAction::Unregister { ifindex, device_type } => exists|i2: int| 0 <= i2 < i + 1 && #[trigger] before[i2].ifindex == ifindex
                            && device_type == before[i2].device_type && pending.del_links@.contains(ifindex),
                        ObjectAction::Register { .. } => false,
                    } by {
                        if a2 == a {
                            assert(before[i as int].ifindex == x);
                        } else {
                            assert(acts0.contains(a2));
                        }
                    }
                    assert forall|m: Notification| #[trigger] notes@.contains(m) == removed_note(before, *pending, i + 1, m) by {
                        assert(notes0.contains(m) == removed_note(before, *pending, i as int, m));
                        match m {
                            Notification::DeviceRemoved(y) => {
                                if y == x {
                                    assert(before[i as int].ifindex == y);
                                } else if removed_upto(before, *pending, i + 1, y) {
                                    let i2 = choose|i2: int| 0 <= i2 < i + 1 && #[trigger] before[i2].ifindex == y && pending.del_links@.contains(y);
                                    assert(i2 < i);
                                }
                            },
                            _ => {},
                        }
                    }
                    assert forall|p: int, q: int|
                        0 <= p < notes@.len() && 0 <= q < notes@.len() && note_key(#[trigger] notes@[p]) == note_key(#[trigger] notes@[q])
                        implies p == q by {
                        let last = notes@.len() - 1;
                        if p == last && q != last {
                            assert(notes0.contains(notes0[q]));
                            assert(removed_note(before, *pending, i as int, notes0[q]));
                        } else if q == last && p != last {
                            assert(notes0.contains(notes0[p]));
                            assert(removed_note(before, *pending, i as int, notes0[p]));
                        } else if p != last && q != last {
                            assert(notes0[p] == notes@[p] && notes0[q] == notes@[q]);
                        }
                    }
                }
            } else {
                proof {
                    assert forall|y: i32| #[trigger] registered_after(reg, actions@).contains(y) == (has_ifindex(before, y)
                        && !removed_upto(before, *pending, i + 1, y)) by {
                        if removed_upto(before, *pending, i + 1, y) {
                            let i2 = choose|i2: int| 0 <= i2 < i + 1 && #[trigger] before[i2].ifindex == y && pending.del_links@.contains(y);
                            assert(i2 < i);
                        }
                        if removed_upto(before, *pending, i as int, y) {
                            let i2 = choose|i2: int| 0 <= i2 < i && #[trigger] before[i2].ifindex == y && pending.del_links@.contains(y);
                            assert(before[i2].ifindex == y);
                        }
                    }
                    assert forall|m: Notification| #[trigger] notes@.contains(m) == removed_note(before, *pending, i + 1, m) by {
                        match m {
                            Notification::DeviceRemoved(y) => {
                                if removed_upto(before, *pending, i + 1, y) {
                                    let i2 = choose|i2: int| 0 <= i2 < i + 1 && #[trigger] before[i2].ifindex == y && pending.del_links@.contains(y);
                                    assert(i2 < i);
                                }
                                if removed_upto(before, *pending, i as int, y) {
                                    let i2 = choose|i2: int| 0 <= i2 < i && #[trigger] before[i2].ifindex == y && pending.del_links@.contains(y);
                                    assert(before[i2].ifindex == y);
                                }
                            },
                            _ => {},
                        }
                    }
                    assert forall|a2: ObjectAction| #[trigger] actions@.contains(a2) implies match a2 {
                        ObjectAction::Unregister { ifindex, device_type } => exists|i2: int| 0 <= i2 < i + 1 && #[trigger] before[i2].ifindex == ifindex
                            && device_type == before[i2].device_type && pending.del_links@.contains(ifindex),
                        ObjectAction::Register { .. } => false,
                    } by {
                        match a2 {
                            ObjectAction::Unregister { ifindex, device_type } => {
                                let i2 = choose|i2: int| 0 <= i2 < i && #[trigger] before[i2].ifindex == ifindex
                                    && device_type == before[i2].device_type && pending.del_links@.contains(ifindex);
                                assert(before[i2].ifindex == ifindex);
                            },
                            _ => {},
                        }
                    }
                }
            }
            i += 1;
        }
        let ghost removed_notes = notes@;
        let ghost unregs = actions@;
        let mut kept: Vec<DeviceInfo> = Vec::new();
        let mut dropped: Vec<i32> = Vec::new();
        let ghost mut src: Seq<int> = seq![];
        let mut i: usize = 0;
        while i < n
            invariant
                0 <= i <= n,
                n == before.len(),
                self.devices@ == before,
                unique_ifindexes(before),
                pending.wf(),
                actions@ == unregs,
                kept@.len() == src.len(),
                forall|j: int| 0 <= j < kept@.len() ==> 0 <= #[trigger] src[j] < i && !pending.del_links@.contains(before[src[j]].ifindex)
                    && kept_device(before[src[j]], kept@[j], *pending, *snap),
                forall|j1: int, j2: int| 0 <= j1 < j2 < src.len() ==> src[j1] < src[j2],
                forall|i2: int| 0 <= i2 < i && !pending.del_links@.contains(#[trigger] before[i2].ifindex) ==> exists|j: int|
                    0 <= j < src.len() && src[j] == i2,
                unique_ifindexes(kept@),
                forall|y: i32| #[trigger] dropped@.contains(y) == dropped_kept(before, kept@, src, kept@.len() as int, *pending, y),
                forall|m: Notification| #[trigger] notes@.contains(m) == (removed_note(before, *pending, n as int, m) || moved_note(before, kept@, src, kept@.len() as int, m)),
                keys_distinct(notes@),
            decreases n - i,
        {
            let x = self.devices[i].ifindex;
            if !vec_contains(&pending.del_links, x) {
                let drop = link_dropping(&self.devices[i], pending);
                let d = evolve_device(&self.devices[i], pending, snap);
                let old_state = self.devices[i].nm_state;
                let new_state = d.nm_state;
                let ghost kept0 = kept@;
                let ghost src0 = src;
                let ghost notes0 = notes@;
                kept.push(d);
                proof {
                    src = src.push(i as int);
                    assert forall|j: int| 0 <= j < kept0.len() implies #[trigger] kept0[j].ifindex != x by {
                        assert(kept0[j].ifindex == before[src0[j]].ifindex);
                        assert(src0[j] != i);
                    }
                    assert forall|a: int, b: int|
                        0 <= a < kept@.len() && 0 <= b < kept@.len() && #[trigger] kept@[a].ifindex == #[trigger] kept@[b].ifindex implies a == b by {
                        if a < kept0.len() && b < kept0.len() {
                            assert(kept0[a].ifindex == kept0[b].ifindex);
                        } else if a < kept0.len() {
                            assert(kept0[a].ifindex != x);
                        } else if b < kept0.len() {
                            assert(kept0[b].ifindex != x);
                        }
                    }
                    assert forall|i2: int| 0 <= i2 < i + 1 && !pending.del_links@.contains(#[trigger] before[i2].ifindex) implies exists|j: int|
                        0 <= j < src.len() && src[j] == i2 by {
                        if i2 < i {
                            let j = choose|j: int| 0 <= j < src0.len() && src0[j] == i2;
                            assert(src[j] == i2);
                        } else {
                            assert(src[src.len() - 1] == i2);
                        }
                    }
                    assert forall|j: int| 0 <= j < kept@.len() implies 0 <= #[trigger] src[j] < i + 1 && !pending.del_links@.contains(before[src[j]].ifindex)
                        && kept_device(before[src[j]], kept@[j], *pending, *snap) by {
                        if j < kept0.len() {
                            assert(src[j] == src0[j] && kept@[j] == kept0[j]);
                        }
                    }
                }
                let ghost dropped0 = dropped@;
                if drop {
                    push_unique(&mut dropped, x);
                }
                proof {
                    let last = kept@.len() - 1;
                    assert(kept@[last].ifindex == x && src[last] == i);
                    assert forall|y: i32| #[trigger] dropped@.contains(y) == dropped_kept(before, kept@, src, kept@.len() as int, *pending, y) by {
                        assert(dropped0.contains(y) == dropped_kept(before, kept0, src0, kept0.len() as int, *pending, y));
                        if dropped_kept(before, kept0, src0, kept0.len() as int, *pending, y) {
                            let j = choose|j: int| 0 <= j < kept0.len() && #[trigger] kept0[j].ifindex == y && link_drops(before[src0[j]], *pending);
                            assert(kept@[j] == kept0[j] && src[j] == src0[j]);
                        }
                        if dropped_kept(before, kept@, src, kept@.len() as int, *pending, y) {
                            let j = choose|j: int| 0 <= j < kept@.len() && #[trigger] kept@[j].ifindex == y && link_drops(before[src[j]], *pending);
                            if j < kept0.len() {
                                assert(kept@[j] == kept0[j] && src[j] == src0[j]);
                            }
                        }
                    }
                }
                if new_state != old_state {
                    let note = Notification::DeviceStateChanged { ifindex: x, new_state, old_state };
                    notes.push(note);
                    proof {
                        let last = kept@.len() - 1;
                        assert(kept@[last].ifindex == x && before[src[last]].nm_state == old_state);
                        assert forall|m: Notification| #[trigger] notes@.contains(m) == (removed_note(before, *pending, n as int, m) || moved_note(before, kept@, src, kept@.len() as int, m)) by {
                            assert(notes0.contains(m) == (removed_note(before, *pending, n as int, m) || moved_note(before, kept0, src0, kept0.len() as int, m)));
                            match m {
                                Notification::DeviceStateChanged { ifindex, new_state: s, old_state: o } => {
                                    if moved_note(before, kept0, src0, kept0.len() as int, m) {
                                        let j = choose|j: int| 0 <= j < kept0.len() && #[trigger] kept0[j].ifindex == ifindex && s == kept0[j].nm_state
                                            && o == before[src0[j]].nm_state && s != o;
                                        assert(kept@[j] == kept0[j] && src[j] == src0[j]);
                                    }
                                    if moved_note(before, kept@, src, kept@.len() as int, m) && m != note {
                                        let j = choose|j: int| 0 <= j < kept@.len() && #[trigger] kept@[j].ifindex == ifindex && s == kept@[j].nm_state
                                            && o == before[src[j]].nm_state && s != o;
                                        if j == last {
                                            assert(m == note);
                                        } else {
                                            assert(kept@[j] == kept0[j] && src[j] == src0[j]);
                                        }
                                    }
                                },
                                _ => {},
                            }
                        }
                        assert forall|p: int, q: int|
                            0 <= p < notes@.len() && 0 <= q < notes@.len() && note_key(#[trigger] notes@[p]) == note_key(#[trigger] notes@[q])
                            implies p == q by {
                            let lst = notes@.len() - 1;
                            if p != lst && q != lst {
                                assert(notes0[p] == notes@[p] && notes0[q] == notes@[q]);
                            } else if p != q {
                                let r = if p == lst { q } else { p };
                                assert(notes0.contains(notes0[r]));
                                assert(notes0[r] == notes@[r]);
                                let m = notes0[r];
                                assert(note_key(m) == (2int, x));
                                match m {
                                    Notification::DeviceStateChanged { ifindex, new_state: s, old_state: o } => {
                                        let j = choose|j: int| 0 <= j < kept0.len() && #[trigger] kept0[j].ifindex == ifindex && s == kept0[j].nm_state
                                            && o == before[src0[j]].nm_state && s != o;
                                        assert(kept0[j].ifindex != x);
                                    },
                                    _ => {},
                                }
                            }
                        }
                    }
                } else {
                    proof {
                        assert forall|m: Notification| #[trigger] notes@.contains(m) == (removed_note(before, *pending, n as int, m) || moved_note(before, kept@, src, kept@.len() as int, m)) by {
                            match m {
                                Notification::DeviceStateChanged { ifindex, new_state: s, old_state: o } => {
                                    if moved_note(before, kept0, src0, kept0.len() as int, m) {
                                        let j = choose|j: int| 0 <= j < kept0.len() && #[trigger] kept0[j].ifindex == ifindex && s == kept0[j].nm_state
                                            && o == before[src0[j]].nm_state && s != o;
                                        assert(kept@[j] == kept0[j] && src[j] == src0[j]);
                                    }
                                    if moved_note(before, kept@, src, kept@.len() as int, m) {
                                        let j = choose|j: int| 0 <= j < kept@.len() && #[trigger] kept@[j].ifindex == ifindex && s == kept@[j].nm_state
                                            && o == before[src[j]].nm_state && s != o;
                                        if j < kept0.len() {
                                            assert(kept@[j] == kept0[j] && src[j] == src0[j]);
                                        }
                                    }
                                },
                                _ => {},
                            }
                        }
                    }
                }
            }
            i += 1;
        }
        // the ifindexes of the kept devices are exactly the persisting ones
        proof {
            assert forall|y: i32| #[trigger] has_ifindex(kept@, y) == persists(before, *pending, y) by {
                if has_ifindex(kept@, y) {
                    let j = choose|j: int| 0 <= j < kept@.len() && #[trigger] kept@[j].ifindex == y;
                    assert(before[src[j]].ifindex == y);
                }
                if persists(before, *pending, y) {
                    let i2 = choose|i2: int| 0 <= i2 < before.len() && #[trigger] before[i2].ifindex == y;
                    let j = choose|j: int| 0 <= j < src.len() && src[j] == i2;
                    assert(kept@[j].ifindex == y);
                }
            }
        }
        let ghost kept0 = kept@;
        let ghost notes1 = notes@;
        let nk = kept.len();
        let mut devs = kept;
        let mut added_any = false;
        let mut k: usize = 0;
        while k < pending.new_links.len()
            invariant
                0 <= k <= pending.new_links@.len(),
                pending.wf(),
                unique_ifindexes(before),
                reg == ifindex_set(before),
                nk == kept0.len(),
                devs@.len() >= nk,
                forall|j: int| 0 <= j < nk ==> #[trigger] devs@[j] == kept0[j],
                forall|y: i32| #[trigger] has_ifindex(kept0, y) == persists(before, *pending, y),
                forall|j: int| nk <= j < devs@.len() ==> {
                    &&& link_for(pending.new_links@, (#[trigger] devs@[j]).ifindex).is_some()
                    &&& created_device(link_for(pending.new_links@, devs@[j].ifindex).unwrap(), devs@[j], *snap)
                    &&& !persists(before, *pending, devs@[j].ifindex)
                },
                unique_ifindexes(devs@),
                forall|x: i32| #[trigger] has_ifindex(devs@, x) == (persists(before, *pending, x) || exists|m: int|
                    0 <= m < k && #[trigger] pending.new_links@[m].ifindex == x && link_is_shown(pending.new_links@[m])),
                added_any == (devs@.len() > nk),
                actions_consistent(reg, actions@),
                forall|y: i32| #[trigger] registered_after(reg, actions@).contains(y) == has_ifindex(devs@, y),
                forall|a: ObjectAction| #[trigger] actions@.contains(a) ==> match a {
                    ObjectAction::Unregister { ifindex, device_type } => exists|i2: int| 0 <= i2 < before.len() && #[trigger] before[i2].ifindex == ifindex
                        && device_type == before[i2].device_type && pending.del_links@.contains(ifindex),
                    ObjectAction::Register { ifindex, device_type } => exists|j: int| nk <= j < devs@.len() && #[trigger] devs@[j].ifindex == ifindex
                        && device_type == devs@[j].device_type,
                },
                forall|m: Notification| #[trigger] notes@.contains(m) == (notes1.contains(m) || added_note(devs@, nk as int, m)),
                forall|m: Notification| #[trigger] notes1.contains(m) ==> match m {
                    Notification::DeviceAdded(_) => false,
                    _ => true,
                },
                keys_distinct(notes@),
            decreases pending.new_links@.len() - k,
        {
            let l = &pending.new_links[k];
            let ghost devs0 = devs@;
            let ghost acts0 = actions@;
            let ghost notes0 = notes@;
            proof {
                assert forall|x: i32| #[trigger] has_ifindex(devs0, x) == (persists(before, *pending, x) || exists|m: int|
                    0 <= m < k && #[trigger] pending.new_links@[m].ifindex == x && link_is_shown(pending.new_links@[m])) by {}
            }
            match position_of(&devs, l.ifindex) {
                Some(_) => {
                    proof {
                        assert forall|x: i32| #[trigger] has_ifindex(devs@, x) == (persists(before, *pending, x) || exists|m: int|
                            0 <= m < k + 1 && #[trigger] pending.new_links@[m].ifindex == x && link_is_shown(pending.new_links@[m])) by {
                            if exists|m: int| 0 <= m < k + 1 && #[trigger] pending.new_links@[m].ifindex == x && link_is_shown(pending.new_links@[m]) {
                                let m = choose|m: int| 0 <= m < k + 1 && #[trigger] pending.new_links@[m].ifindex == x && link_is_shown(pending.new_links@[m]);
                                if m == k {
                                    assert(has_ifindex(devs@, x));
                                }
                            }
                        }
                    }
                },
                None => {
                    match create_device(l, snap) {
                        Some(d) => {
                            let x = d.ifindex;
                            let t = d.device_type;
                            devs.push(d);
                            let a = ObjectAction::Register { ifindex: x, device_type: t };
                            actions.push(a);
                            notes.push(Notification::DeviceAdded(x));
                            added_any = true;
                            proof {
                                let last = devs@.len() - 1;
                                assert(devs@[last].ifindex == x);
                                let c = choose|m: int| 0 <= m < pending.new_links@.len() && #[trigger] pending.new_links@[m].ifindex == x;
                                assert(pending.new_links@[c].ifindex == pending.new_links@[k as int].ifindex);
                                assert(link_for(pending.new_links@, x) == Some(pending.new_links@[k as int]));
                                assert(!persists(before, *pending, x));
                                assert(!has_ifindex(devs0, x));
                                assert forall|j: int| 0 <= j < nk implies #[trigger] devs@[j] == kept0[j] by {
                                    assert(devs@[j] == devs0[j]);
                                }
                                assert forall|j: int| nk <= j < devs@.len() implies {
                                    &&& link_for(pending.new_links@, (#[trigger] devs@[j]).ifindex).is_some()
                                    &&& created_device(link_for(pending.new_links@, devs@[j].ifindex).unwrap(), devs@[j], *snap)
                                    &&& !persists(before, *pending, devs@[j].ifindex)
                                } by {
                                    if j < last {
                                        assert(devs@[j] == devs0[j]);
                                    }
                                }
                                assert forall|p: int, q: int|
                                    0 <= p < devs@.len() && 0 <= q < devs@.len() && #[trigger] devs@[p].ifindex == #[trigger] devs@[q].ifindex implies p == q by {
                                    if p < last && q < last {
                                        assert(devs0[p].ifindex == devs0[q].ifindex);
                                    } else if p < last {
                                        assert(devs0[p].ifindex == x);
                                    } else if q < last {
                                        assert(devs0[q].ifindex == x);
                                    }
                                }
                                assert forall|y: i32| #[trigger] has_ifindex(devs@, y) == (persists(before, *pending, y) || exists|m: int|
                                    0 <= m < k + 1 && #[trigger] pending.new_links@[m].ifindex == y && link_is_shown(pending.new_links@[m])) by {
                                    if has_ifindex(devs@, y) && y != x {
                                        let j = choose|j: int| 0 <= j < devs@.len() && #[trigger] devs@[j].ifindex == y;
                                        assert(j != last);
                                        assert(devs0[j].ifindex == y);
                                    }
                                    if has_ifindex(devs0, y) {
                                        let j = choose|j: int| 0 <= j < devs0.len() && #[trigger] devs0[j].ifindex == y;
                                        assert(devs@[j].ifindex == y);
                                    }
                                    if y == x {
                                        assert(pending.new_links@[k as int].ifindex == y);
                                    }
                                    if exists|m: int| 0 <= m < k + 1 && #[trigger] pending.new_links@[m].ifindex == y && link_is_shown(pending.new_links@[m]) {
                                        let m = choose|m: int| 0 <= m < k + 1 && #[trigger] pending.new_links@[m].ifindex == y && link_is_shown(pending.new_links@[m]);
                                        if m < k {
                                            assert(has_ifindex(devs0, y));
                                        }
                                    }
                                }
                                assert(actions@.drop_last() =~= acts0);
                                assert(!registered_after(reg, acts0).contains(x));
                                assert forall|y: i32| #[trigger] registered_after(reg, actions@).contains(y) == has_ifindex(devs@, y) by {
                                    assert(registered_after(reg, acts0).contains(y) == has_ifindex(devs0, y));
                                    if has_ifindex(devs0, y) {
                                        let j = choose|j: int| 0 <= j < devs0.len() && #[trigger] devs0[j].ifindex == y;
                                        assert(devs@[j].ifindex == y);
                                    }
                                    if has_ifindex(devs@, y) && y != x {
                                        let j = choose|j: int| 0 <= j < devs@.len() && #[trigger] devs@[j].ifindex == y;
                                        assert(devs0[j].ifindex == y);
                                    }
                                    if y == x {
                                        assert(devs@[last].ifindex == y);
                                    }
                                }
                                assert forall|a2: ObjectAction| #[trigger] actions@.contains(a2) implies match a2 {
                                    ObjectAction::Unregister { ifindex, device_type } => exists|i2: int| 0 <= i2 < before.len() && #[trigger] before[i2].ifindex == ifindex
                                        && device_type == before[i2].device_type && pending.del_links@.contains(ifindex),
                                    ObjectAction::Register { ifindex, device_type } => exists|j: int| nk <= j < devs@.len() && #[trigger] devs@[j].ifindex == ifindex
                                        && device_type == devs@[j].device_type,
                                } by {
                                    if a2 == a {
                                        assert(devs@[last].ifindex == x);
                                    } else {
                                        assert(acts0.contains(a2));
                                        match a2 {
                                            ObjectAction::Register { ifindex, device_type } => {
                                                let j = choose|j: int| nk <= j < devs0.len() && #[trigger] devs0[j].ifindex == ifindex
                                                    && device_type == devs0[j].device_type;
                                                assert(devs@[j] == devs0[j]);
                                            },
                                            _ => {},
                                        }
                                    }
                                }
                                assert forall|m: Notification| #[trigger] notes@.contains(m) == (notes1.contains(m) || added_note(devs@, nk as int, m)) by {
                                    assert(notes0.contains(m) == (notes1.contains(m) || added_note(devs0, nk as int, m)));
                                    match m {
                                        Notification::DeviceAdded(y) => {
                                            if added_note(devs0, nk as int, m) {
                                                let j = choose|j: int| nk <= j < devs0.len() && #[trigger] devs0[j].ifindex == y;
                                                assert(devs@[j].ifindex == y);
                                            }
                                            if added_note(devs@, nk as int, m) && y != x {
                                                let j = choose|j: int| nk <= j < devs@.len() && #[trigger] devs@[j].ifindex == y;
                                                assert(devs0[j].ifindex == y);
                                            }
                                            if y == x {
                                                assert(devs@[last].ifindex == y);
                                            }
                                        },
                                        _ => {},
                                    }
                                }
                                assert forall|p: int, q: int|
                                    0 <= p < notes@.len() && 0 <= q < notes@.len() && note_key(#[trigger] notes@[p]) == note_key(#[trigger] notes@[q])
                                    implies p == q by {
                                    let lst = notes@.len() - 1;
                                    if p != lst && q != lst {
                                        assert(notes0[p] == notes@[p] && notes0[q] == notes@[q]);
                                    } else if p != q {
                                        let r = if p == lst { q } else { p };
                                        assert(notes0[r] == notes@[r]);
                                        assert(notes0.contains(notes0[r]));
                                        let m = notes0[r];
                                        assert(note_key(m) == (1int, x));
                                        match m {
                                            Notification::DeviceAdded(y) => {
                                                assert(!notes1.contains(m));
                                                let j = choose|j: int| nk <= j < devs0.len() && #[trigger] devs0[j].ifindex == y;
                                                assert(devs0[j].ifindex == x);
                                            },
                                            _ => {},
                                        }
                                    }
                                }
                            }
                        },
                        None => {
                            proof {
                                assert forall|y: i32| #[trigger] has_ifindex(devs@, y) == (persists(before, *pending, y) || exists|m: int|
                                    0 <= m < k + 1 && #[trigger] pending.new_links@[m].ifindex == y && link_is_shown(pending.new_links@[m])) by {
                                    if exists|m: int| 0 <= m < k + 1 && #[trigger] pending.new_links@[m].ifindex == y && link_is_shown(pending.new_links@[m]) {
                                        let m = choose|m: int| 0 <= m < k + 1 && #[trigger] pending.new_links@[m].ifindex == y && link_is_shown(pending.new_links@[m]);
                                        assert(m < k);
                                    }
                                }
                            }
                        },
                    }
                },
            }
            k += 1;
        }
        proof {
            if exists|j: int| 0 <= j < devs@.len() && !persists(before, *pending, #[trigger] devs@[j].ifindex) {
                let j = choose|j: int| 0 <= j < devs@.len() && !persists(before, *pending, #[trigger] devs@[j].ifindex);
                if j < nk {
                    assert(devs@[j] == kept0[j]);
                    assert(has_ifindex(kept0, kept0[j].ifindex));
                }
            }
            if devs@.len() > nk {
                assert(!persists(before, *pending, devs@[nk as int].ifindex));
            }
        }
        if snap.nameservers.is_some() && (added_any || !pending.address_changed.is_empty()) {
            match &snap.nameservers {
                Some(ns) => {
                    self.nameservers = ns.clone();
                },
                None => {},
            }
        }
        let old_global = self.global_state;
        self.devices = devs;
        self.recompute_global_state();
        let ghost notes2 = notes@;
        if self.global_state != old_global || pending.routes_changed {
            notes.push(Notification::GlobalStateChanged(self.global_state));
        }
        let mut ip: Vec<i32> = Vec::new();
        let mut k: usize = 0;
        while k < pending.address_changed.len()
            invariant
                0 <= k <= pending.address_changed@.len(),
                no_dups(ip@),
                forall|y: i32| #[trigger] ip@.contains(y) == exists|m: int| 0 <= m < k && pending.address_changed@[m] == y,
            decreases pending.address_changed@.len() - k,
        {
            let ghost ip0 = ip@;
            push_unique(&mut ip, pending.address_changed[k]);
            assert forall|y: i32| #[trigger] ip@.contains(y) == exists|m: int| 0 <= m < k + 1 && pending.address_changed@[m] == y by {
                assert(ip0.contains(y) == exists|m: int| 0 <= m < k && pending.address_changed@[m] == y);
                if exists|m: int| 0 <= m < k + 1 && pending.address_changed@[m] == y {
                    let m = choose|m: int| 0 <= m < k + 1 && pending.address_changed@[m] == y;
                    if m < k {
                        assert(ip0.contains(y));
                    }
                }
            }
            k += 1;
        }
        let ghost ip1 = ip@;
        let mut k: usize = 0;
        while k < dropped.len()
            invariant
                0 <= k <= dropped@.len(),
                no_dups(ip@),
                forall|y: i32| #[trigger] ip@.contains(y) == (ip1.contains(y) || exists|m: int| 0 <= m < k && dropped@[m] == y),
            decreases dropped@.len() - k,
        {
            let ghost ip0 = ip@;
            push_unique(&mut ip, dropped[k]);
            assert forall|y: i32| #[trigger] ip@.contains(y) == (ip1.contains(y) || exists|m: int| 0 <= m < k + 1 && dropped@[m] == y) by {
                assert(ip0.contains(y) == (ip1.contains(y) || exists|m: int| 0 <= m < k && dropped@[m] == y));
                if exists|m: int| 0 <= m < k + 1 && dropped@[m] == y {
                    let m = choose|m: int| 0 <= m < k + 1 && dropped@[m] == y;
                    if m < k {
                        assert(ip0.contains(y));
                    }
                }
            }
            k += 1;
        }
        let ghost ip2 = ip@;
        if pending.routes_changed {
            let mut k: usize = 0;
            while k < self.devices.len()
                invariant
                    0 <= k <= self.devices@.len(),
                    no_dups(ip@),
                    forall|y: i32| #[trigger] ip@.contains(y) == (ip2.contains(y) || exists|m: int| 0 <= m < k && #[trigger] self.devices@[m].ifindex == y),
                decreases self.devices@.len() - k,
            {
                let ghost ip0 = ip@;
                push_unique(&mut ip, self.devices[k].ifindex);
                assert forall|y: i32| #[trigger] ip@.contains(y) == (ip2.contains(y) || exists|m: int| 0 <= m < k + 1 && #[trigger] self.devices@[m].ifindex == y) by {
                    assert(ip0.contains(y) == (ip2.contains(y) || exists|m: int| 0 <= m < k && #[trigger] self.devices@[m].ifindex == y));
                    if exists|m: int| 0 <= m < k + 1 && #[trigger] self.devices@[m].ifindex == y {
                        let m = choose|m: int| 0 <= m < k + 1 && #[trigger] self.devices@[m].ifindex == y;
                        if m < k {
                            assert(ip0.contains(y));
                        }
                    }
                }
                k += 1;
            }
        }
        proof {
            let after = self.devices@;
            assert forall|y: i32| #[trigger] ip@.contains(y) == ip_owed(before, after, *pending, y) by {
                if pending.address_changed@.contains(y) {
                    let m = choose|m: int| 0 <= m < pending.address_changed@.len() && pending.address_changed@[m] == y;
                }
                if dropped@.contains(y) {
                    let m = choose|m: int| 0 <= m < dropped@.len() && dropped@[m] == y;
                }
                assert(dropped@.contains(y) == dropped_kept(before, kept0, src, nk as int, *pending, y));
                if dropped_kept(before, kept0, src, nk as int, *pending, y) {
                    let j = choose|j: int| 0 <= j < nk && #[trigger] kept0[j].ifindex == y && link_drops(before[src[j]], *pending);
                    assert(kept0[j].ifindex == before[src[j]].ifindex);
                    lemma_dev_for(before, src[j]);
                    assert(has_ifindex(kept0, y));
                }
                if persists(before, *pending, y) && link_drops(dev_for(before, y), *pending) {
                    assert(has_ifindex(kept0, y));
                    let j = choose|j: int| 0 <= j < kept0.len() && #[trigger] kept0[j].ifindex == y;
                    assert(kept0[j].ifindex == before[src[j]].ifindex);
                    lemma_dev_for(before, src[j]);
                }
                if pending.routes_changed && has_ifindex(after, y) {
                    let j = choose|j: int| 0 <= j < after.len() && #[trigger] after[j].ifindex == y;
                }
            }
        }
        proof {
            let after = self.devices@;
            assert forall|j: int| 0 <= j < after.len() implies #[trigger] after[j].nm_state == after[j].flag_state() by {
                if j < nk {
                    assert(after[j] == kept0[j]);
                    let jj = j;
                    assert(kept_device(before[src[jj]], kept0[jj], *pending, *snap));
                }
            }
            assert forall|j: int| 0 <= j < after.len() implies device_after(before, *pending, *snap, #[trigger] after[j]) by {
                if j < nk {
                    assert(after[j] == kept0[j]);
                    assert(kept0[j].ifindex == before[src[j]].ifindex);
                    assert(has_ifindex(kept0, kept0[j].ifindex));
                    lemma_dev_for(before, src[j]);
                }
            }
            assert forall|x: i32| #[trigger] ifindex_set(after).contains(x) == batch_keeps(ifindex_set(before), *pending, x) by {
                assert(has_ifindex(after, x) == (persists(before, *pending, x) || exists|m: int|
                    0 <= m < pending.new_links@.len() && #[trigger] pending.new_links@[m].ifindex == x && link_is_shown(pending.new_links@[m])));
            }
            assert(registered_after(reg, actions@) =~= ifindex_set(after));
            assert forall|a: ObjectAction| #[trigger] actions@.contains(a) implies action_allowed(before, after, *pending, a) by {
                match a {
                    ObjectAction::Unregister { ifindex, device_type } => {
                        let i2 = choose|i2: int| 0 <= i2 < before.len() && #[trigger] before[i2].ifindex == ifindex
                            && device_type == before[i2].device_type && pending.del_links@.contains(ifindex);
                        lemma_dev_for(before, i2);
                    },
                    ObjectAction::Register { ifindex, device_type } => {
                        let j = choose|j: int| nk <= j < after.len() && #[trigger] after[j].ifindex == ifindex && device_type == after[j].device_type;
                        lemma_dev_for(after, j);
                    },
                }
            }
            assert forall|m: Notification| #[trigger] notes@.contains(m) == note_owed(*old(self), *self, *pending, m) by {
                assert(notes2.contains(m) == (notes1.contains(m) || added_note(after, nk as int, m)));
                assert(notes1.contains(m) == (removed_note(before, *pending, n as int, m) || moved_note(before, kept0, src, nk as int, m)));
                match m {
                    Notification::DeviceRemoved(x) => {
                        if has_ifindex(before, x) && pending.del_links@.contains(x) {
                            let i2 = choose|i2: int| 0 <= i2 < before.len() && #[trigger] before[i2].ifindex == x;
                            assert(removed_upto(before, *pending, n as int, x));
                        }
                    },
                    Notification::DeviceAdded(x) => {
                        if added_note(after, nk as int, m) {
                            let j = choose|j: int| nk <= j < after.len() && #[trigger] after[j].ifindex == x;
                            assert(!persists(before, *pending, x));
                        }
                        if has_ifindex(after, x) && !persists(before, *pending, x) {
                            let j = choose|j: int| 0 <= j < after.len() && #[trigger] after[j].ifindex == x;
                            if j < nk {
                                assert(after[j] == kept0[j]);
                                assert(has_ifindex(kept0, x));
                            }
                        }
                    },
                    Notification::DeviceStateChanged { ifindex, new_state, old_state } => {
                        if moved_note(before, kept0, src, nk as int, m) {
                            let j = choose|j: int| 0 <= j < nk && #[trigger] kept0[j].ifindex == ifindex && new_state == kept0[j].nm_state
                                && old_state == before[src[j]].nm_state && new_state != old_state;
                            assert(after[j] == kept0[j]);
                            lemma_dev_for(after, j);
                            lemma_dev_for(before, src[j]);
                            assert(has_ifindex(kept0, ifindex));
                        }
                        if note_owed(*old(self), *self, *pending, m) {
                            assert(has_ifindex(kept0, ifindex));
                            let j = choose|j: int| 0 <= j < kept0.len() && #[trigger] kept0[j].ifindex == ifindex;
                            assert(after[j] == kept0[j]);
                            lemma_dev_for(after, j);
                            lemma_dev_for(before, src[j]);
                        }
                    },
                    Notification::GlobalStateChanged(g) => {},
                }
            }
            assert forall|p: int, q: int|
                0 <= p < notes@.len() && 0 <= q < notes@.len() && note_key(#[trigger] notes@[p]) == note_key(#[trigger] notes@[q])
                implies p == q by {
                if notes@.len() > notes2.len() {
                    let lst = notes@.len() - 1;
                    if p != lst && q != lst {
                        assert(notes2[p] == notes@[p] && notes2[q] == notes@[q]);
                    } else if p != q {
                        let r = if p == lst { q } else { p };
                        assert(notes2[r] == notes@[r]);
                        assert(notes2.contains(notes2[r]));
                    }
                }
            }
        }
        BatchOutcome { actions, notifications: notes, ip_config_changed: ip }
    }
}

/// Message `m` of `links` names a shown interface.
pub open spec fn shown_at(links: Seq<LinkInfo>, m: int) -> bool {
    link_is_shown(links[m])
}


/// Builds the model at startup from the kernel's link dump and what the
/// kernel reported of those links, as one batch of link messages applied to
/// an empty model. Messages without a name or with an ignored name are
/// skipped, so every interface that some message names as shown has a
/// device, the one its last such message brings (see `created_device`: its
/// name, type, hardware address and flags, the addresses of the first report
/// about it, the gateways of the last default routes through it, and the
/// state these give). The actions register
/// the objects of every device.
pub fn initial_state(links: Vec<LinkInfo>, snap: &KernelSnapshot) -> (r: (AppState, BatchOutcome))
    ensures
        r.0.wf(),
        registry_tracks(Set::empty(), r.1.actions@, r.0),
        forall|x: i32| #[trigger] ifindex_set(r.0.devices@).contains(x) ==> exists|m: int|
            0 <= m < links@.len() && #[trigger] links@[m].ifindex == x && link_is_shown(links@[m]),
        forall|x: i32|
            (exists|m: int| 0 <= m < links@.len() && #[trigger] links@[m].ifindex == x && link_is_shown(links@[m]))
                ==> #[trigger] ifindex_set(r.0.devices@).contains(x),
        forall|j: int| 0 <= j < r.0.devices@.len() ==> exists|m: int|
            0 <= m < links@.len() && links@[m].ifindex == (#[trigger] r.0.devices@[j]).ifindex && created_device(links@[m], r.0.devices@[j], *snap),
        if snap.nameservers.is_some() && r.0.devices@.len() > 0 {
            &&& r.0.nameservers@.len() == snap.nameservers.unwrap()@.len()
            &&& forall|i: int| 0 <= i < r.0.nameservers@.len() ==> (#[trigger] r.0.nameservers@[i])@ == snap.nameservers.unwrap()@[i]@
        } else {
            r.0.nameservers@.len() == 0
        },
{
    let ghost orig = links@;
    let n0 = links.len();
    let mut rest = links;
    let mut pending = PendingEvents::new();
    let mut c: usize = 0;
    while rest.len() > 0
        invariant
            pending.wf(),
            c <= orig.len(),
            orig.len() == n0,
            rest@ == orig.subrange(c as int, orig.len() as int),
            pending.del_links@.len() == 0,
            pending.address_changed@.len() == 0,
            forall|p: int| 0 <= p < pending.new_links@.len() ==> link_is_shown(#[trigger] pending.new_links@[p]),
            forall|p: int| #![trigger pending.new_links@[p]] 0 <= p < pending.new_links@.len() ==> exists|m: int| 0 <= m < c && orig[m] == pending.new_links@[p],
            forall|m: int| 0 <= m < c && #[trigger] shown_at(orig, m) ==> exists|p: int| 0 <= p < pending.new_links@.len() && #[trigger] pending.new_links@[p].ifindex == orig[m].ifindex,
        decreases rest@.len(),
    {
        assert(c < orig.len());
        let link = rest.remove(0);
        let ghost before = pending.new_links@;
        assert(link == orig[c as int]);
        let shown = crate::events::link_shown(&link);
        if !shown {
            proof {
                assert(!shown_at(orig, c as int));
                assert forall|p: int| #![trigger pending.new_links@[p]] 0 <= p < pending.new_links@.len() implies exists|m: int| 0 <= m < c + 1 && orig[m] == pending.new_links@[p] by {
                    let m = choose|m: int| 0 <= m < c && orig[m] == pending.new_links@[p];
                    assert(orig[m] == pending.new_links@[p]);
                }
                assert forall|m: int| 0 <= m < c + 1 && #[trigger] shown_at(orig, m) implies exists|p: int| 0 <= p < pending.new_links@.len() && #[trigger] pending.new_links@[p].ifindex == orig[m].ifindex by {
                    assert(m < c);
                }
            }
        } else {
            assert(link_is_shown(orig[c as int]));
            pending.accumulate(crate::events::NetlinkEvent::NewLink(link));
            proof {
                let nl = pending.new_links@;
                assert forall|p: int| #![trigger nl[p]] 0 <= p < nl.len() implies exists|m: int| 0 <= m < c + 1 && orig[m] == nl[p] by {
                    if p < before.len() && nl[p] == before[p] {
                        let m = choose|m: int| 0 <= m < c && orig[m] == before[p];
                        assert(orig[m] == nl[p]);
                    } else {
                        assert(orig[c as int] == nl[p]);
                    }
                }
                assert forall|m: int| 0 <= m < c + 1 && #[trigger] shown_at(orig, m) implies exists|p: int| 0 <= p < nl.len() && #[trigger] nl[p].ifindex == orig[m].ifindex by {
                    if m < c {
                        let p = choose|p: int| 0 <= p < before.len() && #[trigger] before[p].ifindex == orig[m].ifindex;
                        assert(nl[p].ifindex == before[p].ifindex);
                    } else {
                        if exists|k: int| 0 <= k < before.len() && #[trigger] before[k].ifindex == orig[c as int].ifindex {
                            let k = choose|k: int| 0 <= k < before.len() && #[trigger] before[k].ifindex == orig[c as int].ifindex;
                            assert(nl[k].ifindex == orig[m].ifindex);
                        } else {
                            assert(nl[before.len() as int].ifindex == orig[m].ifindex);
                        }
                    }
                }
            }
        }
        c += 1;
        assert(rest@ =~= orig.subrange(c as int, orig.len() as int));
    }
    assert(c == orig.len());
    assert(orig == links@);
    assert forall|p: int| #![trigger pending.new_links@[p]] 0 <= p < pending.new_links@.len() implies exists|m: int|
        0 <= m < links@.len() && links@[m] == pending.new_links@[p] by {
        let m = choose|m: int| 0 <= m < c && orig[m] == pending.new_links@[p];
        assert(links@[m] == pending.new_links@[p]);
    }
    assert forall|m: int| 0 <= m < links@.len() && #[trigger] shown_at(links@, m) implies exists|p: int|
        0 <= p < pending.new_links@.len() && #[trigger] pending.new_links@[p].ifindex == links@[m].ifindex by {
        assert(shown_at(orig, m));
    }
    let mut st = AppState::new();
    assert(ifindex_set(st.devices@) =~= Set::empty());
    assert(st.devices@ =~= Seq::<DeviceInfo>::empty());
    let out = st.apply_batch(&pending, snap);
    proof {
        if st.devices@.len() > 0 {
            assert(!persists(Seq::<DeviceInfo>::empty(), pending, st.devices@[0].ifindex));
        }
        assert(!(exists|j: int| 0 <= j < st.devices@.len() && !persists(Seq::<DeviceInfo>::empty(), pending, #[trigger] st.devices@[j].ifindex)) ==> st.devices@.len() == 0);
        assert forall|x: i32| #[trigger] ifindex_set(st.devices@).contains(x) implies exists|m: int|
            0 <= m < orig.len() && #[trigger] orig[m].ifindex == x && link_is_shown(orig[m]) by {
            assert(batch_keeps(Set::empty(), pending, x));
            let p = choose|p: int| 0 <= p < pending.new_links@.len() && #[trigger] pending.new_links@[p].ifindex == x
                && link_is_shown(pending.new_links@[p]);
            let m = choose|m: int| 0 <= m < c && orig[m] == pending.new_links@[p];
            assert(orig[m].ifindex == x);
        }
        assert forall|x: i32|
            (exists|m: int| 0 <= m < orig.len() && #[trigger] orig[m].ifindex == x && link_is_shown(orig[m]))
            implies #[trigger] ifindex_set(st.devices@).contains(x) by {
            let m = choose|m: int| 0 <= m < orig.len() && #[trigger] orig[m].ifindex == x && link_is_shown(orig[m]);
            assert(shown_at(orig, m));
            let p = choose|p: int| 0 <= p < pending.new_links@.len() && #[trigger] pending.new_links@[p].ifindex == orig[m].ifindex;
            let m2 = choose|m2: int| 0 <= m2 < c && #[trigger] orig[m2] == pending.new_links@[p] && link_is_shown(orig[m2]);
            assert(orig[m2].ifindex == x);
            assert(link_is_shown(pending.new_links@[p]));
            assert(batch_keeps(Set::empty(), pending, x));
        }
        assert forall|j: int| 0 <= j < st.devices@.len() implies exists|m: int|
            0 <= m < orig.len() && orig[m].ifindex == (#[trigger] st.devices@[j]).ifindex && created_device(orig[m], st.devices@[j], *snap) by {
            let d = st.devices@[j];
            assert(device_after(Seq::<DeviceInfo>::empty(), pending, *snap, d));
            assert(!persists(Seq::<DeviceInfo>::empty(), pending, d.ifindex));
            let l = link_for(pending.new_links@, d.ifindex).unwrap();
            let p = choose|p: int| 0 <= p < pending.new_links@.len() && #[trigger] pending.new_links@[p].ifindex == d.ifindex;
            let m = choose|m: int| 0 <= m < c && orig[m] == pending.new_links@[p];
            assert(orig[m] == l);
        }
    }
    (st, out)
}

} // verus!
