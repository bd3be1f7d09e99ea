//! What the bus objects show: values computed from the model on each read,
//! and the payloads of the notifications.

use vstd::prelude::*;

use crate::mapping::{
    ac_state_of, active_connection_state, connection_type_of, device_type_to_connection_type,
    DEVICE_STATE_ACTIVATED, DEVICE_TYPE_ETHERNET, DEVICE_TYPE_WIREGUARD,
};
use crate::paths::{
    active_connection_path, device_path, object_path, parse_path_ifindex, path_ifindex, root_path,
    settings_path,
};
use crate::state::{has_ifindex, unique_ifindexes, AppState, DeviceInfo};
use crate::events::push_unique;
use crate::text::{int_text, push_int, push_str};
use crate::uuid::{connection_uuid, connection_uuid_text};

verus! {

/// The ifindexes of the devices of `devs` that are Activated, in order.
pub open spec fn activated_ifindexes(devs: Seq<DeviceInfo>) -> Seq<i32>
    decreases devs.len(),
{
    if devs.len() == 0 {
        seq![]
    } else {
        let front = activated_ifindexes(devs.drop_last());
        if devs.last().nm_state >= DEVICE_STATE_ACTIVATED {
            front.push(devs.last().ifindex)
        } else {
            front
        }
    }
}

/// The device is Activated and has a default gateway.
pub open spec fn is_primary_candidate(d: DeviceInfo) -> bool {
    d.nm_state >= DEVICE_STATE_ACTIVATED && d.has_gw()
}

/// The position of the first Activated device with a gateway.
pub open spec fn primary_index(devs: Seq<DeviceInfo>) -> Option<int> {
    if exists|i: int| 0 <= i < devs.len() && #[trigger] is_primary_candidate(devs[i]) {
        Some(
            choose|i: int|
                0 <= i < devs.len() && #[trigger] is_primary_candidate(devs[i]) && forall|j: int|
                    0 <= j < i ==> !#[trigger] is_primary_candidate(devs[j]),
        )
    } else {
        None
    }
}

/// The payload of the notifications for a device's state change.
#[derive(Debug)]
pub struct DeviceStateSignal {
    /// The new device state, also the first field of `StateReason`.
    pub state: u32,
    /// The previous device state.
    pub old_state: u32,
    /// The device's active connection path, or `/` below Activated.
    pub active_connection: String,
    /// The new active-connection state.
    pub ac_state: u32,
    /// The active-connection state crossed the Activated boundary.
    pub ac_state_changed: bool,
}

/// The payload of the notification for a global state change.
#[derive(Debug)]
pub struct GlobalStateSignal {
    pub state: u32,
    pub connectivity: u32,
    pub active_connections: Vec<String>,
    pub primary_connection: String,
}

/// The profile that a device's settings object shows.
#[derive(Debug)]
pub struct ConnectionSettings {
    pub id: String,
    pub uuid: String,
    pub connection_type: String,
    pub interface_name: String,
    /// Whether an empty Ethernet section accompanies the profile.
    pub ethernet_section: bool,
}

/// The active-connection path of a device in state `state`, or `/` below
/// Activated.
pub fn active_connection_for(ifindex: i32, state: u32) -> (r: String)
    ensures
        r@ == if state >= DEVICE_STATE_ACTIVATED {
            object_path("ActiveConnection"@, ifindex)
        } else {
            seq!['/']
        },
{
    if state >= DEVICE_STATE_ACTIVATED {
        active_connection_path(ifindex)
    } else {
        root_path()
    }
}

/// The payload for a device moving from `old_state` to `new_state`.
pub fn device_state_signal(ifindex: i32, new_state: u32, old_state: u32) -> (r: DeviceStateSignal)
    ensures
        r.state == new_state,
        r.old_state == old_state,
        r.active_connection@ == if new_state >= DEVICE_STATE_ACTIVATED {
            object_path("ActiveConnection"@, ifindex)
        } else {
            seq!['/']
        },
        r.ac_state == ac_state_of(new_state),
        r.ac_state_changed == (ac_state_of(new_state) != ac_state_of(old_state)),
{
    let ac_state = active_connection_state(new_state);
    let old_ac_state = active_connection_state(old_state);
    DeviceStateSignal {
        state: new_state,
        old_state,
        active_connection: active_connection_for(ifindex, new_state),
        ac_state,
        ac_state_changed: ac_state != old_ac_state,
    }
}

impl AppState {
    /// The device object paths, one per device, in table order.
    pub fn device_paths(&self) -> (r: Vec<String>)
        ensures
            r@.len() == self.devices@.len(),
            forall|j: int| 0 <= j < r@.len() ==> (#[trigger] r@[j])@ == object_path("Devices"@, self.devices@[j].ifindex),
    {
        let mut r: Vec<String> = Vec::new();
        let mut i: usize = 0;
        while i < self.devices.len()
            invariant
                0 <= i <= self.devices@.len(),
                r@.len() == i,
                forall|j: int| 0 <= j < i ==> (#[trigger] r@[j])@ == object_path("Devices"@, self.devices@[j].ifindex),
            decreases self.devices@.len() - i,
        {
            r.push(device_path(self.devices[i].ifindex));
            i += 1;
        }
        r
    }

    /// The settings object paths, one per device, in table order.
    pub fn settings_paths(&self) -> (r: Vec<String>)
        ensures
            r@.len() == self.devices@.len(),
            forall|j: int| 0 <= j < r@.len() ==> (#[trigger] r@[j])@ == object_path("Settings"@, self.devices@[j].ifindex),
    {
        let mut r: Vec<String> = Vec::new();
        let mut i: usize = 0;
        while i < self.devices.len()
            invariant
                0 <= i <= self.devices@.len(),
                r@.len() == i,
                forall|j: int| 0 <= j < i ==> (#[trigger] r@[j])@ == object_path("Settings"@, self.devices@[j].ifindex),
            decreases self.devices@.len() - i,
        {
            r.push(settings_path(self.devices[i].ifindex));
            i += 1;
        }
        r
    }

    /// The active-connection paths of the Activated devices, in table order.
    pub fn active_connection_paths(&self) -> (r: Vec<String>)
        ensures
            r@.len() == activated_ifindexes(self.devices@).len(),
            forall|j: int| 0 <= j < r@.len() ==> (#[trigger] r@[j])@ == object_path("ActiveConnection"@, activated_ifindexes(self.devices@)[j]),
    {
        let mut r: Vec<String> = Vec::new();
        let mut i: usize = 0;
        while i < self.devices.len()
            invariant
                0 <= i <= self.devices@.len(),
                r@.len() == activated_ifindexes(self.devices@.subrange(0, i as int)).len(),
                forall|j: int| 0 <= j < r@.len() ==> (#[trigger] r@[j])@ == object_path("ActiveConnection"@, activated_ifindexes(self.devices@.subrange(0, i as int))[j]),
            decreases self.devices@.len() - i,
        {
            let ghost next = self.devices@.subrange(0, i + 1);
            assert(next.drop_last() =~= self.devices@.subrange(0, i as int));
            if self.devices[i].nm_state >= DEVICE_STATE_ACTIVATED {
                r.push(active_connection_path(self.devices[i].ifindex));
            }
            i += 1;
        }
        assert(self.devices@.subrange(0, self.devices@.len() as int) =~= self.devices@);
        r
    }

    /// The position of the first Activated device with a default gateway.
    pub fn primary_device(&self) -> (r: Option<usize>)
        ensures
            match r {
                Some(i) => i < self.devices@.len() && primary_index(self.devices@) == Some(i as int),
                None => primary_index(self.devices@).is_none(),
            },
    {
        let mut i: usize = 0;
        while i < self.devices.len()
            invariant
                0 <= i <= self.devices@.len(),
                forall|j: int| 0 <= j < i ==> !#[trigger] is_primary_candidate(self.devices@[j]),
            decreases self.devices@.len() - i,
        {
            if self.devices[i].nm_state >= DEVICE_STATE_ACTIVATED && self.devices[i].has_gateway() {
                let ghost devs = self.devices@;
                assert(is_primary_candidate(devs[i as int]));
                let ghost c = choose|k: int|
                    0 <= k < devs.len() && #[trigger] is_primary_candidate(devs[k]) && forall|j: int|
                        0 <= j < k ==> !#[trigger] is_primary_candidate(devs[j]);
                assert(c == i as int) by {
                    if c < i {
                    } else if c > i {
                        assert(!is_primary_candidate(devs[i as int]));
                    }
                }
                return Some(i);
            }
            i += 1;
        }
        None
    }

    /// The primary connection: the active-connection path of the first
    /// Activated device with a gateway, or `/`.
    pub fn primary_connection(&self) -> (r: String)
        ensures
            r@ == match primary_index(self.devices@) {
                Some(i) => object_path("ActiveConnection"@, self.devices@[i].ifindex),
                None => seq!['/'],
            },
    {
        match self.primary_device() {
            Some(i) => active_connection_path(self.devices[i].ifindex),
            None => root_path(),
        }
    }

    /// The connection type of the primary connection's device, or the empty
    /// string when there is none.
    pub fn primary_connection_type(&self) -> (r: String)
        ensures
            r@ == match primary_index(self.devices@) {
                Some(i) => connection_type_of(self.devices@[i].device_type),
                None => Seq::<char>::empty(),
            },
    {
        let mut r = String::new();
        match self.primary_device() {
            Some(i) => {
                push_str(&mut r, device_type_to_connection_type(self.devices[i].device_type));
            },
            None => {},
        }
        r
    }

    /// The payload for a global state change to `new_global`.
    pub fn global_state_signal(&self, new_global: u32) -> (r: GlobalStateSignal)
        ensures
            r.state == new_global,
            r.connectivity == self.connectivity,
            r.active_connections@.len() == activated_ifindexes(self.devices@).len(),
            forall|j: int| 0 <= j < r.active_connections@.len() ==> (#[trigger] r.active_connections@[j])@ == object_path("ActiveConnection"@, activated_ifindexes(self.devices@)[j]),
            r.primary_connection@ == match primary_index(self.devices@) {
                Some(i) => object_path("ActiveConnection"@, self.devices@[i].ifindex),
                None => seq!['/'],
            },
    {
        GlobalStateSignal {
            state: new_global,
            connectivity: self.connectivity,
            active_connections: self.active_connection_paths(),
            primary_connection: self.primary_connection(),
        }
    }

    /// The ifindex of the first device called `name`.
    pub fn get_device_by_ip_iface(&self, name: &str) -> (r: Option<i32>)
        ensures
            match r {
                Some(ix) => exists|i: int| 0 <= i < self.devices@.len() && #[trigger] self.devices@[i].ifindex == ix && self.devices@[i].name@ == name@
                    && forall|j: int| 0 <= j < i ==> (#[trigger] self.devices@[j]).name@ != name@,
                None => forall|i: int| 0 <= i < self.devices@.len() ==> (#[trigger] self.devices@[i]).name@ != name@,
            },
    {
        let mut i: usize = 0;
        while i < self.devices.len()
            invariant
                0 <= i <= self.devices@.len(),
                forall|j: int| 0 <= j < i ==> (#[trigger] self.devices@[j]).name@ != name@,
            decreases self.devices@.len() - i,
        {
            if crate::text::starts_with(self.devices[i].name.as_str(), name) && self.devices[i].name.unicode_len() == name.unicode_len() {
                assert(self.devices@[i as int].name@ =~= name@);
                return Some(self.devices[i].ifindex);
            }
            i += 1;
        }
        None
    }

    /// The ifindex at the end of an object path, when a device has it.
    pub fn resolve_ifindex_from_path(&self, path: &str) -> (r: Option<i32>)
        ensures
            r == match path_ifindex(path@) {
                Some(ix) => if has_ifindex(self.devices@, ix) {
                    Some(ix)
                } else {
                    None
                },
                None => None,
            },
    {
        match parse_path_ifindex(path) {
            Some(ix) => match self.find_device(ix) {
                Some(_) => Some(ix),
                None => None,
            },
            None => None,
        }
    }

    /// The device that an activation request is for: the device path, or,
    /// when that is `/`, the connection path.
    pub fn resolve_activation_target(&self, connection: &str, device: &str) -> (r: Option<i32>)
        ensures
            r == match path_ifindex(if device@ == seq!['/'] { connection@ } else { device@ }) {
                Some(ix) => if has_ifindex(self.devices@, ix) {
                    Some(ix)
                } else {
                    None
                },
                None => None,
            },
    {
        proof {
            reveal_strlit("/");
        }
        assert("/"@ =~= seq!['/']);
        let is_root = device.unicode_len() == 1 && crate::text::starts_with(device, "/");
        assert(is_root == (device@ =~= seq!['/'])) by {
            if device@.len() == 1 && "/"@.is_prefix_of(device@) {
                assert(device@ =~= device@.subrange(0, 1));
            }
        }
        if is_root {
            self.resolve_ifindex_from_path(connection)
        } else {
            self.resolve_ifindex_from_path(device)
        }
    }

    /// Notes that the next Down transition of `ifindex` was asked for by a
    /// client.
    pub fn record_user_disconnect(&mut self, ifindex: i32)
        ensures
            final(self).user_disconnect_pending@.contains(ifindex),
            forall|x: i32| old(self).user_disconnect_pending@.contains(x) ==> final(self).user_disconnect_pending@.contains(x),
            final(self).devices == old(self).devices,
            final(self).global_state == old(self).global_state,
            final(self).connectivity == old(self).connectivity,
            final(self).nameservers == old(self).nameservers,
    {
        push_unique(&mut self.user_disconnect_pending, ifindex);
    }

    /// The active-connection state shown for `ifindex`; `None` when the
    /// device is unknown.
    pub fn ac_state(&self, ifindex: i32) -> (r: Option<u32>)
        ensures
            match r {
                Some(s) => exists|i: int| 0 <= i < self.devices@.len() && #[trigger] self.devices@[i].ifindex == ifindex && s == ac_state_of(self.devices@[i].nm_state),
                None => !has_ifindex(self.devices@, ifindex),
            },
    {
        match self.find_device(ifindex) {
            Some(i) => Some(active_connection_state(self.devices[i].nm_state)),
            None => None,
        }
    }

    /// The name shown for device `ifindex` in its profile: the device's
    /// name, or `eth{ifindex}` for an unknown device.
    pub open spec fn profile_name(&self, ifindex: i32) -> Seq<char> {
        match self.find_device_spec(ifindex) {
            Some(i) => self.devices@[i].name@,
            None => seq!['e', 't', 'h'] + int_text(ifindex as int),
        }
    }

    /// The device type shown for device `ifindex` in its profile: the
    /// device's type, or Ethernet for an unknown device.
    pub open spec fn profile_type(&self, ifindex: i32) -> u32 {
        match self.find_device_spec(ifindex) {
            Some(i) => self.devices@[i].device_type,
            None => DEVICE_TYPE_ETHERNET,
        }
    }

    /// The profile of device `ifindex`: its name as id and interface name,
    /// the UUID of that name, and the connection type of its device type;
    /// every profile but a WireGuard one carries an empty Ethernet section.
    pub fn connection_settings(&self, ifindex: i32) -> (r: ConnectionSettings)
        requires
            unique_ifindexes(self.devices@),
        ensures
            r.id@ == self.profile_name(ifindex),
            r.interface_name@ == self.profile_name(ifindex),
            r.uuid@ == connection_uuid_text(self.profile_name(ifindex)),
            r.connection_type@ == connection_type_of(self.profile_type(ifindex)),
            r.ethernet_section == (self.profile_type(ifindex) != DEVICE_TYPE_WIREGUARD),
    {
        let (name, dt) = match self.find_device(ifindex) {
            Some(i) => {
                assert(has_ifindex(self.devices@, ifindex));
                let ghost c = choose|k: int| 0 <= k < self.devices@.len() && #[trigger] self.devices@[k].ifindex == ifindex;
                assert(self.devices@[c].ifindex == self.devices@[i as int].ifindex);
                (self.devices[i].name.clone(), self.devices[i].device_type)
            },
            None => {
                let mut n = String::new();
                push_str(&mut n, "eth");
                push_int(&mut n, ifindex);
                proof {
                    reveal_strlit("eth");
                }
                assert(n@ =~= seq!['e', 't', 'h'] + int_text(ifindex as int));
                (n, DEVICE_TYPE_ETHERNET)
            },
        };
        let mut ct = String::new();
        push_str(&mut ct, device_type_to_connection_type(dt));
        ConnectionSettings {
            id: name.clone(),
            uuid: connection_uuid(name.as_str()),
            connection_type: ct,
            interface_name: name,
            ethernet_section: dt != DEVICE_TYPE_WIREGUARD,
        }
    }
}

/// The authorization keys that are reported, the first of them granted.
pub open spec fn permission_keys() -> Seq<Seq<char>> {
    seq![
        "org.freedesktop.NetworkManager.network-control"@,
        "org.freedesktop.NetworkManager.checkpoint-rollback"@,
        "org.freedesktop.NetworkManager.enable-disable-connectivity-check"@,
        "org.freedesktop.NetworkManager.enable-disable-network"@,
        "org.freedesktop.NetworkManager.enable-disable-statistics"@,
        "org.freedesktop.NetworkManager.enable-disable-wifi"@,
        "org.freedesktop.NetworkManager.enable-disable-wimax"@,
        "org.freedesktop.NetworkManager.enable-disable-wwan"@,
        "org.freedesktop.NetworkManager.reload"@,
        "org.freedesktop.NetworkManager.settings.modify.global-dns"@,
        "org.freedesktop.NetworkManager.settings.modify.hostname"@,
        "org.freedesktop.NetworkManager.settings.modify.own"@,
        "org.freedesktop.NetworkManager.settings.modify.system"@,
        "org.freedesktop.NetworkManager.sleep-wake"@,
        "org.freedesktop.NetworkManager.wifi.scan"@,
        "org.freedesktop.NetworkManager.wifi.share.open"@,
        "org.freedesktop.NetworkManager.wifi.share.protected"@,
    ]
}

/// The permissions reported to clients: network control is granted,
/// everything else refused.
pub fn get_permissions() -> (r: Vec<(&'static str, &'static str)>)
    ensures
        r@.len() == permission_keys().len(),
        forall|i: int| 0 <= i < r@.len() ==> (#[trigger] r@[i]).0@ == permission_keys()[i],
        forall|i: int| 0 <= i < r@.len() ==> (#[trigger] r@[i]).1@ == if i == 0 { "yes"@ } else { "no"@ },
{
    let keys = [
        "org.freedesktop.NetworkManager.network-control",
        "org.freedesktop.NetworkManager.checkpoint-rollback",
        "org.freedesktop.NetworkManager.enable-disable-connectivity-check",
        "org.freedesktop.NetworkManager.enable-disable-network",
        "org.freedesktop.NetworkManager.enable-disable-statistics",
        "org.freedesktop.NetworkManager.enable-disable-wifi",
        "org.freedesktop.NetworkManager.enable-disable-wimax",
        "org.freedesktop.NetworkManager.enable-disable-wwan",
        "org.freedesktop.NetworkManager.reload",
        "org.freedesktop.NetworkManager.settings.modify.global-dns",
        "org.freedesktop.NetworkManager.settings.modify.hostname",
        "org.freedesktop.NetworkManager.settings.modify.own",
        "org.freedesktop.NetworkManager.settings.modify.system",
        "org.freedesktop.NetworkManager.sleep-wake",
        "org.freedesktop.NetworkManager.wifi.scan",
        "org.freedesktop.NetworkManager.wifi.share.open",
        "org.freedesktop.NetworkManager.wifi.share.protected",
    ];
    let mut r: Vec<(&'static str, &'static str)> = Vec::new();
    let mut i: usize = 0;
    while i < 17
        invariant
            0 <= i <= 17,
            keys@.len() == 17,
            forall|j: int| 0 <= j < 17 ==> (#[trigger] keys@[j])@ == permission_keys()[j],
            r@.len() == i,
            forall|j: int| 0 <= j < i ==> (#[trigger] r@[j]).0@ == permission_keys()[j],
            forall|j: int| 0 <= j < i ==> (#[trigger] r@[j]).1@ == if j == 0 { "yes"@ } else { "no"@ },
        decreases 17 - i,
    {
        let grant = if i == 0 { "yes" } else { "no" };
        r.push((keys[i], grant));
        i += 1;
    }
    r
}

} // verus!
