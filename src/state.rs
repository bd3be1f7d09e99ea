//! The in-memory model of the host's network devices and the fields derived
//! from it.

use vstd::prelude::*;

use crate::mapping::{
    connectivity_of, device_state_of, global_state_of, global_state_to_connectivity,
    netlink_flags_to_nm_device, DEVICE_STATE_ACTIVATED, DEVICE_STATE_DISCONNECTED,
    DEVICE_STATE_IP_CONFIG, DEVICE_STATE_UNAVAILABLE, DEVICE_STATE_UNKNOWN,
    NM_STATE_CONNECTED_GLOBAL, NM_STATE_CONNECTED_LOCAL, NM_STATE_DISCONNECTED,
};

verus! {

/// One address of a device: its text form and its prefix length.
#[derive(Debug, Clone)]
pub struct AddrInfo {
    pub address: String,
    pub prefix_len: u8,
}

/// What is known of one kernel network interface.
#[derive(Debug)]
pub struct DeviceInfo {
    pub ifindex: i32,
    pub name: String,
    pub device_type: u32,
    pub hw_address: String,
    pub link_flags: u32,
    pub nm_state: u32,
    pub ipv4_addrs: Vec<AddrInfo>,
    pub ipv6_addrs: Vec<AddrInfo>,
    pub gateway4: Option<String>,
    pub gateway6: Option<String>,
}

impl DeviceInfo {
    /// The device has at least one address of either family.
    pub open spec fn has_ip(&self) -> bool {
        self.ipv4_addrs@.len() > 0 || self.ipv6_addrs@.len() > 0
    }

    /// The device has a default gateway of either family.
    pub open spec fn has_gw(&self) -> bool {
        self.gateway4.is_some() || self.gateway6.is_some()
    }

    /// The state that the device's last-seen flags and its addresses stand for.
    pub open spec fn flag_state(&self) -> u32 {
        device_state_of(self.link_flags, self.ipv4_addrs@.len() > 0, self.ipv6_addrs@.len() > 0)
    }

    /// A fresh device with no flags, addresses or gateways, in the unknown state.
    pub fn new(ifindex: i32, name: String) -> (r: Self)
        ensures
            r.ifindex == ifindex,
            r.name@ == name@,
            r.device_type == crate::mapping::DEVICE_TYPE_ETHERNET,
            r.hw_address@.len() == 0,
            r.link_flags == 0,
            r.nm_state == DEVICE_STATE_UNKNOWN,
            r.ipv4_addrs@.len() == 0,
            r.ipv6_addrs@.len() == 0,
            r.gateway4.is_none(),
            r.gateway6.is_none(),
    {
        DeviceInfo {
            ifindex,
            name,
            device_type: crate::mapping::DEVICE_TYPE_ETHERNET,
            hw_address: String::new(),
            link_flags: 0,
            nm_state: DEVICE_STATE_UNKNOWN,
            ipv4_addrs: Vec::new(),
            ipv6_addrs: Vec::new(),
            gateway4: None,
            gateway6: None,
        }
    }

    /// Whether the device has an address of either family.
    pub fn has_ip_address(&self) -> (r: bool)
        ensures
            r == self.has_ip(),
    {
        !self.ipv4_addrs.is_empty() || !self.ipv6_addrs.is_empty()
    }

    /// Whether the device has a default gateway of either family.
    pub fn has_gateway(&self) -> (r: bool)
        ensures
            r == self.has_gw(),
    {
        self.gateway4.is_some() || self.gateway6.is_some()
    }

    /// Re-derives the state after the addresses changed. A device below
    /// IpConfig is left as it is; one at or above it becomes Activated with an
    /// address and IpConfig without. Returns `(new, old)` when the state moved.
    pub fn update_state_on_ip_change(&mut self) -> (r: Option<(u32, u32)>)
        ensures
            final(self).nm_state == (if old(self).nm_state < DEVICE_STATE_IP_CONFIG {
                old(self).nm_state
            } else if old(self).has_ip() {
                DEVICE_STATE_ACTIVATED
            } else {
                DEVICE_STATE_IP_CONFIG
            }),
            r == (if final(self).nm_state != old(self).nm_state {
                Some((final(self).nm_state, old(self).nm_state))
            } else {
                None::<(u32, u32)>
            }),
            final(self).ifindex == old(self).ifindex,
            final(self).name == old(self).name,
            final(self).device_type == old(self).device_type,
            final(self).hw_address == old(self).hw_address,
            final(self).link_flags == old(self).link_flags,
            final(self).ipv4_addrs == old(self).ipv4_addrs,
            final(self).ipv6_addrs == old(self).ipv6_addrs,
            final(self).gateway4 == old(self).gateway4,
            final(self).gateway6 == old(self).gateway6,
    {
        let old_state = self.nm_state;
        if old_state < DEVICE_STATE_IP_CONFIG {
            return None;
        }
        let new_state = if self.has_ip_address() {
            DEVICE_STATE_ACTIVATED
        } else {
            DEVICE_STATE_IP_CONFIG
        };
        if old_state != new_state {
            self.nm_state = new_state;
            Some((new_state, old_state))
        } else {
            None
        }
    }

    /// Records new link flags and re-derives the state from them. Gateways are
    /// dropped when the device falls to Disconnected or Unavailable. Returns
    /// `(new, old)` when the state moved.
    pub fn update_state_on_link_change(&mut self, flags: u32) -> (r: Option<(u32, u32)>)
        ensures
            final(self).link_flags == flags,
            final(self).nm_state == device_state_of(
                flags,
                old(self).ipv4_addrs@.len() > 0,
                old(self).ipv6_addrs@.len() > 0,
            ),
            r == (if final(self).nm_state != old(self).nm_state {
                Some((final(self).nm_state, old(self).nm_state))
            } else {
                None::<(u32, u32)>
            }),
            (if final(self).nm_state != old(self).nm_state && (final(self).nm_state
                == DEVICE_STATE_DISCONNECTED || final(self).nm_state == DEVICE_STATE_UNAVAILABLE) {
                final(self).gateway4.is_none() && final(self).gateway6.is_none()
            } else {
                final(self).gateway4 == old(self).gateway4 && final(self).gateway6
                    == old(self).gateway6
            }),
            final(self).ifindex == old(self).ifindex,
            final(self).name == old(self).name,
            final(self).device_type == old(self).device_type,
            final(self).hw_address == old(self).hw_address,
            final(self).ipv4_addrs == old(self).ipv4_addrs,
            final(self).ipv6_addrs == old(self).ipv6_addrs,
    {
        let old_state = self.nm_state;
        let has_ipv4 = !self.ipv4_addrs.is_empty();
        let has_ipv6 = !self.ipv6_addrs.is_empty();
        let new_state = netlink_flags_to_nm_device(flags, has_ipv4, has_ipv6);
        self.link_flags = flags;
        if old_state != new_state {
            self.nm_state = new_state;
            if new_state == DEVICE_STATE_DISCONNECTED || new_state == DEVICE_STATE_UNAVAILABLE {
                self.gateway4 = None;
                self.gateway6 = None;
            }
            Some((new_state, old_state))
        } else {
            None
        }
    }
}

/// Some device in `devs` has an address.
pub open spec fn any_has_ip(devs: Seq<DeviceInfo>) -> bool {
    exists|i: int| 0 <= i < devs.len() && #[trigger] devs[i].has_ip()
}

/// Some device in `devs` has both an address and a default gateway.
pub open spec fn any_global(devs: Seq<DeviceInfo>) -> bool {
    exists|i: int| 0 <= i < devs.len() && #[trigger] devs[i].has_ip() && devs[i].has_gw()
}

/// The global state that a device table stands for.
pub open spec fn deduced_global_state(devs: Seq<DeviceInfo>) -> u32 {
    global_state_of(any_has_ip(devs), any_global(devs))
}

/// Derives the global state from the device table: ConnectedGlobal when a
/// device has an address and a gateway, ConnectedLocal when a device has an
/// address, Disconnected otherwise.
pub fn deduce_global_state(devices: &Vec<DeviceInfo>) -> (r: u32)
    ensures
        r == deduced_global_state(devices@),
{
    let mut has_local = false;
    let mut i: usize = 0;
    while i < devices.len()
        invariant
            0 <= i <= devices@.len(),
            has_local == (exists|j: int| 0 <= j < i && #[trigger] devices@[j].has_ip()),
            forall|j: int| 0 <= j < i ==> !(#[trigger] devices@[j].has_ip() && devices@[j].has_gw()),
        decreases devices@.len() - i,
    {
        let dev = &devices[i];
        if dev.has_ip_address() {
            has_local = true;
            if dev.has_gateway() {
                assert(devices@[i as int].has_ip() && devices@[i as int].has_gw());
                return NM_STATE_CONNECTED_GLOBAL;
            }
        }
        i += 1;
    }
    if has_local {
        NM_STATE_CONNECTED_LOCAL
    } else {
        NM_STATE_DISCONNECTED
    }
}

/// No two devices of `devs` share an ifindex.
pub open spec fn unique_ifindexes(devs: Seq<DeviceInfo>) -> bool {
    forall|i: int, j: int|
        0 <= i < devs.len() && 0 <= j < devs.len() && #[trigger] devs[i].ifindex
            == #[trigger] devs[j].ifindex ==> i == j
}

/// Some device of `devs` has this ifindex.
pub open spec fn has_ifindex(devs: Seq<DeviceInfo>, ifindex: i32) -> bool {
    exists|i: int| 0 <= i < devs.len() && #[trigger] devs[i].ifindex == ifindex
}

/// The ifindexes of the devices of `devs`.
pub open spec fn ifindex_set(devs: Seq<DeviceInfo>) -> Set<i32> {
    Set::new(|k: i32| has_ifindex(devs, k))
}

/// The process-wide model: the device table and what is derived from it.
#[derive(Debug)]
pub struct AppState {
    pub global_state: u32,
    pub connectivity: u32,
    pub devices: Vec<DeviceInfo>,
    pub nameservers: Vec<String>,
    pub user_disconnect_pending: Vec<i32>,
}

impl AppState {
    /// The global fields agree with the device table.
    pub open spec fn derived_ok(&self) -> bool {
        &&& self.global_state == deduced_global_state(self.devices@)
        &&& self.connectivity == connectivity_of(self.global_state)
    }

    /// Every device's state agrees with its flags and addresses.
    pub open spec fn states_ok(&self) -> bool {
        forall|i: int| 0 <= i < self.devices@.len() ==> #[trigger] self.devices@[i].nm_state
            == self.devices@[i].flag_state()
    }

    /// The model's invariant, which holds after every batch.
    pub open spec fn wf(&self) -> bool {
        &&& unique_ifindexes(self.devices@)
        &&& self.derived_ok()
        &&& self.states_ok()
    }

    /// An empty model: no devices, Disconnected, no connectivity.
    pub fn new() -> (r: Self)
        ensures
            r.wf(),
            r.devices@.len() == 0,
            r.nameservers@.len() == 0,
            r.user_disconnect_pending@.len() == 0,
            r.global_state == NM_STATE_DISCONNECTED,
    {
        let r = AppState {
            global_state: NM_STATE_DISCONNECTED,
            connectivity: crate::mapping::CONNECTIVITY_NONE,
            devices: Vec::new(),
            nameservers: Vec::new(),
            user_disconnect_pending: Vec::new(),
        };
        r
    }

    /// Recomputes the global state and the connectivity from the device table.
    pub fn recompute_global_state(&mut self)
        ensures
            final(self).derived_ok(),
            final(self).devices == old(self).devices,
            final(self).nameservers == old(self).nameservers,
            final(self).user_disconnect_pending == old(self).user_disconnect_pending,
    {
        self.global_state = deduce_global_state(&self.devices);
        self.connectivity = global_state_to_connectivity(self.global_state);
    }

    /// The position of the device with this ifindex, if there is one.
    pub open spec fn find_device_spec(&self, ifindex: i32) -> Option<int> {
        if has_ifindex(self.devices@, ifindex) {
            Some(choose|i: int| 0 <= i < self.devices@.len() && #[trigger] self.devices@[i].ifindex == ifindex)
        } else {
            None
        }
    }

    /// The position of the device with this ifindex, if there is one.
    pub fn find_device(&self, ifindex: i32) -> (r: Option<usize>)
        ensures
            match r {
                Some(i) => i < self.devices@.len() && self.devices@[i as int].ifindex == ifindex,
                None => !has_ifindex(self.devices@, ifindex),
            },
    {
        let mut i: usize = 0;
        while i < self.devices.len()
            invariant
                0 <= i <= self.devices@.len(),
                forall|j: int| 0 <= j < i ==> #[trigger] self.devices@[j].ifindex != ifindex,
            decreases self.devices@.len() - i,
        {
            if self.devices[i].ifindex == ifindex {
                return Some(i);
            }
            i += 1;
        }
        None
    }
}

} // verus!
