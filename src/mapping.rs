//! Pure mappings from kernel facts to NetworkManager enumeration values.

use vstd::prelude::*;

verus! {

/// Global state: no device has an address.
pub const NM_STATE_DISCONNECTED: u32 = 20;
/// Global state: some device has an address, none a gateway.
pub const NM_STATE_CONNECTED_LOCAL: u32 = 50;
/// Global state: some device has an address and a default gateway.
pub const NM_STATE_CONNECTED_GLOBAL: u32 = 70;

/// Device state: not known.
pub const DEVICE_STATE_UNKNOWN: u32 = 0;
/// Device state: up, but without carrier (or dormant).
pub const DEVICE_STATE_UNAVAILABLE: u32 = 20;
/// Device state: administratively down.
pub const DEVICE_STATE_DISCONNECTED: u32 = 30;
/// Device state: carrier present, no address yet.
pub const DEVICE_STATE_IP_CONFIG: u32 = 70;
/// Device state: carrier present and at least one address.
pub const DEVICE_STATE_ACTIVATED: u32 = 100;

/// Device type of an Ethernet device.
pub const DEVICE_TYPE_ETHERNET: u32 = 1;
/// Device type of a WireGuard device.
pub const DEVICE_TYPE_WIREGUARD: u32 = 29;

/// Connectivity: not known.
pub const CONNECTIVITY_UNKNOWN: u32 = 0;
/// Connectivity: none.
pub const CONNECTIVITY_NONE: u32 = 1;
/// Connectivity: full.
pub const CONNECTIVITY_FULL: u32 = 4;

/// Active connection state: activated.
pub const AC_STATE_ACTIVATED: u32 = 2;
/// Active connection state: deactivated.
pub const AC_STATE_DEACTIVATED: u32 = 4;

/// Kernel interface flag: administratively up.
pub const IFF_UP: u32 = 0x1;
/// Kernel interface flag: operationally running.
pub const IFF_RUNNING: u32 = 0x40;
/// Kernel interface flag: the lower layer signals carrier.
pub const IFF_LOWER_UP: u32 = 0x10000;
/// Kernel interface flag: dormant.
pub const IFF_DORMANT: u32 = 0x20000;

/// The device state that a set of kernel link flags stands for.
pub open spec fn device_state_of(flags: u32, has_ipv4: bool, has_ipv6: bool) -> u32 {
    if flags & IFF_UP == 0 {
        DEVICE_STATE_DISCONNECTED
    } else if flags & IFF_DORMANT != 0 {
        DEVICE_STATE_UNAVAILABLE
    } else if flags & IFF_RUNNING == 0 && flags & IFF_LOWER_UP == 0 {
        DEVICE_STATE_UNAVAILABLE
    } else if !has_ipv4 && !has_ipv6 {
        DEVICE_STATE_IP_CONFIG
    } else {
        DEVICE_STATE_ACTIVATED
    }
}

/// The global state for a table in which some device has an address
/// (`any_ip`) and some device has both an address and a gateway (`any_global`).
pub open spec fn global_state_of(any_ip: bool, any_global: bool) -> u32 {
    if any_global {
        NM_STATE_CONNECTED_GLOBAL
    } else if any_ip {
        NM_STATE_CONNECTED_LOCAL
    } else {
        NM_STATE_DISCONNECTED
    }
}

/// The connectivity that a global state implies.
pub open spec fn connectivity_of(global_state: u32) -> u32 {
    if NM_STATE_CONNECTED_LOCAL <= global_state <= NM_STATE_CONNECTED_GLOBAL {
        CONNECTIVITY_FULL
    } else if global_state == NM_STATE_DISCONNECTED {
        CONNECTIVITY_NONE
    } else {
        CONNECTIVITY_UNKNOWN
    }
}

/// The active-connection state shown for a device in a given state.
pub open spec fn ac_state_of(device_state: u32) -> u32 {
    if device_state >= DEVICE_STATE_ACTIVATED {
        AC_STATE_ACTIVATED
    } else {
        AC_STATE_DEACTIVATED
    }
}

/// Maps kernel link flags, and whether the device has IPv4 or IPv6
/// addresses, to a NetworkManager device state.
pub fn netlink_flags_to_nm_device(flags: u32, has_ipv4: bool, has_ipv6: bool) -> (r: u32)
    ensures
        r == device_state_of(flags, has_ipv4, has_ipv6),
{
    let is_up = (flags & IFF_UP) != 0;
    let is_running = (flags & IFF_RUNNING) != 0;
    let is_lower_up = (flags & IFF_LOWER_UP) != 0;
    let is_dormant = (flags & IFF_DORMANT) != 0;
    if !is_up {
        return DEVICE_STATE_DISCONNECTED;
    }
    if is_dormant {
        return DEVICE_STATE_UNAVAILABLE;
    }
    let has_carrier = is_running || is_lower_up;
    let has_ip = has_ipv4 || has_ipv6;
    if !has_carrier {
        DEVICE_STATE_UNAVAILABLE
    } else if !has_ip {
        DEVICE_STATE_IP_CONFIG
    } else {
        DEVICE_STATE_ACTIVATED
    }
}

/// Maps a global state to the connectivity reported beside it: connected
/// states count as full connectivity, since no probe is ever made.
pub fn global_state_to_connectivity(global_state: u32) -> (r: u32)
    ensures
        r == connectivity_of(global_state),
{
    if NM_STATE_CONNECTED_LOCAL <= global_state && global_state <= NM_STATE_CONNECTED_GLOBAL {
        CONNECTIVITY_FULL
    } else if global_state == NM_STATE_DISCONNECTED {
        CONNECTIVITY_NONE
    } else {
        CONNECTIVITY_UNKNOWN
    }
}

/// The active-connection state shown for a device in state `device_state`.
pub fn active_connection_state(device_state: u32) -> (r: u32)
    ensures
        r == ac_state_of(device_state),
{
    if device_state >= DEVICE_STATE_ACTIVATED {
        AC_STATE_ACTIVATED
    } else {
        AC_STATE_DEACTIVATED
    }
}

/// The connection type name of a device type.
pub open spec fn connection_type_of(device_type: u32) -> Seq<char> {
    if device_type == DEVICE_TYPE_WIREGUARD {
        seq!['w', 'i', 'r', 'e', 'g', 'u', 'a', 'r', 'd']
    } else {
        seq!['8', '0', '2', '-', '3', '-', 'e', 't', 'h', 'e', 'r', 'n', 'e', 't']
    }
}

/// Maps a device type to the connection type of its profile: WireGuard
/// devices get `wireguard`, every other type `802-3-ethernet`.
pub fn device_type_to_connection_type(device_type: u32) -> (r: &'static str)
    ensures
        r@ == connection_type_of(device_type),
{
    if device_type == DEVICE_TYPE_WIREGUARD {
        let r = "wireguard";
        proof {
            reveal_strlit("wireguard");
        }
        assert(r@ =~= connection_type_of(device_type));
        r
    } else {
        let r = "802-3-ethernet";
        proof {
            reveal_strlit("802-3-ethernet");
        }
        assert(r@ =~= connection_type_of(device_type));
        r
    }
}

} // verus!
