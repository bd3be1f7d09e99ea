//! Kernel events as plain values, and their accumulation over one debounce
//! window.

use vstd::prelude::*;

use crate::mapping::{device_state_of, netlink_flags_to_nm_device, DEVICE_TYPE_ETHERNET, DEVICE_TYPE_WIREGUARD};
use crate::state::DeviceInfo;
use crate::text::{format_mac, is_ignored_name, mac_text, should_ignore_interface};

verus! {

/// What a link message tells of an interface.
#[derive(Debug, Clone)]
pub struct LinkInfo {
    pub ifindex: i32,
    pub flags: u32,
    pub name: Option<String>,
    pub mac: Option<Vec<u8>>,
    pub wireguard: bool,
}

/// What a route message tells: the destination prefix length, the
/// gateway's text form and the outgoing interface, when present.
#[derive(Debug, Clone)]
pub struct RouteInfo {
    pub dst_prefix_len: u8,
    pub gateway: Option<String>,
    pub oif: Option<i32>,
}

/// One kernel multicast message, reduced to what the model reads.
#[derive(Debug)]
pub enum NetlinkEvent {
    NewLink(LinkInfo),
    DelLink(i32),
    NewAddress(i32),
    DelAddress(i32),
    NewRoute,
    DelRoute,
    Other,
}

/// The device type of a link.
pub open spec fn link_device_type(link: LinkInfo) -> u32 {
    if link.wireguard {
        DEVICE_TYPE_WIREGUARD
    } else {
        DEVICE_TYPE_ETHERNET
    }
}

/// A link message that yields a device: it names the interface, and the
/// name is not one of the ignored kinds.
pub open spec fn link_is_shown(link: LinkInfo) -> bool {
    link.name.is_some() && !is_ignored_name(link.name.unwrap()@)
}

/// Whether a link message names a shown interface.
pub fn link_shown(link: &LinkInfo) -> (r: bool)
    ensures
        r == link_is_shown(*link),
{
    match &link.name {
        Some(n) => !should_ignore_interface(n.as_str()),
        None => false,
    }
}

/// Builds the device that a link message describes, in the state its flags
/// give with no address yet; `None` when the message has no name or the name
/// is one of the ignored kinds.
pub fn device_from_link_msg(link: &LinkInfo) -> (r: Option<DeviceInfo>)
    ensures
        match link.name {
            None => r.is_none(),
            Some(n) => if is_ignored_name(n@) {
                r.is_none()
            } else {
                &&& r.is_some()
                &&& r.unwrap().ifindex == link.ifindex
                &&& r.unwrap().name@ == n@
                &&& r.unwrap().device_type == link_device_type(*link)
                &&& r.unwrap().hw_address@ == (match link.mac {
                    Some(m) => mac_text(m@),
                    None => Seq::<char>::empty(),
                })
                &&& r.unwrap().link_flags == link.flags
                &&& r.unwrap().nm_state == device_state_of(link.flags, false, false)
                &&& r.unwrap().ipv4_addrs@.len() == 0
                &&& r.unwrap().ipv6_addrs@.len() == 0
                &&& r.unwrap().gateway4.is_none()
                &&& r.unwrap().gateway6.is_none()
            },
        },
        r.is_some() == link_is_shown(*link),
{
    let name = match &link.name {
        Some(n) => n,
        None => return None,
    };
    if should_ignore_interface(name.as_str()) {
        return None;
    }
    let mut dev = DeviceInfo::new(link.ifindex, name.clone());
    if let Some(m) = &link.mac {
        dev.hw_address = format_mac(m.as_slice());
    }
    if link.wireguard {
        dev.device_type = DEVICE_TYPE_WIREGUARD;
    }
    dev.link_flags = link.flags;
    dev.nm_state = netlink_flags_to_nm_device(link.flags, false, false);
    Some(dev)
}

/// The `(gateway, oif)` of a default route: one whose destination prefix is
/// empty and which names both a gateway and an outgoing interface.
pub open spec fn default_gateway_of(route: RouteInfo) -> Option<(Seq<char>, i32)> {
    if route.dst_prefix_len == 0 && route.gateway.is_some() && route.oif.is_some() {
        Some((route.gateway.unwrap()@, route.oif.unwrap()))
    } else {
        None
    }
}

/// Extracts `(gateway, oif)` from a default route; `None` for any other route.
pub fn parse_default_gateway(route: &RouteInfo) -> (r: Option<(String, i32)>)
    ensures
        match r {
            Some((g, oif)) => default_gateway_of(*route) == Some((g@, oif)),
            None => default_gateway_of(*route).is_none(),
        },
{
    if route.dst_prefix_len != 0 {
        return None;
    }
    match (&route.gateway, route.oif) {
        (Some(g), Some(oif)) => Some((g.clone(), oif)),
        _ => None,
    }
}

/// The events of one debounce window, coalesced.
#[derive(Debug)]
pub struct PendingEvents {
    /// Interfaces whose addresses changed, each once.
    pub address_changed: Vec<i32>,
    /// Whether any route changed.
    pub routes_changed: bool,
    /// The last link message of each interface that reported one.
    pub new_links: Vec<LinkInfo>,
    /// Interfaces that were removed, each once.
    pub del_links: Vec<i32>,
}

/// No integer occurs twice in `s`.
pub open spec fn no_dups(s: Seq<i32>) -> bool {
    forall|i: int, j: int| 0 <= i < s.len() && 0 <= j < s.len() && s[i] == s[j] ==> i == j
}

/// No two links of `s` have the same ifindex.
pub open spec fn links_unique(s: Seq<LinkInfo>) -> bool {
    forall|i: int, j: int|
        0 <= i < s.len() && 0 <= j < s.len() && #[trigger] s[i].ifindex == #[trigger] s[j].ifindex
            ==> i == j
}

/// Appends `x` unless it is already there.
pub fn push_unique(v: &mut Vec<i32>, x: i32)
    ensures
        final(v)@ == if old(v)@.contains(x) {
            old(v)@
        } else {
            old(v)@.push(x)
        },
        no_dups(old(v)@) ==> no_dups(final(v)@),
        final(v)@.contains(x),
        forall|y: i32| old(v)@.contains(y) ==> final(v)@.contains(y),
{
    let mut i: usize = 0;
    while i < v.len()
        invariant
            0 <= i <= v@.len(),
            v@ == old(v)@,
            forall|j: int| 0 <= j < i ==> v@[j] != x,
        decreases v@.len() - i,
    {
        if v[i] == x {
            assert(old(v)@.contains(x));
            return;
        }
        i += 1;
    }
    assert(!old(v)@.contains(x));
    v.push(x);
    assert(v@[v@.len() - 1] == x);
    assert forall|y: i32| old(v)@.contains(y) implies v@.contains(y) by {
        let j = choose|j: int| 0 <= j < old(v)@.len() && old(v)@[j] == y;
        assert(v@[j] == y);
    }
}

/// The position of the link of this ifindex in `links`, if there is one.
pub fn find_link(links: &Vec<LinkInfo>, ifindex: i32) -> (r: Option<usize>)
    ensures
        match r {
            Some(k) => k < links@.len() && links@[k as int].ifindex == ifindex,
            None => forall|j: int| 0 <= j < links@.len() ==> #[trigger] links@[j].ifindex != ifindex,
        },
{
    let mut k: usize = 0;
    while k < links.len()
        invariant
            0 <= k <= links@.len(),
            forall|j: int| 0 <= j < k ==> #[trigger] links@[j].ifindex != ifindex,
        decreases links@.len() - k,
    {
        if links[k].ifindex == ifindex {
            return Some(k);
        }
        k += 1;
    }
    None
}

impl PendingEvents {
    /// Each list holds each interface once.
    pub open spec fn wf(&self) -> bool {
        &&& no_dups(self.address_changed@)
        &&& links_unique(self.new_links@)
        &&& no_dups(self.del_links@)
    }

    /// An empty accumulator.
    pub fn new() -> (r: Self)
        ensures
            r.wf(),
            r.address_changed@.len() == 0,
            !r.routes_changed,
            r.new_links@.len() == 0,
            r.del_links@.len() == 0,
    {
        PendingEvents {
            address_changed: Vec::new(),
            routes_changed: false,
            new_links: Vec::new(),
            del_links: Vec::new(),
        }
    }

    /// Nothing was accumulated.
    pub fn is_empty(&self) -> (r: bool)
        ensures
            r == (self.address_changed@.len() == 0 && !self.routes_changed
                && self.new_links@.len() == 0 && self.del_links@.len() == 0),
    {
        self.address_changed.is_empty() && !self.routes_changed && self.new_links.is_empty()
            && self.del_links.is_empty()
    }

    /// Records one event: an address event adds its interface to
    /// `address_changed`, a route event sets `routes_changed`, a link event
    /// replaces the interface's earlier link message (or is appended), a
    /// removal adds the interface to `del_links`.
    pub fn accumulate(&mut self, event: NetlinkEvent)
        requires
            old(self).wf(),
        ensures
            final(self).wf(),
            match event {
                NetlinkEvent::NewAddress(i) => {
                    &&& final(self).address_changed@ == if old(self).address_changed@.contains(i) {
                        old(self).address_changed@
                    } else {
                        old(self).address_changed@.push(i)
                    }
                    &&& final(self).routes_changed == old(self).routes_changed
                    &&& final(self).new_links@ == old(self).new_links@
                    &&& final(self).del_links@ == old(self).del_links@
                },
                NetlinkEvent::DelAddress(i) => {
                    &&& final(self).address_changed@ == if old(self).address_changed@.contains(i) {
                        old(self).address_changed@
                    } else {
                        old(self).address_changed@.push(i)
                    }
                    &&& final(self).routes_changed == old(self).routes_changed
                    &&& final(self).new_links@ == old(self).new_links@
                    &&& final(self).del_links@ == old(self).del_links@
                },
                NetlinkEvent::NewRoute => {
                    &&& final(self).address_changed@ == old(self).address_changed@
                    &&& final(self).routes_changed
                    &&& final(self).new_links@ == old(self).new_links@
                    &&& final(self).del_links@ == old(self).del_links@
                },
                NetlinkEvent::DelRoute => {
                    &&& final(self).address_changed@ == old(self).address_changed@
                    &&& final(self).routes_changed
                    &&& final(self).new_links@ == old(self).new_links@
                    &&& final(self).del_links@ == old(self).del_links@
                },
                NetlinkEvent::NewLink(link) => {
                    &&& final(self).address_changed@ == old(self).address_changed@
                    &&& final(self).routes_changed == old(self).routes_changed
                    &&& final(self).new_links@ == if exists|k: int|
                        0 <= k < old(self).new_links@.len() && #[trigger] old(
                            self,
                        ).new_links@[k].ifindex == link.ifindex {
                        old(self).new_links@.update(
                            choose|k: int|
                                0 <= k < old(self).new_links@.len() && #[trigger] old(
                                    self,
                                ).new_links@[k].ifindex == link.ifindex,
                            link,
                        )
                    } else {
                        old(self).new_links@.push(link)
                    }
                    &&& final(self).del_links@ == old(self).del_links@
                },
                NetlinkEvent::DelLink(i) => {
                    &&& final(self).address_changed@ == old(self).address_changed@
                    &&& final(self).routes_changed == old(self).routes_changed
                    &&& final(self).new_links@ == old(self).new_links@
                    &&& final(self).del_links@ == if old(self).del_links@.contains(i) {
                        old(self).del_links@
                    } else {
                        old(self).del_links@.push(i)
                    }
                },
                NetlinkEvent::Other => {
                    &&& final(self).address_changed@ == old(self).address_changed@
                    &&& final(self).routes_changed == old(self).routes_changed
                    &&& final(self).new_links@ == old(self).new_links@
                    &&& final(self).del_links@ == old(self).del_links@
                },
            },
    {
        match event {
            NetlinkEvent::NewAddress(i) | NetlinkEvent::DelAddress(i) => {
                push_unique(&mut self.address_changed, i);
            },
            NetlinkEvent::NewRoute | NetlinkEvent::DelRoute => {
                self.routes_changed = true;
            },
            NetlinkEvent::NewLink(link) => {
                let ghost old_links = self.new_links@;
                let ghost ix = link.ifindex;
                match find_link(&self.new_links, link.ifindex) {
                    Some(k) => {
                        let ghost kk = k as int;
                        let ghost c = choose|j: int|
                            0 <= j < old_links.len() && #[trigger] old_links[j].ifindex == ix;
                        assert(old_links[kk].ifindex == ix);
                        assert(c == kk);
                        self.new_links[k] = link;
                        assert forall|a: int, b: int|
                            0 <= a < self.new_links@.len() && 0 <= b < self.new_links@.len()
                                && #[trigger] self.new_links@[a].ifindex
                                == #[trigger] self.new_links@[b].ifindex implies a == b by {
                            if a != kk && b != kk {
                                assert(old_links[a].ifindex == old_links[b].ifindex);
                            } else if a == kk && b != kk {
                                assert(old_links[b].ifindex == ix);
                            } else if b == kk && a != kk {
                                assert(old_links[a].ifindex == ix);
                            }
                        }
                    },
                    None => {
                        self.new_links.push(link);
                        assert forall|a: int, b: int|
                            0 <= a < self.new_links@.len() && 0 <= b < self.new_links@.len()
                                && #[trigger] self.new_links@[a].ifindex
                                == #[trigger] self.new_links@[b].ifindex implies a == b by {
                            if a < old_links.len() && b < old_links.len() {
                                assert(old_links[a].ifindex == old_links[b].ifindex);
                            }
                        }
                    },
                }
            },
            NetlinkEvent::DelLink(i) => {
                push_unique(&mut self.del_links, i);
            },
            NetlinkEvent::Other => {},
        }
    }

    /// Some link message of the batch names a shown interface `x`.
    pub open spec fn shows(&self, x: i32) -> bool {
        exists|k: int| 0 <= k < self.new_links@.len() && #[trigger] self.new_links@[k].ifindex == x
            && link_is_shown(self.new_links@[k])
    }

    /// Some link message of the batch names a shown interface.
    pub open spec fn shows_any(&self) -> bool {
        exists|k: int| 0 <= k < self.new_links@.len() && link_is_shown(#[trigger] self.new_links@[k])
    }

    /// The interfaces whose addresses the batch needs from the kernel: every
    /// shown interface with a link message and every interface with an
    /// address change, each once. Link messages without a name or with an
    /// ignored name cause no query.
    pub fn address_queries(&self) -> (r: Vec<i32>)
        ensures
            no_dups(r@),
            forall|x: i32| #[trigger] r@.contains(x) == (self.shows(x) || self.address_changed@.contains(x)),
    {
        let mut r: Vec<i32> = Vec::new();
        let mut k: usize = 0;
        while k < self.new_links.len()
            invariant
                0 <= k <= self.new_links@.len(),
                no_dups(r@),
                forall|x: i32| #[trigger] r@.contains(x) == exists|m: int| 0 <= m < k && #[trigger] self.new_links@[m].ifindex == x
                    && link_is_shown(self.new_links@[m]),
            decreases self.new_links@.len() - k,
        {
            let ghost before = r@;
            if link_shown(&self.new_links[k]) {
                push_unique(&mut r, self.new_links[k].ifindex);
            }
            assert forall|x: i32| #[trigger] r@.contains(x) == exists|m: int| 0 <= m < k + 1 && #[trigger] self.new_links@[m].ifindex == x
                && link_is_shown(self.new_links@[m]) by {
                if exists|m: int| 0 <= m < k + 1 && #[trigger] self.new_links@[m].ifindex == x && link_is_shown(self.new_links@[m]) {
                    let m = choose|m: int| 0 <= m < k + 1 && #[trigger] self.new_links@[m].ifindex == x && link_is_shown(self.new_links@[m]);
                    if m < k {
                        assert(before.contains(x));
                    }
                }
                if r@.contains(x) && !before.contains(x) {
                    assert(self.new_links@[k as int].ifindex == x);
                }
            }
            k += 1;
        }
        let mut k: usize = 0;
        while k < self.address_changed.len()
            invariant
                0 <= k <= self.address_changed@.len(),
                no_dups(r@),
                forall|x: i32| #[trigger] r@.contains(x) == (self.shows(x) || exists|m: int| 0 <= m < k && self.address_changed@[m] == x),
            decreases self.address_changed@.len() - k,
        {
            let ghost before = r@;
            push_unique(&mut r, self.address_changed[k]);
            assert forall|x: i32| #[trigger] r@.contains(x) == (self.shows(x) || exists|m: int| 0 <= m < k + 1 && self.address_changed@[m] == x) by {
                if exists|m: int| 0 <= m < k + 1 && self.address_changed@[m] == x {
                    let m = choose|m: int| 0 <= m < k + 1 && self.address_changed@[m] == x;
                    if m < k {
                        assert(before.contains(x));
                    }
                }
                if r@.contains(x) && !before.contains(x) {
                    assert(self.address_changed@[k as int] == x);
                }
            }
            k += 1;
        }
        assert forall|x: i32| #[trigger] r@.contains(x) == (self.shows(x) || self.address_changed@.contains(x)) by {
            if self.address_changed@.contains(x) {
                let m = choose|m: int| 0 <= m < self.address_changed@.len() && self.address_changed@[m] == x;
            }
        }
        r
    }

    /// Whether some link message of the batch names a shown interface.
    pub fn any_shown(&self) -> (r: bool)
        ensures
            r == self.shows_any(),
    {
        let mut k: usize = 0;
        while k < self.new_links.len()
            invariant
                0 <= k <= self.new_links@.len(),
                forall|m: int| 0 <= m < k ==> !link_is_shown(#[trigger] self.new_links@[m]),
            decreases self.new_links@.len() - k,
        {
            if link_shown(&self.new_links[k]) {
                return true;
            }
            k += 1;
        }
        false
    }

    /// The batch needs the kernel's routes: a route changed, or a link
    /// message of a shown interface may bring a new device.
    pub fn needs_routes(&self) -> (r: bool)
        ensures
            r == (self.routes_changed || self.shows_any()),
    {
        self.routes_changed || self.any_shown()
    }

    /// The batch needs the resolver configuration: a link message of a
    /// shown interface may bring a new device, or an address changed.
    pub fn needs_nameservers(&self) -> (r: bool)
        ensures
            r == (self.shows_any() || self.address_changed@.len() > 0),
    {
        !self.address_changed.is_empty() || self.any_shown()
    }
}

} // verus!
