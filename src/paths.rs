//! D-Bus object paths of the NetworkManager object tree, and the ifindex
//! that a path ends in.

use vstd::prelude::*;

use crate::text::{int_text, push_int, push_str};

verus! {

/// The root of the NetworkManager object tree.
pub const NM_PREFIX: &'static str = "/org/freedesktop/NetworkManager";

/// The path of the object of kind `kind` that belongs to device `ifindex`.
pub open spec fn object_path(kind: Seq<char>, ifindex: i32) -> Seq<char> {
    NM_PREFIX@ + seq!['/'] + kind + seq!['/'] + int_text(ifindex as int)
}

/// Builds `/org/freedesktop/NetworkManager/{kind}/{ifindex}`.
pub fn nm_path(kind: &str, ifindex: i32) -> (r: String)
    ensures
        r@ == object_path(kind@, ifindex),
{
    let mut r = String::new();
    push_str(&mut r, NM_PREFIX);
    push_str(&mut r, "/");
    push_str(&mut r, kind);
    push_str(&mut r, "/");
    push_int(&mut r, ifindex);
    proof {
        reveal_strlit("/");
    }
    assert(r@ =~= object_path(kind@, ifindex));
    r
}

/// The path of a device object.
pub fn device_path(ifindex: i32) -> (r: String)
    ensures
        r@ == object_path("Devices"@, ifindex),
{
    nm_path("Devices", ifindex)
}

/// The path of a device's active connection.
pub fn active_connection_path(ifindex: i32) -> (r: String)
    ensures
        r@ == object_path("ActiveConnection"@, ifindex),
{
    nm_path("ActiveConnection", ifindex)
}

/// The path of a device's IPv4 configuration.
pub fn ip4_config_path(ifindex: i32) -> (r: String)
    ensures
        r@ == object_path("IP4Config"@, ifindex),
{
    nm_path("IP4Config", ifindex)
}

/// The path of a device's IPv6 configuration.
pub fn ip6_config_path(ifindex: i32) -> (r: String)
    ensures
        r@ == object_path("IP6Config"@, ifindex),
{
    nm_path("IP6Config", ifindex)
}

/// The path of a device's connection profile.
pub fn settings_path(ifindex: i32) -> (r: String)
    ensures
        r@ == object_path("Settings"@, ifindex),
{
    nm_path("Settings", ifindex)
}

/// The sentinel path that stands for "no object".
pub fn root_path() -> (r: String)
    ensures
        r@ == seq!['/'],
{
    let mut r = String::new();
    push_str(&mut r, "/");
    proof {
        reveal_strlit("/");
    }
    assert(r@ =~= seq!['/']);
    r
}

/// What follows the last `/` of `p` (all of `p` when it has none).
pub open spec fn last_segment(p: Seq<char>) -> Seq<char>
    decreases p.len(),
{
    if p.len() == 0 {
        p
    } else if p.last() == '/' {
        seq![]
    } else {
        last_segment(p.drop_last()).push(p.last())
    }
}

/// A decimal digit.
pub open spec fn is_digit(c: char) -> bool {
    '0' <= c && c <= '9'
}

/// The value of a string of decimal digits.
pub open spec fn decimal_value(s: Seq<char>) -> nat
    decreases s.len(),
{
    if s.len() == 0 {
        0
    } else {
        decimal_value(s.drop_last()) * 10 + (s.last() as int - 48) as nat
    }
}

/// The ifindex that a path ends in: its last segment read as a non-empty
/// string of decimal digits whose value fits an `i32`.
pub open spec fn path_ifindex(p: Seq<char>) -> Option<i32> {
    let seg = last_segment(p);
    if seg.len() > 0 && (forall|i: int| 0 <= i < seg.len() ==> #[trigger] is_digit(seg[i]))
        && decimal_value(seg) <= i32::MAX {
        Some(decimal_value(seg) as i32)
    } else {
        None
    }
}

proof fn lemma_last_segment(p: Seq<char>, j: int)
    requires
        0 <= j <= p.len(),
        j == 0 || p[j - 1] == '/',
        forall|k: int| j <= k < p.len() ==> p[k] != '/',
    ensures
        last_segment(p) == p.subrange(j, p.len() as int),
    decreases p.len(),
{
    if p.len() == j {
        assert(p.subrange(j, p.len() as int) =~= seq![]);
    } else {
        let q = p.drop_last();
        lemma_last_segment(q, j);
        assert(p.subrange(j, p.len() as int) =~= q.subrange(j, q.len() as int).push(p.last()));
    }
}

proof fn lemma_decimal_prefix(s: Seq<char>, k: int)
    requires
        0 <= k <= s.len(),
        forall|i: int| 0 <= i < s.len() ==> #[trigger] is_digit(s[i]),
    ensures
        decimal_value(s.subrange(0, k)) <= decimal_value(s),
    decreases s.len(),
{
    if k < s.len() {
        let q = s.drop_last();
        assert(q.subrange(0, k) =~= s.subrange(0, k));
        lemma_decimal_prefix(q, k);
        assert(forall|i: int| 0 <= i < q.len() ==> #[trigger] is_digit(q[i]) == is_digit(s[i]));
    } else {
        assert(s.subrange(0, k) =~= s);
    }
}

/// Reads the ifindex at the end of an object path
/// (`/org/freedesktop/NetworkManager/Settings/3` gives 3).
pub fn parse_path_ifindex(path: &str) -> (r: Option<i32>)
    ensures
        r == path_ifindex(path@),
{
    let len = path.unicode_len();
    let mut j = len;
    while j > 0 && path.get_char(j - 1) != '/'
        invariant
            len == path@.len(),
            0 <= j <= len,
            forall|k: int| j <= k < len ==> path@[k] != '/',
        decreases j,
    {
        j -= 1;
    }
    proof {
        lemma_last_segment(path@, j as int);
    }
    let ghost seg = path@.subrange(j as int, len as int);
    if j == len {
        return None;
    }
    let mut v: u64 = 0;
    let mut k = j;
    while k < len
        invariant
            len == path@.len(),
            seg == path@.subrange(j as int, len as int),
            last_segment(path@) == seg,
            j <= k <= len,
            forall|i: int| 0 <= i < k - j ==> #[trigger] is_digit(seg[i]),
            v == decimal_value(seg.subrange(0, k - j)),
            v <= i32::MAX,
        decreases len - k,
    {
        let c = path.get_char(k);
        if c < '0' || c > '9' {
            assert(seg[k - j] == path@[k as int]);
            assert(!is_digit(seg[k - j]));
            assert(last_segment(path@) == seg);
            return None;
        }
        let d = (c as u32 - 48) as u64;
        let next = v * 10 + d;
        proof {
            let pre = seg.subrange(0, k + 1 - j);
            assert(pre.drop_last() =~= seg.subrange(0, k - j));
            assert(pre.last() == c);
            assert(seg[k - j] == path@[k as int]);
            assert(decimal_value(pre) == next);
        }
        if next > i32::MAX as u64 {
            proof {
                if forall|i: int| 0 <= i < seg.len() ==> #[trigger] is_digit(seg[i]) {
                    lemma_decimal_prefix(seg, k + 1 - j);
                }
                assert(last_segment(path@) == seg);
            }
            return None;
        }
        v = next;
        k += 1;
    }
    assert(seg.subrange(0, len - j) =~= seg);
    Some(v as i32)
}

} // verus!
