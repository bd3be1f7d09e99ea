use std::hash::{Hash, Hasher};

use nmlinkd::text::{format_mac, should_ignore_interface, starts_with};
use nmlinkd::uuid::{connection_uuid, uuid_from_hashes};

fn parse_hex_pairs(s: &str) -> Vec<u8> {
    s.split(':').map(|p| u8::from_str_radix(p, 16).unwrap()).collect()
}

fn std_hash(seed: &str, name: &str) -> u64 {
    let mut h = std::collections::hash_map::DefaultHasher::new();
    seed.hash(&mut h);
    name.hash(&mut h);
    h.finish()
}

fn is_canonical(u: &str) -> bool {
    let c: Vec<char> = u.chars().collect();
    c.len() == 36
        && c.iter().enumerate().all(|(i, ch)| {
            if i == 8 || i == 13 || i == 18 || i == 23 {
                *ch == '-'
            } else {
                ch.is_ascii_digit() || ('a'..='f').contains(ch)
            }
        })
}

#[test]
fn format_mac_upper_case_pairs() {
    assert_eq!(format_mac(&[0xaa, 0xbb, 0xcc, 0xdd, 0xee, 0xff]), "AA:BB:CC:DD:EE:FF");
    assert_eq!(format_mac(&[0x00, 0x01, 0x0a, 0x10, 0x9f, 0xf0]), "00:01:0A:10:9F:F0");
}

#[test]
fn format_mac_empty_and_single() {
    assert_eq!(format_mac(&[]), "");
    assert_eq!(format_mac(&[0x5]), "05");
}

#[test]
fn format_mac_round_trips_through_hex_parsing() {
    for bytes in [[0u8; 6], [0xff; 6], [0x12, 0x34, 0x56, 0x78, 0x9a, 0xbc]] {
        assert_eq!(parse_hex_pairs(&format_mac(&bytes)), bytes.to_vec());
    }
}

#[test]
fn ignored_prefixes_are_ignored() {
    for name in [
        "lo", "docker0", "veth12ab", "br-1234", "virbr0", "vnet3", "wg0", "tun0", "tap1",
        "tailscale0", "podman1",
    ] {
        assert!(should_ignore_interface(name), "{name}");
    }
}

#[test]
fn other_names_are_kept() {
    for name in ["eth0", "enp3s0", "wlan0", "l", "", "bridge0", "ww0"] {
        assert!(!should_ignore_interface(name), "{name}");
    }
}

#[test]
fn prefix_test() {
    assert!(starts_with("nameserver", "name"));
    assert!(starts_with("abc", ""));
    assert!(!starts_with("ab", "abc"));
    assert!(!starts_with("abd", "abc"));
}

#[test]
fn uuid_layout_from_known_hashes() {
    assert_eq!(
        uuid_from_hashes(0x0123_4567_89ab_cdef, 0xfedc_ba98_7654_3210),
        "89abcdef-4567-0123-3210-fedcba980000"
    );
    assert_eq!(uuid_from_hashes(0, 0), "00000000-0000-0000-0000-000000000000");
}

#[test]
fn connection_uuid_is_stable_and_canonical() {
    let a = connection_uuid("eth0");
    assert_eq!(a, connection_uuid("eth0"));
    assert!(is_canonical(&a), "{a}");
    assert_ne!(a, connection_uuid("eth1"));
    assert!(is_canonical(&connection_uuid("")));
}

#[test]
fn connection_uuid_uses_both_seeded_hashes() {
    let expected = uuid_from_hashes(std_hash("nmlinkd", "enp3s0"), std_hash("nmlinkd2", "enp3s0"));
    assert_eq!(connection_uuid("enp3s0"), expected);
}
