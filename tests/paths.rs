use nmlinkd::paths::{
    active_connection_path, device_path, ip4_config_path, ip6_config_path, nm_path,
    parse_path_ifindex, root_path, settings_path,
};
use nmlinkd::resolv::{parse_nameservers, pick_nameservers};

#[test]
fn object_paths() {
    assert_eq!(device_path(3), "/org/freedesktop/NetworkManager/Devices/3");
    assert_eq!(active_connection_path(12), "/org/freedesktop/NetworkManager/ActiveConnection/12");
    assert_eq!(ip4_config_path(7), "/org/freedesktop/NetworkManager/IP4Config/7");
    assert_eq!(ip6_config_path(7), "/org/freedesktop/NetworkManager/IP6Config/7");
    assert_eq!(settings_path(2147483647), "/org/freedesktop/NetworkManager/Settings/2147483647");
    assert_eq!(nm_path("Devices", -4), "/org/freedesktop/NetworkManager/Devices/-4");
    assert_eq!(root_path(), "/");
}

#[test]
fn path_ifindex_parsing() {
    assert_eq!(parse_path_ifindex("/org/freedesktop/NetworkManager/Settings/3"), Some(3));
    assert_eq!(parse_path_ifindex("/a/b/2147483647"), Some(2147483647));
    assert_eq!(parse_path_ifindex("42"), Some(42));
    assert_eq!(parse_path_ifindex("/a/b/2147483648"), None);
    assert_eq!(parse_path_ifindex("/a/b/99999999999999999999"), None);
    assert_eq!(parse_path_ifindex("/a/b/3x"), None);
    assert_eq!(parse_path_ifindex("/a/b/"), None);
    assert_eq!(parse_path_ifindex("/"), None);
    assert_eq!(parse_path_ifindex(""), None);
}

#[test]
fn nameserver_lines() {
    let text = "# generated\nnameserver 1.1.1.1\nsearch example.org\nnameserver  2001:db8::53 extra\n";
    assert_eq!(parse_nameservers(text), vec!["1.1.1.1".to_string(), "2001:db8::53".to_string()]);
}

#[test]
fn nameserver_edge_cases() {
    assert_eq!(parse_nameservers(""), Vec::<String>::new());
    assert_eq!(parse_nameservers("nameserver\n"), Vec::<String>::new());
    assert_eq!(parse_nameservers("   nameserver\t9.9.9.9"), vec!["9.9.9.9".to_string()]);
    assert_eq!(parse_nameservers("nameservers 8.8.8.8\r\n"), vec!["8.8.8.8".to_string()]);
    assert_eq!(parse_nameservers("# nameserver 1.2.3.4\n"), Vec::<String>::new());
}

#[test]
fn first_resolver_file_naming_a_server_wins() {
    let files = vec!["# stub\n".to_string(), "nameserver 9.9.9.9\n".to_string(), "nameserver 1.1.1.1\n".to_string()];
    assert_eq!(pick_nameservers(&files), vec!["9.9.9.9".to_string()]);
    assert_eq!(pick_nameservers(&vec!["search x\n".to_string()]), Vec::<String>::new());
    assert_eq!(pick_nameservers(&Vec::new()), Vec::<String>::new());
}
