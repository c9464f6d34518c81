use ddns_engine::address::{
    get_interface_ips, merge_interfaces, select_address, select_ip, AddressType, AddressVersion,
    IPAddress, Interface, RawAddr, SelectError,
};

fn v4(o: [u8; 4]) -> RawAddr {
    RawAddr::V4(o, format!("{}.{}.{}.{}", o[0], o[1], o[2], o[3]))
}

fn v6(o: [u8; 16], text: &str) -> RawAddr {
    RawAddr::V6(o, text.to_string())
}

fn kind(a: &RawAddr) -> AddressType {
    AddressType::declare_address_type(a)
}

#[test]
fn ipv4_categories() {
    assert_eq!(kind(&v4([127, 0, 0, 1])), AddressType::Loopback);
    assert_eq!(kind(&v4([224, 0, 0, 251])), AddressType::Multicast);
    assert_eq!(kind(&v4([239, 255, 255, 250])), AddressType::Multicast);
    assert_eq!(kind(&v4([0, 0, 0, 0])), AddressType::Unspecified);
    assert_eq!(kind(&v4([10, 1, 2, 3])), AddressType::Private);
    assert_eq!(kind(&v4([172, 16, 0, 1])), AddressType::Private);
    assert_eq!(kind(&v4([172, 31, 255, 1])), AddressType::Private);
    assert_eq!(kind(&v4([172, 32, 0, 1])), AddressType::Public);
    assert_eq!(kind(&v4([192, 168, 1, 1])), AddressType::Private);
    assert_eq!(kind(&v4([255, 255, 255, 255])), AddressType::Broadcast);
    assert_eq!(kind(&v4([169, 254, 3, 4])), AddressType::LinkLocal);
    assert_eq!(kind(&v4([8, 8, 8, 8])), AddressType::Public);
}

#[test]
fn ipv6_categories() {
    let mut lo = [0u8; 16];
    lo[15] = 1;
    assert_eq!(kind(&v6(lo, "::1")), AddressType::Loopback);
    let mut mc = [0u8; 16];
    mc[0] = 0xff;
    mc[1] = 0x02;
    mc[15] = 1;
    assert_eq!(kind(&v6(mc, "ff02::1")), AddressType::Multicast);
    assert_eq!(kind(&v6([0u8; 16], "::")), AddressType::Unspecified);
    let mut ula = [0u8; 16];
    ula[0] = 0xfd;
    assert_eq!(kind(&v6(ula, "fd00::")), AddressType::Private);
    ula[0] = 0xfc;
    assert_eq!(kind(&v6(ula, "fc00::")), AddressType::Private);
    let mut global = [0u8; 16];
    global[0] = 0x20;
    global[1] = 0x01;
    global[2] = 0x0d;
    global[3] = 0xb8;
    assert_eq!(kind(&v6(global, "2001:db8::")), AddressType::Public);
    global[0] = 0x3f;
    assert_eq!(kind(&v6(global, "3f01:db8::")), AddressType::Public);
}

#[test]
fn ipv6_outside_the_global_range_is_other() {
    // The global-unicast test is a first-byte range check: link-local and
    // other ranges outside 2000::/3 fall through to `Other`.
    let mut ll = [0u8; 16];
    ll[0] = 0xfe;
    ll[1] = 0x80;
    assert_eq!(kind(&v6(ll, "fe80::a00:27ff:fe4e:66c0")), AddressType::Other);
    let mut low = [0u8; 16];
    low[0] = 0x1f;
    low[15] = 9;
    assert_eq!(kind(&v6(low, "1f00::9")), AddressType::Other);
}

#[test]
fn loopback_wins_over_later_tests() {
    // 127.0.0.0 is loopback even though its last bytes are zero.
    assert_eq!(kind(&v4([127, 0, 0, 0])), AddressType::Loopback);
    let mut lo = [0u8; 16];
    lo[15] = 1;
    assert_eq!(kind(&v6(lo, "::1")), AddressType::Loopback);
}

fn iface(name: &str, addr: Vec<RawAddr>) -> Interface {
    Interface { name: name.to_string(), addr }
}

fn texts(addrs: &[RawAddr]) -> Vec<String> {
    addrs
        .iter()
        .map(|a| match a {
            RawAddr::V4(_, t) => t.clone(),
            RawAddr::V6(_, t) => t.clone(),
        })
        .collect()
}

#[test]
fn merge_joins_records_of_one_name() {
    let records = vec![
        iface("eth0", vec![v4([192, 168, 1, 2])]),
        iface("lo", vec![v4([127, 0, 0, 1])]),
        iface("eth0", vec![v4([10, 0, 0, 2]), v4([8, 8, 8, 8])]),
        iface("eth1", vec![]),
        iface("lo", vec![v4([127, 0, 0, 2])]),
    ];
    let merged = merge_interfaces(records);
    assert_eq!(merged.len(), 3);
    assert_eq!(merged[0].name, "eth0");
    assert_eq!(texts(&merged[0].addr), vec!["192.168.1.2", "10.0.0.2", "8.8.8.8"]);
    assert_eq!(merged[1].name, "lo");
    assert_eq!(texts(&merged[1].addr), vec!["127.0.0.1", "127.0.0.2"]);
    assert_eq!(merged[2].name, "eth1");
    assert!(merged[2].addr.is_empty());
}

#[test]
fn merge_keeps_duplicate_addresses() {
    let records = vec![
        iface("eth0", vec![v4([1, 2, 3, 4])]),
        iface("eth0", vec![v4([1, 2, 3, 4])]),
    ];
    let merged = merge_interfaces(records);
    assert_eq!(merged.len(), 1);
    assert_eq!(texts(&merged[0].addr), vec!["1.2.3.4", "1.2.3.4"]);
}

#[test]
fn merge_of_nothing_is_empty() {
    assert!(merge_interfaces(Vec::new()).is_empty());
}

#[test]
fn interface_ips_of_one_name() {
    let records = vec![
        iface("eth0", vec![v4([8, 8, 8, 8])]),
        iface("eth1", vec![v4([9, 9, 9, 9])]),
        iface("eth0", vec![v4([10, 0, 0, 1])]),
    ];
    let ips = get_interface_ips(&records, "eth0");
    assert_eq!(ips.len(), 2);
    assert!(matches!(&ips[0], IPAddress::V4(t, AddressType::Public) if t == "8.8.8.8"));
    assert!(matches!(&ips[1], IPAddress::V4(t, AddressType::Private) if t == "10.0.0.1"));
    assert!(get_interface_ips(&records, "wlan0").is_empty());
}

#[test]
fn select_scenario_public_v4() {
    let ips = vec![
        IPAddress::V4("1.1.1.1".to_string(), AddressType::Public),
        IPAddress::V4("192.168.0.1".to_string(), AddressType::Private),
        IPAddress::V6("2400::".to_string(), AddressType::Public),
    ];
    let first = select_ip(&ips, AddressVersion::V4, AddressType::Public, 0);
    assert!(matches!(first, Ok(IPAddress::V4(ref t, AddressType::Public)) if t == "1.1.1.1"));
    let second = select_ip(&ips, AddressVersion::V4, AddressType::Public, 1);
    assert!(matches!(second, Err(SelectError::InsufficientAddresses)));
    let v6 = select_ip(&ips, AddressVersion::V6, AddressType::Public, 0);
    assert!(matches!(v6, Ok(IPAddress::V6(ref t, AddressType::Public)) if t == "2400::"));
}

#[test]
fn select_address_from_interfaces() {
    let records = vec![
        iface("eth0", vec![v4([8, 8, 8, 8]), v4([192, 168, 0, 9])]),
        iface("eth0", vec![v4([1, 1, 1, 1])]),
    ];
    let r = select_address(&records, "eth0", AddressVersion::V4, AddressType::Public, 1);
    assert!(matches!(r, Ok(IPAddress::V4(ref t, _)) if t == "1.1.1.1"));
    let r = select_address(&records, "eth0", AddressVersion::V4, AddressType::Private, 1);
    assert!(matches!(r, Err(SelectError::InsufficientAddresses)));
    let r = select_address(&records, "eth9", AddressVersion::V4, AddressType::Public, 0);
    assert!(matches!(r, Err(SelectError::InsufficientAddresses)));
}

#[test]
fn address_version_spelling() {
    assert_eq!(AddressVersion::V4.as_str(), "v4");
    assert_eq!(AddressVersion::V6.as_str(), "v6");
}
