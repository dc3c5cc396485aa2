use ipinspector::output_formatter::{
    broadcast_string, host_count_string, layout_report, optional_address_string,
};
use ipinspector::{DerivedFacts, HostCount, IpAddress, Network, OutputFormatter};

#[test]
fn layout_of_the_six_lines() {
    let text = layout_report("in", "net", "first", "last", "count", "bcast", "mask", 7);
    assert_eq!(
        text,
        "---\n\
         YOUR INPUT         in\n\
         NETWORK ADDRESS    net\n\
         HOST ADDRESS RANGE first ... last (COUNT: count)\n\
         BROADCAST ADDRESS  bcast\n\
         NETMASK            mask (/7)\n"
    );
}

#[test]
fn layout_of_empty_entries() {
    let text = layout_report("", "", "", "", "", "", "", 0);
    assert_eq!(
        text,
        "---\n\
         YOUR INPUT         \n\
         NETWORK ADDRESS    \n\
         HOST ADDRESS RANGE  ...  (COUNT: )\n\
         BROADCAST ADDRESS  \n\
         NETMASK             (/0)\n"
    );
}

#[test]
fn texts_of_the_entries() {
    assert_eq!(optional_address_string(None), "");
    assert_eq!(optional_address_string(Some(IpAddress::V4(0x0A00_0001))), "10.0.0.1");
    assert_eq!(host_count_string(HostCount::Exact(0)), "0");
    assert_eq!(host_count_string(HostCount::Exact(254)), "254");
    assert_eq!(host_count_string(HostCount::Exact(usize::MAX)), usize::MAX.to_string());
    assert_eq!(host_count_string(HostCount::TooMany), "TOO MANY");
    assert_eq!(broadcast_string(Some(IpAddress::V4(0x0A00_00FF))), "10.0.0.255");
    assert_eq!(
        broadcast_string(None),
        "Nothing. MulticastAddress is used instead of it."
    );
}

#[test]
fn formatter_of_a_network() {
    let net = Network::new(IpAddress::V4(0xC000_0200), 24).unwrap();
    let formatter = OutputFormatter::create(String::from("192.0.2.0/24"), net);
    assert_eq!(formatter.input(), "192.0.2.0/24");
    assert_eq!(formatter.facts(), net.facts());
    assert_eq!(formatter.first_host(), "192.0.2.1");
    assert_eq!(formatter.last_host(), "192.0.2.254");
    assert_eq!(formatter.hosts_count(), "254");
    assert_eq!(formatter.broadcast(), "192.0.2.255");
    assert_eq!(
        formatter.render(),
        "---\n\
         YOUR INPUT         192.0.2.0/24\n\
         NETWORK ADDRESS    192.0.2.0\n\
         HOST ADDRESS RANGE 192.0.2.1 ... 192.0.2.254 (COUNT: 254)\n\
         BROADCAST ADDRESS  192.0.2.255\n\
         NETMASK            255.255.255.0 (/24)\n"
    );
}

#[test]
fn formatter_of_facts_without_hosts() {
    let facts = DerivedFacts {
        network_address: IpAddress::V4(0x0A00_0000),
        broadcast_address: Some(IpAddress::V4(0x0A00_0000)),
        netmask: IpAddress::V4(u32::MAX),
        prefix_len: 32,
        first_host: None,
        last_host: None,
        host_count: HostCount::Exact(0),
    };
    let formatter = OutputFormatter::from_facts(String::from("10.0.0.0/32"), facts);
    assert_eq!(formatter.first_host(), "");
    assert_eq!(formatter.last_host(), "");
    assert_eq!(
        formatter.render(),
        "---\n\
         YOUR INPUT         10.0.0.0/32\n\
         NETWORK ADDRESS    10.0.0.0\n\
         HOST ADDRESS RANGE  ...  (COUNT: 0)\n\
         BROADCAST ADDRESS  10.0.0.0\n\
         NETMASK            255.255.255.255 (/32)\n"
    );
}

#[test]
fn format_of_a_network() {
    let net = Network::new(IpAddress::V6(0x2001_0db8 << 96), 32).unwrap();
    assert_eq!(
        ipinspector::output_formatter::format(String::from("2001:DB8::/32"), net),
        "---\n\
         YOUR INPUT         2001:DB8::/32\n\
         NETWORK ADDRESS    2001:db8::\n\
         HOST ADDRESS RANGE 2001:db8::1 ... 2001:db8:ffff:ffff:ffff:ffff:ffff:ffff (COUNT: TOO MANY)\n\
         BROADCAST ADDRESS  Nothing. MulticastAddress is used instead of it.\n\
         NETMASK            ffff:ffff:: (/32)\n"
    );
}

#[test]
fn format_is_the_same_every_time() {
    let net = Network::new(IpAddress::V4(0xAC10_0000), 12).unwrap();
    let first = ipinspector::output_formatter::format(String::from("172.16.0.0/12"), net);
    let second = ipinspector::output_formatter::format(String::from("172.16.0.0/12"), net);
    assert_eq!(first, second);
    let expected = if usize::BITS > 20 { "1048574" } else { "TOO MANY" };
    assert!(first.contains(&format!("(COUNT: {})", expected)));
}
