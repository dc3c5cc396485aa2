use ipinspector::cidr::{FailureKind, ParseFailure};
use ipinspector::{IpAddress, IpInspector, IpNetworkParseError};

#[test]
fn build_test_for_ok() {
    assert!(IpInspector::build("192.0.2.0/24").is_ok());
    assert!(IpInspector::build("192.0.2.0/32").is_ok());
    assert!(IpInspector::build("192.0.2.0/255.255.255.0").is_ok());
    assert!(IpInspector::build("2001:db8::/32").is_ok());
}

#[test]
fn build_test_for_error() {
    assert!(IpInspector::build("192.0.2.0").is_err());
    assert!(IpInspector::build("192.0.2.0/33").is_err());
    assert!(IpInspector::build("192.0.2.0/255.255.255.1").is_err());
    assert!(IpInspector::build("192.0.2.0/255.255.256.0").is_err());
    assert!(IpInspector::build("hoge").is_err());
}

#[test]
fn netmask_bit_for_ok() {
    assert_eq!(IpInspector::netmask_bit("192.0.2.0/24").unwrap(), 24);
    assert_eq!(IpInspector::netmask_bit("192.0.2.0/255.255.255.0").unwrap(), 24);
    assert_eq!(IpInspector::netmask_bit("2001:db8::/32").unwrap(), 32);
}

#[test]
fn netmask_bit_for_err() {
    assert!(IpInspector::netmask_bit("192.0.2.0/hoge").is_err());
    assert!(IpInspector::netmask_bit("192.0.2.0//24").is_err());
    assert!(IpInspector::netmask_bit("192.0.2.0/255.255.256.0").is_err());
    assert!(IpInspector::netmask_bit("192.0.2.0/255.255.255.1").is_err());
}

#[test]
fn host_counts() {
    let inspector = IpInspector::build("192.0.2.0/24").unwrap();
    assert_eq!(inspector.hosts_count(), "254");

    let inspector = IpInspector::build("2001:DB8::/32").unwrap();
    assert_eq!(inspector.hosts_count(), "TOO MANY");
}

#[test]
fn error_messages() {
    let message = |input: &str| IpInspector::build(input).err().unwrap().to_string();
    assert_eq!(message("192.0.2.0"), "Invalid IP network");
    assert_eq!(message("192.0.2.0//24"), "Invalid IP network");
    assert_eq!(message(""), "Invalid IP network");
    assert_eq!(message("192.0.2.0/hoge"), "invalid netmask");
    assert_eq!(message("192.0.2.0/"), "invalid netmask");
    assert_eq!(message("192.0.2.0/256"), "invalid netmask");
    assert_eq!(message("192.0.2.0/255.255.255.1"), "invalid netmask");
    assert_eq!(message("192.0.2.0/255.255.256.0"), "invalid netmask");
    assert_eq!(message("192.0.2.0/33"), "Invalid IP network");
    assert_eq!(message("2001:db8::/129"), "Invalid IP network");
    assert_eq!(message("hoge/24"), "Invalid IP network");
    assert_eq!(message("/24"), "Invalid IP network");
}

#[test]
fn parse_and_netmask_bit_give_the_same_messages_as_build() {
    for input in ["hoge", "1.2.3.4/x", "1.2.3.4/40", "1.2.3.4//"] {
        let built = IpInspector::build(input).err().unwrap().to_string();
        assert_eq!(IpInspector::parse(input).err().unwrap().to_string(), built);
    }
    assert_eq!(
        IpInspector::netmask_bit("1.2.3.4/x").err().unwrap().message(),
        "invalid netmask"
    );
    assert_eq!(
        IpInspector::netmask_bit("1.2.3.4").err().unwrap().message(),
        "Invalid IP network"
    );
    // The prefix length is not held against the family before validation.
    assert_eq!(IpInspector::netmask_bit("1.2.3.4/40").unwrap(), 40);
}

#[test]
fn error_holds_its_message() {
    let e = IpNetworkParseError::new(String::from("some message"));
    assert_eq!(e.message(), "some message");
    assert_eq!(e.to_string(), "some message");
    assert_eq!(e.clone().to_string(), "some message");
}

#[test]
fn failure_kinds() {
    assert_eq!(ParseFailure::SeparatorCount.kind(), FailureKind::MalformedInput);
    assert_eq!(ParseFailure::InvalidNetmask.kind(), FailureKind::MalformedInput);
    assert_eq!(ParseFailure::InvalidNetwork.kind(), FailureKind::InvalidNetwork);
    assert_eq!(ParseFailure::SeparatorCount.message(), "Invalid IP network");
    assert_eq!(ParseFailure::InvalidNetmask.message(), "invalid netmask");
    assert_eq!(ParseFailure::InvalidNetwork.message(), "Invalid IP network");
}

#[test]
fn facts_of_an_ipv4_network() {
    let inspector = IpInspector::build("192.0.2.77/24").unwrap();
    assert_eq!(inspector.input(), "192.0.2.77/24");
    assert_eq!(inspector.network_address(), IpAddress::V4(0xC000_0200));
    assert_eq!(inspector.broadcast_address(), IpAddress::V4(0xC000_02FF));
    assert_eq!(inspector.netmask(), IpAddress::V4(0xFFFF_FF00));
    assert_eq!(inspector.netmask_prefix(), 24);
    assert_eq!(inspector.first_host_address(), "192.0.2.1");
    assert_eq!(inspector.last_host_address(), "192.0.2.254");
    assert_eq!(inspector.hosts_count(), "254");
}

#[test]
fn facts_of_an_ipv6_network() {
    let inspector = IpInspector::build("2001:db8:ffff::1/48").unwrap();
    assert_eq!(
        inspector.network_address(),
        IpAddress::V6(0x2001_0db8_ffff_0000_0000_0000_0000_0000)
    );
    assert_eq!(
        inspector.broadcast_address(),
        IpAddress::V6(0x2001_0db8_ffff_ffff_ffff_ffff_ffff_ffff)
    );
    assert_eq!(
        inspector.netmask(),
        IpAddress::V6(0xffff_ffff_ffff_0000_0000_0000_0000_0000)
    );
    assert_eq!(inspector.netmask_prefix(), 48);
    assert_eq!(inspector.first_host_address(), "2001:db8:ffff::1");
    assert_eq!(inspector.last_host_address(), "2001:db8:ffff:ffff:ffff:ffff:ffff:ffff");
    assert_eq!(inspector.hosts_count(), "TOO MANY");
}

#[test]
fn first_host_of_an_ipv6_network_is_not_its_base_address() {
    let inspector = IpInspector::build("2001:db8::/32").unwrap();
    assert_eq!(inspector.network_address().to_text(), "2001:db8::");
    assert_eq!(inspector.first_host_address(), "2001:db8::1");
    assert_eq!(inspector.last_host_address(), "2001:db8:ffff:ffff:ffff:ffff:ffff:ffff");

    let inspector = IpInspector::build("2001:db8::/120").unwrap();
    assert_eq!(inspector.first_host_address(), "2001:db8::1");
    assert_eq!(inspector.last_host_address(), "2001:db8::ff");
    assert_eq!(inspector.hosts_count(), "255");

    let inspector = IpInspector::build("2001:db8::/127").unwrap();
    assert_eq!(inspector.first_host_address(), "2001:db8::1");
    assert_eq!(inspector.last_host_address(), "2001:db8::1");
    assert_eq!(inspector.hosts_count(), "1");

    let inspector = IpInspector::build("2001:db8::/128").unwrap();
    assert_eq!(inspector.first_host_address(), "2001:db8::");
    assert_eq!(inspector.last_host_address(), "2001:db8::");
    assert_eq!(inspector.hosts_count(), "1");
}

#[test]
fn host_range_of_the_smallest_ipv4_networks_is_the_whole_block() {
    let inspector = IpInspector::build("192.0.2.0/31").unwrap();
    assert_eq!(inspector.first_host_address(), "192.0.2.0");
    assert_eq!(inspector.last_host_address(), "192.0.2.1");
    assert_eq!(inspector.hosts_count(), "2");

    let inspector = IpInspector::build("192.0.2.0/32").unwrap();
    assert_eq!(inspector.first_host_address(), "192.0.2.0");
    assert_eq!(inspector.last_host_address(), "192.0.2.0");
    assert_eq!(inspector.hosts_count(), "1");

    let inspector = IpInspector::build("192.0.2.0/30").unwrap();
    assert_eq!(inspector.first_host_address(), "192.0.2.1");
    assert_eq!(inspector.last_host_address(), "192.0.2.2");
    assert_eq!(inspector.hosts_count(), "2");
}

#[test]
fn netmask_form_gives_the_same_facts_as_prefix_form() {
    let by_prefix = IpInspector::build("192.0.2.0/24").unwrap();
    let by_mask = IpInspector::build("192.0.2.0/255.255.255.0").unwrap();
    assert_eq!(by_mask.network().facts(), by_prefix.network().facts());
    assert_eq!(by_mask.first_host_address(), by_prefix.first_host_address());
    assert_eq!(by_mask.last_host_address(), by_prefix.last_host_address());
    assert_eq!(by_mask.hosts_count(), by_prefix.hosts_count());

    let by_prefix = IpInspector::build("2001:db8::/32").unwrap();
    let by_mask = IpInspector::build("2001:db8::/ffff:ffff::").unwrap();
    assert_eq!(by_mask.network().facts(), by_prefix.network().facts());
}

#[test]
fn report_of_an_ipv4_network() {
    let inspector = IpInspector::build("192.0.2.77/24").unwrap();
    assert_eq!(
        inspector.report(),
        "---\n\
         YOUR INPUT         192.0.2.77/24\n\
         NETWORK ADDRESS    192.0.2.0\n\
         HOST ADDRESS RANGE 192.0.2.1 ... 192.0.2.254 (COUNT: 254)\n\
         BROADCAST ADDRESS  192.0.2.255\n\
         NETMASK            255.255.255.0 (/24)\n"
    );
}

#[test]
fn report_of_an_ipv6_network() {
    let inspector = IpInspector::build("2001:DB8::1/32").unwrap();
    assert_eq!(
        inspector.report(),
        "---\n\
         YOUR INPUT         2001:DB8::1/32\n\
         NETWORK ADDRESS    2001:db8::\n\
         HOST ADDRESS RANGE 2001:db8::1 ... 2001:db8:ffff:ffff:ffff:ffff:ffff:ffff (COUNT: TOO MANY)\n\
         BROADCAST ADDRESS  Nothing. MulticastAddress is used instead of it.\n\
         NETMASK            ffff:ffff:: (/32)\n"
    );
}

#[test]
fn report_echoes_the_input_as_given() {
    for input in ["192.0.2.0/255.255.255.0", "192.0.2.9/+024", "2001:DB8:0:0::/ffff:ffff::"] {
        let report = IpInspector::build(input).unwrap().report();
        let second = report.lines().nth(1).unwrap();
        assert_eq!(second, format!("YOUR INPUT         {}", input));
    }
}

#[test]
fn report_is_the_same_every_time() {
    let inspector = IpInspector::build("10.1.2.3/12").unwrap();
    assert_eq!(inspector.report(), inspector.report());
    let again = IpInspector::build("10.1.2.3/12").unwrap();
    assert_eq!(inspector.report(), again.report());
}
