//! The calls into `ipnet`, `ipnetwork` and the standard library's address
//! parser and printer. Nothing in this file is proved: each contract says
//! what the called function is taken to do, and the rest of the crate is
//! proved from these contracts.

use vstd::prelude::*;
use std::str::FromStr;
use crate::address::{is_netmask, IpAddress};

verus! {

/// What `ipnet::IpNet::from_str` makes of a text: the address as written
/// and the prefix length, or nothing where it rejects the text.
pub uninterp spec fn parsed_ip_net(text: Seq<char>) -> Option<(IpAddress, u8)>;

/// What the standard library's parser for IP addresses makes of a text:
/// the address, or nothing where it rejects the text.
pub uninterp spec fn parsed_ip_addr(text: Seq<char>) -> Option<IpAddress>;

/// The text that the standard library prints for the IPv6 address whose
/// bits spell `bits`.
pub uninterp spec fn ipv6_text(bits: u128) -> Seq<char>;

/// `ipnet::IpNet::from_str`, the parser for `<address>/<prefix length>`.
///
/// Taken on trust: the outcome depends on the text alone. The address is
/// handed back as written, host bits included.
#[verifier::external_body]
pub(crate) fn parse_ip_net(text: &str) -> (r: Option<(IpAddress, u8)>)
    ensures
        r == parsed_ip_net(text@),
{
    match ipnet::IpNet::from_str(text) {
        Ok(ipnet::IpNet::V4(net)) => Some((IpAddress::V4(net.addr().into()), net.prefix_len())),
        Ok(ipnet::IpNet::V6(net)) => Some((IpAddress::V6(net.addr().into()), net.prefix_len())),
        Err(_) => None,
    }
}

/// `str::parse` for an IP address, that is the `FromStr` of the standard
/// library's `IpAddr`.
///
/// Taken on trust: the outcome depends on the text alone. The parsed
/// address is read back through an `ipnet::IpNet` of prefix length 0,
/// which keeps the address as it was given.
#[verifier::external_body]
pub(crate) fn parse_ip_addr(text: &str) -> (r: Option<IpAddress>)
    ensures
        r == parsed_ip_addr(text@),
{
    let addr = text.parse().ok()?;
    match ipnet::IpNet::new(addr, 0).ok()? {
        ipnet::IpNet::V4(net) => Some(IpAddress::V4(net.addr().into())),
        ipnet::IpNet::V6(net) => Some(IpAddress::V6(net.addr().into())),
    }
}

/// `ipnetwork::ip_mask_to_prefix`, which turns a netmask into its prefix
/// length.
///
/// Taken on trust: it answers with the number of leading one bits where
/// all the bits after them are zero, and fails on every other mask.
#[verifier::external_body]
pub(crate) fn mask_to_prefix(mask: IpAddress) -> (r: Option<u8>)
    ensures
        r matches Some(p) ==> is_netmask(mask, p as nat),
        r is None ==> forall|p: nat| !is_netmask(mask, p),
{
    let mask = match mask {
        IpAddress::V4(bits) => bits.to_be_bytes().into(),
        IpAddress::V6(bits) => bits.to_be_bytes().into(),
    };
    ipnetwork::ip_mask_to_prefix(mask).ok()
}

/// `to_string` on the standard library's `Ipv6Addr`, that is its `Display`.
///
/// Taken on trust: the text depends on the address alone.
#[verifier::external_body]
pub(crate) fn format_ipv6(bits: u128) -> (r: String)
    ensures
        r@ == ipv6_text(bits),
{
    ipnet::Ipv6Net::new_assert(bits.into(), 128).addr().to_string()
}

} // verus!
