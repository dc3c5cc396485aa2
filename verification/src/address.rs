//! IP addresses as plain numbers: the address family, the value of an
//! address, netmasks, and the textual form of an address.

use vstd::prelude::*;
use vstd::arithmetic::power2::{lemma2_to64, lemma_pow2_adds, lemma_pow2_strictly_increases, pow2};
use crate::bridge::{format_ipv6, ipv6_text, mask_to_prefix};
use crate::text::{decimal, push_decimal};

verus! {

/// The two address families.
#[derive(Clone, Copy, Debug, PartialEq, Eq, Structural)]
pub enum Family {
    V4,
    V6,
}

impl Family {
    /// The number of bits in an address of this family.
    pub open spec fn width(self) -> nat {
        match self {
            Family::V4 => 32,
            Family::V6 => 128,
        }
    }

    /// The number of bits in an address of this family, which is also its
    /// longest prefix length.
    pub fn max_prefix_len(self) -> (r: u8)
        ensures
            r == self.width(),
    {
        match self {
            Family::V4 => 32,
            Family::V6 => 128,
        }
    }
}

/// An IP address, held as the number that its bits spell, most significant
/// bit first.
#[derive(Clone, Copy, Debug, PartialEq, Eq, Structural)]
pub enum IpAddress {
    V4(u32),
    V6(u128),
}

/// The netmask of a prefix length: `prefix` one bits followed by zero bits,
/// `width` bits in all.
pub open spec fn netmask_value(width: nat, prefix: nat) -> nat
    recommends
        prefix <= width,
{
    (pow2(width) - pow2((width - prefix) as nat)) as nat
}

/// Whether `mask` is the netmask of prefix length `prefix` in its family.
pub open spec fn is_netmask(mask: IpAddress, prefix: nat) -> bool {
    &&& prefix <= mask.spec_family().width()
    &&& mask.value() == netmask_value(mask.spec_family().width(), prefix)
}

/// The prefix length whose netmask `mask` is, if it is one: a mask with a
/// one bit after a zero bit has none.
pub open spec fn mask_prefix(mask: IpAddress) -> Option<u8> {
    if exists|p: nat| is_netmask(mask, p) {
        Some((choose|p: nat| is_netmask(mask, p)) as u8)
    } else {
        None
    }
}

/// The dotted-decimal text of a 32-bit address value.
pub open spec fn dotted_quad(v: nat) -> Seq<char> {
    decimal(v / 0x100_0000) + seq!['.'] + decimal(v / 0x1_0000 % 0x100) + seq!['.'] + decimal(
        v / 0x100 % 0x100,
    ) + seq!['.'] + decimal(v % 0x100)
}

/// The text of an address: dotted decimal for IPv4, and for IPv6 the text
/// that the standard library prints.
pub open spec fn address_text(addr: IpAddress) -> Seq<char> {
    match addr {
        IpAddress::V4(bits) => dotted_quad(bits as nat),
        IpAddress::V6(bits) => ipv6_text(bits),
    }
}

/// The powers of two that bound the two families' addresses.
pub proof fn lemma_pow2_widths()
    ensures
        pow2(32) == 0x1_0000_0000,
        pow2(64) == 0x1_0000_0000_0000_0000,
        pow2(128) == 0x1_0000_0000_0000_0000_0000_0000_0000_0000,
{
    lemma2_to64();
    lemma_pow2_adds(64, 64);
}

/// A mask is the netmask of at most one prefix length.
pub proof fn lemma_netmask_prefix_unique(mask: IpAddress, p: nat, q: nat)
    requires
        is_netmask(mask, p),
        is_netmask(mask, q),
    ensures
        p == q,
{
    let width = mask.spec_family().width();
    if p > 0 {
        lemma_pow2_strictly_increases((width - p) as nat, width);
    }
    if q > 0 {
        lemma_pow2_strictly_increases((width - q) as nat, width);
    }
    if p < q {
        lemma_pow2_strictly_increases((width - q) as nat, (width - p) as nat);
    }
    if q < p {
        lemma_pow2_strictly_increases((width - p) as nat, (width - q) as nat);
    }
}

impl IpAddress {
    /// The family of the address.
    pub open spec fn spec_family(self) -> Family {
        match self {
            IpAddress::V4(_) => Family::V4,
            IpAddress::V6(_) => Family::V6,
        }
    }

    /// The number that the bits of the address spell.
    pub open spec fn value(self) -> nat {
        match self {
            IpAddress::V4(bits) => bits as nat,
            IpAddress::V6(bits) => bits as nat,
        }
    }

    /// The address of `family` whose bits spell `value`.
    pub open spec fn of_value(family: Family, value: nat) -> IpAddress
        recommends
            value < pow2(family.width()),
    {
        match family {
            Family::V4 => IpAddress::V4(value as u32),
            Family::V6 => IpAddress::V6(value as u128),
        }
    }

    /// The family of the address.
    #[verifier::when_used_as_spec(spec_family)]
    pub fn family(self) -> (r: Family)
        ensures
            r == self.spec_family(),
    {
        match self {
            IpAddress::V4(_) => Family::V4,
            IpAddress::V6(_) => Family::V6,
        }
    }

    /// Whether the address is an IPv4 address.
    pub fn is_ipv4(self) -> (r: bool)
        ensures
            r == (self.spec_family() == Family::V4),
    {
        match self {
            IpAddress::V4(_) => true,
            IpAddress::V6(_) => false,
        }
    }

    /// The number that the bits of the address spell.
    pub fn bits(self) -> (r: u128)
        ensures
            r == self.value(),
            r < pow2(self.spec_family().width()),
    {
        proof {
            lemma_pow2_widths();
        }
        match self {
            IpAddress::V4(bits) => bits as u128,
            IpAddress::V6(bits) => bits,
        }
    }

    /// The address of `family` whose bits spell `value`.
    pub(crate) fn from_bits(family: Family, value: u128) -> (r: IpAddress)
        requires
            value < pow2(family.width()),
        ensures
            r == IpAddress::of_value(family, value as nat),
            r.spec_family() == family,
            r.value() == value,
    {
        proof {
            lemma_pow2_widths();
        }
        match family {
            Family::V4 => IpAddress::V4(value as u32),
            Family::V6 => IpAddress::V6(value),
        }
    }

    /// The prefix length whose netmask this address is, if it is one.
    pub fn prefix_len_of_mask(self) -> (r: Option<u8>)
        ensures
            r == mask_prefix(self),
            r matches Some(p) ==> is_netmask(self, p as nat),
    {
        let r: Option<u8> = mask_to_prefix(self);
        proof {
            match r {
                Some(p) => {
                    lemma_netmask_prefix_unique(
                        self,
                        p as nat,
                        choose|q: nat| is_netmask(self, q),
                    );
                },
                None => {},
            }
        }
        r
    }

    /// The text of the address.
    pub fn to_text(self) -> (r: String)
        ensures
            r@ == address_text(self),
    {
        match self {
            IpAddress::V4(bits) => {
                proof {
                    reveal_strlit(".");
                }
                let mut out: String = String::new();
                push_decimal(&mut out, (bits / 0x100_0000) as u128);
                out.append(".");
                push_decimal(&mut out, (bits / 0x1_0000 % 0x100) as u128);
                out.append(".");
                push_decimal(&mut out, (bits / 0x100 % 0x100) as u128);
                out.append(".");
                push_decimal(&mut out, (bits % 0x100) as u128);
                assert(out@ =~= dotted_quad(bits as nat));
                out
            },
            IpAddress::V6(bits) => format_ipv6(bits),
        }
    }
}

} // verus!
