//! The network descriptor and the facts that follow from it: netmask,
//! broadcast address, host range and host count.

use vstd::prelude::*;
use vstd::arithmetic::div_mod::{
    lemma_fundamental_div_mod,
    lemma_mod_decreases,
    lemma_mod_multiples_basic,
    lemma_small_mod,
};
use vstd::arithmetic::power2::{
    lemma_pow2_adds,
    lemma_pow2_pos,
    lemma_pow2_strictly_increases,
    lemma_pow2_unfold,
    pow2,
};
use crate::address::{
    is_netmask,
    lemma_netmask_prefix_unique,
    lemma_pow2_widths,
    mask_prefix,
    netmask_value,
    Family,
    IpAddress,
};

verus! {

/// How many hosts a network has, as far as the platform's `usize` can say.
#[derive(Clone, Copy, Debug, PartialEq, Eq, Structural)]
pub enum HostCount {
    /// The exact number of host addresses.
    Exact(usize),
    /// The network has at least as many host bits as `usize` has bits.
    TooMany,
}

/// The facts that are reported of a network.
#[derive(Clone, Copy, Debug, PartialEq, Eq, Structural)]
pub struct DerivedFacts {
    pub network_address: IpAddress,
    /// The highest address of the block; IPv6 has no broadcast address.
    pub broadcast_address: Option<IpAddress>,
    pub netmask: IpAddress,
    pub prefix_len: u8,
    pub first_host: Option<IpAddress>,
    pub last_host: Option<IpAddress>,
    pub host_count: HostCount,
}

/// What a network descriptor stands for: the base address of the block and
/// the prefix length.
pub struct NetworkView {
    pub base: IpAddress,
    pub prefix_len: u8,
}

/// `value` with its lowest `host_bits` bits cleared.
pub open spec fn clear_host_bits(value: nat, host_bits: nat) -> nat {
    (value - value % pow2(host_bits)) as nat
}

/// The network that `addr` lies in under prefix length `prefix_len`.
pub open spec fn network_of(addr: IpAddress, prefix_len: u8) -> NetworkView
    recommends
        prefix_len <= addr.spec_family().width(),
{
    NetworkView {
        base: IpAddress::of_value(
            addr.spec_family(),
            clear_host_bits(addr.value(), (addr.spec_family().width() - prefix_len) as nat),
        ),
        prefix_len,
    }
}

impl NetworkView {
    pub open spec fn family(self) -> Family {
        self.base.spec_family()
    }

    /// The number of address bits that the prefix leaves to hosts.
    pub open spec fn host_bits(self) -> nat {
        (self.family().width() - self.prefix_len) as nat
    }

    /// The prefix length fits the family, and the base address has no host
    /// bit set.
    pub open spec fn wf(self) -> bool {
        &&& self.prefix_len <= self.family().width()
        &&& self.base.value() % pow2(self.host_bits()) == 0
    }

    /// The number of addresses in the block.
    pub open spec fn block_size(self) -> nat {
        pow2(self.host_bits())
    }

    pub open spec fn netmask(self) -> IpAddress {
        IpAddress::of_value(
            self.family(),
            netmask_value(self.family().width(), self.prefix_len as nat),
        )
    }

    /// The highest address of the block.
    pub open spec fn broadcast(self) -> IpAddress {
        IpAddress::of_value(self.family(), (self.base.value() + self.block_size() - 1) as nat)
    }

    /// Whether the base address is kept out of the host range. It is in
    /// both families, but for the networks too small to spare it: an IPv4
    /// network of one or two addresses, and an IPv6 network of one.
    pub open spec fn excludes_base(self) -> bool {
        match self.family() {
            Family::V4 => self.prefix_len < 31,
            Family::V6 => self.prefix_len < 128,
        }
    }

    /// Whether the highest address of the block is kept out of the host
    /// range: as the broadcast address of an IPv4 network with a prefix
    /// shorter than 31. IPv6 has no broadcast address to keep out.
    pub open spec fn excludes_broadcast(self) -> bool {
        self.family() == Family::V4 && self.prefix_len < 31
    }

    /// The first host address: the address after the base address where
    /// the base address is kept out, else the base address.
    pub open spec fn first_host(self) -> IpAddress {
        if self.excludes_base() {
            IpAddress::of_value(self.family(), self.base.value() + 1)
        } else {
            self.base
        }
    }

    /// The last host address: the address before the broadcast address
    /// where that is kept out, else the highest address of the block.
    pub open spec fn last_host(self) -> IpAddress {
        if self.excludes_broadcast() {
            IpAddress::of_value(self.family(), (self.base.value() + self.block_size() - 2) as nat)
        } else {
            self.broadcast()
        }
    }

    /// The number of host addresses: the addresses of the block without
    /// those that are kept out.
    pub open spec fn host_total(self) -> nat {
        let base: int = if self.excludes_base() {
            1
        } else {
            0
        };
        let broadcast: int = if self.excludes_broadcast() {
            1
        } else {
            0
        };
        (self.block_size() - base - broadcast) as nat
    }

    /// The host count as reported: exact where the host bits are fewer
    /// than the bits of `usize`, and otherwise too many to say.
    pub open spec fn host_count(self) -> HostCount {
        if usize::BITS > self.host_bits() {
            HostCount::Exact(self.host_total() as usize)
        } else {
            HostCount::TooMany
        }
    }

    pub open spec fn facts(self) -> DerivedFacts {
        DerivedFacts {
            network_address: self.base,
            broadcast_address: if self.family() == Family::V4 {
                Some(self.broadcast())
            } else {
                None
            },
            netmask: self.netmask(),
            prefix_len: self.prefix_len,
            first_host: Some(self.first_host()),
            last_host: Some(self.last_host()),
            host_count: self.host_count(),
        }
    }
}

/// Clearing the host bits leaves a multiple of the block size that is not
/// above the value.
pub proof fn lemma_clear_host_bits(value: nat, host_bits: nat)
    ensures
        clear_host_bits(value, host_bits) <= value,
        clear_host_bits(value, host_bits) % pow2(host_bits) == 0,
        clear_host_bits(value, host_bits) == pow2(host_bits) * (value / pow2(host_bits)),
{
    let b = pow2(host_bits) as int;
    lemma_pow2_pos(host_bits);
    lemma_fundamental_div_mod(value as int, b);
    let q = value as int / b;
    lemma_mod_multiples_basic(q, b);
    assert(q * b == b * q) by (nonlinear_arith);
}

/// Clearing the host bits of an IPv4 address is masking the address with
/// the netmask of the prefix length, bit by bit.
pub proof fn lemma_clear_host_bits_is_masking(addr: u32, prefix_len: u8)
    requires
        prefix_len <= 32,
    ensures
        clear_host_bits(addr as nat, (32 - prefix_len) as nat) == addr & (netmask_value(
            32,
            prefix_len as nat,
        ) as u32),
{
    let host_bits = (32 - prefix_len) as nat;
    lemma_pow2_widths();
    lemma_pow2_pos(host_bits);
    if host_bits == 32 {
        lemma_small_mod(addr as nat, pow2(32));
        assert(addr & 0u32 == 0) by (bit_vector);
    } else {
        lemma_pow2_strictly_increases(host_bits, 32);
        vstd::bits::lemma_u32_low_bits_mask_is_mod(addr, host_bits);
        let low = (pow2(host_bits) - 1) as u32;
        assert(addr - (addr & low) == addr & !low) by (bit_vector);
        assert(!low == 0xffff_ffffu32 - low) by (bit_vector);
    }
}

/// A network is the network of its own base address: clearing host bits
/// that are clear already changes nothing.
pub proof fn lemma_network_of_base(net: NetworkView)
    requires
        net.wf(),
    ensures
        network_of(net.base, net.prefix_len) == net,
{
}

/// A block that starts at a multiple of its size below `2^width` ends
/// below `2^width` too.
pub proof fn lemma_block_fits(base: nat, host_bits: nat, width: nat)
    requires
        host_bits <= width,
        base < pow2(width),
        base % pow2(host_bits) == 0,
    ensures
        base + pow2(host_bits) <= pow2(width),
{
    let b = pow2(host_bits) as int;
    let c = pow2((width - host_bits) as nat) as int;
    lemma_pow2_pos(host_bits);
    lemma_pow2_adds((width - host_bits) as nat, host_bits);
    lemma_fundamental_div_mod(base as int, b);
    let q = base as int / b;
    assert(base == b * q);
    assert(pow2(width) == c * b);
    assert(q < c) by (nonlinear_arith)
        requires
            b > 0,
            b * q < c * b,
    ;
    assert(b * q + b <= c * b) by (nonlinear_arith)
        requires
            b > 0,
            q + 1 <= c,
    ;
}

/// The base address of `network_of` has no host bit set and fits the family.
pub proof fn lemma_network_of_wf(addr: IpAddress, prefix_len: u8)
    requires
        prefix_len <= addr.spec_family().width(),
    ensures
        network_of(addr, prefix_len).wf(),
        network_of(addr, prefix_len).family() == addr.spec_family(),
        network_of(addr, prefix_len).base.value() == clear_host_bits(
            addr.value(),
            (addr.spec_family().width() - prefix_len) as nat,
        ),
{
    lemma_pow2_widths();
    lemma_clear_host_bits(addr.value(), (addr.spec_family().width() - prefix_len) as nat);
}

/// The host range lies within the block, and the host total is the number
/// of addresses from the first host to the last. The range starts after
/// the base address in both families and ends before the broadcast address
/// in IPv4, but for the networks of one address and the IPv4 networks of
/// two, whose host range is the whole block.
pub proof fn lemma_host_range(net: NetworkView)
    requires
        net.wf(),
    ensures
        net.broadcast().value() == net.base.value() + net.block_size() - 1,
        net.first_host().value() <= net.last_host().value(),
        net.host_total() == net.last_host().value() - net.first_host().value() + 1,
        net.family() == Family::V4 && net.prefix_len < 31 ==> {
            &&& net.first_host().value() == net.base.value() + 1
            &&& net.last_host().value() == net.broadcast().value() - 1
            &&& net.host_total() == net.block_size() - 2
        },
        net.family() == Family::V6 && net.prefix_len < 128 ==> {
            &&& net.first_host().value() == net.base.value() + 1
            &&& net.last_host() == net.broadcast()
            &&& net.host_total() == net.block_size() - 1
        },
        !net.excludes_base() ==> {
            &&& net.first_host() == net.base
            &&& net.last_host() == net.broadcast()
            &&& net.host_total() == net.block_size()
        },
{
    let width = net.family().width();
    lemma_pow2_widths();
    lemma_pow2_pos(net.host_bits());
    lemma_block_fits(net.base.value(), net.host_bits(), width);
    vstd::arithmetic::power2::lemma2_to64();
    if net.excludes_base() {
        lemma_pow2_strictly_increases(0, net.host_bits());
    }
    if net.excludes_broadcast() {
        lemma_pow2_strictly_increases(1, net.host_bits());
    }
}

/// The netmask of a network is the netmask of its prefix length, so that
/// the netmask stands for the prefix length that it came from.
pub proof fn lemma_netmask_of_prefix(net: NetworkView)
    requires
        net.wf(),
    ensures
        is_netmask(net.netmask(), net.prefix_len as nat),
        mask_prefix(net.netmask()) == Some(net.prefix_len),
{
    let width = net.family().width();
    lemma_pow2_widths();
    lemma_pow2_pos(net.host_bits());
    if net.host_bits() < width {
        lemma_pow2_strictly_increases(net.host_bits(), width);
    }
    assert(is_netmask(net.netmask(), net.prefix_len as nat));
    lemma_netmask_prefix_unique(
        net.netmask(),
        net.prefix_len as nat,
        choose|p: nat| is_netmask(net.netmask(), p),
    );
}

/// `1 << bits` is the power of two.
proof fn lemma_shl_pow2(bits: u128)
    requires
        bits < 128,
    ensures
        (1u128 << bits) == pow2(bits as nat),
    decreases bits,
{
    if bits == 0 {
        assert((1u128 << 0u128) == 1) by (bit_vector);
        lemma_pow2_widths();
        vstd::arithmetic::power2::lemma2_to64();
    } else {
        let lower = (bits - 1) as u128;
        lemma_shl_pow2(lower);
        assert((1u128 << bits) == 2 * (1u128 << lower)) by (bit_vector)
            requires
                lower + 1 == bits,
                bits < 128,
        ;
        lemma_pow2_unfold(bits as nat);
    }
}

/// The number whose lowest `bits` bits are set and no other.
fn low_mask(bits: u8) -> (m: u128)
    requires
        bits <= 128,
    ensures
        m == pow2(bits as nat) - 1,
{
    if bits == 128 {
        proof {
            lemma_pow2_widths();
        }
        u128::MAX
    } else {
        proof {
            lemma_shl_pow2(bits as u128);
            lemma_pow2_pos(bits as nat);
        }
        (1u128 << (bits as u128)) - 1
    }
}

/// A validated network: an address family, the base address of the block,
/// and a prefix length. The prefix length is within the family's width and
/// the base address has no host bit set.
#[derive(Clone, Copy, Debug)]
pub struct Network {
    base: IpAddress,
    prefix_len: u8,
}

impl View for Network {
    type V = NetworkView;

    closed spec fn view(&self) -> NetworkView {
        NetworkView { base: self.base, prefix_len: self.prefix_len }
    }
}

impl Network {
    /// Every network is well formed.
    #[verifier::type_invariant]
    pub open spec fn well_formed(self) -> bool {
        self@.wf()
    }

    /// The network that `addr` lies in under prefix length `prefix_len`:
    /// the host bits of `addr` are cleared. There is none where the prefix
    /// length exceeds the family's width.
    pub fn new(addr: IpAddress, prefix_len: u8) -> (r: Option<Network>)
        ensures
            prefix_len <= addr.spec_family().width() ==> r is Some && r.unwrap()@ == network_of(
                addr,
                prefix_len,
            ),
            prefix_len > addr.spec_family().width() ==> r is None,
            r is Some ==> r.unwrap()@.wf(),
    {
        let family: Family = addr.family();
        let width: u8 = family.max_prefix_len();
        if prefix_len > width {
            return None;
        }
        let host_bits: u8 = width - prefix_len;
        let mask: u128 = low_mask(host_bits);
        let value: u128 = addr.bits();
        proof {
            lemma_pow2_widths();
            lemma_pow2_pos(host_bits as nat);
            lemma_clear_host_bits(value as nat, host_bits as nat);
            if host_bits == 128 {
                lemma_small_mod(value as nat, pow2(128));
            } else {
                lemma_pow2_strictly_increases(host_bits as nat, 128);
                lemma_mod_decreases(value as nat, pow2(host_bits as nat));
            }
        }
        // The host bits are the remainder by the block size. A block of
        // 2^128 addresses has no size in `u128`: there every bit is a host bit.
        let low: u128 = if host_bits == 128 {
            value
        } else {
            value % (mask + 1)
        };
        let base: IpAddress = IpAddress::from_bits(family, value - low);
        Some(Network { base, prefix_len })
    }

    /// The address family.
    pub fn family(&self) -> (r: Family)
        ensures
            r == self@.family(),
    {
        self.base.family()
    }

    /// The base address of the block.
    pub fn network(&self) -> (r: IpAddress)
        ensures
            r == self@.base,
    {
        self.base
    }

    /// The prefix length.
    pub fn prefix_len(&self) -> (r: u8)
        ensures
            r == self@.prefix_len,
            self@.wf(),
    {
        proof {
            use_type_invariant(self);
        }
        self.prefix_len
    }

    /// The number of address bits that the prefix leaves to hosts.
    pub fn host_bits(&self) -> (r: u8)
        ensures
            r == self@.host_bits(),
            r + self@.prefix_len == self@.family().width(),
    {
        proof {
            use_type_invariant(self);
        }
        self.base.family().max_prefix_len() - self.prefix_len
    }

    /// The netmask: as many one bits as the prefix is long, then zeros.
    pub fn netmask(&self) -> (r: IpAddress)
        ensures
            r == self@.netmask(),
    {
        let family: Family = self.base.family();
        let width: u8 = family.max_prefix_len();
        let host_bits: u8 = self.host_bits();
        proof {
            lemma_pow2_pos(host_bits as nat);
            if host_bits < width {
                lemma_pow2_strictly_increases(host_bits as nat, width as nat);
            }
        }
        IpAddress::from_bits(family, low_mask(width) - low_mask(host_bits))
    }

    /// The highest address of the block.
    pub fn broadcast(&self) -> (r: IpAddress)
        ensures
            r == self@.broadcast(),
    {
        let family: Family = self.base.family();
        let host_bits: u8 = self.host_bits();
        let base: u128 = self.base.bits();
        proof {
            use_type_invariant(self);
            lemma_block_fits(base as nat, host_bits as nat, family.width());
            lemma_pow2_widths();
        }
        IpAddress::from_bits(family, base + low_mask(host_bits))
    }

    /// Whether the base address is kept out of the host range.
    pub fn excludes_base(&self) -> (r: bool)
        ensures
            r == self@.excludes_base(),
    {
        if self.base.is_ipv4() {
            self.prefix_len < 31
        } else {
            self.prefix_len < 128
        }
    }

    /// Whether the highest address of the block is kept out of the host
    /// range, as the broadcast address of the network.
    pub fn excludes_broadcast(&self) -> (r: bool)
        ensures
            r == self@.excludes_broadcast(),
    {
        self.base.is_ipv4() && self.prefix_len < 31
    }

    /// The first host address: the address after the base address where
    /// the base address is kept out, else the base address.
    pub fn first_host(&self) -> (r: IpAddress)
        ensures
            r == self@.first_host(),
    {
        let family: Family = self.base.family();
        if self.excludes_base() {
            let base: u128 = self.base.bits();
            proof {
                use_type_invariant(self);
                lemma_block_fits(base as nat, self@.host_bits(), family.width());
                lemma_pow2_strictly_increases(0, self@.host_bits());
                lemma_pow2_widths();
                vstd::arithmetic::power2::lemma2_to64();
            }
            IpAddress::from_bits(family, base + 1)
        } else {
            self.base
        }
    }

    /// The last host address: the address before the broadcast address
    /// where that is kept out, else the highest address of the block.
    pub fn last_host(&self) -> (r: IpAddress)
        ensures
            r == self@.last_host(),
    {
        let family: Family = self.base.family();
        if self.excludes_broadcast() {
            let host_bits: u8 = self.host_bits();
            let base: u128 = self.base.bits();
            proof {
                use_type_invariant(self);
                lemma_block_fits(base as nat, host_bits as nat, family.width());
                lemma_pow2_strictly_increases(1, host_bits as nat);
                lemma_pow2_widths();
                vstd::arithmetic::power2::lemma2_to64();
            }
            IpAddress::from_bits(family, base + (low_mask(host_bits) - 1))
        } else {
            self.broadcast()
        }
    }

    /// The host count: exact where the host bits are fewer than the bits
    /// of `usize`, so that the count is sure to fit, and otherwise too many
    /// to say.
    pub fn host_count(&self) -> (r: HostCount)
        ensures
            r == self@.host_count(),
            r matches HostCount::Exact(n) ==> n == self@.host_total(),
    {
        let host_bits: u8 = self.host_bits();
        if usize::BITS > host_bits as u32 {
            let highest: u128 = low_mask(host_bits);
            proof {
                lemma_pow2_widths();
                if host_bits < 31 {
                    lemma_pow2_strictly_increases(host_bits as nat, 31);
                }
                if 32 <= host_bits < 63 {
                    lemma_pow2_strictly_increases(host_bits as nat, 63);
                }
                if 0 < host_bits {
                    lemma_pow2_strictly_increases(0, host_bits as nat);
                }
                if 1 < host_bits {
                    lemma_pow2_strictly_increases(1, host_bits as nat);
                }
                vstd::arithmetic::power2::lemma2_to64();
                vstd::arithmetic::power2::lemma2_to64_rest();
            }
            // `highest` is one less than the number of addresses in the block.
            let total: u128 = if self.excludes_broadcast() {
                highest - 1
            } else if self.excludes_base() {
                highest
            } else {
                highest + 1
            };
            HostCount::Exact(total as usize)
        } else {
            HostCount::TooMany
        }
    }

    /// All the facts that are reported of the network.
    pub fn facts(&self) -> (r: DerivedFacts)
        ensures
            r == self@.facts(),
            self@.wf(),
    {
        DerivedFacts {
            network_address: self.network(),
            broadcast_address: if self.base.is_ipv4() {
                Some(self.broadcast())
            } else {
                None
            },
            netmask: self.netmask(),
            prefix_len: self.prefix_len(),
            first_host: Some(self.first_host()),
            last_host: Some(self.last_host()),
            host_count: self.host_count(),
        }
    }
}

} // verus!
