//! The input grammar: `<address>/<mask>`, where the mask is a prefix length
//! or a netmask, and its resolution into a validated network.

use vstd::prelude::*;
use crate::address::{
    is_netmask,
    lemma_netmask_prefix_unique,
    mask_prefix,
    netmask_value,
    Family,
    IpAddress,
};
use crate::bridge::{parse_ip_addr, parse_ip_net, parsed_ip_addr, parsed_ip_net};
use crate::network::{
    clear_host_bits,
    lemma_clear_host_bits,
    lemma_clear_host_bits_is_masking,
    lemma_network_of_wf,
    network_of,
    Network,
    NetworkView,
};
use crate::text::{
    chars_of,
    decimal,
    is_digit,
    lemma_decimal_round_trip,
    parse_u8,
    parsed_u8,
    push_decimal,
    unsigned_digits,
};

verus! {

/// Why an input is not a network.
#[derive(Clone, Copy, Debug, PartialEq, Eq, Structural)]
pub enum ParseFailure {
    /// The input does not hold exactly one `/`.
    SeparatorCount,
    /// The text after the `/` is neither a prefix length nor a netmask.
    InvalidNetmask,
    /// The address is no IP address, or the prefix length is too long for
    /// its family.
    InvalidNetwork,
}

/// The two kinds of failure.
#[derive(Clone, Copy, Debug, PartialEq, Eq, Structural)]
pub enum FailureKind {
    /// The input does not have the shape `<address>/<mask>`.
    MalformedInput,
    /// The input has the shape, but names no network.
    InvalidNetwork,
}

impl ParseFailure {
    pub open spec fn spec_kind(self) -> FailureKind {
        match self {
            ParseFailure::SeparatorCount => FailureKind::MalformedInput,
            ParseFailure::InvalidNetmask => FailureKind::MalformedInput,
            ParseFailure::InvalidNetwork => FailureKind::InvalidNetwork,
        }
    }

    pub open spec fn spec_message(self) -> Seq<char> {
        match self {
            ParseFailure::SeparatorCount => "Invalid IP network"@,
            ParseFailure::InvalidNetmask => "invalid netmask"@,
            ParseFailure::InvalidNetwork => "Invalid IP network"@,
        }
    }

    /// The kind of the failure.
    #[verifier::when_used_as_spec(spec_kind)]
    pub fn kind(self) -> (r: FailureKind)
        ensures
            r == self.spec_kind(),
    {
        match self {
            ParseFailure::SeparatorCount => FailureKind::MalformedInput,
            ParseFailure::InvalidNetmask => FailureKind::MalformedInput,
            ParseFailure::InvalidNetwork => FailureKind::InvalidNetwork,
        }
    }

    /// The message that describes the failure.
    pub fn message(self) -> (r: String)
        ensures
            r@ == self.spec_message(),
    {
        match self {
            ParseFailure::SeparatorCount => String::from_str("Invalid IP network"),
            ParseFailure::InvalidNetmask => String::from_str("invalid netmask"),
            ParseFailure::InvalidNetwork => String::from_str("Invalid IP network"),
        }
    }
}

/// How often `c` occurs in `s`.
pub open spec fn occurrences(s: Seq<char>, c: char) -> nat
    decreases s.len(),
{
    if s.len() == 0 {
        0
    } else {
        occurrences(s.drop_last(), c) + if s.last() == c {
            1nat
        } else {
            0nat
        }
    }
}

/// Whether position `i` holds the one and only `/` of `s`.
pub open spec fn is_sole_slash(s: Seq<char>, i: int) -> bool {
    &&& 0 <= i < s.len()
    &&& s[i] == '/'
    &&& forall|j: int| 0 <= j < s.len() && j != i ==> s[j] != '/'
}

/// The text before and the text after the `/` of an input that holds
/// exactly one; nothing for any other input.
pub open spec fn split_parts(s: Seq<char>) -> Option<(Seq<char>, Seq<char>)> {
    if exists|i: int| is_sole_slash(s, i) {
        let i = choose|i: int| is_sole_slash(s, i);
        Some((s.take(i), s.skip(i + 1)))
    } else {
        None
    }
}

/// Whether a mask token is read as a netmask: it holds a `.` or a `:`.
pub open spec fn netmask_form(token: Seq<char>) -> bool {
    token.contains('.') || token.contains(':')
}

/// The prefix length that a mask token stands for. A token in netmask form
/// must parse as an IP address that is the netmask of some prefix length;
/// any other token must be an unsigned decimal byte.
pub open spec fn resolved_prefix(token: Seq<char>) -> Option<u8> {
    if netmask_form(token) {
        match parsed_ip_addr(token) {
            Some(mask) => mask_prefix(mask),
            None => None,
        }
    } else {
        parsed_u8(token)
    }
}

/// The prefix length that an input asks for.
pub open spec fn netmask_bit_outcome(s: Seq<char>) -> Result<u8, ParseFailure> {
    match split_parts(s) {
        None => Err(ParseFailure::SeparatorCount),
        Some((_, token)) => match resolved_prefix(token) {
            None => Err(ParseFailure::InvalidNetmask),
            Some(bit) => Ok(bit),
        },
    }
}

/// The address text and a prefix length in the one form that is handed on
/// for validation: `<address>/<prefix length in decimal>`.
pub open spec fn canonical_text(address: Seq<char>, prefix_len: u8) -> Seq<char> {
    address + seq!['/'] + decimal(prefix_len as nat)
}

/// The network that a parsed address and prefix length stand for, where
/// the prefix length fits the family of the address.
pub open spec fn validated(parsed: Option<(IpAddress, u8)>) -> Result<NetworkView, ParseFailure> {
    match parsed {
        Some((addr, prefix_len)) => if prefix_len <= addr.spec_family().width() {
            Ok(network_of(addr, prefix_len))
        } else {
            Err(ParseFailure::InvalidNetwork)
        },
        None => Err(ParseFailure::InvalidNetwork),
    }
}

/// The network that an input stands for, or why it stands for none.
pub open spec fn parse_outcome(s: Seq<char>) -> Result<NetworkView, ParseFailure> {
    match split_parts(s) {
        None => Err(ParseFailure::SeparatorCount),
        Some((address, token)) => match resolved_prefix(token) {
            None => Err(ParseFailure::InvalidNetmask),
            Some(bit) => validated(parsed_ip_net(canonical_text(address, bit))),
        },
    }
}

/// An input has at most one sole slash.
pub proof fn lemma_sole_slash_unique(s: Seq<char>, i: int, j: int)
    requires
        is_sole_slash(s, i),
        is_sole_slash(s, j),
    ensures
        i == j,
{
}

/// Splits an input at its `/`, where it holds exactly one.
pub fn split_cidr<'a>(network: &'a str) -> (r: Option<(&'a str, &'a str)>)
    ensures
        match r {
            Some((address, token)) => split_parts(network@) == Some((address@, token@)),
            None => split_parts(network@) is None,
        },
{
    let chars: Vec<char> = chars_of(network);
    let n: usize = chars.len();
    let mut found: Option<usize> = None;
    let mut i: usize = 0;
    while i < n
        invariant
            i <= n,
            n == chars@.len(),
            chars@ == network@,
            match found {
                None => forall|j: int| 0 <= j < i ==> chars@[j] != '/',
                Some(p) => {
                    &&& p < i
                    &&& chars@[p as int] == '/'
                    &&& forall|j: int| 0 <= j < i && j != p ==> chars@[j] != '/'
                },
            },
        decreases n - i,
    {
        if chars[i] == '/' {
            match found {
                Some(p) => {
                    assert forall|k: int| !is_sole_slash(network@, k) by {
                        if is_sole_slash(network@, k) {
                            assert(network@[p as int] == '/');
                            assert(network@[i as int] == '/');
                        }
                    }
                    return None;
                },
                None => {
                    found = Some(i);
                },
            }
        }
        i = i + 1;
    }
    match found {
        None => {
            assert forall|k: int| !is_sole_slash(network@, k) by {
                if is_sole_slash(network@, k) {
                    assert(network@[k] != '/');
                }
            }
            None
        },
        Some(p) => {
            assert(is_sole_slash(network@, p as int));
            proof {
                lemma_sole_slash_unique(
                    network@,
                    p as int,
                    choose|k: int| is_sole_slash(network@, k),
                );
            }
            let address: &'a str = network.substring_char(0, p);
            let token: &'a str = network.substring_char(p + 1, n);
            assert(address@ == network@.take(p as int));
            assert(token@ == network@.skip(p + 1));
            Some((address, token))
        },
    }
}

/// Whether a mask token is read as a netmask.
pub fn is_netmask_form(token: &str) -> (r: bool)
    ensures
        r == netmask_form(token@),
{
    let chars: Vec<char> = chars_of(token);
    let n: usize = chars.len();
    let mut i: usize = 0;
    while i < n
        invariant
            i <= n,
            n == chars@.len(),
            chars@ == token@,
            forall|j: int| 0 <= j < i ==> chars@[j] != '.' && chars@[j] != ':',
        decreases n - i,
    {
        if chars[i] == '.' || chars[i] == ':' {
            assert(token@[i as int] == chars@[i as int]);
            return true;
        }
        i = i + 1;
    }
    false
}

/// The prefix length that a mask token stands for.
pub fn resolve_prefix(token: &str) -> (r: Option<u8>)
    ensures
        r == resolved_prefix(token@),
{
    if is_netmask_form(token) {
        match parse_ip_addr(token) {
            Some(mask) => mask.prefix_len_of_mask(),
            None => None,
        }
    } else {
        parse_u8(token)
    }
}

/// The prefix length that an input asks for: it must hold exactly one `/`,
/// and the text after it must be a prefix length or a netmask.
pub fn netmask_bit(network: &str) -> (r: Result<u8, ParseFailure>)
    ensures
        r == netmask_bit_outcome(network@),
{
    match split_cidr(network) {
        None => Err(ParseFailure::SeparatorCount),
        Some((_, token)) => match resolve_prefix(token) {
            None => Err(ParseFailure::InvalidNetmask),
            Some(bit) => Ok(bit),
        },
    }
}

/// `<address>/<prefix length in decimal>`.
pub fn canonical_cidr(address: &str, prefix_len: u8) -> (r: String)
    ensures
        r@ == canonical_text(address@, prefix_len),
{
    proof {
        reveal_strlit("/");
    }
    let mut out: String = String::from_str(address);
    out.append("/");
    push_decimal(&mut out, prefix_len as u128);
    assert(out@ =~= canonical_text(address@, prefix_len));
    out
}

/// The network that a parsed address and prefix length stand for.
pub fn validate(parsed: Option<(IpAddress, u8)>) -> (r: Result<Network, ParseFailure>)
    ensures
        match validated(parsed) {
            Ok(view) => r is Ok && r.unwrap()@ == view,
            Err(failure) => r == Err::<Network, ParseFailure>(failure),
        },
        r is Ok ==> r.unwrap()@.wf(),
{
    match parsed {
        Some((addr, prefix_len)) => match Network::new(addr, prefix_len) {
            Some(network) => Ok(network),
            None => Err(ParseFailure::InvalidNetwork),
        },
        None => Err(ParseFailure::InvalidNetwork),
    }
}

/// Parses an input into a validated network.
pub fn parse_network(network: &str) -> (r: Result<Network, ParseFailure>)
    ensures
        match parse_outcome(network@) {
            Ok(view) => r is Ok && r.unwrap()@ == view,
            Err(failure) => r == Err::<Network, ParseFailure>(failure),
        },
        r is Ok ==> r.unwrap()@.wf(),
{
    match split_cidr(network) {
        None => Err(ParseFailure::SeparatorCount),
        Some((address, token)) => match resolve_prefix(token) {
            None => Err(ParseFailure::InvalidNetmask),
            Some(bit) => {
                let text: String = canonical_cidr(address, bit);
                validate(parse_ip_net(text.as_str()))
            },
        },
    }
}

/// A character that does not occur in `s` is at none of its positions, and
/// one that occurs is at some position.
pub proof fn lemma_occurrences_zero(s: Seq<char>, c: char)
    ensures
        occurrences(s, c) == 0 <==> !s.contains(c),
    decreases s.len(),
{
    if s.len() > 0 {
        lemma_occurrences_zero(s.drop_last(), c);
        if s.last() == c {
            assert(s[s.len() - 1] == c);
        } else if s.contains(c) {
            let i = choose|i: int| 0 <= i < s.len() && s[i] == c;
            assert(s.drop_last()[i] == c);
        } else if s.drop_last().contains(c) {
            let i = choose|i: int| 0 <= i < s.drop_last().len() && s.drop_last()[i] == c;
            assert(s[i] == c);
        }
    }
}

/// An input has a sole slash exactly when `/` occurs once in it.
pub proof fn lemma_sole_slash_iff_one(s: Seq<char>)
    ensures
        (exists|i: int| is_sole_slash(s, i)) <==> occurrences(s, '/') == 1,
    decreases s.len(),
{
    if s.len() > 0 {
        let front = s.drop_last();
        lemma_sole_slash_iff_one(front);
        lemma_occurrences_zero(front, '/');
        if s.last() == '/' {
            if occurrences(front, '/') == 0 {
                assert(is_sole_slash(s, s.len() - 1)) by {
                    assert forall|j: int| 0 <= j < s.len() && j != s.len() - 1 implies s[j]
                        != '/' by {
                        assert(front[j] == s[j]);
                    }
                }
            } else {
                let k = choose|k: int| 0 <= k < front.len() && front[k] == '/';
                assert forall|i: int| !is_sole_slash(s, i) by {
                    if is_sole_slash(s, i) {
                        assert(s[k] == '/');
                        assert(s[s.len() - 1] == '/');
                    }
                }
            }
        } else {
            if exists|i: int| is_sole_slash(front, i) {
                let i = choose|i: int| is_sole_slash(front, i);
                assert(is_sole_slash(s, i)) by {
                    assert(s[i] == front[i]);
                    assert forall|j: int| 0 <= j < s.len() && j != i implies s[j] != '/' by {
                        if j < front.len() {
                            assert(front[j] == s[j]);
                        }
                    }
                }
            }
            if exists|i: int| is_sole_slash(s, i) {
                let i = choose|i: int| is_sole_slash(s, i);
                assert(is_sole_slash(front, i)) by {
                    assert(front[i] == s[i]);
                    assert forall|j: int| 0 <= j < front.len() && j != i implies front[j]
                        != '/' by {
                        assert(front[j] == s[j]);
                    }
                }
            }
        }
    }
}

/// An address text and a mask token, neither of which holds a `/`, are
/// what their join with a `/` splits into.
pub proof fn lemma_split_of_join(address: Seq<char>, token: Seq<char>)
    requires
        !address.contains('/'),
        !token.contains('/'),
    ensures
        split_parts(address + seq!['/'] + token) == Some((address, token)),
{
    let s = address + seq!['/'] + token;
    let p = address.len() as int;
    assert(is_sole_slash(s, p)) by {
        assert forall|j: int| 0 <= j < s.len() && j != p implies s[j] != '/' by {
            if j < p {
                assert(s[j] == address[j]);
            } else {
                assert(s[j] == token[j - p - 1]);
            }
        }
    }
    lemma_sole_slash_unique(s, p, choose|i: int| is_sole_slash(s, i));
    assert(s.take(p) =~= address);
    assert(s.skip(p + 1) =~= token);
}

/// An input in which `/` does not occur exactly once is rejected for its
/// separators, whatever else it holds.
pub proof fn lemma_separator_count_rejected(s: Seq<char>)
    requires
        occurrences(s, '/') != 1,
    ensures
        netmask_bit_outcome(s) == Err::<u8, ParseFailure>(ParseFailure::SeparatorCount),
        parse_outcome(s) == Err::<NetworkView, ParseFailure>(ParseFailure::SeparatorCount),
{
    lemma_sole_slash_iff_one(s);
}

/// The decimal numeral of a byte is a mask token in prefix form, and the
/// prefix length that it stands for is that byte.
pub proof fn lemma_decimal_token(prefix_len: u8)
    ensures
        !decimal(prefix_len as nat).contains('/'),
        !netmask_form(decimal(prefix_len as nat)),
        resolved_prefix(decimal(prefix_len as nat)) == Some(prefix_len),
{
    let d = decimal(prefix_len as nat);
    lemma_decimal_round_trip(prefix_len as nat);
    assert forall|c: char| d.contains(c) implies is_digit(c) by {
        let i = choose|i: int| 0 <= i < d.len() && d[i] == c;
        assert(is_digit(d[i]));
    }
    assert(is_digit(d[0]));
    assert(unsigned_digits(d) == d);
}

/// Whatever address the address parser hands over, with whatever prefix
/// length within the width of its family (0 to 32 for IPv4, 0 to 128 for
/// IPv6), validation accepts it: the network keeps the family and the
/// prefix length, and its address is the address with the host bits cleared.
pub proof fn lemma_parsed_network_accepted(addr: IpAddress, prefix_len: u8)
    requires
        prefix_len <= addr.spec_family().width(),
    ensures
        validated(Some((addr, prefix_len))) matches Ok(view) && {
            &&& view.wf()
            &&& view.family() == addr.spec_family()
            &&& view.prefix_len == prefix_len
            &&& view.base.value() == clear_host_bits(
                addr.value(),
                (addr.spec_family().width() - prefix_len) as nat,
            )
            &&& view.base.value() <= addr.value()
            &&& view.facts().broadcast_address is Some <==> addr.spec_family() == Family::V4
        },
{
    lemma_network_of_wf(addr, prefix_len);
    lemma_clear_host_bits(
        addr.value(),
        (addr.spec_family().width() - prefix_len) as nat,
    );
}

/// A netmask stands for its prefix length and for no other, so an address
/// under a netmask and the same address under the prefix length of that
/// netmask are validated to the same network, with the same facts.
pub proof fn lemma_netmask_stands_for_prefix(addr: IpAddress, mask: IpAddress, prefix_len: u8)
    requires
        is_netmask(mask, prefix_len as nat),
    ensures
        mask_prefix(mask) == Some(prefix_len),
        validated(Some((addr, mask_prefix(mask)->0))) == validated(Some((addr, prefix_len))),
{
    lemma_netmask_prefix_unique(
        mask,
        prefix_len as nat,
        choose|p: nat| is_netmask(mask, p),
    );
}

/// An input in prefix form is judged by the address parser alone: it is
/// accepted exactly when the parser reads `<address>/<prefix length>` as an
/// address with a prefix length that fits its family.
pub proof fn lemma_prefix_form_outcome(address: Seq<char>, prefix_len: u8)
    requires
        !address.contains('/'),
    ensures
        netmask_bit_outcome(canonical_text(address, prefix_len)) == Ok::<u8, ParseFailure>(
            prefix_len,
        ),
        parse_outcome(canonical_text(address, prefix_len)) == validated(
            parsed_ip_net(canonical_text(address, prefix_len)),
        ),
{
    lemma_decimal_token(prefix_len);
    lemma_split_of_join(address, decimal(prefix_len as nat));
}

/// Every IPv4 input in prefix form with a prefix length from 0 to 32 is
/// accepted, and the network address is the address as written with its
/// host bits cleared: the bits below the prefix boundary.
pub proof fn lemma_ipv4_prefix_form_accepted(address: Seq<char>, prefix_len: u8, addr: u32)
    requires
        !address.contains('/'),
        prefix_len <= 32,
        parsed_ip_net(canonical_text(address, prefix_len)) == Some(
            (IpAddress::V4(addr), prefix_len),
        ),
    ensures
        parse_outcome(canonical_text(address, prefix_len)) matches Ok(view) && {
            &&& view.wf()
            &&& view.family() == Family::V4
            &&& view.prefix_len == prefix_len
            &&& view.base.value() == clear_host_bits(addr as nat, (32 - prefix_len) as nat)
            &&& view.base == IpAddress::V4(addr & (netmask_value(32, prefix_len as nat) as u32))
        },
{
    lemma_prefix_form_outcome(address, prefix_len);
    lemma_network_of_wf(IpAddress::V4(addr), prefix_len);
    lemma_clear_host_bits_is_masking(addr, prefix_len);
}

/// Every IPv6 input in prefix form with a prefix length from 0 to 128 is
/// accepted in the same way as an IPv4 input, and its facts hold no
/// broadcast address.
pub proof fn lemma_ipv6_prefix_form_accepted(address: Seq<char>, prefix_len: u8, addr: u128)
    requires
        !address.contains('/'),
        prefix_len <= 128,
        parsed_ip_net(canonical_text(address, prefix_len)) == Some(
            (IpAddress::V6(addr), prefix_len),
        ),
    ensures
        parse_outcome(canonical_text(address, prefix_len)) matches Ok(view) && {
            &&& view.wf()
            &&& view.family() == Family::V6
            &&& view.prefix_len == prefix_len
            &&& view.base.value() == clear_host_bits(addr as nat, (128 - prefix_len) as nat)
            &&& view.facts().broadcast_address is None
        },
{
    lemma_prefix_form_outcome(address, prefix_len);
    lemma_network_of_wf(IpAddress::V6(addr), prefix_len);
}

/// An input with a netmask stands for the same as the input with the
/// prefix length of that netmask: the same network, or the same failure.
pub proof fn lemma_netmask_form_is_prefix_form(
    address: Seq<char>,
    mask_text: Seq<char>,
    mask: IpAddress,
    prefix_len: u8,
)
    requires
        !address.contains('/'),
        !mask_text.contains('/'),
        netmask_form(mask_text),
        parsed_ip_addr(mask_text) == Some(mask),
        is_netmask(mask, prefix_len as nat),
    ensures
        netmask_bit_outcome(address + seq!['/'] + mask_text) == Ok::<u8, ParseFailure>(
            prefix_len,
        ),
        parse_outcome(address + seq!['/'] + mask_text) == parse_outcome(
            canonical_text(address, prefix_len),
        ),
{
    lemma_split_of_join(address, mask_text);
    lemma_prefix_form_outcome(address, prefix_len);
    lemma_netmask_prefix_unique(
        mask,
        prefix_len as nat,
        choose|p: nat| is_netmask(mask, p),
    );
}

/// A token in netmask form that is no IP address, or whose one bits are
/// not all in front of its zero bits, is rejected as a netmask.
pub proof fn lemma_bad_netmask_rejected(address: Seq<char>, mask_text: Seq<char>)
    requires
        !address.contains('/'),
        !mask_text.contains('/'),
        netmask_form(mask_text),
        parsed_ip_addr(mask_text) matches Some(mask) ==> forall|p: nat| !is_netmask(mask, p),
    ensures
        netmask_bit_outcome(address + seq!['/'] + mask_text) == Err::<u8, ParseFailure>(
            ParseFailure::InvalidNetmask,
        ),
        parse_outcome(address + seq!['/'] + mask_text) == Err::<NetworkView, ParseFailure>(
            ParseFailure::InvalidNetmask,
        ),
{
    lemma_split_of_join(address, mask_text);
}

/// A prefix length beyond the width of the address's family is rejected,
/// whatever the address.
pub proof fn lemma_long_prefix_rejected(addr: IpAddress, prefix_len: u8)
    requires
        prefix_len > addr.spec_family().width(),
    ensures
        validated(Some((addr, prefix_len))) == Err::<NetworkView, ParseFailure>(
            ParseFailure::InvalidNetwork,
        ),
{
}

} // verus!
