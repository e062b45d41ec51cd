//! Addresses, networks and the whitelist that keeps infrastructure out of the
//! firewall sets.
use crate::text;
use vstd::prelude::*;

verus! {

/// An IP address by its bits, the first octet in the highest place.
#[derive(Debug, Clone, Copy, PartialEq, Eq, Structural)]
pub enum IpAddress {
    V4(u32),
    V6(u128),
}

/// A network in CIDR notation: an address and the number of leading bits that count.
#[allow(inconsistent_fields)]
#[derive(Debug, Clone, Copy, PartialEq, Eq, Structural)]
pub enum IpNetwork {
    V4 { base: u32, prefix: u8 },
    V6 { base: u128, prefix: u8 },
}

/// `a` and `b`, of `width` bits each, agree in their first `prefix` bits.
pub open spec fn same_prefix(a: nat, b: nat, width: nat, prefix: nat) -> bool {
    let size = vstd::arithmetic::power2::pow2((width - prefix) as nat);
    a / size == b / size
}

impl IpNetwork {
    /// The prefix is no longer than the address.
    pub open spec fn valid(self) -> bool {
        match self {
            IpNetwork::V4 { prefix, .. } => prefix <= 32,
            IpNetwork::V6 { prefix, .. } => prefix <= 128,
        }
    }

    /// The address belongs to the network: it is of the same family, and it agrees
    /// with the network in the bits that count.
    pub open spec fn has(self, address: IpAddress) -> bool {
        match (self, address) {
            (IpNetwork::V4 { base, prefix }, IpAddress::V4(bits)) => same_prefix(
                base as nat,
                bits as nat,
                32,
                prefix as nat,
            ),
            (IpNetwork::V6 { base, prefix }, IpAddress::V6(bits)) => same_prefix(
                base as nat,
                bits as nat,
                128,
                prefix as nat,
            ),
            _ => false,
        }
    }

    /// Whether the address belongs to the network.
    pub fn contains(&self, address: &IpAddress) -> (r: bool)
        requires
            self.valid(),
        ensures
            r == self.has(*address),
    {
        match (*self, *address) {
            (IpNetwork::V4 { base, prefix }, IpAddress::V4(bits)) => {
                ipv4_network_contains(base, prefix, bits)
            },
            (IpNetwork::V6 { base, prefix }, IpAddress::V6(bits)) => {
                ipv6_network_contains(base, prefix, bits)
            },
            _ => false,
        }
    }
}

/// `ipnet::Ipv4Net::contains` on a network made by `Ipv4Net::new_assert`: an address
/// is inside if it agrees with the network's address in the bits of the prefix.
/// `new_assert` panics on a prefix of more than 32 bits, which `requires` rules out.
#[verifier::external_body]
fn ipv4_network_contains(base: u32, prefix: u8, bits: u32) -> (r: bool)
    requires
        prefix <= 32,
    ensures
        r == same_prefix(base as nat, bits as nat, 32, prefix as nat),
{
    let network = ipnet::Ipv4Net::new_assert(base.into(), prefix);
    let host = ipnet::Ipv4Net::new_assert(bits.into(), 32);
    network.contains(&host.addr())
}

/// `ipnet::Ipv6Net::contains` on a network made by `Ipv6Net::new_assert`: an address
/// is inside if it agrees with the network's address in the bits of the prefix.
/// `new_assert` panics on a prefix of more than 128 bits, which `requires` rules out.
#[verifier::external_body]
fn ipv6_network_contains(base: u128, prefix: u8, bits: u128) -> (r: bool)
    requires
        prefix <= 128,
    ensures
        r == same_prefix(base as nat, bits as nat, 128, prefix as nat),
{
    let network = ipnet::Ipv6Net::new_assert(base.into(), prefix);
    let host = ipnet::Ipv6Net::new_assert(bits.into(), 128);
    network.contains(&host.addr())
}

/// What `to_string` prints for an IPv6 address with the given bits.
pub uninterp spec fn ipv6_form(bits: u128) -> Seq<char>;

/// Prints an IPv6 address as `to_string` prints the address that `ipnet::Ipv6Net::addr`
/// gives back of a network made by `Ipv6Net::new_assert`. The result depends on the bits
/// alone; how zero groups are shortened is left to the name `ipv6_form`.
#[verifier::external_body]
fn ipv6_text(bits: u128) -> (r: String)
    ensures
        r@ == ipv6_form(bits),
{
    ipnet::Ipv6Net::new_assert(bits.into(), 128).addr().to_string()
}

/// The printed form of an IPv4 address: its four octets in decimal, with dots between
/// them.
pub open spec fn dotted(bits: u32) -> Seq<char> {
    text::decimal((bits / 0x100_0000) as nat) + "."@ + text::decimal(
        (bits / 0x1_0000 % 0x100) as nat,
    ) + "."@ + text::decimal((bits / 0x100 % 0x100) as nat) + "."@ + text::decimal(
        (bits % 0x100) as nat,
    )
}

impl IpAddress {
    /// The printed form of the address.
    pub open spec fn words(self) -> Seq<char> {
        match self {
            IpAddress::V4(bits) => dotted(bits),
            IpAddress::V6(bits) => ipv6_form(bits),
        }
    }

    /// Prints the address.
    pub fn text(&self) -> (r: String)
        ensures
            r@ == self.words(),
    {
        match *self {
            IpAddress::V4(bits) => {
                let mut out = text::decimal_text((bits / 0x100_0000) as u64);
                out.append(".");
                out.append(text::decimal_text((bits / 0x1_0000 % 0x100) as u64).as_str());
                out.append(".");
                out.append(text::decimal_text((bits / 0x100 % 0x100) as u64).as_str());
                out.append(".");
                out.append(text::decimal_text((bits % 0x100) as u64).as_str());
                out
            },
            IpAddress::V6(bits) => ipv6_text(bits),
        }
    }
}

/// Every network of a whitelist is valid.
pub open spec fn valid_whitelist(whitelist: Seq<IpNetwork>) -> bool {
    forall|i: int| 0 <= i < whitelist.len() ==> (#[trigger] whitelist[i]).valid()
}

/// Some network of the whitelist holds the address.
pub open spec fn is_whitelisted(address: IpAddress, whitelist: Seq<IpNetwork>) -> bool {
    exists|i: int| 0 <= i < whitelist.len() && (#[trigger] whitelist[i]).has(address)
}

/// Whether the whitelist protects an address.
pub fn is_ip_safe(target_ip: &IpAddress, whitelist: &[IpNetwork]) -> (r: bool)
    requires
        valid_whitelist(whitelist@),
    ensures
        r == is_whitelisted(*target_ip, whitelist@),
{
    let mut i: usize = 0;
    while i < whitelist.len()
        invariant
            i <= whitelist@.len(),
            valid_whitelist(whitelist@),
            forall|j: int| 0 <= j < i ==> !(#[trigger] whitelist@[j]).has(*target_ip),
        decreases whitelist@.len() - i,
    {
        if whitelist[i].contains(target_ip) {
            assert(whitelist@[i as int].has(*target_ip));
            return true;
        }
        i += 1;
    }
    false
}

} // verus!
