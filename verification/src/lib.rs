//! Wake-on-LAN relay engine: a verified magic-packet codec, a recursion
//! filter that keeps the relay from re-forwarding its own transmissions,
//! the per-datagram decision of the receive loop, and the relay fan-out
//! plan. All socket I/O lives outside this crate; the functions here work
//! on plain bytes and address values.

use vstd::prelude::*;
use vstd::string::StringExecFns;

pub mod recursion_prevention;
pub mod wol_message;

use crate::recursion_prevention::{is_our_ip, spec_is_our_ip};
use crate::wol_message::{is_magic_packet, parse_wol_message, parsed_mac, build_magic_packet};

verus! {

/// A hardware (MAC) address: exactly six bytes, compared byte-wise.
#[derive(Clone, Copy, Debug)]
pub struct MacAddress {
    /// The six octets, most significant first.
    pub bytes: [u8; 6],
}

impl MacAddress {
    /// Construct an address from its six octets.
    pub fn new(bytes: [u8; 6]) -> (m: MacAddress)
        ensures
            m@ == bytes@,
    {
        MacAddress { bytes }
    }

    /// The six octets of the address.
    pub fn octets(&self) -> (r: [u8; 6])
        ensures
            r@ == self@,
    {
        self.bytes
    }
}

impl View for MacAddress {
    type V = Seq<u8>;

    open spec fn view(&self) -> Seq<u8> {
        self.bytes@
    }
}

impl PartialEq for MacAddress {
    fn eq(&self, other: &Self) -> (r: bool) {
        let r = self.bytes[0] == other.bytes[0] && self.bytes[1] == other.bytes[1]
            && self.bytes[2] == other.bytes[2] && self.bytes[3] == other.bytes[3]
            && self.bytes[4] == other.bytes[4] && self.bytes[5] == other.bytes[5];
        proof {
            if r {
                assert(self.bytes@ =~= other.bytes@);
            }
        }
        r
    }
}

impl vstd::std_specs::cmp::PartialEqSpecImpl for MacAddress {
    open spec fn obeys_eq_spec() -> bool {
        true
    }

    open spec fn eq_spec(&self, other: &Self) -> bool {
        self@ == other@
    }
}

/// The upper-case hexadecimal digit for a value below sixteen (and `F`
/// for anything larger).
pub open spec fn hex_digit(n: u8) -> char {
    if n == 0 {
        '0'
    } else if n == 1 {
        '1'
    } else if n == 2 {
        '2'
    } else if n == 3 {
        '3'
    } else if n == 4 {
        '4'
    } else if n == 5 {
        '5'
    } else if n == 6 {
        '6'
    } else if n == 7 {
        '7'
    } else if n == 8 {
        '8'
    } else if n == 9 {
        '9'
    } else if n == 10 {
        'A'
    } else if n == 11 {
        'B'
    } else if n == 12 {
        'C'
    } else if n == 13 {
        'D'
    } else if n == 14 {
        'E'
    } else {
        'F'
    }
}

/// The canonical rendering of a six-byte hardware address: upper-case hex
/// octets separated by colons.
pub open spec fn mac_display(m: Seq<u8>) -> Seq<char> {
    seq![
        hex_digit(m[0] / 16),
        hex_digit(m[0] % 16),
        ':',
        hex_digit(m[1] / 16),
        hex_digit(m[1] % 16),
        ':',
        hex_digit(m[2] / 16),
        hex_digit(m[2] % 16),
        ':',
        hex_digit(m[3] / 16),
        hex_digit(m[3] % 16),
        ':',
        hex_digit(m[4] / 16),
        hex_digit(m[4] % 16),
        ':',
        hex_digit(m[5] / 16),
        hex_digit(m[5] % 16),
    ]
}

fn push_hex_digit(out: &mut String, n: u8)
    ensures
        final(out)@ == old(out)@ + seq![hex_digit(n)],
{
    let ghost pre = out@;
    if n == 0 {
        proof {
            reveal_strlit("0");
        }
        out.append("0");
    } else if n == 1 {
        proof {
            reveal_strlit("1");
        }
        out.append("1");
    } else if n == 2 {
        proof {
            reveal_strlit("2");
        }
        out.append("2");
    } else if n == 3 {
        proof {
            reveal_strlit("3");
        }
        out.append("3");
    } else if n == 4 {
        proof {
            reveal_strlit("4");
        }
        out.append("4");
    } else if n == 5 {
        proof {
            reveal_strlit("5");
        }
        out.append("5");
    } else if n == 6 {
        proof {
            reveal_strlit("6");
        }
        out.append("6");
    } else if n == 7 {
        proof {
            reveal_strlit("7");
        }
        out.append("7");
    } else if n == 8 {
        proof {
            reveal_strlit("8");
        }
        out.append("8");
    } else if n == 9 {
        proof {
            reveal_strlit("9");
        }
        out.append("9");
    } else if n == 10 {
        proof {
            reveal_strlit("A");
        }
        out.append("A");
    } else if n == 11 {
        proof {
            reveal_strlit("B");
        }
        out.append("B");
    } else if n == 12 {
        proof {
            reveal_strlit("C");
        }
        out.append("C");
    } else if n == 13 {
        proof {
            reveal_strlit("D");
        }
        out.append("D");
    } else if n == 14 {
        proof {
            reveal_strlit("E");
        }
        out.append("E");
    } else {
        proof {
            reveal_strlit("F");
        }
        out.append("F");
    }
    proof {
        assert(out@ =~= pre + seq![hex_digit(n)]);
    }
}

fn push_hex_byte(out: &mut String, b: u8)
    ensures
        final(out)@ == old(out)@ + seq![hex_digit(b / 16), hex_digit(b % 16)],
{
    let ghost pre = out@;
    push_hex_digit(out, b / 16);
    push_hex_digit(out, b % 16);
    proof {
        assert(out@ =~= pre + seq![hex_digit(b / 16), hex_digit(b % 16)]);
    }
}

impl MacAddress {
    /// The canonical human-readable rendering, `AA:BB:CC:DD:EE:FF`.
    pub fn to_string(&self) -> (r: String)
        ensures
            r@ == mac_display(self@),
    {
        let mut out = String::new();
        push_hex_byte(&mut out, self.bytes[0]);
        proof {
            reveal_strlit(":");
        }
        out.append(":");
        push_hex_byte(&mut out, self.bytes[1]);
        out.append(":");
        push_hex_byte(&mut out, self.bytes[2]);
        out.append(":");
        push_hex_byte(&mut out, self.bytes[3]);
        out.append(":");
        push_hex_byte(&mut out, self.bytes[4]);
        out.append(":");
        push_hex_byte(&mut out, self.bytes[5]);
        proof {
            assert(out@ =~= mac_display(self@));
        }
        out
    }
}

/// An IP address as a plain numeric value: the 32-bit value of an IPv4
/// address or the 128-bit value of an IPv6 address, most significant
/// octet first.
#[derive(Clone, Copy, PartialEq, Eq, Structural, Debug)]
pub enum IpAddress {
    /// An IPv4 address.
    V4(u32),
    /// An IPv6 address.
    V6(u128),
}

impl IpAddress {
    /// The wildcard (unspecified) address of the same family.
    pub fn wildcard_of_family(&self) -> (w: IpAddress)
        ensures
            self is V4 ==> w == IpAddress::V4(0),
            self is V6 ==> w == IpAddress::V6(0),
    {
        match self {
            IpAddress::V4(_) => IpAddress::V4(0),
            IpAddress::V6(_) => IpAddress::V6(0),
        }
    }
}

/// A socket address: an IP address and a UDP port.
#[derive(Clone, Copy, PartialEq, Eq, Structural, Debug)]
pub struct SocketAddress {
    /// The IP address.
    pub ip: IpAddress,
    /// The UDP port.
    pub port: u16,
}

/// Configures the endpoint a Wake-on-LAN receiver listens on: wildcard
/// IPv4 and port 9 unless overridden. The caller binds a socket to the
/// configured address and feeds each received datagram to
/// [`receive_step`].
#[derive(Clone, Copy, PartialEq, Eq, Structural, Debug)]
pub struct WolReceiverConfig {
    /// The address to listen on.
    pub addr: SocketAddress,
}

impl WolReceiverConfig {
    /// A new receiver config: wildcard IPv4, port 9.
    pub fn new() -> (c: Self)
        ensures
            c.addr == (SocketAddress { ip: IpAddress::V4(0), port: 9 }),
    {
        WolReceiverConfig { addr: SocketAddress { ip: IpAddress::V4(0), port: 9 } }
    }

    /// Set the IP address to listen on.
    pub fn with_ip(self, ip: IpAddress) -> (c: Self)
        ensures
            c.addr.ip == ip,
            c.addr.port == self.addr.port,
    {
        WolReceiverConfig { addr: SocketAddress { ip, port: self.addr.port } }
    }

    /// Set the port to listen on.
    pub fn with_port(self, port: u16) -> (c: Self)
        ensures
            c.addr.port == port,
            c.addr.ip == self.addr.ip,
    {
        WolReceiverConfig { addr: SocketAddress { ip: self.addr.ip, port } }
    }
}

impl Default for WolReceiverConfig {
    fn default() -> (c: Self)
        ensures
            c.addr == (SocketAddress { ip: IpAddress::V4(0), port: 9 }),
    {
        WolReceiverConfig::new()
    }
}

/// What the receive loop does with one datagram.
#[derive(Clone, Copy, PartialEq, Debug)]
pub enum DatagramDecision {
    /// A magic packet from another host: yield its target address.
    Accept(MacAddress),
    /// The datagram came from this host itself; it is dropped silently so
    /// that the relay never re-forwards its own transmissions.
    DiscardRecursion,
    /// The datagram is not a magic packet; it is ignored.
    DiscardMalformed,
}

/// One iteration of the receive loop, as a pure decision: given the raw
/// payload of a datagram, its source address, and the local address a
/// throwaway probe socket connected toward that source reports (nothing
/// if the probe failed), decide whether the datagram yields a target
/// address, is a self-originated duplicate, or is noise.
pub fn receive_step(payload: &[u8], source: &SocketAddress, probed_local: &Option<
    SocketAddress,
>) -> (d: DatagramDecision)
    ensures
        spec_is_our_ip(*source, *probed_local) ==> d == DatagramDecision::DiscardRecursion,
        !spec_is_our_ip(*source, *probed_local) && is_magic_packet(payload@) ==> ({
            &&& d matches DatagramDecision::Accept(m)
            &&& m@ == parsed_mac(payload@)
        }),
        !spec_is_our_ip(*source, *probed_local) && !is_magic_packet(payload@) ==> d
            == DatagramDecision::DiscardMalformed,
{
    if is_our_ip(source, probed_local) {
        DatagramDecision::DiscardRecursion
    } else {
        match parse_wol_message(payload) {
            Some(m) => DatagramDecision::Accept(m),
            None => DatagramDecision::DiscardMalformed,
        }
    }
}

/// One magic packet the relay is about to transmit.
pub struct OutboundPacket {
    /// Where to send it.
    pub destination: SocketAddress,
    /// The bytes to send.
    pub payload: Vec<u8>,
}

/// The relay fan-out for one received target address: one freshly built
/// magic packet per resolved destination address, in resolution order,
/// each carrying the caller's secure-on secret if one was supplied.
pub fn plan_relay(target_mac: &MacAddress, resolved: &Vec<SocketAddress>, password: Option<
    &Vec<u8>,
>) -> (plan: Vec<OutboundPacket>)
    ensures
        plan@.len() == resolved@.len(),
        forall|i: int| 0 <= i < plan@.len() ==> {
            &&& (#[trigger] plan@[i]).destination == resolved@[i]
            &&& is_magic_packet(plan@[i].payload@)
            &&& parsed_mac(plan@[i].payload@) == target_mac@
            &&& match password {
                Some(p) => plan@[i].payload@.len() == 102 + p@.len() && plan@[i].payload@.skip(
                    102,
                ) == p@,
                None => plan@[i].payload@.len() == 102,
            }
        },
{
    let mut plan: Vec<OutboundPacket> = Vec::new();
    let mut i: usize = 0;
    while i < resolved.len()
        invariant
            i <= resolved@.len(),
            plan@.len() == i,
            forall|t: int| 0 <= t < i ==> {
                &&& (#[trigger] plan@[t]).destination == resolved@[t]
                &&& is_magic_packet(plan@[t].payload@)
                &&& parsed_mac(plan@[t].payload@) == target_mac@
                &&& match password {
                    Some(p) => plan@[t].payload@.len() == 102 + p@.len()
                        && plan@[t].payload@.skip(102) == p@,
                    None => plan@[t].payload@.len() == 102,
                }
            },
        decreases resolved@.len() - i,
    {
        let payload = build_magic_packet(target_mac, password);
        plan.push(OutboundPacket { destination: resolved[i], payload });
        i += 1;
    }
    plan
}

} // verus!
