//! Network setup of the USB gadget link: addresses and the `ip` invocations that
//! configure an interface.
use vstd::prelude::*;

use crate::command::{args_view, text_arg, CommandLine};
use crate::text::{joined, decimal, decimal_string};

verus! {

/// Default TCP port of the protocol.
pub const DEFAULT_TCP_PORT: u16 = 9999;

/// USB gadget network configuration.
#[derive(Debug, Clone)]
pub struct UsbGadgetConfig {
    /// Interface name (such as `usb0`).
    pub interface: String,
    /// IP address of this side.
    pub ip: String,
    /// IP address of the peer.
    pub peer_ip: String,
    /// Netmask as a prefix length (such as 24).
    pub netmask: u8,
}

/// A configuration with the given fields.
pub open spec fn gadget_config_is(
    c: UsbGadgetConfig,
    interface: Seq<char>,
    ip: Seq<char>,
    peer_ip: Seq<char>,
    netmask: u8,
) -> bool {
    c.interface@ == interface && c.ip@ == ip && c.peer_ip@ == peer_ip && c.netmask == netmask
}

/// `address:port` for `DEFAULT_TCP_PORT`.
pub open spec fn socket_text(address: Seq<char>) -> Seq<char> {
    address + seq![':'] + decimal(DEFAULT_TCP_PORT as nat)
}

fn socket_address(address: &str) -> (s: String)
    ensures
        s@ == socket_text(address@),
{
    let a = joined(address, ":");
    let p = decimal_string(DEFAULT_TCP_PORT as u64);
    let s = joined(a.as_str(), p.as_str());
    proof {
        reveal_strlit(":");
    }
    s
}

impl Default for UsbGadgetConfig {
    /// The master side: `usb0`, 192.168.100.1 with peer 192.168.100.2, /24.
    fn default() -> (c: Self)
        ensures
            gadget_config_is(c, "usb0"@, "192.168.100.1"@, "192.168.100.2"@, 24),
    {
        UsbGadgetConfig::master()
    }
}

impl UsbGadgetConfig {
    /// Configuration of the master (test controller): `usb0`, 192.168.100.1 with
    /// peer 192.168.100.2, /24.
    pub fn master() -> (c: Self)
        ensures
            gadget_config_is(c, "usb0"@, "192.168.100.1"@, "192.168.100.2"@, 24),
    {
        UsbGadgetConfig {
            interface: String::from_str("usb0"),
            ip: String::from_str("192.168.100.1"),
            peer_ip: String::from_str("192.168.100.2"),
            netmask: 24,
        }
    }

    /// Configuration of a remote (UUT or slave): `usb0`, 192.168.100.2 with peer
    /// 192.168.100.1, /24.
    pub fn remote() -> (c: Self)
        ensures
            gadget_config_is(c, "usb0"@, "192.168.100.2"@, "192.168.100.1"@, 24),
    {
        UsbGadgetConfig {
            interface: String::from_str("usb0"),
            ip: String::from_str("192.168.100.2"),
            peer_ip: String::from_str("192.168.100.1"),
            netmask: 24,
        }
    }

    /// Where this side listens: `ip:9999`.
    pub fn bind_address(&self) -> (s: String)
        ensures
            s@ == socket_text(self.ip@),
    {
        socket_address(self.ip.as_str())
    }

    /// Where the peer listens: `peer_ip:9999`.
    pub fn peer_address(&self) -> (s: String)
        ensures
            s@ == socket_text(self.peer_ip@),
    {
        socket_address(self.peer_ip.as_str())
    }

    /// The invocation that gives the interface this side's address.
    pub fn address_command(&self) -> (c: CommandLine)
        ensures
            c.program@ == ip_program(),
            args_view(c.args@) == address_args(self.ip@, self.netmask, self.interface@),
    {
        ip_address_command(self.ip.as_str(), self.netmask, self.interface.as_str())
    }

    /// The invocation that brings the interface up.
    pub fn link_up_command(&self) -> (c: CommandLine)
        ensures
            c.program@ == ip_program(),
            args_view(c.args@) == link_up_args(self.interface@),
    {
        link_up_command(self.interface.as_str())
    }
}

/// The `ip` tool.
pub open spec fn ip_program() -> Seq<char> {
    seq!['i', 'p']
}

/// `<address>/<netmask>`.
pub open spec fn prefix_text(address: Seq<char>, netmask: u8) -> Seq<char> {
    address + seq!['/'] + decimal(netmask as nat)
}

/// `addr add <address>/<netmask> dev <interface>`.
pub open spec fn address_args(address: Seq<char>, netmask: u8, interface: Seq<char>) -> Seq<Seq<char>> {
    seq![
        seq!['a', 'd', 'd', 'r'],
        seq!['a', 'd', 'd'],
        prefix_text(address, netmask),
        seq!['d', 'e', 'v'],
        interface,
    ]
}

/// `link set <interface> up`.
pub open spec fn link_up_args(interface: Seq<char>) -> Seq<Seq<char>> {
    seq![seq!['l', 'i', 'n', 'k'], seq!['s', 'e', 't'], interface, seq!['u', 'p']]
}

/// `route add default via <gateway>`.
pub open spec fn default_route_args(gateway: Seq<char>) -> Seq<Seq<char>> {
    seq![
        seq!['r', 'o', 'u', 't', 'e'],
        seq!['a', 'd', 'd'],
        seq!['d', 'e', 'f', 'a', 'u', 'l', 't'],
        seq!['v', 'i', 'a'],
        gateway,
    ]
}

fn ip_program_exec() -> (s: String)
    ensures
        s@ == ip_program(),
{
    text_arg(vec!['i', 'p'])
}

/// The invocation that adds `address/netmask` to `interface`.
pub fn ip_address_command(address: &str, netmask: u8, interface: &str) -> (c: CommandLine)
    ensures
        c.program@ == ip_program(),
        args_view(c.args@) == address_args(address@, netmask, interface@),
{
    let slash = joined(address, "/");
    let mask = decimal_string(netmask as u64);
    let prefix = joined(slash.as_str(), mask.as_str());
    proof {
        reveal_strlit("/");
    }
    let a0 = text_arg(vec!['a', 'd', 'd', 'r']);
    let a1 = text_arg(vec!['a', 'd', 'd']);
    let a3 = text_arg(vec!['d', 'e', 'v']);
    let a4 = String::from_str(interface);
    assert(prefix@ == prefix_text(address@, netmask));
    let args: Vec<String> = vec![a0, a1, prefix, a3, a4];
    assert(args@[2]@ == prefix_text(address@, netmask));
    assert(args@[4]@ == interface@);
    let c = CommandLine { program: ip_program_exec(), args };
    assert(args_view(c.args@) =~= address_args(address@, netmask, interface@));
    c
}

/// The invocation that brings `interface` up.
pub fn link_up_command(interface: &str) -> (c: CommandLine)
    ensures
        c.program@ == ip_program(),
        args_view(c.args@) == link_up_args(interface@),
{
    let a0 = text_arg(vec!['l', 'i', 'n', 'k']);
    let a1 = text_arg(vec!['s', 'e', 't']);
    let a2 = String::from_str(interface);
    let a3 = text_arg(vec!['u', 'p']);
    let args: Vec<String> = vec![a0, a1, a2, a3];
    let c = CommandLine { program: ip_program_exec(), args };
    assert(args_view(c.args@) =~= link_up_args(interface@));
    c
}

/// The invocation that routes by default through `gateway`.
pub fn default_route_command(gateway: &str) -> (c: CommandLine)
    ensures
        c.program@ == ip_program(),
        args_view(c.args@) == default_route_args(gateway@),
{
    let a0 = text_arg(vec!['r', 'o', 'u', 't', 'e']);
    let a1 = text_arg(vec!['a', 'd', 'd']);
    let a2 = text_arg(vec!['d', 'e', 'f', 'a', 'u', 'l', 't']);
    let a3 = text_arg(vec!['v', 'i', 'a']);
    let a4 = String::from_str(gateway);
    let args: Vec<String> = vec![a0, a1, a2, a3, a4];
    let c = CommandLine { program: ip_program_exec(), args };
    assert(args_view(c.args@) =~= default_route_args(gateway@));
    c
}

} // verus!
