//! Numbers of the kernel's ipset and netlink interfaces that a set update uses.

use vstd::prelude::*;

verus! {

/// The protocol version spoken.
pub const IPSET_PROTOCOL: u8 = 6;

/// The longest set name, counted with its terminating NUL.
pub const IPSET_MAXNAMELEN: usize = 32;

/// Command: add an element to a set.
pub const IPSET_CMD_ADD: u16 = 9;

/// Attribute at command level: protocol version.
pub const IPSET_ATTR_PROTOCOL: u16 = 1;

/// Attribute at command level: name of the set.
pub const IPSET_ATTR_SETNAME: u16 = 2;

/// Attribute at command level: nested attributes of the element.
pub const IPSET_ATTR_DATA: u16 = 7;

/// Attribute inside the data container: the address container.
pub const IPSET_ATTR_IP: u16 = 1;

/// Attribute inside the address container: an IPv4 address.
pub const IPSET_ATTR_IPADDR_IPV4: u16 = 1;

/// Attribute inside the address container: an IPv6 address.
pub const IPSET_ATTR_IPADDR_IPV6: u16 = 2;

/// The netfilter subsystem that owns ipset messages.
pub const NFNL_SUBSYS_IPSET: u16 = 6;

/// Version of the netfilter generic header.
pub const NFNETLINK_V0: u8 = 0;

/// Netlink flag: the message is a request.
pub const NLM_F_REQUEST: u16 = 1;

/// Attribute type flag: the payload is a list of attributes.
pub const NLA_F_NESTED: u16 = 0x8000;

/// Attribute type flag: the payload is in network byte order.
pub const NLA_F_NET_BYTEORDER: u16 = 0x4000;

/// Address family of IPv4.
pub const AF_INET: u8 = 2;

/// Address family of IPv6.
pub const AF_INET6: u8 = 10;

/// Bytes of the netlink message header.
pub const NLMSG_HDRLEN: usize = 16;

/// Bytes of the netfilter generic header.
pub const NFGENMSG_LEN: usize = 4;

/// Bytes of an attribute header.
pub const NLA_HDRLEN: usize = 4;

/// Attributes and headers start at multiples of this many bytes.
pub const NLA_ALIGNTO: usize = 4;

} // verus!
