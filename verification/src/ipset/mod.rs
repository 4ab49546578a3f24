//! The set-update encoder: one "add this address to this named set" request
//! as the bytes of a netlink message.
//!
//! The layout is fixed. A netlink header and the netfilter generic header are
//! followed by three attributes: the protocol version, the NUL-terminated set
//! name, and a data container that holds an address container that holds the
//! address itself. Every multi-byte header field is written in network byte
//! order, and every attribute is padded with zero bytes to a multiple of four.

use crate::errors::{new_error, Error, ErrorKind};
use crate::ipset::types::{
    AF_INET, AF_INET6, IPSET_ATTR_DATA, IPSET_ATTR_IP, IPSET_ATTR_IPADDR_IPV4,
    IPSET_ATTR_IPADDR_IPV6, IPSET_ATTR_PROTOCOL, IPSET_ATTR_SETNAME, IPSET_CMD_ADD,
    IPSET_MAXNAMELEN, IPSET_PROTOCOL, NFGENMSG_LEN, NFNETLINK_V0, NFNL_SUBSYS_IPSET,
    NLA_ALIGNTO, NLA_F_NESTED, NLA_F_NET_BYTEORDER, NLA_HDRLEN, NLMSG_HDRLEN, NLM_F_REQUEST,
};
use vstd::prelude::*;
use vstd::string::StringExecFns;
use vstd::string::StringSliceAdditionalSpecFns;

pub mod types;

verus! {

/// An address as it comes out of an answer record: four or sixteen bytes in
/// network byte order.
#[derive(Clone, Copy, Debug, PartialEq, Eq)]
pub enum IpAddress {
    V4([u8; 4]),
    V6([u8; 16]),
}

impl IpAddress {
    /// The bytes of the address, most significant first.
    pub open spec fn octets(self) -> Seq<u8> {
        match self {
            IpAddress::V4(bytes) => bytes@,
            IpAddress::V6(bytes) => bytes@,
        }
    }

    /// The address family that the generic header names.
    pub open spec fn family(self) -> u8 {
        match self {
            IpAddress::V4(_) => AF_INET,
            IpAddress::V6(_) => AF_INET6,
        }
    }

    /// The type of the attribute that carries the address, without its flag.
    pub open spec fn attribute_kind(self) -> u16 {
        match self {
            IpAddress::V4(_) => IPSET_ATTR_IPADDR_IPV4,
            IpAddress::V6(_) => IPSET_ATTR_IPADDR_IPV6,
        }
    }

    /// Whether the address is an IPv4 address.
    pub fn is_ipv4(&self) -> (v4: bool)
        ensures
            v4 == (*self is V4),
    {
        match self {
            IpAddress::V4(_) => true,
            IpAddress::V6(_) => false,
        }
    }
}

/// A 16-bit value in network byte order.
pub open spec fn be16(value: u16) -> Seq<u8> {
    seq![(value / 0x100) as u8, (value % 0x100) as u8]
}

/// A 32-bit value in network byte order.
pub open spec fn be32(value: u32) -> Seq<u8> {
    seq![
        (value / 0x100_0000) as u8,
        (value / 0x1_0000 % 0x100) as u8,
        (value / 0x100 % 0x100) as u8,
        (value % 0x100) as u8,
    ]
}

/// `count` zero bytes.
pub open spec fn zeros(count: nat) -> Seq<u8> {
    Seq::new(count, |i: int| 0u8)
}

/// How many bytes of padding follow `len` bytes to reach a multiple of four.
pub open spec fn padding(len: nat) -> nat {
    if len % 4 == 0 {
        0
    } else {
        (4 - len % 4) as nat
    }
}

/// One attribute: its length (header and payload, without padding), its
/// type, the payload, and the padding.
pub open spec fn attribute(kind: u16, payload: Seq<u8>) -> Seq<u8> {
    be16((NLA_HDRLEN + payload.len()) as u16) + be16(kind) + payload + zeros(
        padding(payload.len()),
    )
}

/// The type field of an "add element" message: the command in the low byte,
/// the subsystem in the high byte.
pub open spec fn add_message_type() -> u16 {
    IPSET_CMD_ADD | (NFNL_SUBSYS_IPSET << 8)
}

/// The netlink header of a request of `total` bytes; sequence number and
/// port id are left zero.
pub open spec fn netlink_header(total: u32) -> Seq<u8> {
    be32(total) + be16(add_message_type()) + be16(NLM_F_REQUEST) + be32(0) + be32(0)
}

/// The netfilter generic header: family, version, and a zero resource id.
pub open spec fn generic_header(family: u8) -> Seq<u8> {
    seq![family, NFNETLINK_V0] + be16(0)
}

/// The attribute that carries the address, flagged as network byte order.
pub open spec fn address_attribute(address: IpAddress) -> Seq<u8> {
    attribute(address.attribute_kind() | NLA_F_NET_BYTEORDER, address.octets())
}

/// The data container around the address container around the address.
pub open spec fn data_attribute(address: IpAddress) -> Seq<u8> {
    attribute(
        IPSET_ATTR_DATA | NLA_F_NESTED,
        attribute(IPSET_ATTR_IP | NLA_F_NESTED, address_attribute(address)),
    )
}

/// Everything after the two headers.
pub open spec fn request_attributes(address: IpAddress, name: Seq<u8>) -> Seq<u8> {
    attribute(IPSET_ATTR_PROTOCOL, seq![IPSET_PROTOCOL]) + attribute(
        IPSET_ATTR_SETNAME,
        name.push(0u8),
    ) + data_attribute(address)
}

/// The whole message that asks the kernel to add `address` to the set whose
/// name has the bytes `name`.
pub open spec fn add_request(address: IpAddress, name: Seq<u8>) -> Seq<u8> {
    let attributes = request_attributes(address, name);
    netlink_header((NLMSG_HDRLEN + NFGENMSG_LEN + attributes.len()) as u32) + generic_header(
        address.family(),
    ) + attributes
}

/// A set name that the kernel can take: with its terminating NUL it fits in
/// `IPSET_MAXNAMELEN` bytes, and it holds no NUL itself.
pub open spec fn valid_setname_bytes(name: Seq<u8>) -> bool {
    &&& name.len() + 1 <= IPSET_MAXNAMELEN
    &&& forall|i: int| 0 <= i < name.len() ==> name[i] != 0u8
}

/// [`valid_setname_bytes`] of the name's UTF-8 encoding.
pub open spec fn valid_setname(name: Seq<char>) -> bool {
    valid_setname_bytes(vstd::utf8::encode_utf8(name))
}

/// What is wrong with a set name that the kernel cannot take.
#[derive(Clone, Copy, Debug, PartialEq, Eq)]
pub enum SetnameFault {
    /// With its terminating NUL the name does not fit in `IPSET_MAXNAMELEN`
    /// bytes.
    TooLong,
    /// The name holds a NUL.
    EmbeddedNul,
}

/// What is wrong with `name`, if anything: length is judged first.
pub open spec fn setname_fault(name: Seq<char>) -> Option<SetnameFault> {
    if vstd::utf8::encode_utf8(name).len() + 1 > IPSET_MAXNAMELEN {
        Some(SetnameFault::TooLong)
    } else if !valid_setname(name) {
        Some(SetnameFault::EmbeddedNul)
    } else {
        None
    }
}

/// What the encoder says of a set name that is too long.
pub open spec fn too_long_text_encoder(name: Seq<char>) -> Seq<char> {
    "'"@ + name + "' >= 32"@
}

/// What the encoder says of a set name that holds a NUL.
pub open spec fn embedded_nul_text_encoder(name: Seq<char>) -> Seq<char> {
    "'"@ + name + "' contains a NUL byte"@
}

/// What the encoder says of `name`, if it refuses it.
pub open spec fn setname_error_encoder(name: Seq<char>) -> Option<Seq<char>> {
    match setname_fault(name) {
        Some(SetnameFault::TooLong) => Some(too_long_text_encoder(name)),
        Some(SetnameFault::EmbeddedNul) => Some(embedded_nul_text_encoder(name)),
        None => None,
    }
}

/// The error whose message is `prefix`, `name` and `suffix` in a row.
pub(crate) fn describe(prefix: &str, name: &str, suffix: &str) -> (error: Error)
    ensures
        error@ matches ErrorKind::Msg(text) && text@ == prefix@ + name@ + suffix@,
{
    let mut text = String::from_str(prefix);
    text.append(name);
    text.append(suffix);
    new_error(ErrorKind::Msg(text))
}

/// Whether one byte of `bytes` is zero.
fn holds_nul(bytes: &[u8]) -> (found: bool)
    ensures
        found == exists|i: int| 0 <= i < bytes@.len() && bytes@[i] == 0u8,
{
    let mut i: usize = 0;
    while i < bytes.len()
        invariant
            i <= bytes@.len(),
            forall|j: int| 0 <= j < i ==> bytes@[j] != 0u8,
        decreases bytes@.len() - i,
    {
        if bytes[i] == 0 {
            return true;
        }
        i += 1;
    }
    false
}

/// Accepts a set name that the kernel can take and says what is wrong with
/// any other.
pub fn check_setname(setname: &str) -> (checked: Result<(), SetnameFault>)
    ensures
        match checked {
            Ok(_) => valid_setname(setname@) && setname_fault(setname@) is None,
            Err(fault) => !valid_setname(setname@) && setname_fault(setname@) == Some(fault),
        },
{
    let bytes = setname.as_bytes();
    if bytes.len() >= IPSET_MAXNAMELEN {
        Err(SetnameFault::TooLong)
    } else if holds_nul(bytes) {
        Err(SetnameFault::EmbeddedNul)
    } else {
        Ok(())
    }
}

fn put_u8(buffer: &mut Vec<u8>, value: u8)
    ensures
        final(buffer)@ == old(buffer)@.push(value),
{
    buffer.push(value);
}

fn put_u16(buffer: &mut Vec<u8>, value: u16)
    ensures
        final(buffer)@ == old(buffer)@ + be16(value),
{
    buffer.push((value / 0x100) as u8);
    buffer.push((value % 0x100) as u8);
}

fn put_u32(buffer: &mut Vec<u8>, value: u32)
    ensures
        final(buffer)@ == old(buffer)@ + be32(value),
{
    buffer.push((value / 0x100_0000) as u8);
    buffer.push((value / 0x1_0000 % 0x100) as u8);
    buffer.push((value / 0x100 % 0x100) as u8);
    buffer.push((value % 0x100) as u8);
}

fn put_bytes(buffer: &mut Vec<u8>, bytes: &[u8])
    ensures
        final(buffer)@ == old(buffer)@ + bytes@,
{
    let mut i: usize = 0;
    while i < bytes.len()
        invariant
            i <= bytes@.len(),
            buffer@ == old(buffer)@ + bytes@.subrange(0, i as int),
        decreases bytes@.len() - i,
    {
        buffer.push(bytes[i]);
        i += 1;
        assert(bytes@.subrange(0, i as int) == bytes@.subrange(0, i - 1).push(bytes@[i - 1]));
    }
    assert(bytes@.subrange(0, i as int) == bytes@);
}

fn put_padding(buffer: &mut Vec<u8>, len: usize)
    ensures
        final(buffer)@ == old(buffer)@ + zeros(padding(len as nat)),
{
    let rest = len % NLA_ALIGNTO;
    let count = if rest == 0 {
        0
    } else {
        NLA_ALIGNTO - rest
    };
    let mut i: usize = 0;
    while i < count
        invariant
            i <= count,
            count == padding(len as nat),
            buffer@ == old(buffer)@ + zeros(i as nat),
        decreases count - i,
    {
        buffer.push(0);
        i += 1;
    }
}

/// Appends one attribute header for a payload of `len` bytes.
fn put_attribute_header(buffer: &mut Vec<u8>, kind: u16, len: usize)
    requires
        NLA_HDRLEN + len <= u16::MAX,
    ensures
        final(buffer)@ == old(buffer)@ + be16((NLA_HDRLEN + len) as u16) + be16(kind),
{
    put_u16(buffer, (NLA_HDRLEN + len) as u16);
    put_u16(buffer, kind);
}

/// Appends one attribute with its padding.
fn put_attribute(buffer: &mut Vec<u8>, kind: u16, payload: &[u8])
    requires
        NLA_HDRLEN + payload@.len() <= u16::MAX,
    ensures
        final(buffer)@ == old(buffer)@ + attribute(kind, payload@),
{
    put_attribute_header(buffer, kind, payload.len());
    put_bytes(buffer, payload);
    put_padding(buffer, payload.len());
}

/// The length of an attribute is its header, its payload and its padding,
/// and a multiple of four.
pub proof fn lemma_attribute_len(kind: u16, payload: Seq<u8>)
    ensures
        attribute(kind, payload).len() == NLA_HDRLEN + payload.len() + padding(payload.len()),
        attribute(kind, payload).len() % 4 == 0,
        padding(payload.len()) < 4,
{
    let len = payload.len();
    lemma_padding(len);
    assert(be16((NLA_HDRLEN + len) as u16).len() == 2);
    assert(be16(kind).len() == 2);
    assert(zeros(padding(len)).len() == padding(len));
    assert(attribute(kind, payload).len() == 4 + len + padding(len));
}

/// Padding is less than four bytes and fills up to a multiple of four.
pub proof fn lemma_padding(len: nat)
    ensures
        padding(len) < 4,
        (len + padding(len)) % 4 == 0,
        (4 + len + padding(len)) % 4 == 0,
{
    let rest = len % 4;
    if rest == 0 {
        assert((len + 0) % 4 == 0);
    } else if rest == 1 {
        assert((len + 3) % 4 == 0);
    } else if rest == 2 {
        assert((len + 2) % 4 == 0);
    } else {
        assert(rest == 3);
        assert((len + 1) % 4 == 0);
    }
}

/// The message type is the command `9` under the subsystem `6`.
pub proof fn lemma_add_message_type()
    ensures
        add_message_type() == 0x0609,
        be16(add_message_type()) == seq![6u8, 9u8],
{
    assert(9u16 | (6u16 << 8) == 0x0609u16) by (bit_vector);
}

/// How long a request is, and how it begins.
///
/// The length is a multiple of four and is what the first four bytes say, in
/// network byte order. Then come the message type, the request flag, a zero
/// sequence number and port id, the address family, the version and a zero
/// resource id; the attributes start at byte 20.
pub proof fn lemma_add_request_layout(address: IpAddress, name: Seq<u8>)
    requires
        valid_setname_bytes(name),
    ensures
        add_request(address, name).len() == 44 + name.len() + 1 + padding(name.len() + 1)
            + address.octets().len(),
        add_request(address, name).len() % 4 == 0,
        add_request(address, name).len() <= 92,
        add_request(address, name).subrange(0, 4) == be32(add_request(address, name).len() as u32),
        add_request(address, name).subrange(4, 8) == seq![6u8, 9u8, 0u8, 1u8],
        add_request(address, name).subrange(8, 16) == zeros(8),
        add_request(address, name).subrange(16, 20) == seq![address.family(), 0u8, 0u8, 0u8],
        add_request(address, name).subrange(20, add_request(address, name).len() as int)
            == request_attributes(address, name),
{
    lemma_add_message_type();
    lemma_request_attributes_len(address, name);
    let attributes = request_attributes(address, name);
    let message = add_request(address, name);
    assert(netlink_header((20 + attributes.len()) as u32).len() == 16);
    assert(generic_header(address.family()).len() == 4);
    assert(message.len() == 20 + attributes.len());
    assert(message.subrange(0, 4) == be32(message.len() as u32));
    assert(message.subrange(4, 8) == seq![6u8, 9u8, 0u8, 1u8]);
    assert(message.subrange(8, 16) == zeros(8));
    assert(message.subrange(16, 20) == seq![address.family(), 0u8, 0u8, 0u8]);
    assert(message.subrange(20, message.len() as int) == attributes);
}

/// How long the attributes of a request are.
pub proof fn lemma_request_attributes_len(address: IpAddress, name: Seq<u8>)
    ensures
        request_attributes(address, name).len() == 24 + name.len() + 1 + padding(name.len() + 1)
            + address.octets().len(),
        request_attributes(address, name).len() % 4 == 0,
        address.octets().len() == 4 || address.octets().len() == 16,
{
    lemma_attribute_len(IPSET_ATTR_PROTOCOL, seq![IPSET_PROTOCOL]);
    lemma_attribute_len(IPSET_ATTR_SETNAME, name.push(0u8));
    lemma_attribute_len(address.attribute_kind() | NLA_F_NET_BYTEORDER, address.octets());
    lemma_attribute_len(IPSET_ATTR_IP | NLA_F_NESTED, address_attribute(address));
    lemma_attribute_len(
        IPSET_ATTR_DATA | NLA_F_NESTED,
        attribute(IPSET_ATTR_IP | NLA_F_NESTED, address_attribute(address)),
    );
}

/// The bytes of the data container for `address`.
fn encode_data_attribute(address: &IpAddress) -> (encoded: Vec<u8>)
    ensures
        encoded@ == data_attribute(*address),
        encoded@.len() == 12 + address.octets().len(),
{
    let mut innermost: Vec<u8> = Vec::new();
    match address {
        IpAddress::V4(bytes) => {
            put_attribute(
                &mut innermost,
                IPSET_ATTR_IPADDR_IPV4 | NLA_F_NET_BYTEORDER,
                bytes.as_slice(),
            );
        },
        IpAddress::V6(bytes) => {
            put_attribute(
                &mut innermost,
                IPSET_ATTR_IPADDR_IPV6 | NLA_F_NET_BYTEORDER,
                bytes.as_slice(),
            );
        },
    }
    proof {
        lemma_attribute_len(
            address.attribute_kind() | NLA_F_NET_BYTEORDER,
            address.octets(),
        );
    }
    let mut inner: Vec<u8> = Vec::new();
    put_attribute(&mut inner, IPSET_ATTR_IP | NLA_F_NESTED, innermost.as_slice());
    proof {
        lemma_attribute_len(IPSET_ATTR_IP | NLA_F_NESTED, innermost@);
    }
    let mut outer: Vec<u8> = Vec::new();
    put_attribute(&mut outer, IPSET_ATTR_DATA | NLA_F_NESTED, inner.as_slice());
    proof {
        lemma_attribute_len(IPSET_ATTR_DATA | NLA_F_NESTED, inner@);
    }
    outer
}

/// The bytes of everything after the two headers.
fn encode_attributes(address: &IpAddress, name: &[u8]) -> (encoded: Vec<u8>)
    requires
        name@.len() + 1 <= IPSET_MAXNAMELEN,
    ensures
        encoded@ == request_attributes(*address, name@),
        encoded@.len() == 24 + name@.len() + padding(name@.len() + 1) + 1
            + address.octets().len(),
{
    let mut encoded: Vec<u8> = Vec::new();
    let mut version: Vec<u8> = Vec::new();
    version.push(IPSET_PROTOCOL);
    put_attribute(&mut encoded, IPSET_ATTR_PROTOCOL, version.as_slice());
    let mut terminated: Vec<u8> = Vec::new();
    put_bytes(&mut terminated, name);
    terminated.push(0);
    put_attribute(&mut encoded, IPSET_ATTR_SETNAME, terminated.as_slice());
    let data = encode_data_attribute(address);
    put_bytes(&mut encoded, data.as_slice());
    proof {
        lemma_attribute_len(IPSET_ATTR_PROTOCOL, version@);
        lemma_attribute_len(IPSET_ATTR_SETNAME, terminated@);
    }
    encoded
}

/// Encodes the request that adds `ip_addr` to the set `setname`.
///
/// The result is the message to hand to a netlink socket of the netfilter
/// family; sending it is the caller's part. A set name that the kernel
/// cannot take is refused here as it is when the configuration is built.
pub fn add_to_ipset(ip_addr: IpAddress, setname: &str) -> (message: Result<Vec<u8>, Error>)
    ensures
        match message {
            Ok(bytes) => valid_setname(setname@) && bytes@ == add_request(
                ip_addr,
                setname.spec_bytes(),
            ),
            Err(error) => !valid_setname(setname@) && (error@ matches ErrorKind::Msg(text)
                && Some(text@) == setname_error_encoder(setname@)),
        },
{
    match check_setname(setname) {
        Err(SetnameFault::TooLong) => Err(describe("'", setname, "' >= 32")),
        Err(SetnameFault::EmbeddedNul) => Err(describe("'", setname, "' contains a NUL byte")),
        Ok(()) => {
            let name = setname.as_bytes();
            let attributes = encode_attributes(&ip_addr, name);
            let total = NLMSG_HDRLEN + NFGENMSG_LEN + attributes.len();
            let mut bytes: Vec<u8> = Vec::new();
            put_u32(&mut bytes, total as u32);
            put_u16(&mut bytes, IPSET_CMD_ADD | (NFNL_SUBSYS_IPSET << 8));
            put_u16(&mut bytes, NLM_F_REQUEST);
            put_u32(&mut bytes, 0);
            put_u32(&mut bytes, 0);
            put_u8(&mut bytes, if ip_addr.is_ipv4() { AF_INET } else { AF_INET6 });
            put_u8(&mut bytes, NFNETLINK_V0);
            put_u16(&mut bytes, 0);
            put_bytes(&mut bytes, attributes.as_slice());
            Ok(bytes)
        },
    }
}

} // verus!
