//! ARP messages, read in place from a buffer or held by value.

use vstd::prelude::*;
use crate::packet::{Packet, be_u16_at, be16, lemma_be16, lemma_be16_of_bytes, read_be_u16, push_be_u16, push_slice};
use crate::value::{MAC, Ipv4Addr, be_bytes};
use crate::buffer::{buf_view, buf_from_vec};

verus! {

/// The EtherType of ARP.
pub const ETHERNET_TYPE_ARP: u16 = 0x806;

/// An ARP operation.
#[derive(Clone, Copy, Debug, PartialEq, Eq, Structural)]
pub enum ArpOp {
    Request,
    Reply,
    Unknown(u16),
}

/// The operation that an opcode names: 1 is a request, 2 a reply.
pub open spec fn arp_op_of(op: u16) -> ArpOp {
    if op == 1 {
        ArpOp::Request
    } else if op == 2 {
        ArpOp::Reply
    } else {
        ArpOp::Unknown(op)
    }
}

/// The opcode that an operation is written as.
pub open spec fn arp_op_code(op: ArpOp) -> u16 {
    match op {
        ArpOp::Request => 1,
        ArpOp::Reply => 2,
        ArpOp::Unknown(o) => o,
    }
}

impl From<u16> for ArpOp {
    fn from(op: u16) -> (r: ArpOp) {
        if op == 1 {
            ArpOp::Request
        } else if op == 2 {
            ArpOp::Reply
        } else {
            ArpOp::Unknown(op)
        }
    }
}

impl vstd::std_specs::convert::FromSpecImpl<u16> for ArpOp {
    open spec fn obeys_from_spec() -> bool {
        true
    }

    open spec fn from_spec(op: u16) -> ArpOp {
        arp_op_of(op)
    }
}

impl ArpOp {
    /// The opcode this operation is written as.
    pub fn code(self) -> (r: u16)
        ensures
            r == arp_op_code(self),
    {
        match self {
            ArpOp::Unknown(o) => o,
            ArpOp::Reply => 2,
            ArpOp::Request => 1,
        }
    }
}

/// Reading an opcode and writing it back gives the same opcode.
pub proof fn lemma_arp_op_code_roundtrip(op: u16)
    ensures
        arp_op_code(arp_op_of(op)) == op,
{
}

/// Writing an operation and reading it back gives the same operation, except
/// for `Unknown(1)` and `Unknown(2)`, which are read back as a request and a reply.
pub proof fn lemma_arp_op_roundtrip(op: ArpOp)
    requires
        op != ArpOp::Unknown(1),
        op != ArpOp::Unknown(2),
    ensures
        arp_op_of(arp_op_code(op)) == op,
{
}

/// An ARP message whose addresses are slices of the buffer it was read from.
#[derive(Debug)]
pub struct ArpRef<'a> {
    pub hw_type: u16,
    pub proto_type: u16,
    pub hw_addr_len: u8,
    pub proto_addr_len: u8,
    pub opcode: ArpOp,
    pub sender_mac: &'a [u8],
    pub sender_ip: &'a [u8],
    pub target_mac: &'a [u8],
    pub target_ip: &'a [u8],
}

/// What an ARP message holds.
pub struct ArpView {
    pub hw_type: u16,
    pub proto_type: u16,
    pub hw_addr_len: u8,
    pub proto_addr_len: u8,
    pub opcode: ArpOp,
    pub sender_mac: Seq<u8>,
    pub sender_ip: Seq<u8>,
    pub target_mac: Seq<u8>,
    pub target_ip: Seq<u8>,
}

impl<'a> View for ArpRef<'a> {
    type V = ArpView;

    open spec fn view(&self) -> ArpView {
        ArpView {
            hw_type: self.hw_type,
            proto_type: self.proto_type,
            hw_addr_len: self.hw_addr_len,
            proto_addr_len: self.proto_addr_len,
            opcode: self.opcode,
            sender_mac: self.sender_mac@,
            sender_ip: self.sender_ip@,
            target_mac: self.target_mac@,
            target_ip: self.target_ip@,
        }
    }
}

/// The length of an ARP message with the given address lengths.
pub open spec fn arp_len(hw: u8, proto: u8) -> int {
    8 + 2 * (hw as int) + 2 * (proto as int)
}

impl<'a> Packet<'a> for ArpRef<'a> {
    open spec fn spec_parse(b: Seq<u8>) -> Option<ArpView> {
        if b.len() < 8 || b.len() < arp_len(b[4], b[5]) {
            None
        } else {
            let hw = b[4] as int;
            let pr = b[5] as int;
            Some(
                ArpView {
                    hw_type: be_u16_at(b, 0),
                    proto_type: be_u16_at(b, 2),
                    hw_addr_len: b[4],
                    proto_addr_len: b[5],
                    opcode: arp_op_of(be_u16_at(b, 6)),
                    sender_mac: b.subrange(8, 8 + hw),
                    sender_ip: b.subrange(8 + hw, 8 + hw + pr),
                    target_mac: b.subrange(8 + hw + pr, 8 + 2 * hw + pr),
                    target_ip: b.subrange(8 + 2 * hw + pr, 8 + 2 * hw + 2 * pr),
                },
            )
        }
    }

    open spec fn spec_header(v: ArpView) -> Seq<u8> {
        be16(v.hw_type) + be16(v.proto_type) + seq![v.hw_addr_len, v.proto_addr_len] + be16(
            arp_op_code(v.opcode),
        ) + v.sender_mac + v.sender_ip + v.target_mac + v.target_ip
    }

    open spec fn spec_serialize(v: ArpView) -> Seq<u8> {
        Self::spec_header(v)
    }

    open spec fn spec_wf(v: ArpView) -> bool {
        &&& v.sender_mac.len() == v.hw_addr_len
        &&& v.target_mac.len() == v.hw_addr_len
        &&& v.sender_ip.len() == v.proto_addr_len
        &&& v.target_ip.len() == v.proto_addr_len
        &&& v.opcode != ArpOp::Unknown(1)
        &&& v.opcode != ArpOp::Unknown(2)
    }

    proof fn lemma_parse_serialize(b: Seq<u8>) {
        if let Some(v) = Self::spec_parse(b) {
            lemma_be16_of_bytes(b, 0);
            lemma_be16_of_bytes(b, 2);
            lemma_be16_of_bytes(b, 6);
            lemma_arp_op_code_roundtrip(be_u16_at(b, 6));
            let n = arp_len(b[4], b[5]);
            assert(Self::spec_serialize(v) =~= b.subrange(0, n));
            assert(Self::spec_serialize(v).is_prefix_of(b));
        }
    }

    proof fn lemma_serialize_parse(v: ArpView) {
        let s = Self::spec_serialize(v);
        lemma_be16(v.hw_type);
        lemma_be16(v.proto_type);
        lemma_be16(arp_op_code(v.opcode));
        lemma_arp_op_roundtrip(v.opcode);
        assert(s[4] == v.hw_addr_len);
        assert(s[5] == v.proto_addr_len);
        let hw = v.hw_addr_len as int;
        let pr = v.proto_addr_len as int;
        assert(s.len() == arp_len(v.hw_addr_len, v.proto_addr_len));
        assert(be_u16_at(s, 0) == v.hw_type);
        assert(be_u16_at(s, 2) == v.proto_type);
        assert(be_u16_at(s, 6) == arp_op_code(v.opcode));
        assert(s.subrange(8, 8 + hw) =~= v.sender_mac);
        assert(s.subrange(8 + hw, 8 + hw + pr) =~= v.sender_ip);
        assert(s.subrange(8 + hw + pr, 8 + 2 * hw + pr) =~= v.target_mac);
        assert(s.subrange(8 + 2 * hw + pr, 8 + 2 * hw + 2 * pr) =~= v.target_ip);
    }

    /// `6 + 2 * hw_addr_len + 2 * proto_addr_len`, computed on bytes.
    open spec fn spec_self_hint(v: ArpView) -> int {
        6 + 2 * (v.hw_addr_len as int) + 2 * (v.proto_addr_len as int)
    }

    open spec fn spec_hint(v: ArpView) -> int {
        Self::spec_self_hint(v)
    }

    /// The hint is computed in `u8` arithmetic, so it must stay below 256.
    open spec fn spec_hint_ok(v: ArpView) -> bool {
        Self::spec_self_hint(v) < 256
    }

    open spec fn spec_has_payload(v: ArpView) -> bool {
        false
    }

    proof fn lemma_without_payload(v: ArpView) {
        assert(Self::spec_hint(v) == Self::spec_self_hint(v));
    }

    fn self_bytes_hint(&self) -> (r: usize) {
        (6 + 2 * self.hw_addr_len + 2 * self.proto_addr_len) as usize
    }

    fn from_bytes(b: &'a [u8]) -> (r: Option<ArpRef<'a>>) {
        if b.len() < 8 {
            return None;
        }
        let hw_type = read_be_u16(b, 0);
        let proto_type = read_be_u16(b, 2);
        let hw_addr_len = b[4];
        let proto_addr_len = b[5];
        let opcode = ArpOp::from(read_be_u16(b, 6));
        let hw = hw_addr_len as usize;
        let pr = proto_addr_len as usize;
        if b.len() < 8 + 2 * hw + 2 * pr {
            return None;
        }
        let sender_mac = &b[8..8 + hw];
        let sender_ip = &b[8 + hw..8 + hw + pr];
        let target_mac = &b[8 + hw + pr..8 + 2 * hw + pr];
        let target_ip = &b[8 + 2 * hw + pr..8 + 2 * hw + 2 * pr];
        Some(
            ArpRef {
                hw_type,
                proto_type,
                hw_addr_len,
                proto_addr_len,
                opcode,
                sender_mac,
                sender_ip,
                target_mac,
                target_ip,
            },
        )
    }

    fn write_self_to_buf(&self, buf: &mut Vec<u8>) {
        push_be_u16(buf, self.hw_type);
        push_be_u16(buf, self.proto_type);
        buf.push(self.hw_addr_len);
        buf.push(self.proto_addr_len);
        push_be_u16(buf, self.opcode.code());
        push_slice(buf, self.sender_mac);
        push_slice(buf, self.sender_ip);
        push_slice(buf, self.target_mac);
        push_slice(buf, self.target_ip);
        proof {
            assert(buf@ =~= old(buf)@ + Self::spec_header(self@));
        }
    }

    fn bytes_hint(&self) -> (r: usize) {
        self.self_bytes_hint()
    }

    fn write_to_buf(&self, buf: &mut Vec<u8>) {
        self.write_self_to_buf(buf);
    }
}

impl<'a> ArpRef<'a> {
    /// The sender's hardware address, which must be six bytes long.
    pub fn get_sender_mac(&self) -> (r: MAC)
        requires
            self.sender_mac@.len() == 6,
        ensures
            r.0@ == self.sender_mac@,
    {
        MAC::from_slice(self.sender_mac)
    }

    /// The target's hardware address, which must be six bytes long.
    pub fn get_target_mac(&self) -> (r: MAC)
        requires
            self.target_mac@.len() == 6,
        ensures
            r.0@ == self.target_mac@,
    {
        MAC::from_slice(self.target_mac)
    }

    /// The sender's IPv4 address, where protocol addresses are four bytes long.
    pub fn get_sender_ipv4(&self) -> (r: Option<Ipv4Addr>)
        requires
            self.proto_addr_len == 4 ==> self.sender_ip@.len() == 4,
        ensures
            r is Some <==> self.proto_addr_len == 4,
            r matches Some(ip) ==> be_bytes(ip.0 as nat, 4) == self.sender_ip@,
    {
        if self.proto_addr_len != 4 {
            return None;
        }
        let s = [self.sender_ip[0], self.sender_ip[1], self.sender_ip[2], self.sender_ip[3]];
        proof {
            assert(s@ =~= self.sender_ip@);
        }
        Some(Ipv4Addr::from_octets(s))
    }

    /// The target's IPv4 address, where protocol addresses are four bytes long.
    pub fn get_target_ipv4(&self) -> (r: Option<Ipv4Addr>)
        requires
            self.proto_addr_len == 4 ==> self.target_ip@.len() == 4,
        ensures
            r is Some <==> self.proto_addr_len == 4,
            r matches Some(ip) ==> be_bytes(ip.0 as nat, 4) == self.target_ip@,
    {
        if self.proto_addr_len != 4 {
            return None;
        }
        let s = [self.target_ip[0], self.target_ip[1], self.target_ip[2], self.target_ip[3]];
        proof {
            assert(s@ =~= self.target_ip@);
        }
        Some(Ipv4Addr::from_octets(s))
    }
}

/// An ARP message for Ethernet and IPv4, held by value.
#[derive(Clone, Copy, Debug)]
pub struct Arp {
    pub hw_type: u16,
    pub proto_type: u16,
    pub hw_addr_len: u8,
    pub proto_addr_len: u8,
    pub opcode: ArpOp,
    pub sender_mac: MAC,
    pub sender_ip: Ipv4Addr,
    pub target_mac: MAC,
    pub target_ip: Ipv4Addr,
}

/// The 28 bytes of an ARP message with six-byte hardware and four-byte
/// protocol addresses.
pub open spec fn arp_bytes(a: Arp) -> Seq<u8> {
    be16(a.hw_type) + be16(a.proto_type) + seq![a.hw_addr_len, a.proto_addr_len] + be16(
        arp_op_code(a.opcode),
    ) + a.sender_mac.0@ + be_bytes(a.sender_ip.0 as nat, 4) + a.target_mac.0@ + be_bytes(
        a.target_ip.0 as nat,
        4,
    )
}

/// `a` is what the first 28 bytes of `b` say: each field read at its fixed offset.
pub open spec fn arp_read_from(b: Seq<u8>, a: Arp) -> bool {
    &&& a.hw_type == be_u16_at(b, 0)
    &&& a.proto_type == be_u16_at(b, 2)
    &&& a.hw_addr_len == b[4]
    &&& a.proto_addr_len == b[5]
    &&& a.opcode == arp_op_of(be_u16_at(b, 6))
    &&& a.sender_mac.0@ == b.subrange(8, 14)
    &&& be_bytes(a.sender_ip.0 as nat, 4) == b.subrange(14, 18)
    &&& a.target_mac.0@ == b.subrange(18, 24)
    &&& be_bytes(a.target_ip.0 as nat, 4) == b.subrange(24, 28)
}

impl Arp {
    /// The number of bytes that writing the message reserves: 26, two fewer
    /// than the 28 that `into_bytes` writes.
    pub fn bytes_hint(&self) -> (r: usize)
        ensures
            r == 26,
    {
        26
    }

    /// Reads the message at fixed offsets, whatever the length fields say.
    /// Fewer than 8 bytes give `None`; 8 to 27 bytes hold no complete
    /// message and are left out by `requires`.
    pub fn from_bytes(b: &[u8]) -> (r: Option<Arp>)
        requires
            b@.len() < 8 || b@.len() >= 28,
        ensures
            r is None <==> b@.len() < 8,
            r matches Some(a) ==> arp_read_from(b@, a),
    {
        if b.len() < 8 {
            return None;
        }
        let hw_type = read_be_u16(b, 0);
        let proto_type = read_be_u16(b, 2);
        let hw_addr_len = b[4];
        let proto_addr_len = b[5];
        let opcode = ArpOp::from(read_be_u16(b, 6));
        let sender_mac = MAC::from_slice(&b[8..14]);
        let sender_ip = Ipv4Addr::from_octets([b[14], b[15], b[16], b[17]]);
        let target_mac = MAC::from_slice(&b[18..24]);
        let target_ip = Ipv4Addr::from_octets([b[24], b[25], b[26], b[27]]);
        let a = Arp {
            hw_type,
            proto_type,
            hw_addr_len,
            proto_addr_len,
            opcode,
            sender_mac,
            sender_ip,
            target_mac,
            target_ip,
        };
        proof {
            assert(seq![b@[14], b@[15], b@[16], b@[17]] =~= b@.subrange(14, 18));
            assert(seq![b@[24], b@[25], b@[26], b@[27]] =~= b@.subrange(24, 28));
        }
        Some(a)
    }

    /// Writes the message: the fixed fields, then both address pairs.
    pub fn into_bytes(self) -> (r: bytes::Bytes)
        ensures
            buf_view(r) == arp_bytes(self),
    {
        let mut buffer: Vec<u8> = Vec::new();
        push_be_u16(&mut buffer, self.hw_type);
        push_be_u16(&mut buffer, self.proto_type);
        buffer.push(self.hw_addr_len);
        buffer.push(self.proto_addr_len);
        push_be_u16(&mut buffer, self.opcode.code());
        push_slice(&mut buffer, &self.sender_mac.0);
        let sip = self.sender_ip.octets();
        push_slice(&mut buffer, sip.as_slice());
        push_slice(&mut buffer, &self.target_mac.0);
        let tip = self.target_ip.octets();
        push_slice(&mut buffer, tip.as_slice());
        proof {
            assert(buffer@ =~= arp_bytes(self));
        }
        buf_from_vec(buffer)
    }
}

/// Writing a message whose opcode is not `Unknown(1)` or `Unknown(2)` and
/// reading it back gives the same message.
pub proof fn lemma_arp_write_read(a: Arp)
    requires
        a.opcode != ArpOp::Unknown(1),
        a.opcode != ArpOp::Unknown(2),
    ensures
        arp_bytes(a).len() == 28,
        arp_read_from(arp_bytes(a), a),
{
    let s = arp_bytes(a);
    lemma_be16(a.hw_type);
    lemma_be16(a.proto_type);
    lemma_be16(arp_op_code(a.opcode));
    lemma_arp_op_roundtrip(a.opcode);
    assert(s.subrange(8, 14) =~= a.sender_mac.0@);
    assert(s.subrange(14, 18) =~= be_bytes(a.sender_ip.0 as nat, 4));
    assert(s.subrange(18, 24) =~= a.target_mac.0@);
    assert(s.subrange(24, 28) =~= be_bytes(a.target_ip.0 as nat, 4));
    assert(s[4] == a.hw_addr_len);
    assert(s[5] == a.proto_addr_len);
    assert(be_u16_at(s, 0) == a.hw_type);
    assert(be_u16_at(s, 2) == a.proto_type);
    assert(be_u16_at(s, 6) == arp_op_code(a.opcode));
}

/// Reading a message and writing it back gives the 28 bytes that were read.
pub proof fn lemma_arp_read_write(b: Seq<u8>, a: Arp)
    requires
        b.len() >= 28,
        arp_read_from(b, a),
    ensures
        arp_bytes(a) == b.subrange(0, 28),
{
    lemma_be16_of_bytes(b, 0);
    lemma_be16_of_bytes(b, 2);
    lemma_be16_of_bytes(b, 6);
    lemma_arp_op_code_roundtrip(be_u16_at(b, 6));
    assert(arp_bytes(a) =~= b.subrange(0, 28));
}

} // verus!
