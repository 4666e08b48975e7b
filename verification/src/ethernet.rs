//! The Ethernet II header: destination, source, EtherType, then the payload.

use vstd::prelude::*;
use crate::packet::{Packet, be_u16_at, be16, lemma_be16, lemma_be16_of_bytes, read_be_u16, push_be_u16, push_slice};

verus! {

/// An Ethernet frame whose payload is a packet of type `P`.
pub struct Ethernet<P> {
    pub src: [u8; 6],
    pub dst: [u8; 6],
    pub ether_type: u16,
    pub payload: P,
}

/// What an Ethernet frame holds, with the payload taken by its own view.
pub struct EthernetView<V> {
    pub src: Seq<u8>,
    pub dst: Seq<u8>,
    pub ether_type: u16,
    pub payload: V,
}

impl<P: View> View for Ethernet<P> {
    type V = EthernetView<P::V>;

    open spec fn view(&self) -> EthernetView<P::V> {
        EthernetView { src: self.src@, dst: self.dst@, ether_type: self.ether_type, payload: self.payload@ }
    }
}

/// The length of the Ethernet header.
pub const ETHERNET_HEADER_LEN: usize = 14;

impl<'a, P: Packet<'a>> Packet<'a> for Ethernet<P> {
    open spec fn spec_parse(b: Seq<u8>) -> Option<EthernetView<P::V>> {
        if b.len() < 14 {
            None
        } else {
            match P::spec_parse(b.skip(14)) {
                Some(pv) => Some(
                    EthernetView {
                        dst: b.subrange(0, 6),
                        src: b.subrange(6, 12),
                        ether_type: be_u16_at(b, 12),
                        payload: pv,
                    },
                ),
                None => None,
            }
        }
    }

    open spec fn spec_header(v: EthernetView<P::V>) -> Seq<u8> {
        v.dst + v.src + be16(v.ether_type)
    }

    open spec fn spec_serialize(v: EthernetView<P::V>) -> Seq<u8> {
        Self::spec_header(v) + P::spec_serialize(v.payload)
    }

    open spec fn spec_wf(v: EthernetView<P::V>) -> bool {
        &&& v.dst.len() == 6
        &&& v.src.len() == 6
        &&& P::spec_wf(v.payload)
    }

    proof fn lemma_parse_serialize(b: Seq<u8>) {
        if let Some(v) = Self::spec_parse(b) {
            P::lemma_parse_serialize(b.skip(14));
            lemma_be16_of_bytes(b, 12);
            let h = Self::spec_header(v);
            assert(h =~= b.subrange(0, 14));
            let ps = P::spec_serialize(v.payload);
            assert(ps.is_prefix_of(b.skip(14)));
            assert forall|i: int| 0 <= i < (h + ps).len() implies (h + ps)[i] == b[i] by {
                if i >= 14 {
                    assert(ps[i - 14] == b.skip(14)[i - 14]);
                }
            }
            assert((h + ps).is_prefix_of(b));
        }
    }

    proof fn lemma_serialize_parse(v: EthernetView<P::V>) {
        let s = Self::spec_serialize(v);
        let ps = P::spec_serialize(v.payload);
        P::lemma_serialize_parse(v.payload);
        lemma_be16(v.ether_type);
        assert(s.skip(14) =~= ps);
        assert(s.subrange(0, 6) =~= v.dst);
        assert(s.subrange(6, 12) =~= v.src);
        assert(s[12] == be16(v.ether_type)[0]);
        assert(s[13] == be16(v.ether_type)[1]);
    }

    open spec fn spec_self_hint(v: EthernetView<P::V>) -> int {
        14
    }

    open spec fn spec_hint(v: EthernetView<P::V>) -> int {
        14 + P::spec_hint(v.payload)
    }

    open spec fn spec_hint_ok(v: EthernetView<P::V>) -> bool {
        P::spec_hint_ok(v.payload) && 14 + P::spec_hint(v.payload) <= usize::MAX
    }

    /// A frame always hands on its payload.
    open spec fn spec_has_payload(v: EthernetView<P::V>) -> bool {
        true
    }

    /// Never applies: a frame always hands on its payload.
    proof fn lemma_without_payload(v: EthernetView<P::V>) {
    }

    fn self_bytes_hint(&self) -> (r: usize) {
        14
    }

    fn from_bytes(input: &'a [u8]) -> (r: Option<Ethernet<P>>) {
        if input.len() < 14 {
            return None;
        }
        let dst = [input[0], input[1], input[2], input[3], input[4], input[5]];
        let src = [input[6], input[7], input[8], input[9], input[10], input[11]];
        let ether_type = read_be_u16(input, 12);
        let rest = &input[14..input.len()];
        proof {
            assert(rest@ =~= input@.skip(14));
        }
        match P::from_bytes(rest) {
            Some(payload) => {
                let r = Ethernet { src, dst, ether_type, payload };
                proof {
                    assert(dst@ =~= input@.subrange(0, 6));
                    assert(src@ =~= input@.subrange(6, 12));
                }
                Some(r)
            },
            None => None,
        }
    }

    fn write_self_to_buf(&self, buf: &mut Vec<u8>) {
        push_slice(buf, &self.dst);
        push_slice(buf, &self.src);
        push_be_u16(buf, self.ether_type);
        proof {
            assert(buf@ =~= old(buf)@ + Self::spec_header(self@));
        }
    }

    /// Never called: a frame always hands on its payload, and the walk over
    /// the layers from a frame does not end, so no call returns.
    fn bytes_hint(&self) -> (r: usize) {
        14 + self.payload.bytes_hint()
    }

    fn write_to_buf(&self, buf: &mut Vec<u8>) {
        self.write_self_to_buf(buf);
        self.payload.write_to_buf(buf);
        proof {
            assert(buf@ =~= old(buf)@ + Self::spec_serialize(self@));
        }
    }
}

} // verus!
