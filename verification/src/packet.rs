//! Packet formats: a parser from bytes and a writer back to bytes, for each
//! layer, and the laws that tie the two together.

use vstd::prelude::*;
use crate::buffer::{buf_view, buf_from_vec};
use crate::value::{be_bytes, lemma_pow256_values};

verus! {

/// The big-endian 16-bit value of the two bytes at `at`.
pub open spec fn be_u16_at(s: Seq<u8>, at: int) -> u16 {
    (s[at] as int * 256 + s[at + 1] as int) as u16
}

/// The two bytes of `x`, most significant first.
pub open spec fn be16(x: u16) -> Seq<u8> {
    be_bytes(x as nat, 2)
}

/// The two bytes of `x` are its high and low byte, and reading them back
/// gives `x`.
pub proof fn lemma_be16(x: u16)
    ensures
        be16(x) == seq![(x / 256) as u8, (x % 256) as u8],
        be_u16_at(be16(x), 0) == x,
{
    lemma_pow256_values();
    assert(x as nat / 1 == x as nat);
    assert(((x as nat / 256) % 256) == x as nat / 256);
    assert(be16(x) =~= seq![(x / 256) as u8, (x % 256) as u8]);
}

/// Writing back the value read at `at` gives the two bytes it was read from.
pub proof fn lemma_be16_of_bytes(s: Seq<u8>, at: int)
    requires
        0 <= at,
        at + 2 <= s.len(),
    ensures
        be16(be_u16_at(s, at)) == s.subrange(at, at + 2),
{
    let x = be_u16_at(s, at);
    lemma_be16(x);
    assert(x == s[at] as int * 256 + s[at + 1] as int);
    assert(be16(x) =~= s.subrange(at, at + 2));
}

/// Reads the big-endian 16-bit value at `at`.
pub fn read_be_u16(b: &[u8], at: usize) -> (r: u16)
    requires
        at + 2 <= b@.len(),
    ensures
        r == be_u16_at(b@, at as int),
{
    (b[at] as u16) * 256 + (b[at + 1] as u16)
}

/// Appends the two bytes of `x`, most significant first.
pub fn push_be_u16(buf: &mut Vec<u8>, x: u16)
    ensures
        final(buf)@ == old(buf)@ + be16(x),
{
    proof {
        lemma_be16(x);
    }
    buf.push((x / 256) as u8);
    buf.push((x % 256) as u8);
    proof {
        assert(buf@ =~= old(buf)@ + be16(x));
    }
}

/// Appends a copy of `s`.
pub fn push_slice(buf: &mut Vec<u8>, s: &[u8])
    ensures
        final(buf)@ == old(buf)@ + s@,
{
    buf.extend_from_slice(s);
    proof {
        assert forall|i: int| 0 <= i < buf@.len() implies buf@[i] == (old(buf)@ + s@)[i] by {
            if i >= old(buf)@.len() {
                assert(cloned::<u8>(s@[i - old(buf)@.len()], buf@[i]));
            }
        }
        assert(buf@ =~= old(buf)@ + s@);
    }
}

/// A packet layer: how it is read from bytes and written back.
pub trait Packet<'a>: Sized + View {
    /// What reading `b` gives, or `None` where `b` does not hold this layer.
    spec fn spec_parse(b: Seq<u8>) -> Option<<Self as View>::V>;

    /// The bytes of this layer's own header.
    spec fn spec_header(v: <Self as View>::V) -> Seq<u8>;

    /// The bytes of this layer and all that it carries.
    spec fn spec_serialize(v: <Self as View>::V) -> Seq<u8>;

    /// The value can be written: each length field agrees with what it counts.
    spec fn spec_wf(v: <Self as View>::V) -> bool;

    /// What is read from `b` is well formed, and writing it gives back a
    /// prefix of `b`: the bytes that the reader consumed.
    proof fn lemma_parse_serialize(b: Seq<u8>)
        ensures
            Self::spec_parse(b) matches Some(v) ==> Self::spec_wf(v) && Self::spec_serialize(
                v,
            ).is_prefix_of(b),
    ;

    /// Reading what was written gives back the value written.
    proof fn lemma_serialize_parse(v: <Self as View>::V)
        requires
            Self::spec_wf(v),
        ensures
            Self::spec_parse(Self::spec_serialize(v)) == Some(v),
    ;

    /// The size that `self_bytes_hint` reports for this layer's own header.
    spec fn spec_self_hint(v: <Self as View>::V) -> int;

    /// The size that `bytes_hint` reports for this layer and all it carries.
    spec fn spec_hint(v: <Self as View>::V) -> int;

    /// The sizes can be computed without overflow.
    spec fn spec_hint_ok(v: <Self as View>::V) -> bool;

    /// This layer hands on a payload to walk on to. Walking the layers from
    /// one that does never advances past it, so `bytes_hint` and
    /// `write_to_bytes` return only on a layer that hands on none.
    spec fn spec_has_payload(v: <Self as View>::V) -> bool;

    /// A layer that hands on no payload is all there is: its size hint is
    /// its own, and its bytes are its header.
    proof fn lemma_without_payload(v: <Self as View>::V)
        requires
            !Self::spec_has_payload(v),
        ensures
            Self::spec_hint(v) == Self::spec_self_hint(v),
            Self::spec_serialize(v) == Self::spec_header(v),
    ;

    /// A size hint for this layer's own header.
    fn self_bytes_hint(&self) -> (r: usize)
        requires
            Self::spec_hint_ok(self@),
        ensures
            r == Self::spec_self_hint(self@),
    ;

    /// Reads this layer, and what it carries, from the front of `b`.
    fn from_bytes(b: &'a [u8]) -> (r: Option<Self>)
        ensures
            r is None <==> Self::spec_parse(b@) is None,
            r matches Some(p) ==> Self::spec_parse(b@) == Some(p@),
    ;

    /// Appends this layer's own header.
    fn write_self_to_buf(&self, buf: &mut Vec<u8>)
        ensures
            final(buf)@ == old(buf)@ + Self::spec_header(self@),
    ;

    /// A size hint for this layer and all that it carries, on a layer that
    /// hands on no payload: its own hint.
    fn bytes_hint(&self) -> (r: usize)
        requires
            Self::spec_hint_ok(self@),
            !Self::spec_has_payload(self@),
        ensures
            r == Self::spec_hint(self@),
            r == Self::spec_self_hint(self@),
    ;

    /// Appends this layer and all that it carries.
    fn write_to_buf(&self, buf: &mut Vec<u8>)
        ensures
            final(buf)@ == old(buf)@ + Self::spec_serialize(self@),
    ;

    /// This layer, in a new buffer, on a layer that hands on no payload.
    fn write_to_bytes(&self) -> (r: bytes::Bytes)
        requires
            !Self::spec_has_payload(self@),
        ensures
            buf_view(r) == Self::spec_serialize(self@),
            buf_view(r) == Self::spec_header(self@),
    {
        let mut v: Vec<u8> = Vec::new();
        self.write_to_buf(&mut v);
        proof {
            assert(v@ =~= Self::spec_serialize(self@));
            Self::lemma_without_payload(self@);
        }
        buf_from_vec(v)
    }
}

/// The empty layer: nothing is read and nothing is written.
impl<'a> Packet<'a> for () {
    open spec fn spec_parse(b: Seq<u8>) -> Option<()> {
        Some(())
    }

    open spec fn spec_header(v: ()) -> Seq<u8> {
        Seq::empty()
    }

    open spec fn spec_serialize(v: ()) -> Seq<u8> {
        Seq::empty()
    }

    open spec fn spec_wf(v: ()) -> bool {
        true
    }

    proof fn lemma_parse_serialize(b: Seq<u8>) {
        assert(Seq::<u8>::empty().is_prefix_of(b));
    }

    proof fn lemma_serialize_parse(v: ()) {
    }

    open spec fn spec_self_hint(v: ()) -> int {
        0
    }

    open spec fn spec_hint(v: ()) -> int {
        0
    }

    open spec fn spec_hint_ok(v: ()) -> bool {
        true
    }

    open spec fn spec_has_payload(v: ()) -> bool {
        false
    }

    proof fn lemma_without_payload(v: ()) {
        assert(Self::spec_hint(v) == Self::spec_self_hint(v));
    }

    fn self_bytes_hint(&self) -> (r: usize) {
        0
    }

    fn from_bytes(b: &'a [u8]) -> (r: Option<()>) {
        Some(())
    }

    fn write_self_to_buf(&self, buf: &mut Vec<u8>) {
        proof {
            assert(buf@ =~= buf@ + Seq::<u8>::empty());
        }
    }

    fn bytes_hint(&self) -> (r: usize) {
        0
    }

    fn write_to_buf(&self, buf: &mut Vec<u8>) {
        proof {
            assert(buf@ =~= buf@ + Seq::<u8>::empty());
        }
    }
}

/// Raw bytes: all that remains is taken as the payload.
pub struct Data<'a>(pub &'a [u8]);

impl<'a> View for Data<'a> {
    type V = Seq<u8>;

    open spec fn view(&self) -> Seq<u8> {
        self.0@
    }
}

impl<'a> Packet<'a> for Data<'a> {
    open spec fn spec_parse(b: Seq<u8>) -> Option<Seq<u8>> {
        Some(b)
    }

    open spec fn spec_header(v: Seq<u8>) -> Seq<u8> {
        v
    }

    open spec fn spec_serialize(v: Seq<u8>) -> Seq<u8> {
        v
    }

    open spec fn spec_wf(v: Seq<u8>) -> bool {
        true
    }

    proof fn lemma_parse_serialize(b: Seq<u8>) {
    }

    proof fn lemma_serialize_parse(v: Seq<u8>) {
    }

    open spec fn spec_self_hint(v: Seq<u8>) -> int {
        v.len() as int
    }

    open spec fn spec_hint(v: Seq<u8>) -> int {
        v.len() as int
    }

    open spec fn spec_hint_ok(v: Seq<u8>) -> bool {
        true
    }

    open spec fn spec_has_payload(v: Seq<u8>) -> bool {
        false
    }

    proof fn lemma_without_payload(v: Seq<u8>) {
        assert(Self::spec_hint(v) == Self::spec_self_hint(v));
    }

    fn self_bytes_hint(&self) -> (r: usize) {
        self.0.len()
    }

    fn from_bytes(b: &'a [u8]) -> (r: Option<Data<'a>>) {
        Some(Data(b))
    }

    fn write_self_to_buf(&self, buf: &mut Vec<u8>) {
        push_slice(buf, self.0);
    }

    fn bytes_hint(&self) -> (r: usize) {
        self.0.len()
    }

    fn write_to_buf(&self, buf: &mut Vec<u8>) {
        push_slice(buf, self.0);
    }
}

} // verus!
