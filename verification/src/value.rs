//! MAC and IP addresses, and the big-endian encodings of match values.

use vstd::prelude::*;
use vstd::arithmetic::div_mod::lemma_div_denominator;
use vstd::string::StringSliceAdditionalSpecFns;
use crate::buffer::{buf_view, buf_from_vec};
use crate::runtime::MatchSpec;

verus! {

/// A value namespace, kept for callers that name it.
pub struct Value;

/// A MAC address in its textual form.
pub struct MACString(pub String);

/// `256` to the power `n`.
pub open spec fn pow256(n: nat) -> nat
    decreases n,
{
    if n == 0 {
        1
    } else {
        256 * pow256((n - 1) as nat)
    }
}

/// The `n` low-order bytes of `x`, most significant first.
pub open spec fn be_bytes(x: nat, n: nat) -> Seq<u8> {
    Seq::new(n, |i: int| ((x / pow256((n - 1 - i) as nat)) % 256) as u8)
}

/// The number that the bytes `s` write, most significant first.
pub open spec fn be_value(s: Seq<u8>) -> nat
    decreases s.len(),
{
    if s.len() == 0 {
        0
    } else {
        be_value(s.drop_last()) * 256 + s.last() as nat
    }
}

/// A power of 256 is positive.
pub proof fn lemma_pow256_pos(n: nat)
    ensures
        pow256(n) > 0,
    decreases n,
{
    if n > 0 {
        lemma_pow256_pos((n - 1) as nat);
    }
}

/// The powers of 256 that encodings use.
pub proof fn lemma_pow256_values()
    ensures
        pow256(0) == 1,
        pow256(1) == 256,
        pow256(2) == 0x1_0000,
        pow256(3) == 0x100_0000,
        pow256(4) == 0x1_0000_0000,
        pow256(16) == 0x1_0000_0000_0000_0000_0000_0000_0000_0000,
{
    reveal_with_fuel(pow256, 17);
}

/// The `n` low-order bytes of a number that fits in them are `n` bytes
/// long, and reading them back gives the number.
pub proof fn lemma_be_bytes_value(x: nat, n: nat)
    requires
        x < pow256(n),
    ensures
        be_bytes(x, n).len() == n,
        be_value(be_bytes(x, n)) == x,
    decreases n,
{
    if n > 0 {
        let s = be_bytes(x, n);
        let t = be_bytes(x / 256, (n - 1) as nat);
        assert forall|i: int| 0 <= i < n - 1 implies #[trigger] s.drop_last()[i] == t[i] by {
            let p = pow256((n - 2 - i) as nat);
            lemma_pow256_pos((n - 2 - i) as nat);
            assert(pow256((n - 1 - i) as nat) == 256 * p);
            lemma_div_denominator(x as int, 256, p as int);
        }
        assert(s.drop_last() =~= t);
        let q = pow256((n - 1) as nat);
        assert(x / 256 < q) by (nonlinear_arith)
            requires
                x < 256 * q,
        ;
        lemma_be_bytes_value(x / 256, (n - 1) as nat);
        assert(pow256(0) == 1);
        assert(x / 1 == x);
        assert(s.last() == s[n - 1]);
        assert(s[n - 1] == ((x / pow256(0)) % 256) as u8);
        assert(s.last() as nat == x % 256);
    }
}

/// Writes the `n` low-order bytes of `x` in big-endian order.
pub fn be_encode(x: u128, n: usize) -> (r: Vec<u8>)
    requires
        n <= 16,
        x < pow256(n as nat),
    ensures
        r@ == be_bytes(x as nat, n as nat),
{
    let mut v: Vec<u8> = Vec::new();
    let mut k: usize = 0;
    while k < n
        invariant
            k <= n,
            v@.len() == k,
        decreases n - k,
    {
        v.push(0u8);
        k = k + 1;
    }
    let mut cur: u128 = x;
    let mut i: usize = n;
    assert(pow256(0) == 1);
    assert((x as nat) / 1 == x as nat);
    while i > 0
        invariant
            i <= n,
            n <= 16,
            v@.len() == n,
            cur as nat == (x as nat) / pow256((n - i) as nat),
            forall|j: int| i <= j < n ==> v@[j] == be_bytes(x as nat, n as nat)[j],
        decreases i,
    {
        let ghost old_cur = cur;
        i = i - 1;
        let b = (cur % 256) as u8;
        v.set(i, b);
        cur = cur / 256;
        proof {
            lemma_pow256_pos((n - 1 - i) as nat);
            lemma_div_denominator(x as int, pow256((n - 1 - i) as nat) as int, 256);
            assert(pow256((n - i) as nat) == pow256((n - 1 - i) as nat) * 256);
        }
    }
    proof {
        assert(v@ =~= be_bytes(x as nat, n as nat));
    }
    v
}

/// A 48-bit Ethernet address.
#[derive(Clone, Copy, Eq, Debug, Hash)]
pub struct MAC(pub [u8; 6]);

impl PartialEq for MAC {
    fn eq(&self, other: &MAC) -> (r: bool) {
        let mut i: usize = 0;
        while i < 6
            invariant
                i <= 6,
                forall|j: int| 0 <= j < i ==> self.0@[j] == other.0@[j],
            decreases 6 - i,
        {
            if self.0[i] != other.0[i] {
                return false;
            }
            i = i + 1;
        }
        proof {
            assert(self.0@ =~= other.0@);
        }
        true
    }
}

impl vstd::std_specs::cmp::PartialEqSpecImpl for MAC {
    open spec fn obeys_eq_spec() -> bool {
        true
    }

    open spec fn eq_spec(&self, other: &MAC) -> bool {
        self.0@ == other.0@
    }
}

/// The value of an ASCII hexadecimal digit, upper or lower case.
pub open spec fn hex_digit(c: u8) -> Option<u8> {
    if 0x30 <= c <= 0x39 {
        Some((c - 0x30) as u8)
    } else if 0x41 <= c <= 0x46 {
        Some((c - 0x41 + 10) as u8)
    } else if 0x61 <= c <= 0x66 {
        Some((c - 0x61 + 10) as u8)
    } else {
        None
    }
}

/// Text made of an even number of hexadecimal digits.
pub open spec fn is_hex_text(s: Seq<u8>) -> bool {
    &&& s.len() % 2 == 0
    &&& forall|i: int| 0 <= i < s.len() ==> #[trigger] hex_digit(s[i]) is Some
}

/// The bytes that hexadecimal text spells, two digits per byte, high digit first.
pub open spec fn hex_decoded(s: Seq<u8>) -> Seq<u8> {
    Seq::new(
        s.len() / 2,
        |i: int| (16 * hex_digit(s[2 * i]).unwrap() + hex_digit(s[2 * i + 1]).unwrap()) as u8,
    )
}

/// Makes `hex::FromHexError`, the error of a failed decoding, usable in
/// signatures; nothing is read from it.
#[verifier::external_type_specification]
#[verifier::external_body]
pub struct ExFromHexError(hex::FromHexError);

/// Calls `hex::decode`: text of an even number of hexadecimal digits, upper
/// or lower case, gives two digits per byte, high digit first; any other
/// text gives an error.
#[verifier::external_body]
fn hex_decode(s: &[u8]) -> (r: Result<Vec<u8>, hex::FromHexError>)
    ensures
        r is Ok <==> is_hex_text(s@),
        r matches Ok(v) ==> v@ == hex_decoded(s@),
{
    hex::decode(s)
}

/// The byte of the ASCII colon.
pub open spec fn is_not_colon(c: u8) -> bool {
    c != 0x3a
}

/// The text with every colon removed.
pub open spec fn without_colons(s: Seq<u8>) -> Seq<u8> {
    s.filter(|c: u8| is_not_colon(c))
}

/// The text with every colon removed.
fn strip_colons(s: &[u8]) -> (r: Vec<u8>)
    ensures
        r@ == without_colons(s@),
{
    let mut r: Vec<u8> = Vec::new();
    let mut i: usize = 0;
    while i < s.len()
        invariant
            i <= s@.len(),
            r@ == s@.take(i as int).filter(|c: u8| is_not_colon(c)),
        decreases s@.len() - i,
    {
        proof {
            reveal_with_fuel(Seq::filter, 1);
            assert(s@.take(i + 1).drop_last() =~= s@.take(i as int));
        }
        if s[i] != 0x3a {
            r.push(s[i]);
        }
        i = i + 1;
    }
    proof {
        assert(s@.take(s@.len() as int) =~= s@);
    }
    r
}

/// A MAC address can be read from `s`: once its colons are dropped, twelve
/// hexadecimal digits remain.
pub open spec fn is_mac_text(s: Seq<u8>) -> bool {
    &&& is_hex_text(without_colons(s))
    &&& without_colons(s).len() == 12
}

/// Copies a six-byte vector into an address array.
pub fn vec_to_mac(vec: Vec<u8>) -> (r: [u8; 6])
    requires
        vec@.len() == 6,
    ensures
        r@ == vec@,
{
    let r = [vec[0], vec[1], vec[2], vec[3], vec[4], vec[5]];
    proof {
        assert(r@ =~= vec@);
    }
    r
}

impl MAC {
    /// Reads an address such as `"00:00:00:00:02:02"`: colons are dropped and
    /// the twelve hexadecimal digits left give the six bytes.
    pub fn of(s: &str) -> (r: MAC)
        requires
            is_mac_text(s.spec_bytes()),
        ensures
            r.0@ == hex_decoded(without_colons(s.spec_bytes())),
    {
        let stripped = strip_colons(s.as_bytes());
        let decoded = hex_decode(stripped.as_slice());
        match decoded {
            Ok(v) => MAC(vec_to_mac(v)),
            Err(_) => {
                proof {
                    assert(false);
                }
                MAC([0u8; 6])
            },
        }
    }

    /// The address whose six bytes are `s`.
    pub fn from_slice(s: &[u8]) -> (r: MAC)
        requires
            s@.len() == 6,
        ensures
            r.0@ == s@,
    {
        let r = MAC([s[0], s[1], s[2], s[3], s[4], s[5]]);
        proof {
            assert(r.0@ =~= s@);
        }
        r
    }

    /// The all-ones address.
    pub fn broadcast() -> (r: MAC)
        ensures
            r.0@ == Seq::new(6, |i: int| 0xffu8),
    {
        let r = MAC([0xff; 6]);
        proof {
            assert(r.0@ =~= Seq::new(6, |i: int| 0xffu8));
        }
        r
    }

    /// The all-zeros address.
    pub fn zero() -> (r: MAC)
        ensures
            r.0@ == Seq::new(6, |i: int| 0u8),
    {
        let r = MAC([0x00; 6]);
        proof {
            assert(r.0@ =~= Seq::new(6, |i: int| 0u8));
        }
        r
    }

    /// Whether every byte is `0xff`.
    pub fn is_broadcast(&self) -> (r: bool)
        ensures
            r == (self.0@ == Seq::new(6, |i: int| 0xffu8)),
    {
        let mut i: usize = 0;
        while i < 6
            invariant
                i <= 6,
                forall|j: int| 0 <= j < i ==> self.0@[j] == 0xffu8,
            decreases 6 - i,
        {
            if self.0[i] != 0xff {
                proof {
                    assert(self.0@[i as int] != Seq::new(6, |k: int| 0xffu8)[i as int]);
                }
                return false;
            }
            i = i + 1;
        }
        proof {
            assert(self.0@ =~= Seq::new(6, |k: int| 0xffu8));
        }
        true
    }

    /// Whether the address starts with `33:33`, the IPv6 multicast prefix.
    pub fn is_multicast(&self) -> (r: bool)
        ensures
            r == (self.0@[0] == 0x33u8 && self.0@[1] == 0x33u8),
    {
        self.0[0] == 0x33 && self.0[1] == 0x33
    }
}

/// The number with the four bytes `a.b.c.d`, most significant first, has
/// those bytes.
proof fn lemma_four_bytes(a: u8, b: u8, c: u8, d: u8)
    ensures
        be_bytes((a as nat) * 0x100_0000 + (b as nat) * 0x1_0000 + (c as nat) * 0x100 + (d as nat), 4)
            == seq![a, b, c, d],
{
    let x = (a as nat) * 0x100_0000 + (b as nat) * 0x1_0000 + (c as nat) * 0x100 + (d as nat);
    lemma_pow256_values();
    assert(x / 0x100_0000 == a) by (nonlinear_arith)
        requires x == (a as nat) * 0x100_0000 + (b as nat) * 0x1_0000 + (c as nat) * 0x100 + (d as nat), a < 256, b < 256, c < 256, d < 256;
    assert((x / 0x1_0000) % 256 == b) by (nonlinear_arith)
        requires x == (a as nat) * 0x100_0000 + (b as nat) * 0x1_0000 + (c as nat) * 0x100 + (d as nat), a < 256, b < 256, c < 256, d < 256;
    assert((x / 0x100) % 256 == c) by (nonlinear_arith)
        requires x == (a as nat) * 0x100_0000 + (b as nat) * 0x1_0000 + (c as nat) * 0x100 + (d as nat), a < 256, b < 256, c < 256, d < 256;
    assert(x % 256 == d) by (nonlinear_arith)
        requires x == (a as nat) * 0x100_0000 + (b as nat) * 0x1_0000 + (c as nat) * 0x100 + (d as nat), a < 256, b < 256, c < 256, d < 256;
    assert((x / 0x100_0000) % 256 == a);
    assert(x / 1 == x);
    assert(be_bytes(x, 4) =~= seq![a, b, c, d]);
}

/// An IPv4 address, held as its 32-bit value.
#[derive(Clone, Copy, PartialEq, Eq, Structural, Debug, Hash)]
pub struct Ipv4Addr(pub u32);

/// An IPv6 address, held as its 128-bit value.
#[derive(Clone, Copy, PartialEq, Eq, Structural, Debug, Hash)]
pub struct Ipv6Addr(pub u128);

/// An IP address of either version.
#[derive(Clone, Copy, PartialEq, Eq, Structural, Debug, Hash)]
pub enum IpAddr {
    V4(Ipv4Addr),
    V6(Ipv6Addr),
}

impl Ipv4Addr {
    /// The address `a.b.c.d`.
    pub fn new(a: u8, b: u8, c: u8, d: u8) -> (r: Ipv4Addr)
        ensures
            be_bytes(r.0 as nat, 4) == seq![a, b, c, d],
    {
        let r = Ipv4Addr(((a as u32) * 0x100_0000) + ((b as u32) * 0x1_0000) + ((c as u32) * 0x100) + (d as u32));
        proof {
            lemma_four_bytes(a, b, c, d);
        }
        r
    }

    /// The address whose four bytes, most significant first, are `o`.
    pub fn from_octets(o: [u8; 4]) -> (r: Ipv4Addr)
        ensures
            be_bytes(r.0 as nat, 4) == o@,
    {
        let r = Ipv4Addr::new(o[0], o[1], o[2], o[3]);
        proof {
            assert(o@ =~= seq![o@[0], o@[1], o@[2], o@[3]]);
        }
        r
    }

    /// The four bytes of the address, most significant first.
    pub fn octets(&self) -> (r: Vec<u8>)
        ensures
            r@ == be_bytes(self.0 as nat, 4),
    {
        proof {
            lemma_pow256_values();
        }
        be_encode(self.0 as u128, 4)
    }
}

/// Types whose values have a byte encoding to be matched on.
pub trait Encode: Copy {
    /// The bytes that the value encodes to.
    spec fn spec_encode(self) -> Seq<u8>;

    /// The encoding, held in a `Bytes` buffer.
    fn encode(self) -> (r: bytes::Bytes)
        ensures
            buf_view(r) == self.spec_encode(),
    ;
}

impl Encode for u8 {
    open spec fn spec_encode(self) -> Seq<u8> {
        be_bytes(self as nat, 1)
    }

    fn encode(self) -> (r: bytes::Bytes)
        ensures
            buf_view(r).len() == 1,
            be_value(buf_view(r)) == self as nat,
    {
        proof {
            lemma_pow256_values();
            lemma_be_bytes_value(self as nat, 1);
        }
        buf_from_vec(be_encode(self as u128, 1))
    }
}

impl Encode for u16 {
    open spec fn spec_encode(self) -> Seq<u8> {
        be_bytes(self as nat, 2)
    }

    fn encode(self) -> (r: bytes::Bytes)
        ensures
            buf_view(r).len() == 2,
            be_value(buf_view(r)) == self as nat,
    {
        proof {
            lemma_pow256_values();
            lemma_be_bytes_value(self as nat, 2);
        }
        buf_from_vec(be_encode(self as u128, 2))
    }
}

impl Encode for u32 {
    open spec fn spec_encode(self) -> Seq<u8> {
        be_bytes(self as nat, 4)
    }

    fn encode(self) -> (r: bytes::Bytes)
        ensures
            buf_view(r).len() == 4,
            be_value(buf_view(r)) == self as nat,
    {
        proof {
            lemma_pow256_values();
            lemma_be_bytes_value(self as nat, 4);
        }
        buf_from_vec(be_encode(self as u128, 4))
    }
}

impl Encode for i32 {
    /// Two's complement, as `i32::to_be_bytes` gives.
    open spec fn spec_encode(self) -> Seq<u8> {
        be_bytes((self as u32) as nat, 4)
    }

    fn encode(self) -> (r: bytes::Bytes)
        ensures
            buf_view(r).len() == 4,
            be_value(buf_view(r)) == (self as u32) as nat,
    {
        proof {
            lemma_pow256_values();
            lemma_be_bytes_value((self as u32) as nat, 4);
        }
        buf_from_vec(be_encode((self as u32) as u128, 4))
    }
}

impl Encode for MAC {
    open spec fn spec_encode(self) -> Seq<u8> {
        self.0@
    }

    fn encode(self) -> (r: bytes::Bytes) {
        crate::buffer::buf_copy_from_slice(&self.0)
    }
}

impl Encode for Ipv4Addr {
    open spec fn spec_encode(self) -> Seq<u8> {
        be_bytes(self.0 as nat, 4)
    }

    fn encode(self) -> (r: bytes::Bytes)
        ensures
            buf_view(r).len() == 4,
            be_value(buf_view(r)) == self.0,
    {
        proof {
            lemma_pow256_values();
            lemma_be_bytes_value(self.0 as nat, 4);
        }
        buf_from_vec(self.octets())
    }
}

impl Encode for Ipv6Addr {
    open spec fn spec_encode(self) -> Seq<u8> {
        be_bytes(self.0 as nat, 16)
    }

    /// The sixteen octets of the address, most significant first.
    fn encode(self) -> (r: bytes::Bytes)
        ensures
            buf_view(r).len() == 16,
            be_value(buf_view(r)) == self.0,
    {
        proof {
            lemma_pow256_values();
            lemma_ipv6_encoding(self);
        }
        buf_from_vec(be_encode(self.0, 16))
    }
}

/// Numbers and IPv4 addresses are encoded in their width, most significant
/// byte first: reading the bytes back as a big-endian number gives the
/// value (a signed number as its two's complement).
pub proof fn lemma_numeric_encodings(a: u8, b: u16, c: u32, d: i32, ip: Ipv4Addr)
    ensures
        a.spec_encode().len() == 1 && be_value(a.spec_encode()) == a,
        b.spec_encode().len() == 2 && be_value(b.spec_encode()) == b,
        c.spec_encode().len() == 4 && be_value(c.spec_encode()) == c,
        d.spec_encode().len() == 4 && be_value(d.spec_encode()) == d as u32,
        ip.spec_encode().len() == 4 && be_value(ip.spec_encode()) == ip.0,
{
    lemma_pow256_values();
    lemma_be_bytes_value(a as nat, 1);
    lemma_be_bytes_value(b as nat, 2);
    lemma_be_bytes_value(c as nat, 4);
    lemma_be_bytes_value((d as u32) as nat, 4);
    lemma_be_bytes_value(ip.0 as nat, 4);
}

/// An IPv6 address is encoded as its sixteen octets, most significant
/// first: sixteen bytes that, read back as a big-endian number, give the
/// whole address.
pub proof fn lemma_ipv6_encoding(ip: Ipv6Addr)
    ensures
        ip.spec_encode().len() == 16,
        be_value(ip.spec_encode()) == ip.0,
{
    lemma_pow256_values();
    lemma_be_bytes_value(ip.0 as nat, 16);
}

impl Encode for IpAddr {
    open spec fn spec_encode(self) -> Seq<u8> {
        match self {
            IpAddr::V4(ip) => ip.spec_encode(),
            IpAddr::V6(ip) => ip.spec_encode(),
        }
    }

    fn encode(self) -> (r: bytes::Bytes) {
        match self {
            IpAddr::V4(ip) => ip.encode(),
            IpAddr::V6(ip) => ip.encode(),
        }
    }
}

impl<'a> Encode for &'a str {
    /// The UTF-8 bytes of the text.
    open spec fn spec_encode(self) -> Seq<u8> {
        self.spec_bytes()
    }

    fn encode(self) -> (r: bytes::Bytes) {
        crate::buffer::buf_copy_from_slice(self.as_bytes())
    }
}

/// A match value, one variant per P4Runtime match kind.
#[derive(Debug, Hash)]
pub enum InnerValue {
    EXACT(bytes::Bytes),
    LPM(bytes::Bytes, i32),
    TERNARY(bytes::Bytes, bytes::Bytes),
    RANGE(bytes::Bytes, bytes::Bytes),
}

/// The match kind and the bytes of a match value.
pub open spec fn value_spec(v: InnerValue) -> MatchSpec {
    match v {
        InnerValue::EXACT(b) => MatchSpec::Exact(buf_view(b)),
        InnerValue::LPM(b, l) => MatchSpec::Lpm(buf_view(b), l),
        InnerValue::TERNARY(b, m) => MatchSpec::Ternary(buf_view(b), buf_view(m)),
        InnerValue::RANGE(lo, hi) => MatchSpec::Range(buf_view(lo), buf_view(hi)),
    }
}

impl Clone for InnerValue {
    fn clone(&self) -> (r: InnerValue)
        ensures
            value_spec(r) == value_spec(*self),
    {
        match self {
            InnerValue::EXACT(b) => InnerValue::EXACT(b.clone()),
            InnerValue::LPM(b, l) => InnerValue::LPM(b.clone(), *l),
            InnerValue::TERNARY(b, m) => InnerValue::TERNARY(b.clone(), m.clone()),
            InnerValue::RANGE(lo, hi) => InnerValue::RANGE(lo.clone(), hi.clone()),
        }
    }
}

/// The bytes of an action parameter.
pub type InnerParamValue = bytes::Bytes;

/// An exact match on the encoding of `v`.
#[allow(non_snake_case)]
pub fn EXACT<T: Encode>(v: T) -> (r: InnerValue)
    ensures
        r matches InnerValue::EXACT(b) && buf_view(b) == v.spec_encode(),
{
    InnerValue::EXACT(v.encode())
}

/// A longest-prefix match on the encoding of `v`, with the given prefix length.
#[allow(non_snake_case)]
pub fn LPM<T: Encode>(v: T, prefix_len: i32) -> (r: InnerValue)
    ensures
        r matches InnerValue::LPM(b, l) && buf_view(b) == v.spec_encode() && l == prefix_len,
{
    InnerValue::LPM(v.encode(), prefix_len)
}

/// A ternary match of the encoding of `v` under the encoding of `mask`.
#[allow(non_snake_case)]
pub fn TERNARY<T: Encode, P: Encode>(v: T, mask: P) -> (r: InnerValue)
    ensures
        r matches InnerValue::TERNARY(b, m) && buf_view(b) == v.spec_encode() && buf_view(m)
            == mask.spec_encode(),
{
    InnerValue::TERNARY(v.encode(), mask.encode())
}

/// A range match between the encodings of `v` and `p`.
#[allow(non_snake_case)]
pub fn RANGE<T: Encode, P: Encode>(v: T, p: P) -> (r: InnerValue)
    ensures
        r matches InnerValue::RANGE(lo, hi) && buf_view(lo) == v.spec_encode() && buf_view(hi)
            == p.spec_encode(),
{
    InnerValue::RANGE(v.encode(), p.encode())
}

/// The encoding of an action parameter.
pub fn encode<T: Encode>(v: T) -> (r: InnerParamValue)
    ensures
        buf_view(r) == v.spec_encode(),
{
    v.encode()
}

} // verus!
