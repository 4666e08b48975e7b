//! The parts of a P4Info description that the controller reads: tables with
//! their match fields, actions with their parameters, meters, counters, and
//! the metadata of packets sent to and from the controller.

use vstd::prelude::*;
use vstd::string::StringSliceAdditionalSpecFns;

verus! {

/// The name, alias and numeric id that every P4 entity carries.
pub struct Preamble {
    pub id: u32,
    pub name: String,
    pub alias: String,
}

/// How a match field is matched, as P4Info writes it.
pub enum Match {
    /// A standard match kind, by its enumeration value.
    MatchType(i32),
    /// An architecture-specific match kind, by name.
    OtherMatchType(String),
}

/// The standard match kinds.
#[derive(Clone, Copy, Debug, PartialEq, Eq, Structural)]
pub enum MatchType {
    Unspecified,
    Exact,
    Lpm,
    Ternary,
    Range,
    Optional,
}

/// The match kind that an enumeration value names, where it names one.
pub open spec fn match_type_of(x: i32) -> Option<MatchType> {
    if x == 0 {
        Some(MatchType::Unspecified)
    } else if x == 2 {
        Some(MatchType::Exact)
    } else if x == 3 {
        Some(MatchType::Lpm)
    } else if x == 4 {
        Some(MatchType::Ternary)
    } else if x == 5 {
        Some(MatchType::Range)
    } else if x == 6 {
        Some(MatchType::Optional)
    } else {
        None
    }
}

impl MatchType {
    /// The match kind that an enumeration value names, where it names one.
    pub fn from_i32(x: i32) -> (r: Option<MatchType>)
        ensures
            r == match_type_of(x),
    {
        if x == 0 {
            Some(MatchType::Unspecified)
        } else if x == 2 {
            Some(MatchType::Exact)
        } else if x == 3 {
            Some(MatchType::Lpm)
        } else if x == 4 {
            Some(MatchType::Ternary)
        } else if x == 5 {
            Some(MatchType::Range)
        } else if x == 6 {
            Some(MatchType::Optional)
        } else {
            None
        }
    }
}

/// A field of a table's key.
pub struct MatchField {
    pub id: u32,
    pub name: String,
    pub bitwidth: i32,
    /// How the field is matched; P4Info calls this field `match`.
    pub match_kind: Option<Match>,
}

/// A match-action table.
pub struct Table {
    pub preamble: Option<Preamble>,
    pub match_fields: Vec<MatchField>,
}

/// A parameter of an action.
pub struct Param {
    pub id: u32,
    pub name: String,
    pub bitwidth: i32,
}

/// An action and its parameters.
pub struct Action {
    pub preamble: Option<Preamble>,
    pub params: Vec<Param>,
}

/// A meter array.
pub struct Meter {
    pub preamble: Option<Preamble>,
}

/// A counter array.
pub struct Counter {
    pub preamble: Option<Preamble>,
}

/// A counter attached to a table.
pub struct DirectCounter {
    pub preamble: Option<Preamble>,
}

/// One metadata field of packets exchanged with the controller.
pub struct Metadata {
    pub id: u32,
    pub name: String,
}

/// The metadata header of packets sent to (`packet_in`) or from
/// (`packet_out`) the controller.
pub struct ControllerPacketMetadata {
    pub preamble: Option<Preamble>,
    pub metadata: Vec<Metadata>,
}

/// A P4 program as the controller sees it.
pub struct P4Info {
    pub tables: Vec<Table>,
    pub actions: Vec<Action>,
    pub meters: Vec<Meter>,
    pub counters: Vec<Counter>,
    pub direct_counters: Vec<DirectCounter>,
    pub controller_packet_metadata: Vec<ControllerPacketMetadata>,
}

/// The preamble is present and its name or its alias is `name`.
pub open spec fn named(p: Option<Preamble>, name: Seq<char>) -> bool {
    p matches Some(pre) && (pre.name@ == name || pre.alias@ == name)
}

/// The preamble is present and its name, not counting the alias, is `name`.
pub open spec fn named_exactly(p: Option<Preamble>, name: Seq<char>) -> bool {
    p matches Some(pre) && pre.name@ == name
}

/// The first element of `s` that satisfies `p`.
pub open spec fn first_where<T>(s: Seq<T>, p: spec_fn(T) -> bool) -> Option<T>
    decreases s.len(),
{
    if s.len() == 0 {
        None
    } else if p(s[0]) {
        Some(s[0])
    } else {
        first_where(s.drop_first(), p)
    }
}

/// A first match found at `i` is the first match of the whole sequence.
pub proof fn lemma_first_where_step<T>(s: Seq<T>, p: spec_fn(T) -> bool, i: int)
    requires
        0 <= i < s.len(),
        forall|j: int| 0 <= j < i ==> !p(#[trigger] s[j]),
    ensures
        first_where(s, p) == first_where(s.skip(i), p),
    decreases i,
{
    if i > 0 {
        assert(s.skip(1) =~= s.drop_first());
        lemma_first_where_step(s.drop_first(), p, i - 1);
        assert(s.drop_first().skip(i - 1) =~= s.skip(i));
    } else {
        assert(s.skip(0) =~= s);
    }
}

/// Where no element satisfies `p`, there is no first match.
pub proof fn lemma_first_where_none<T>(s: Seq<T>, p: spec_fn(T) -> bool)
    requires
        forall|j: int| 0 <= j < s.len() ==> !p(#[trigger] s[j]),
    ensures
        first_where(s, p) is None,
    decreases s.len(),
{
    if s.len() > 0 {
        lemma_first_where_none(s.drop_first(), p);
    }
}

/// The first match satisfies `p`.
pub proof fn lemma_first_where_sat<T>(s: Seq<T>, p: spec_fn(T) -> bool)
    ensures
        first_where(s, p) matches Some(x) ==> p(x),
    decreases s.len(),
{
    if s.len() > 0 && !p(s[0]) {
        lemma_first_where_sat(s.drop_first(), p);
    }
}

/// The first match is an element that satisfies `p`, preceded by none that does.
pub proof fn lemma_first_where_some<T>(s: Seq<T>, p: spec_fn(T) -> bool)
    requires
        first_where(s, p) is Some,
    ensures
        exists|i: int|
            0 <= i < s.len() && p(s[i]) && first_where(s, p) == Some(s[i]) && (forall|j: int|
                0 <= j < i ==> !p(#[trigger] s[j])),
    decreases s.len(),
{
    if !p(s[0]) {
        lemma_first_where_some(s.drop_first(), p);
        let i = choose|i: int|
            0 <= i < s.drop_first().len() && p(s.drop_first()[i]) && first_where(
                s.drop_first(),
                p,
            ) == Some(s.drop_first()[i]) && (forall|j: int|
                0 <= j < i ==> !p(#[trigger] s.drop_first()[j]));
        assert forall|j: int| 0 <= j < i + 1 implies !p(#[trigger] s[j]) by {
            if j > 0 {
                assert(s[j] == s.drop_first()[j - 1]);
            }
        }
        assert(s[i + 1] == s.drop_first()[i]);
    } else {
        assert(p(s[0]) && first_where(s, p) == Some(s[0]));
    }
}

/// The value behind an optional reference.
pub open spec fn opt_deref<T>(r: Option<&T>) -> Option<T> {
    match r {
        Some(x) => Some(*x),
        None => None,
    }
}

/// Whether two texts are the same, compared byte by byte.
pub fn str_eq(a: &str, b: &str) -> (r: bool)
    ensures
        r == (a@ == b@),
{
    let x = a.as_bytes();
    let y = b.as_bytes();
    proof {
        vstd::utf8::encode_utf8_decode_utf8(a@);
        vstd::utf8::encode_utf8_decode_utf8(b@);
    }
    if x.len() != y.len() {
        return false;
    }
    let mut i: usize = 0;
    while i < x.len()
        invariant
            i <= x@.len(),
            x@.len() == y@.len(),
            x@ == a.spec_bytes(),
            y@ == b.spec_bytes(),
            forall|j: int| 0 <= j < i ==> x@[j] == y@[j],
        decreases x@.len() - i,
    {
        if x[i] != y[i] {
            return false;
        }
        i = i + 1;
    }
    proof {
        assert(x@ =~= y@);
    }
    true
}

/// Whether the preamble is present and its name or alias is `name`.
pub fn preamble_named(p: &Option<Preamble>, name: &str) -> (r: bool)
    ensures
        r == named(*p, name@),
{
    match p {
        Some(pre) => str_eq(pre.name.as_str(), name) || str_eq(pre.alias.as_str(), name),
        None => false,
    }
}

/// Whether the preamble is present and its name is `name`.
pub fn preamble_named_exactly(p: &Option<Preamble>, name: &str) -> (r: bool)
    ensures
        r == named_exactly(*p, name@),
{
    match p {
        Some(pre) => str_eq(pre.name.as_str(), name),
        None => false,
    }
}

} // verus!
