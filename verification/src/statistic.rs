//! Interface loads as a Stratum switch reports them: fourteen counters per
//! interface, each read from one notification.

use vstd::prelude::*;
use crate::p4info::str_eq;

verus! {

/// One notification of an interface's counters: the name of the counter
/// and its value, where the notification has them.
#[derive(Debug)]
pub struct CounterReading {
    pub name: Option<String>,
    pub value: Option<u64>,
}

/// The names of the fourteen counters, in the order they are kept.
pub open spec fn counter_names() -> Seq<Seq<char>> {
    seq![
        "in-broadcast-pkts"@,
        "in-discards"@,
        "in-errors"@,
        "in-fcs-errors"@,
        "in-multicast-pkts"@,
        "in-octets"@,
        "in-unicast-pkts"@,
        "in-unknown-protos"@,
        "out-broadcast-pkts"@,
        "out-discards"@,
        "out-errors"@,
        "out-multicast-pkts"@,
        "out-octets"@,
        "out-unicast-pkts"@,
    ]
}

/// The first position, from `k` on, of the name `name`.
pub open spec fn slot_from(name: Seq<char>, k: int) -> Option<int>
    decreases 14 - k,
{
    if k < 0 || k >= 14 {
        None
    } else if counter_names()[k] == name {
        Some(k)
    } else {
        slot_from(name, k + 1)
    }
}

/// A slot is one of the fourteen.
proof fn lemma_slot_range(name: Seq<char>, k: int)
    ensures
        slot_from(name, k) matches Some(j) ==> 0 <= j < 14,
    decreases 14 - k,
{
    if 0 <= k < 14 && counter_names()[k] != name {
        lemma_slot_range(name, k + 1);
    }
}

/// The slot of the counter named `name`: its position among the names.
pub open spec fn counter_slot(name: Seq<char>) -> Option<int> {
    slot_from(name, 0)
}

/// What tells the counter names apart: the length, and the two characters
/// after the prefix of a received (`in-`) or sent (`out-`) counter.
spec fn name_key(s: Seq<char>) -> (int, char, char) {
    (s.len() as int, s[3], s[4])
}

/// The search from `j` finds the name at `k` where none between them is it.
proof fn lemma_slot_from_reaches(name: Seq<char>, j: int, k: int)
    requires
        0 <= j <= k < 14,
        counter_names()[k] == name,
        forall|i: int| j <= i < k ==> #[trigger] counter_names()[i] != name,
    ensures
        slot_from(name, j) == Some(k),
    decreases k - j,
{
    if j < k {
        lemma_slot_from_reaches(name, j + 1, k);
    }
}

/// The slot of the `k`-th name is `k` where the names before it look
/// different from it.
proof fn lemma_slot_of(k: int)
    requires
        0 <= k < 14,
        forall|i: int| 0 <= i < k ==> name_key(#[trigger] counter_names()[i]) != name_key(counter_names()[k]),
    ensures
        counter_slot(counter_names()[k]) == Some(k),
{
    lemma_slot_from_reaches(counter_names()[k], 0, k);
}

/// Each counter has its fixed slot: the received counters in slots 0 to 7
/// and the sent counters in slots 8 to 13, each group in the order of its
/// names (broadcast packets, discards, errors, then the rest).
pub proof fn lemma_stratum_slots()
    ensures
        Some(13int) == counter_slot("out-unicast-pkts"@),
        Some(12int) == counter_slot("out-octets"@),
        Some(11int) == counter_slot("out-multicast-pkts"@),
        Some(10int) == counter_slot("out-errors"@),
        Some(9int) == counter_slot("out-discards"@),
        Some(8int) == counter_slot("out-broadcast-pkts"@),
        Some(7int) == counter_slot("in-unknown-protos"@),
        Some(6int) == counter_slot("in-unicast-pkts"@),
        Some(5int) == counter_slot("in-octets"@),
        Some(4int) == counter_slot("in-multicast-pkts"@),
        Some(3int) == counter_slot("in-fcs-errors"@),
        Some(2int) == counter_slot("in-errors"@),
        Some(1int) == counter_slot("in-discards"@),
        Some(0int) == counter_slot("in-broadcast-pkts"@),
{
    reveal_strlit("out-unicast-pkts");
    reveal_strlit("out-octets");
    reveal_strlit("out-multicast-pkts");
    reveal_strlit("out-errors");
    reveal_strlit("out-discards");
    reveal_strlit("out-broadcast-pkts");
    reveal_strlit("in-unknown-protos");
    reveal_strlit("in-unicast-pkts");
    reveal_strlit("in-octets");
    reveal_strlit("in-multicast-pkts");
    reveal_strlit("in-fcs-errors");
    reveal_strlit("in-errors");
    reveal_strlit("in-discards");
    reveal_strlit("in-broadcast-pkts");
    lemma_slot_of(0);
    lemma_slot_of(1);
    lemma_slot_of(2);
    lemma_slot_of(3);
    lemma_slot_of(4);
    lemma_slot_of(5);
    lemma_slot_of(6);
    lemma_slot_of(7);
    lemma_slot_of(8);
    lemma_slot_of(9);
    lemma_slot_of(10);
    lemma_slot_of(11);
    lemma_slot_of(12);
    lemma_slot_of(13);
}

/// The slot of the counter named `name`, among the fourteen.
pub fn stratum_counter_slot(name: &str) -> (r: Option<usize>)
    ensures
        r matches Some(k) ==> k < 14 && counter_slot(name@) == Some(k as int),
        r is None ==> counter_slot(name@) is None,
{
    let names: [&str; 14] = [
        "in-broadcast-pkts",
        "in-discards",
        "in-errors",
        "in-fcs-errors",
        "in-multicast-pkts",
        "in-octets",
        "in-unicast-pkts",
        "in-unknown-protos",
        "out-broadcast-pkts",
        "out-discards",
        "out-errors",
        "out-multicast-pkts",
        "out-octets",
        "out-unicast-pkts",
    ];
    proof {
        assert(forall|k: int| 0 <= k < 14 ==> #[trigger] names@[k]@ == counter_names()[k]);
    }
    let mut k: usize = 0;
    while k < 14
        invariant
            k <= 14,
            forall|j: int| 0 <= j < 14 ==> #[trigger] names@[j]@ == counter_names()[j],
            counter_slot(name@) == slot_from(name@, k as int),
        decreases 14 - k,
    {
        if str_eq(names[k], name) {
            return Some(k);
        }
        k = k + 1;
    }
    None
}

/// The loads after the readings `rs`, in turn: each reading with a name of
/// a known counter and a value sets that counter, the value taken as a
/// signed number; the others change nothing. All counters start at zero.
pub open spec fn stratum_load(rs: Seq<CounterReading>) -> Seq<i64>
    decreases rs.len(),
{
    if rs.len() == 0 {
        Seq::new(14, |i: int| 0i64)
    } else {
        let prev = stratum_load(rs.drop_last());
        let r = rs.last();
        match (r.name, r.value) {
            (Some(n), Some(v)) => match counter_slot(n@) {
                Some(k) => prev.update(k, v as i64),
                None => prev,
            },
            _ => prev,
        }
    }
}

/// The loads have fourteen counters.
proof fn lemma_stratum_load_len(rs: Seq<CounterReading>)
    ensures
        stratum_load(rs).len() == 14,
    decreases rs.len(),
{
    if rs.len() > 0 {
        lemma_stratum_load_len(rs.drop_last());
        if let Some(n) = rs.last().name {
            lemma_slot_range(n@, 0);
        }
    }
}

/// A reading of a known counter that carries a value sets that counter's
/// slot to the value, as a signed number, and leaves every other slot as it
/// was.
pub proof fn lemma_reading_sets_its_slot(rs: Seq<CounterReading>, n: String, v: u64)
    requires
        rs.len() > 0,
        rs.last().name == Some(n),
        rs.last().value == Some(v),
        counter_slot(n@) is Some,
    ensures
        stratum_load(rs)[counter_slot(n@).unwrap()] == v as i64,
        forall|j: int|
            0 <= j < 14 && j != counter_slot(n@).unwrap() ==> #[trigger] stratum_load(rs)[j]
                == stratum_load(rs.drop_last())[j],
{
    lemma_stratum_load_len(rs.drop_last());
    lemma_slot_range(n@, 0);
}

/// The fourteen counters of an interface, from the notifications read from
/// the switch.
pub fn read_stratum_load(readings: &[CounterReading]) -> (r: [i64; 14])
    ensures
        r@ == stratum_load(readings@),
{
    let mut loads: [i64; 14] = [0; 14];
    proof {
        assert(loads@ =~= stratum_load(readings@.take(0)));
    }
    let mut i: usize = 0;
    while i < readings.len()
        invariant
            i <= readings@.len(),
            loads@ == stratum_load(readings@.take(i as int)),
        decreases readings@.len() - i,
    {
        proof {
            assert(readings@.take(i + 1).drop_last() =~= readings@.take(i as int));
            lemma_stratum_load_len(readings@.take(i as int));
        }
        let r = &readings[i];
        match (&r.name, r.value) {
            (Some(n), Some(v)) => {
                match stratum_counter_slot(n.as_str()) {
                    Some(k) => {
                        loads[k] = v as i64;
                    },
                    None => {},
                }
            },
            _ => {},
        }
        i = i + 1;
        proof {
            assert(loads@ =~= stratum_load(readings@.take(i as int)));
        }
    }
    proof {
        assert(readings@.take(readings@.len() as int) =~= readings@);
    }
    loads
}

} // verus!
