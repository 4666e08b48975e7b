//! Lookups in a P4Info description, and the fitting of values to the width
//! of the fields they are written to.

use vstd::prelude::*;
use crate::p4info::{
    P4Info, Table, Action, Meter, Counter, DirectCounter, MatchField, Param,
    ControllerPacketMetadata, Metadata, named, named_exactly, first_where, opt_deref,
    lemma_first_where_step, lemma_first_where_none, lemma_first_where_sat, preamble_named, preamble_named_exactly,
    str_eq,
};
use crate::buffer::{buf_view, buf_len, buf_slice, buf_as_slice, buf_from_vec, buf_copy_from_slice};
use crate::p4info::{Match, MatchType, match_type_of};
use crate::runtime::{
    MatchSpec, FieldMatch, FieldMatchType, ActionParam, ActionCall, TableAction, TableEntry,
    opt_field_match_type_spec,
};
use crate::value::{InnerValue, InnerParamValue, value_spec};
use crate::flow::{FlowMatch, FlowActionParam};
use crate::runtime::{
    Entity, Update, UpdateKind, WriteRequest, Uint128, PacketMetadata, PacketOut, StreamMessageRequest,
    MasterArbitrationUpdate, update_kind_code, ForwardingPipelineConfig, SetForwardingPipelineConfigRequest,
    VERIFY_AND_COMMIT,
};
use crate::entity::{UpdateType, update_kind_of};
use crate::pipeconf::Pipeconf;
use crate::bmv2::Bmv2MasterUpdateOption;
use crate::value::{be_bytes, be_encode, lemma_pow256_values};

verus! {

/// Tables whose name or alias is `name`.
pub open spec fn table_named(name: Seq<char>) -> spec_fn(Table) -> bool {
    |t: Table| named(t.preamble, name)
}

/// Actions whose name or alias is `name`.
pub open spec fn action_named(name: Seq<char>) -> spec_fn(Action) -> bool {
    |a: Action| named(a.preamble, name)
}

/// Meters whose name or alias is `name`.
pub open spec fn meter_named(name: Seq<char>) -> spec_fn(Meter) -> bool {
    |m: Meter| named(m.preamble, name)
}

/// Counters whose name or alias is `name`.
pub open spec fn counter_named(name: Seq<char>) -> spec_fn(Counter) -> bool {
    |c: Counter| named(c.preamble, name)
}

/// Direct counters whose name or alias is `name`.
pub open spec fn direct_counter_named(name: Seq<char>) -> spec_fn(DirectCounter) -> bool {
    |c: DirectCounter| named(c.preamble, name)
}

/// The first table named `name`, by name or alias.
pub open spec fn spec_table(p: P4Info, name: Seq<char>) -> Option<Table> {
    first_where(p.tables@, table_named(name))
}

/// The first action named `name`, by name or alias.
pub open spec fn spec_action(p: P4Info, name: Seq<char>) -> Option<Action> {
    first_where(p.actions@, action_named(name))
}

/// The first meter named `name`, by name or alias.
pub open spec fn spec_meter(p: P4Info, name: Seq<char>) -> Option<Meter> {
    first_where(p.meters@, meter_named(name))
}

/// The first counter named `name`, by name or alias.
pub open spec fn spec_counter(p: P4Info, name: Seq<char>) -> Option<Counter> {
    first_where(p.counters@, counter_named(name))
}

/// The first direct counter named `name`, by name or alias.
pub open spec fn spec_direct_counter(p: P4Info, name: Seq<char>) -> Option<DirectCounter> {
    first_where(p.direct_counters@, direct_counter_named(name))
}

/// The id of the first table named `name`.
pub open spec fn spec_table_id(p: P4Info, name: Seq<char>) -> Option<u32> {
    match spec_table(p, name) {
        Some(t) => Some(t.preamble.unwrap().id),
        None => None,
    }
}

/// The id of the first action named `name`.
pub open spec fn spec_action_id(p: P4Info, name: Seq<char>) -> Option<u32> {
    match spec_action(p, name) {
        Some(a) => Some(a.preamble.unwrap().id),
        None => None,
    }
}

/// Returns the first table whose name or alias is `name`.
pub fn get_table<'a>(pipeconf: &'a P4Info, name: &str) -> (r: Option<&'a Table>)
    ensures
        opt_deref(r) == spec_table(*pipeconf, name@),
{
    let ghost p = table_named(name@);
    let mut i: usize = 0;
    while i < pipeconf.tables.len()
        invariant
            i <= pipeconf.tables@.len(),
            p == table_named(name@),
            forall|j: int| 0 <= j < i ==> !p(#[trigger] pipeconf.tables@[j]),
        decreases pipeconf.tables@.len() - i,
    {
        if preamble_named(&pipeconf.tables[i].preamble, name) {
            proof {
                lemma_first_where_step(pipeconf.tables@, p, i as int);
            }
            return Some(&pipeconf.tables[i]);
        }
        i = i + 1;
    }
    proof {
        lemma_first_where_none(pipeconf.tables@, p);
    }
    None
}

/// Returns the id of the first table whose name or alias is `name`.
pub fn get_table_id(pipeconf: &P4Info, name: &str) -> (r: Option<u32>)
    ensures
        r == spec_table_id(*pipeconf, name@),
{
    proof {
        lemma_first_where_sat(pipeconf.tables@, table_named(name@));
    }
    match get_table(pipeconf, name) {
        Some(t) => Some(t.preamble.as_ref().unwrap().id),
        None => None,
    }
}

/// Returns the first action whose name or alias is `name`.
pub fn get_action<'a>(pipeconf: &'a P4Info, name: &str) -> (r: Option<&'a Action>)
    ensures
        opt_deref(r) == spec_action(*pipeconf, name@),
{
    let ghost p = action_named(name@);
    let mut i: usize = 0;
    while i < pipeconf.actions.len()
        invariant
            i <= pipeconf.actions@.len(),
            p == action_named(name@),
            forall|j: int| 0 <= j < i ==> !p(#[trigger] pipeconf.actions@[j]),
        decreases pipeconf.actions@.len() - i,
    {
        if preamble_named(&pipeconf.actions[i].preamble, name) {
            proof {
                lemma_first_where_step(pipeconf.actions@, p, i as int);
            }
            return Some(&pipeconf.actions[i]);
        }
        i = i + 1;
    }
    proof {
        lemma_first_where_none(pipeconf.actions@, p);
    }
    None
}

/// Returns the id of the first action whose name or alias is `action_name`.
pub fn get_actions_id(pipeconf: &P4Info, action_name: &str) -> (r: Option<u32>)
    ensures
        r == spec_action_id(*pipeconf, action_name@),
{
    proof {
        lemma_first_where_sat(pipeconf.actions@, action_named(action_name@));
    }
    match get_action(pipeconf, action_name) {
        Some(a) => Some(a.preamble.as_ref().unwrap().id),
        None => None,
    }
}

/// Returns the first meter whose name or alias is `name`.
pub fn get_meter<'a>(pipeconf: &'a P4Info, name: &str) -> (r: Option<&'a Meter>)
    ensures
        opt_deref(r) == spec_meter(*pipeconf, name@),
{
    let ghost p = meter_named(name@);
    let mut i: usize = 0;
    while i < pipeconf.meters.len()
        invariant
            i <= pipeconf.meters@.len(),
            p == meter_named(name@),
            forall|j: int| 0 <= j < i ==> !p(#[trigger] pipeconf.meters@[j]),
        decreases pipeconf.meters@.len() - i,
    {
        if preamble_named(&pipeconf.meters[i].preamble, name) {
            proof {
                lemma_first_where_step(pipeconf.meters@, p, i as int);
            }
            return Some(&pipeconf.meters[i]);
        }
        i = i + 1;
    }
    proof {
        lemma_first_where_none(pipeconf.meters@, p);
    }
    None
}

/// Returns the id of the first meter whose name or alias is `name`.
pub fn get_meter_id(pipeconf: &P4Info, name: &str) -> (r: Option<u32>)
    ensures
        r == (match spec_meter(*pipeconf, name@) {
            Some(m) => Some(m.preamble.unwrap().id),
            None => None,
        }),
{
    proof {
        lemma_first_where_sat(pipeconf.meters@, meter_named(name@));
    }
    match get_meter(pipeconf, name) {
        Some(m) => Some(m.preamble.as_ref().unwrap().id),
        None => None,
    }
}

/// Returns the first counter whose name or alias is `name`.
pub fn get_counter<'a>(pipeconf: &'a P4Info, name: &str) -> (r: Option<&'a Counter>)
    ensures
        opt_deref(r) == spec_counter(*pipeconf, name@),
{
    let ghost p = counter_named(name@);
    let mut i: usize = 0;
    while i < pipeconf.counters.len()
        invariant
            i <= pipeconf.counters@.len(),
            p == counter_named(name@),
            forall|j: int| 0 <= j < i ==> !p(#[trigger] pipeconf.counters@[j]),
        decreases pipeconf.counters@.len() - i,
    {
        if preamble_named(&pipeconf.counters[i].preamble, name) {
            proof {
                lemma_first_where_step(pipeconf.counters@, p, i as int);
            }
            return Some(&pipeconf.counters[i]);
        }
        i = i + 1;
    }
    proof {
        lemma_first_where_none(pipeconf.counters@, p);
    }
    None
}

/// Returns the id of the first counter whose name or alias is `name`.
pub fn get_counter_id(pipeconf: &P4Info, name: &str) -> (r: Option<u32>)
    ensures
        r == (match spec_counter(*pipeconf, name@) {
            Some(c) => Some(c.preamble.unwrap().id),
            None => None,
        }),
{
    proof {
        lemma_first_where_sat(pipeconf.counters@, counter_named(name@));
    }
    match get_counter(pipeconf, name) {
        Some(c) => Some(c.preamble.as_ref().unwrap().id),
        None => None,
    }
}

/// Returns the first direct counter whose name or alias is `name`.
pub fn get_directcounter<'a>(pipeconf: &'a P4Info, name: &str) -> (r: Option<&'a DirectCounter>)
    ensures
        opt_deref(r) == spec_direct_counter(*pipeconf, name@),
{
    let ghost p = direct_counter_named(name@);
    let mut i: usize = 0;
    while i < pipeconf.direct_counters.len()
        invariant
            i <= pipeconf.direct_counters@.len(),
            p == direct_counter_named(name@),
            forall|j: int| 0 <= j < i ==> !p(#[trigger] pipeconf.direct_counters@[j]),
        decreases pipeconf.direct_counters@.len() - i,
    {
        if preamble_named(&pipeconf.direct_counters[i].preamble, name) {
            proof {
                lemma_first_where_step(pipeconf.direct_counters@, p, i as int);
            }
            return Some(&pipeconf.direct_counters[i]);
        }
        i = i + 1;
    }
    proof {
        lemma_first_where_none(pipeconf.direct_counters@, p);
    }
    None
}

/// Returns the id of the first direct counter whose name or alias is `name`.
pub fn get_directcounter_id(pipeconf: &P4Info, name: &str) -> (r: Option<u32>)
    ensures
        r == (match spec_direct_counter(*pipeconf, name@) {
            Some(c) => Some(c.preamble.unwrap().id),
            None => None,
        }),
{
    proof {
        lemma_first_where_sat(pipeconf.direct_counters@, direct_counter_named(name@));
    }
    match get_directcounter(pipeconf, name) {
        Some(c) => Some(c.preamble.as_ref().unwrap().id),
        None => None,
    }
}

/// The first field satisfying `p` in the first table named exactly
/// `table_name` that has one; aliases are not consulted.
pub open spec fn field_in_tables(
    tables: Seq<Table>,
    table_name: Seq<char>,
    p: spec_fn(MatchField) -> bool,
) -> Option<MatchField>
    decreases tables.len(),
{
    if tables.len() == 0 {
        None
    } else {
        let here = if named_exactly(tables[0].preamble, table_name) {
            first_where(tables[0].match_fields@, p)
        } else {
            None
        };
        if here is Some {
            here
        } else {
            field_in_tables(tables.drop_first(), table_name, p)
        }
    }
}

/// Match fields whose name is `name`.
pub open spec fn field_named(name: Seq<char>) -> spec_fn(MatchField) -> bool {
    |f: MatchField| f.name@ == name
}

/// Match fields whose id is `id`.
pub open spec fn field_with_id(id: u32) -> spec_fn(MatchField) -> bool {
    |f: MatchField| f.id == id
}

/// The match field named `name` of the table named `table_name`.
pub open spec fn spec_match_field(p: P4Info, table_name: Seq<char>, name: Seq<char>) -> Option<
    MatchField,
> {
    field_in_tables(p.tables@, table_name, field_named(name))
}

/// The search from table `i` on looks at table `i`, then at those after it.
proof fn lemma_field_in_tables_skip(
    tables: Seq<Table>,
    table_name: Seq<char>,
    p: spec_fn(MatchField) -> bool,
    i: int,
)
    requires
        0 <= i < tables.len(),
    ensures
        field_in_tables(tables.skip(i), table_name, p) == (if (if named_exactly(
            tables[i].preamble,
            table_name,
        ) {
            first_where(tables[i].match_fields@, p)
        } else {
            None
        }) is Some {
            first_where(tables[i].match_fields@, p)
        } else {
            field_in_tables(tables.skip(i + 1), table_name, p)
        }),
{
    assert(tables.skip(i).drop_first() =~= tables.skip(i + 1));
    assert(tables.skip(i)[0] == tables[i]);
}

/// Searches the first table named exactly `table_name` that has a field
/// satisfying the test, for its first such field.
#[verifier::loop_isolation(false)]
fn find_match_field<'a>(
    pipeconf: &'a P4Info,
    table_name: &str,
    by_name: Option<&str>,
    id: u32,
) -> (r: Option<&'a MatchField>)
    ensures
        opt_deref(r) == field_in_tables(
            pipeconf.tables@,
            table_name@,
            match by_name {
                Some(n) => field_named(n@),
                None => field_with_id(id),
            },
        ),
{
    let ghost p = match by_name {
        Some(n) => field_named(n@),
        None => field_with_id(id),
    };
    let ghost tables = pipeconf.tables@;
    let mut i: usize = 0;
    proof {
        assert(tables.skip(0) =~= tables);
    }
    while i < pipeconf.tables.len()
        invariant
            i <= tables.len(),
            tables == pipeconf.tables@,
            p == (match by_name {
                Some(n) => field_named(n@),
                None => field_with_id(id),
            }),
            field_in_tables(tables, table_name@, p) == field_in_tables(
                tables.skip(i as int),
                table_name@,
                p,
            ),
        decreases tables.len() - i,
    {
        let t = &pipeconf.tables[i];
        proof {
            lemma_field_in_tables_skip(tables, table_name@, p, i as int);
        }
        if preamble_named_exactly(&t.preamble, table_name) {
            let mut j: usize = 0;
            while j < t.match_fields.len()
                invariant
                    j <= t.match_fields@.len(),
                    p == (match by_name {
                        Some(n) => field_named(n@),
                        None => field_with_id(id),
                    }),
                    forall|k: int| 0 <= k < j ==> !p(#[trigger] t.match_fields@[k]),
                decreases t.match_fields@.len() - j,
            {
                let f = &t.match_fields[j];
                let hit = match by_name {
                    Some(n) => str_eq(f.name.as_str(), n),
                    None => f.id == id,
                };
                if hit {
                    proof {
                        lemma_first_where_step(t.match_fields@, p, j as int);
                    }
                    return Some(f);
                }
                j = j + 1;
            }
            proof {
                lemma_first_where_none(t.match_fields@, p);
            }
        }
        i = i + 1;
    }
    None
}

/// Returns the field named `name` of the first table named exactly
/// `table_name` that has one.
pub fn get_match_field_by_name<'a>(pipeconf: &'a P4Info, table_name: &str, name: &str) -> (r: Option<
    &'a MatchField,
>)
    ensures
        opt_deref(r) == spec_match_field(*pipeconf, table_name@, name@),
{
    find_match_field(pipeconf, table_name, Some(name), 0)
}

/// Returns the field with id `id` of the first table named exactly
/// `table_name` that has one.
pub fn get_match_field_by_id<'a>(pipeconf: &'a P4Info, table_name: &str, id: u32) -> (r: Option<
    &'a MatchField,
>)
    ensures
        opt_deref(r) == field_in_tables(pipeconf.tables@, table_name@, field_with_id(id)),
{
    find_match_field(pipeconf, table_name, None, id)
}

/// Parameters whose name is `name`.
pub open spec fn param_named(name: Seq<char>) -> spec_fn(Param) -> bool {
    |p: Param| p.name@ == name
}

/// The parameter named `param` of the first action named `action_name`.
pub open spec fn spec_action_param(p: P4Info, action_name: Seq<char>, param: Seq<char>) -> Option<
    Param,
> {
    match spec_action(p, action_name) {
        Some(a) => first_where(a.params@, param_named(param)),
        None => None,
    }
}

/// Returns the parameter named `param` of the first action whose name or
/// alias is `action_name`.
#[verifier::loop_isolation(false)]
pub fn get_action_param_by_name<'a>(pipeconf: &'a P4Info, action_name: &str, param: &str) -> (r:
    Option<&'a Param>)
    ensures
        opt_deref(r) == spec_action_param(*pipeconf, action_name@, param@),
{
    match get_action(pipeconf, action_name) {
        Some(action) => {
            let ghost p = param_named(param@);
            let mut i: usize = 0;
            while i < action.params.len()
                invariant
                    i <= action.params@.len(),
                    p == param_named(param@),
                    forall|k: int| 0 <= k < i ==> !p(#[trigger] action.params@[k]),
                decreases action.params@.len() - i,
            {
                if str_eq(action.params[i].name.as_str(), param) {
                    proof {
                        lemma_first_where_step(action.params@, p, i as int);
                    }
                    return Some(&action.params[i]);
                }
                i = i + 1;
            }
            proof {
                lemma_first_where_none(action.params@, p);
            }
            None
        },
        None => None,
    }
}

/// Packet metadata headers that are the one sought, or whose preamble is
/// missing: the search reads the name of each header it passes.
pub open spec fn cpm_stop(name: Seq<char>) -> spec_fn(ControllerPacketMetadata) -> bool {
    |c: ControllerPacketMetadata| c.preamble is None || c.preamble.unwrap().name@ == name
}

/// Metadata fields whose name is `name`.
pub open spec fn metadata_named(name: Seq<char>) -> spec_fn(Metadata) -> bool {
    |m: Metadata| m.name@ == name
}

/// Every header passed before the one named `name` has a preamble.
pub open spec fn cpm_search_ok(p: P4Info, name: Seq<char>) -> bool {
    first_where(p.controller_packet_metadata@, cpm_stop(name)) matches Some(c) ==> c.preamble is Some
}

/// The id of the field `field` in the first packet metadata header named `name`.
pub open spec fn spec_metadata_id(p: P4Info, name: Seq<char>, field: Seq<char>) -> Option<u32> {
    match first_where(p.controller_packet_metadata@, cpm_stop(name)) {
        Some(c) => match first_where(c.metadata@, metadata_named(field)) {
            Some(m) => Some(m.id),
            None => None,
        },
        None => None,
    }
}

/// The id of the field `field` of the first metadata header named `name`.
#[verifier::loop_isolation(false)]
fn find_metadata_id(p4info: &P4Info, name: &str, field: &str) -> (r: Option<u32>)
    requires
        cpm_search_ok(*p4info, name@),
    ensures
        r == spec_metadata_id(*p4info, name@, field@),
{
    let ghost p = cpm_stop(name@);
    let ghost s = p4info.controller_packet_metadata@;
    let mut i: usize = 0;
    while i < p4info.controller_packet_metadata.len()
        invariant
            i <= s.len(),
            s == p4info.controller_packet_metadata@,
            p == cpm_stop(name@),
            cpm_search_ok(*p4info, name@),
            forall|k: int| 0 <= k < i ==> !p(#[trigger] s[k]),
        decreases s.len() - i,
    {
        let c = &p4info.controller_packet_metadata[i];
        proof {
            lemma_first_where_step(s, p, i as int);
        }
        let pre = c.preamble.as_ref().unwrap();
        if str_eq(pre.name.as_str(), name) {
            let ghost q = metadata_named(field@);
            let mut j: usize = 0;
            while j < c.metadata.len()
                invariant
                    j <= c.metadata@.len(),
                    q == metadata_named(field@),
                    forall|k: int| 0 <= k < j ==> !q(#[trigger] c.metadata@[k]),
                decreases c.metadata@.len() - j,
            {
                if str_eq(c.metadata[j].name.as_str(), field) {
                    proof {
                        lemma_first_where_step(c.metadata@, q, j as int);
                    }
                    return Some(c.metadata[j].id);
                }
                j = j + 1;
            }
            proof {
                lemma_first_where_none(c.metadata@, q);
            }
            return None;
        }
        i = i + 1;
    }
    proof {
        lemma_first_where_none(s, p);
    }
    None
}

/// The id of the `egress_port` field of the `packet_out` header. The search
/// reads the name of every header before `packet_out`, so each must have a
/// preamble.
pub fn get_packout_egress_port_metaid(p4info: &P4Info) -> (r: Option<u32>)
    requires
        cpm_search_ok(*p4info, "packet_out"@),
    ensures
        r == spec_metadata_id(*p4info, "packet_out"@, "egress_port"@),
{
    find_metadata_id(p4info, "packet_out", "egress_port")
}

/// The id of the `ingress_port` field of the `packet_in` header. The search
/// reads the name of every header before `packet_in`, so each must have a
/// preamble.
pub fn get_packin_egress_port_metaid(p4info: &P4Info) -> (r: Option<u32>)
    requires
        cpm_search_ok(*p4info, "packet_in"@),
    ensures
        r == spec_metadata_id(*p4info, "packet_in"@, "ingress_port"@),
{
    find_metadata_id(p4info, "packet_in", "ingress_port")
}

/// `v` fitted to `n` bytes: kept when it has `n` bytes, cut to its last `n`
/// bytes when longer, and padded at the end with `e` when shorter.
pub open spec fn adjusted(v: Seq<u8>, n: nat, e: u8) -> Seq<u8> {
    if n == v.len() {
        v
    } else if n < v.len() {
        v.subrange(v.len() - n, v.len() as int)
    } else {
        v + Seq::new((n - v.len()) as nat, |i: int| e)
    }
}

/// Fits `value` to `bytes_len` bytes: its last bytes when it is longer,
/// padded at the end with `e` when it is shorter.
pub fn adjust_value_with(value: bytes::Bytes, bytes_len: usize, e: u8) -> (r: bytes::Bytes)
    ensures
        buf_view(r) == adjusted(buf_view(value), bytes_len as nat, e),
{
    let len = buf_len(&value);
    if bytes_len == len {
        value
    } else if bytes_len < len {
        buf_slice(&value, len - bytes_len, len)
    } else {
        let mut v: Vec<u8> = Vec::new();
        crate::packet::push_slice(&mut v, buf_as_slice(&value));
        let mut k: usize = len;
        while k < bytes_len
            invariant
                len <= k <= bytes_len,
                len == buf_view(value).len(),
                v@ == buf_view(value) + Seq::new((k - len) as nat, |i: int| e),
            decreases bytes_len - k,
        {
            v.push(e);
            k = k + 1;
            proof {
                assert(v@ =~= buf_view(value) + Seq::new((k - len) as nat, |i: int| e));
            }
        }
        buf_from_vec(v)
    }
}

/// Fits `value` to `bytes_len` bytes: its last bytes when it is longer,
/// padded at the end with zeros when it is shorter.
pub fn adjust_value(value: bytes::Bytes, bytes_len: usize) -> (r: bytes::Bytes)
    ensures
        buf_view(r) == adjusted(buf_view(value), bytes_len as nat, 0),
{
    adjust_value_with(value, bytes_len, 0)
}

/// A fitted value has the length it was fitted to.
pub proof fn lemma_adjusted_len(v: Seq<u8>, n: nat, e: u8)
    ensures
        adjusted(v, n, e).len() == n,
{
}

/// Fitting a value a second time to the same length changes nothing.
pub proof fn lemma_adjusted_idempotent(v: Seq<u8>, n: nat, e: u8)
    ensures
        adjusted(adjusted(v, n, e), n, e) == adjusted(v, n, e),
{
}

/// Fitting keeps the bytes it can: the last `n` when cutting, all of them
/// (at the front) when padding.
pub proof fn lemma_adjusted_keeps(v: Seq<u8>, n: nat, e: u8)
    ensures
        n <= v.len() ==> adjusted(v, n, e) == v.subrange(v.len() - n, v.len() as int),
        n >= v.len() ==> adjusted(v, n, e).subrange(0, v.len() as int) == v,
{
    if n >= v.len() {
        assert(adjusted(v, n, e).subrange(0, v.len() as int) =~= v);
    } else {
        assert(v.subrange(0, v.len() as int) =~= v);
    }
    if n == v.len() {
        assert(v.subrange(v.len() - n, v.len() as int) =~= v);
    }
}

/// The number of bytes that hold `bitwidth` bits; none for a width that is
/// not positive.
pub open spec fn byte_len_of(bitwidth: i32) -> nat {
    if bitwidth <= 0 {
        0
    } else {
        ((bitwidth as int + 7) / 8) as nat
    }
}

/// The number of bytes that hold `bitwidth` bits, rounded up.
pub fn byte_len(bitwidth: i32) -> (r: usize)
    ensures
        r == byte_len_of(bitwidth),
{
    if bitwidth <= 0 {
        0
    } else {
        ((bitwidth as i64 + 7) / 8) as usize
    }
}

/// The value can be written to the field: its kind suits the field's match
/// kind, and where the value is not fitted to the field's width it already
/// has that width.
pub open spec fn match_ok(f: MatchField, v: MatchSpec) -> bool {
    let n = byte_len_of(f.bitwidth);
    match f.match_kind {
        None => true,
        Some(Match::OtherMatchType(_)) => false,
        Some(Match::MatchType(x)) => {
            let k = match_type_of(x);
            match v {
                MatchSpec::Exact(b) => k == Some(MatchType::Exact) || (k == Some(MatchType::Ternary)
                    && b.len() == n),
                MatchSpec::Lpm(b, _) => k == Some(MatchType::Lpm) && b.len() == n,
                MatchSpec::Ternary(b, _) => k == Some(MatchType::Ternary) && b.len() == n,
                MatchSpec::Range(lo, hi) => k == Some(MatchType::Range) && lo.len() == n && hi.len()
                    == n,
            }
        },
    }
}

/// The all-ones mask of a field `n` bytes wide.
pub open spec fn full_mask(n: nat) -> Seq<u8> {
    adjusted(seq![0xffu8, 0xffu8, 0xffu8, 0xffu8], n, 0xff)
}

/// What is written for value `v` on field `f`: an exact value and a ternary
/// mask are fitted to the field's width; an exact value on a ternary field
/// is matched under the all-ones mask; no match kind writes nothing.
pub open spec fn field_match_spec(f: MatchField, v: MatchSpec) -> Option<MatchSpec> {
    let n = byte_len_of(f.bitwidth);
    match f.match_kind {
        Some(Match::MatchType(x)) => {
            let k = match_type_of(x);
            match v {
                MatchSpec::Exact(b) => if k == Some(MatchType::Exact) {
                    Some(MatchSpec::Exact(adjusted(b, n, 0)))
                } else {
                    Some(MatchSpec::Ternary(b, full_mask(n)))
                },
                MatchSpec::Lpm(b, l) => Some(MatchSpec::Lpm(b, l)),
                MatchSpec::Ternary(b, m) => Some(MatchSpec::Ternary(b, adjusted(m, n, 0))),
                MatchSpec::Range(lo, hi) => Some(MatchSpec::Range(lo, hi)),
            }
        },
        _ => None,
    }
}

/// A range on a range field is written as it is given: the low end of the
/// value is the low end written, and its high end the high end written.
pub proof fn lemma_range_written_as_given(f: MatchField, v: InnerValue)
    requires
        f.match_kind matches Some(Match::MatchType(x)) && match_type_of(x) == Some(MatchType::Range),
    ensures
        v matches InnerValue::RANGE(lo, hi) ==> field_match_spec(f, value_spec(v)) == Some(
            MatchSpec::Range(buf_view(lo), buf_view(hi)),
        ),
{
}

/// Builds the match of `value` on the field `match_field_name` of table
/// `table_name`. The field must exist and the value must suit it.
pub fn get_match_field_pb(
    pipeconf: &P4Info,
    table_name: &str,
    match_field_name: &str,
    value: &InnerValue,
) -> (r: Option<FieldMatch>)
    requires
        spec_match_field(*pipeconf, table_name@, match_field_name@) matches Some(f) && match_ok(
            f,
            value_spec(*value),
        ),
    ensures
        r matches Some(fm) && fm.field_id == spec_match_field(
            *pipeconf,
            table_name@,
            match_field_name@,
        ).unwrap().id && opt_field_match_type_spec(fm.field_match_type) == field_match_spec(
            spec_match_field(*pipeconf, table_name@, match_field_name@).unwrap(),
            value_spec(*value),
        ),
        spec_match_field(*pipeconf, table_name@, match_field_name@).unwrap().match_kind is Some ==> (
            *value matches InnerValue::RANGE(lo, hi) ==> r matches Some(fm) && fm.field_match_type
                matches Some(FieldMatchType::Range(l, h)) && buf_view(l) == buf_view(lo) && buf_view(h)
                == buf_view(hi)),
{
    let p4info_match = get_match_field_by_name(pipeconf, table_name, match_field_name).unwrap();
    let byte_len = byte_len(p4info_match.bitwidth);
    let x = match &p4info_match.match_kind {
        Some(Match::MatchType(k)) => {
            let kind = MatchType::from_i32(*k);
            match value {
                InnerValue::EXACT(v) => {
                    if kind == Some(MatchType::Exact) {
                        Some(FieldMatchType::Exact(adjust_value(v.clone(), byte_len)))
                    } else {
                        let mask = adjust_value_with(
                            buf_copy_from_slice(&[0xffu8, 0xffu8, 0xffu8, 0xffu8]),
                            byte_len,
                            0xff,
                        );
                        proof {
                            assert(seq![0xffu8, 0xffu8, 0xffu8, 0xffu8] =~= [0xffu8, 0xffu8, 0xffu8, 0xffu8]@);
                        }
                        Some(FieldMatchType::Ternary(v.clone(), mask))
                    }
                },
                InnerValue::LPM(v, l) => Some(FieldMatchType::Lpm(v.clone(), *l)),
                InnerValue::TERNARY(v, mask) => Some(
                    FieldMatchType::Ternary(v.clone(), adjust_value(mask.clone(), byte_len)),
                ),
                InnerValue::RANGE(low, high) => Some(FieldMatchType::Range(low.clone(), high.clone())),
            }
        },
        Some(Match::OtherMatchType(_)) => {
            proof {
                assert(false);
            }
            None
        },
        None => None,
    };
    Some(FieldMatch { field_id: p4info_match.id, field_match_type: x })
}

/// Builds the parameter `param_name` of action `action_name` with `value`
/// fitted to the parameter's width. The parameter must exist.
pub fn get_action_param_pb(
    pipeconf: &P4Info,
    action_name: &str,
    param_name: &str,
    value: InnerParamValue,
) -> (r: ActionParam)
    requires
        spec_action_param(*pipeconf, action_name@, param_name@) is Some,
    ensures
        r.param_id == spec_action_param(*pipeconf, action_name@, param_name@).unwrap().id,
        buf_view(r.value) == adjusted(
            buf_view(value),
            byte_len_of(spec_action_param(*pipeconf, action_name@, param_name@).unwrap().bitwidth),
            0,
        ),
{
    let p4info_param = get_action_param_by_name(pipeconf, action_name, param_name).unwrap();
    let bytes_len = byte_len(p4info_param.bitwidth);
    let value = adjust_value(value, bytes_len);
    ActionParam { param_id: p4info_param.id, value }
}

/// Every key value can be written to its field of table `table_name`.
pub open spec fn matches_ok(p: P4Info, table_name: Seq<char>, m: Seq<FlowMatch>) -> bool {
    forall|i: int|
        0 <= i < m.len() ==> (#[trigger] spec_match_field(p, table_name, m[i].name@) matches Some(
            f,
        ) && match_ok(f, value_spec(m[i].value)))
}

/// Every parameter is one of action `action_name`'s.
pub open spec fn params_ok(p: P4Info, action_name: Seq<char>, ps: Seq<FlowActionParam>) -> bool {
    forall|i: int| 0 <= i < ps.len() ==> #[trigger] spec_action_param(p, action_name, ps[i].name@) is Some
}

/// A table entry can be built: the table exists, the action exists unless it
/// is left empty, and every key value and parameter suits its field.
pub open spec fn table_entry_ok(
    p: P4Info,
    table_name: Seq<char>,
    match_fields: Seq<FlowMatch>,
    action_name: Seq<char>,
    action_params: Seq<FlowActionParam>,
) -> bool {
    &&& spec_table_id(p, table_name) is Some
    &&& matches_ok(p, table_name, match_fields)
    &&& action_name.len() != 0 ==> spec_action_id(p, action_name) is Some && params_ok(
        p,
        action_name,
        action_params,
    )
}

/// The built key matches the flow's key, field by field.
pub open spec fn key_built(
    p: P4Info,
    table_name: Seq<char>,
    match_fields: Seq<FlowMatch>,
    built: Seq<FieldMatch>,
) -> bool {
    &&& built.len() == match_fields.len()
    &&& forall|i: int|
        0 <= i < built.len() ==> {
            let f = spec_match_field(p, table_name, match_fields[i].name@).unwrap();
            &&& (#[trigger] built[i]).field_id == f.id
            &&& opt_field_match_type_spec(built[i].field_match_type) == field_match_spec(
                f,
                value_spec(match_fields[i].value),
            )
        }
}

/// The built parameters are the flow's, each fitted to its width.
pub open spec fn params_built(
    p: P4Info,
    action_name: Seq<char>,
    params: Seq<FlowActionParam>,
    built: Seq<ActionParam>,
) -> bool {
    &&& built.len() == params.len()
    &&& forall|i: int|
        0 <= i < built.len() ==> {
            let q = spec_action_param(p, action_name, params[i].name@).unwrap();
            &&& (#[trigger] built[i]).param_id == q.id
            &&& buf_view(built[i].value) == adjusted(
                buf_view(params[i].value),
                byte_len_of(q.bitwidth),
                0,
            )
        }
}

/// `r` is the table entry built for a flow: the table's id, the key field
/// by field, the action's id and parameters (no action when its name is
/// empty), the priority and the controller metadata; no idle timeout, meter
/// configuration, counter data or hit time, and no metadata bytes.
pub open spec fn entry_built(
    p: P4Info,
    table_name: Seq<char>,
    match_fields: Seq<FlowMatch>,
    default_action: bool,
    action_name: Seq<char>,
    action_params: Seq<FlowActionParam>,
    priority: i32,
    metadata: u64,
    r: TableEntry,
) -> bool {
    &&& r.table_id == spec_table_id(p, table_name).unwrap()
    &&& key_built(p, table_name, match_fields, r.matches@)
    &&& r.action matches Some(ta) && (if action_name.len() == 0 {
        ta.action is None
    } else {
        ta.action matches Some(call) && call.action_id == spec_action_id(p, action_name).unwrap()
            && params_built(p, action_name, action_params, call.params@)
    })
    &&& r.priority == priority
    &&& r.controller_metadata == metadata
    &&& r.is_default_action == default_action
    &&& r.idle_timeout_ns == 0
    &&& r.meter_config is None
    &&& r.counter_data is None
    &&& r.time_since_last_hit is None
    &&& buf_view(r.metadata) == Seq::<u8>::empty()
}

/// Builds the table entry of a flow: the table's id, the key field by field,
/// the action's id and parameters (no action when its name is empty), the
/// priority and the controller metadata, with the optional parts left unset.
/// Every name must be found and every value must suit its field.
pub fn build_table_entry(
    p4info: &P4Info,
    table_name: &str,
    match_fields: &[FlowMatch],
    default_action: bool,
    action_name: &str,
    action_params: &[FlowActionParam],
    priority: i32,
    metadata: u64,
) -> (r: TableEntry)
    requires
        table_entry_ok(*p4info, table_name@, match_fields@, action_name@, action_params@),
    ensures
        entry_built(
            *p4info,
            table_name@,
            match_fields@,
            default_action,
            action_name@,
            action_params@,
            priority,
            metadata,
            r,
        ),
{
    let action = if !action_name.is_empty() {
        let action_id = get_actions_id(p4info, action_name).unwrap();
        let mut params: Vec<ActionParam> = Vec::new();
        let mut i: usize = 0;
        while i < action_params.len()
            invariant
                i <= action_params@.len(),
                action_name@.len() != 0,
                table_entry_ok(*p4info, table_name@, match_fields@, action_name@, action_params@),
                params_built(*p4info, action_name@, action_params@.take(i as int), params@),
            decreases action_params@.len() - i,
        {
            let p = &action_params[i];
            let param = get_action_param_pb(p4info, action_name, p.name, p.value.clone());
            params.push(param);
            i = i + 1;
            proof {
                assert(action_params@.take(i as int).drop_last() =~= action_params@.take(i - 1));
            }
        }
        proof {
            assert(action_params@.take(action_params@.len() as int) =~= action_params@);
        }
        Some(ActionCall { action_id, params })
    } else {
        None
    };
    let mut matches: Vec<FieldMatch> = Vec::new();
    let mut i: usize = 0;
    while i < match_fields.len()
        invariant
            i <= match_fields@.len(),
            table_entry_ok(*p4info, table_name@, match_fields@, action_name@, action_params@),
            key_built(*p4info, table_name@, match_fields@.take(i as int), matches@),
        decreases match_fields@.len() - i,
    {
        let m = &match_fields[i];
        let entry = get_match_field_pb(p4info, table_name, m.name, &m.value).unwrap();
        matches.push(entry);
        i = i + 1;
        proof {
            assert(match_fields@.take(i as int).drop_last() =~= match_fields@.take(i - 1));
        }
    }
    proof {
        assert(match_fields@.take(match_fields@.len() as int) =~= match_fields@);
    }
    TableEntry {
        table_id: get_table_id(p4info, table_name).unwrap(),
        matches,
        action: Some(TableAction { action }),
        priority,
        controller_metadata: metadata,
        meter_config: None,
        counter_data: None,
        is_default_action: default_action,
        idle_timeout_ns: 0,
        time_since_last_hit: None,
        metadata: buf_from_vec(Vec::new()),
    }
}

/// The kind of write for a table entry: the default action of a table can
/// only be modified, any other entry is written as asked.
pub open spec fn table_write_kind(default_action: bool, update: UpdateType) -> UpdateKind {
    if default_action {
        UpdateKind::Modify
    } else {
        update_kind_of(update)
    }
}

/// The number written for a table entry's write: a default action is
/// always modified (2); any other entry is written with P4Runtime's number
/// for the kind asked, an insert as 1, a modify as 2, a delete as 3.
pub proof fn lemma_table_write_numbers(default_action: bool, update: UpdateType)
    ensures
        update_kind_code(table_write_kind(default_action, update)) == (if default_action {
            2i32
        } else {
            match update {
                UpdateType::Unspecified => 0i32,
                UpdateType::Insert => 1i32,
                UpdateType::Modify => 2i32,
                UpdateType::Delete => 3i32,
            }
        }),
{
}

/// A write of `table_entry` to device `device_id`, as master with election
/// id 1.
pub fn new_write_table_entry(device_id: u64, table_entry: TableEntry, update: UpdateType) -> (r: WriteRequest)
    ensures
        r.device_id == device_id,
        r.role_id == 0,
        r.election_id == Some(Uint128 { high: 0, low: 1 }),
        r.atomicity == 0,
        r.updates@.len() == 1,
        r.updates@[0].update_type == update_kind_code(
            table_write_kind(table_entry.is_default_action, update),
        ),
        r.updates@[0].update_type == (if table_entry.is_default_action {
            2i32
        } else {
            match update {
                UpdateType::Unspecified => 0i32,
                UpdateType::Insert => 1i32,
                UpdateType::Modify => 2i32,
                UpdateType::Delete => 3i32,
            }
        }),
        r.updates@[0].entity == Some(Entity::TableEntry(table_entry)),
{
    let kind = if table_entry.is_default_action {
        UpdateKind::Modify
    } else {
        UpdateKind::from(update)
    };
    let mut updates: Vec<Update> = Vec::new();
    updates.push(Update { update_type: kind.code(), entity: Some(Entity::TableEntry(table_entry)) });
    WriteRequest {
        device_id,
        role_id: 0,
        election_id: Some(Uint128 { high: 0, low: 1 }),
        updates,
        atomicity: 0,
    }
}

/// A write of `entity` to device `device_id`, as master with election id 1.
pub fn new_set_entity_request(device_id: u64, entity: Entity, update_type: UpdateKind) -> (r: WriteRequest)
    ensures
        r.device_id == device_id,
        r.role_id == 0,
        r.election_id == Some(Uint128 { high: 0, low: 1 }),
        r.atomicity == 0,
        r.updates@.len() == 1,
        r.updates@[0].update_type == update_kind_code(update_type),
        r.updates@[0].entity == Some(entity),
{
    let mut updates: Vec<Update> = Vec::new();
    updates.push(Update { update_type: update_type.code(), entity: Some(entity) });
    WriteRequest {
        device_id,
        role_id: 0,
        election_id: Some(Uint128 { high: 0, low: 1 }),
        updates,
        atomicity: 0,
    }
}

/// A table entry as an entity.
pub fn table_entry_to_entity(table_entry: TableEntry) -> (r: Entity)
    ensures
        r == Entity::TableEntry(table_entry),
{
    Entity::TableEntry(table_entry)
}

/// The two bytes that carry a port: the low 16 bits, most significant first.
pub proof fn lemma_port_bytes(port: u32)
    ensures
        adjusted(be_bytes(port as nat, 4), 2, 0) == seq![((port / 256) % 256) as u8, (port % 256) as u8],
{
    lemma_pow256_values();
    let b = be_bytes(port as nat, 4);
    assert(b[2] == ((port as nat / 256) % 256) as u8);
    assert(b[3] == ((port as nat / 1) % 256) as u8);
    assert(adjusted(b, 2, 0) =~= seq![((port / 256) % 256) as u8, (port % 256) as u8]);
}

/// A packet for the switch to send out of port `egress_port`: the port goes
/// in the pipeconf's egress-port metadata field, as two bytes.
pub fn new_packet_out_request<T: Pipeconf>(pipeconf: &T, egress_port: u32, packet: bytes::Bytes) -> (r:
    StreamMessageRequest)
    ensures
        r matches StreamMessageRequest::Packet(po) && buf_view(po.payload) == buf_view(packet)
            && po.metadata@.len() == 1 && po.metadata@[0].metadata_id
            == pipeconf.spec_packetout_egress_id() && buf_view(po.metadata@[0].value) == adjusted(
            be_bytes(egress_port as nat, 4),
            2,
            0,
        ),
{
    proof {
        lemma_pow256_values();
    }
    let port_bytes = be_encode(egress_port as u128, 4);
    let value = adjust_value(buf_copy_from_slice(port_bytes.as_slice()), 2);
    let mut metadata: Vec<PacketMetadata> = Vec::new();
    metadata.push(PacketMetadata { metadata_id: pipeconf.get_packetout_egress_id(), value });
    StreamMessageRequest::Packet(PacketOut { payload: packet, metadata })
}

/// A bid to be master of device `device_id` with the option's election id.
pub fn new_master_update_request(device_id: u64, option: Bmv2MasterUpdateOption) -> (r: StreamMessageRequest)
    ensures
        r == StreamMessageRequest::Arbitration(
            MasterArbitrationUpdate {
                device_id,
                election_id: Some(Uint128 { high: option.election_id_high, low: option.election_id_low }),
            },
        ),
{
    StreamMessageRequest::Arbitration(
        MasterArbitrationUpdate {
            device_id,
            election_id: Some(Uint128 { high: option.election_id_high, low: option.election_id_low }),
        },
    )
}

/// The request that `device_id` verify and run the program of `p4info`, with
/// the target configuration `device_config` (the bytes of the target's
/// configuration file), on behalf of the controller that bid `master_arbitration`.
pub fn new_set_forwarding_pipeline_config_request(
    p4info: P4Info,
    device_config: Vec<u8>,
    master_arbitration: &MasterArbitrationUpdate,
    device_id: u64,
) -> (r: SetForwardingPipelineConfigRequest)
    ensures
        r.device_id == device_id,
        r.role_id == 0,
        r.election_id == master_arbitration.election_id,
        r.action == VERIFY_AND_COMMIT,
        r.config == Some(
            ForwardingPipelineConfig { p4info: Some(p4info), p4_device_config: device_config, cookie: None },
        ),
{
    SetForwardingPipelineConfigRequest {
        device_id,
        role_id: 0,
        election_id: master_arbitration.election_id,
        action: VERIFY_AND_COMMIT,
        config: Some(ForwardingPipelineConfig { p4info: Some(p4info), p4_device_config: device_config, cookie: None }),
    }
}

} // verus!
