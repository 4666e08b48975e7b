//! Flows: a table, the values matched on, and the action to run.

use vstd::prelude::*;
use std::sync::Arc;
use crate::value::{InnerValue, value_spec};
use crate::runtime::MatchSpec;
use crate::buffer::buf_view;
use crate::pipeconf::{DefaultPipeconf, Pipeconf};
use crate::pure::{build_table_entry, table_entry_ok, entry_built};
use crate::runtime::TableEntry;

verus! {

/// The match on one field of a flow, by the field's name.
#[derive(Clone, Debug, Hash)]
pub struct FlowMatch {
    pub name: &'static str,
    pub value: InnerValue,
}

/// A parameter of a flow's action, by the parameter's name.
#[derive(Debug, Hash)]
pub struct FlowActionParam {
    pub name: &'static str,
    pub value: bytes::Bytes,
}

/// The table of a flow and its key.
#[derive(Debug, Hash)]
pub struct FlowTable {
    pub name: &'static str,
    pub matches: Vec<FlowMatch>,
}

impl FlowTable {
    /// A table and its key.
    pub fn new(name: &'static str, matches: Vec<FlowMatch>) -> (r: FlowTable)
        ensures
            r.name == name,
            r.matches == matches,
    {
        FlowTable { name, matches }
    }
}

/// The action of a flow and its parameters.
#[derive(Debug, Hash)]
pub struct FlowAction {
    pub name: &'static str,
    pub params: Vec<FlowActionParam>,
}

/// A flow: where it goes, what it matches, what it does.
#[derive(Debug, Hash)]
pub struct Flow {
    pub table: Arc<FlowTable>,
    pub action: Arc<FlowAction>,
    pub priority: i32,
    pub metadata: u64,
}

/// What a flow holds: its names, match values and parameters by their
/// bytes, its priority and its metadata.
pub struct FlowView {
    pub table_name: Seq<char>,
    pub matches: Seq<(Seq<char>, MatchSpec)>,
    pub action_name: Seq<char>,
    pub params: Seq<(Seq<char>, Seq<u8>)>,
    pub priority: i32,
    pub metadata: u64,
}

impl View for Flow {
    type V = FlowView;

    open spec fn view(&self) -> FlowView {
        FlowView {
            table_name: self.table.name@,
            matches: self.table.matches@.map_values(|m: FlowMatch| (m.name@, value_spec(m.value))),
            action_name: self.action.name@,
            params: self.action.params@.map_values(|p: FlowActionParam| (p.name@, buf_view(p.value))),
            priority: self.priority,
            metadata: self.metadata,
        }
    }
}

impl Flow {
    /// The table entry of the flow on a switch running `pipeconf`, with the
    /// given controller metadata. Every name must be found and every value
    /// must suit its field.
    pub fn to_table_entry(&self, pipeconf: &DefaultPipeconf, metadata: u64) -> (r: TableEntry)
        requires
            table_entry_ok(
                pipeconf.spec_p4info(),
                self.table.name@,
                self.table.matches@,
                self.action.name@,
                self.action.params@,
            ),
        ensures
            entry_built(
                pipeconf.spec_p4info(),
                self.table.name@,
                self.table.matches@,
                false,
                self.action.name@,
                self.action.params@,
                self.priority,
                metadata,
                r,
            ),
    {
        build_table_entry(
            pipeconf.get_p4info(),
            self.table.name,
            self.table.matches.as_slice(),
            false,
            self.action.name,
            self.action.params.as_slice(),
            self.priority,
            metadata,
        )
    }
}

} // verus!
