//! Pipeconfs: a P4 program's P4Info with the ids of the metadata fields that
//! carry the port of packets exchanged with the controller.

use vstd::prelude::*;
use crate::p4info::{P4Info, first_where, lemma_first_where_step, lemma_first_where_none, str_eq};
use crate::pure::{
    cpm_stop, cpm_search_ok, spec_metadata_id, get_packout_egress_port_metaid,
    get_packin_egress_port_metaid,
};
use crate::util::{hash, str_hash};

verus! {

/// The id of a pipeconf: the hash of its name.
#[derive(Clone, Copy, Debug, PartialEq, Eq, Structural, Hash)]
pub struct PipeconfID(pub u64);

/// What the controller needs to know of the program a switch runs.
pub trait Pipeconf {
    /// The id that `get_id` returns.
    spec fn spec_id(&self) -> PipeconfID;

    /// The name that `get_name` returns.
    spec fn spec_name(&self) -> Seq<char>;

    /// The P4Info that `get_p4info` returns.
    spec fn spec_p4info(&self) -> P4Info;

    /// The path that `get_bmv2_file_path` returns.
    spec fn spec_bmv2_path(&self) -> Seq<char>;

    /// The id of the metadata field that carries the ingress port of packets
    /// sent to the controller.
    spec fn spec_packetin_ingress_id(&self) -> u32;

    /// The id of the metadata field that carries the egress port of packets
    /// sent from the controller.
    spec fn spec_packetout_egress_id(&self) -> u32;

    /// The pipeconf's id.
    fn get_id(&self) -> (r: PipeconfID)
        ensures
            r == self.spec_id(),
    ;

    /// The pipeconf's name.
    fn get_name(&self) -> (r: &str)
        ensures
            r@ == self.spec_name(),
    ;

    /// The P4Info of the program.
    fn get_p4info(&self) -> (r: &P4Info)
        ensures
            *r == self.spec_p4info(),
    ;

    /// The path of the switch program file.
    fn get_bmv2_file_path(&self) -> (r: &str)
        ensures
            r@ == self.spec_bmv2_path(),
    ;

    /// The id of the ingress-port field of packets sent to the controller.
    fn get_packetin_ingress_id(&self) -> (r: u32)
        ensures
            r == self.spec_packetin_ingress_id(),
    ;

    /// The id of the egress-port field of packets sent from the controller.
    fn get_packetout_egress_id(&self) -> (r: u32)
        ensures
            r == self.spec_packetout_egress_id(),
    ;
}

/// A behaviour that a pipeconf can offer to applications.
pub trait Behaviour {
}

/// A pipeconf read from a P4Info and the path of the switch's program file.
pub struct DefaultPipeconf {
    id: PipeconfID,
    name: String,
    p4info: P4Info,
    bmv2_json_file_path: String,
    pub packetout_egress_id: u32,
    pub packetin_ingress_id: u32,
}

/// Whether the search for the metadata header `name` can read the name of
/// every header it passes.
fn metadata_search_ok(p4info: &P4Info, name: &str) -> (r: bool)
    ensures
        r == cpm_search_ok(*p4info, name@),
{
    let ghost p = cpm_stop(name@);
    let ghost s = p4info.controller_packet_metadata@;
    let mut i: usize = 0;
    while i < p4info.controller_packet_metadata.len()
        invariant
            i <= s.len(),
            s == p4info.controller_packet_metadata@,
            p == cpm_stop(name@),
            forall|k: int| 0 <= k < i ==> !p(#[trigger] s[k]),
        decreases s.len() - i,
    {
        proof {
            lemma_first_where_step(s, p, i as int);
        }
        match &p4info.controller_packet_metadata[i].preamble {
            None => {
                return false;
            },
            Some(pre) => {
                if str_eq(pre.name.as_str(), name) {
                    return true;
                }
            },
        }
        i = i + 1;
    }
    proof {
        lemma_first_where_none(s, p);
    }
    true
}

/// The P4Info can give a pipeconf: both port fields of the controller's
/// packet metadata are found, and the searches for them can be made.
pub open spec fn pipeconf_ok(p: P4Info) -> bool {
    &&& cpm_search_ok(p, "packet_out"@)
    &&& cpm_search_ok(p, "packet_in"@)
    &&& spec_metadata_id(p, "packet_out"@, "egress_port"@) is Some
    &&& spec_metadata_id(p, "packet_in"@, "ingress_port"@) is Some
}

impl DefaultPipeconf {
    /// The pipeconf named `name` of a program with this P4Info, whose switch
    /// program is at `bmv2_file_path`; its id is the hash of the name. Gives
    /// `None` where a port field is missing.
    pub fn new(name: &str, p4info: P4Info, bmv2_file_path: &str) -> (r: Option<DefaultPipeconf>)
        ensures
            r is Some <==> pipeconf_ok(p4info),
            r matches Some(c) ==> {
                &&& c.spec_id() == PipeconfID(str_hash(name@))
                &&& c.spec_name() == name@
                &&& c.spec_p4info() == p4info
                &&& c.spec_bmv2_file_path() == bmv2_file_path@
                &&& Some(c.spec_packetout_egress_id()) == spec_metadata_id(
                    p4info,
                    "packet_out"@,
                    "egress_port"@,
                )
                &&& Some(c.spec_packetin_ingress_id()) == spec_metadata_id(
                    p4info,
                    "packet_in"@,
                    "ingress_port"@,
                )
            },
    {
        if !metadata_search_ok(&p4info, "packet_out") || !metadata_search_ok(&p4info, "packet_in") {
            return None;
        }
        let packetout_id = match get_packout_egress_port_metaid(&p4info) {
            Some(x) => x,
            None => {
                return None;
            },
        };
        let packetin_id = match get_packin_egress_port_metaid(&p4info) {
            Some(x) => x,
            None => {
                return None;
            },
        };
        let id = hash(name);
        Some(
            DefaultPipeconf {
                id: PipeconfID(id),
                name: name.to_owned(),
                p4info,
                bmv2_json_file_path: bmv2_file_path.to_owned(),
                packetout_egress_id: packetout_id,
                packetin_ingress_id: packetin_id,
            },
        )
    }

    /// The path of the switch program file.
    pub closed spec fn spec_bmv2_file_path(&self) -> Seq<char> {
        self.bmv2_json_file_path@
    }

    /// The P4Info of the program.
    pub fn get_p4info(&self) -> (r: &P4Info)
        ensures
            *r == self.spec_p4info(),
    {
        &self.p4info
    }

    /// The path of the switch program file.
    pub fn get_bmv2_file_path(&self) -> (r: &str)
        ensures
            r@ == self.spec_bmv2_file_path(),
    {
        self.bmv2_json_file_path.as_str()
    }

    /// The pipeconf's id.
    pub fn get_id(&self) -> (r: PipeconfID)
        ensures
            r == self.spec_id(),
    {
        self.id
    }
}

impl Pipeconf for DefaultPipeconf {
    closed spec fn spec_id(&self) -> PipeconfID {
        self.id
    }

    closed spec fn spec_name(&self) -> Seq<char> {
        self.name@
    }

    closed spec fn spec_p4info(&self) -> P4Info {
        self.p4info
    }

    closed spec fn spec_bmv2_path(&self) -> Seq<char> {
        self.bmv2_json_file_path@
    }

    closed spec fn spec_packetin_ingress_id(&self) -> u32 {
        self.packetin_ingress_id
    }

    closed spec fn spec_packetout_egress_id(&self) -> u32 {
        self.packetout_egress_id
    }

    fn get_id(&self) -> (r: PipeconfID) {
        self.id
    }

    fn get_name(&self) -> (r: &str) {
        self.name.as_str()
    }

    fn get_p4info(&self) -> (r: &P4Info) {
        &self.p4info
    }

    fn get_bmv2_file_path(&self) -> (r: &str) {
        self.bmv2_json_file_path.as_str()
    }

    fn get_packetin_ingress_id(&self) -> (r: u32) {
        self.packetin_ingress_id
    }

    fn get_packetout_egress_id(&self) -> (r: u32) {
        self.packetout_egress_id
    }
}

} // verus!
