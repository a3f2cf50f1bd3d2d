//! Splitting a stream whose units may carry metadata into a primary stream
//! of payload and a metadata stream of packets.
//!
//! The metadata stream does not exist until the first unit with metadata
//! arrives; from then on it exists for good. Every unit goes to the primary
//! stream first. A unit with metadata then yields a packet for the metadata
//! stream, with the timing and the offset of the unit, by which the two are
//! found to belong together downstream. The packet is pushed only if the
//! stream is still in order after the push on the primary stream.

use vstd::prelude::*;
use crate::flow::{reported, FlowCombiner, FlowStatus};
use crate::klv::error::EncodeError;
use crate::klv::wire::packet;
use crate::meta::ExampleRsMetaParams;
use crate::metaklv::{dataset_records, encodable, encode_klv_params, params_dataset};

verus! {

/// When a unit is due, how long it lasts, and its place in its stream.
#[derive(Clone, Copy, Debug, PartialEq, Eq, Structural)]
pub struct Timing {
    pub pts: Option<u64>,
    pub dts: Option<u64>,
    pub duration: Option<u64>,
    pub offset: u64,
}

/// A unit of the metadata stream: a packet and the timing of the payload
/// unit that it belongs to.
#[derive(Debug)]
pub struct MetaUnit {
    pub packet: Vec<u8>,
    pub timing: Timing,
}

/// Whether the metadata stream exists.
#[derive(Clone, Copy, Debug, PartialEq, Eq, Structural)]
pub enum State {
    NoMetaStreamCreated,
    MetaStreamCreated,
}

/// What to do with one unit.
#[derive(Debug)]
pub enum DemuxPlan {
    /// Push the unit on the primary stream.
    Primary,
    /// Create the metadata stream if `create` says so, push the unit on the
    /// primary stream and then, if the stream is still in order, `unit` on the
    /// metadata stream.
    Both { create: bool, unit: MetaUnit },
}

/// The kinds of event that are told apart.
#[derive(Clone, Copy, Debug, PartialEq, Eq, Structural)]
pub enum EventKind {
    Segment,
    Eos,
    Other,
}

/// Where an event goes.
#[derive(Clone, Copy, Debug, PartialEq, Eq, Structural)]
pub enum EventRoute {
    /// To every output stream, and it is kept, to start a metadata stream
    /// that is created later with the same segment.
    KeepAndAll,
    /// To every output stream.
    All,
    /// To the primary stream.
    Primary,
}

/// The number of the primary path.
pub const PRIMARY_PATH: usize = 0;

/// The number of the metadata path, once it exists.
pub const METADATA_PATH: usize = 1;

/// The demultiplexer, as mathematics: whether the metadata stream exists,
/// and the last status of each output path.
pub struct DemuxModel {
    pub state: State,
    pub paths: Seq<FlowStatus>,
}

/// The demultiplexer's own state.
pub struct MetaDemux {
    state: State,
    combiner: FlowCombiner,
}

impl View for MetaDemux {
    type V = DemuxModel;

    closed spec fn view(&self) -> DemuxModel {
        DemuxModel { state: self.state, paths: self.combiner@ }
    }
}

/// The paths are the primary one and, once it exists, the metadata one.
pub open spec fn demux_wf(m: DemuxModel) -> bool {
    m.paths.len() == (if m.state == State::MetaStreamCreated {
        2int
    } else {
        1int
    })
}

impl MetaDemux {
    #[verifier::type_invariant]
    spec fn wf(self) -> bool {
        demux_wf(self@)
    }

    /// A demultiplexer without metadata stream, its primary path in order.
    pub fn new() -> (d: MetaDemux)
        ensures
            d@ == (DemuxModel { state: State::NoMetaStreamCreated, paths: seq![FlowStatus::Success] }),
    {
        let mut combiner = FlowCombiner::new();
        combiner.add_path();
        assert(combiner@ =~= seq![FlowStatus::Success]);
        MetaDemux { state: State::NoMetaStreamCreated, combiner }
    }

    /// Whether the metadata stream exists.
    pub fn state(&self) -> (s: State)
        ensures
            s == self@.state,
            demux_wf(self@),
    {
        proof {
            use_type_invariant(self);
        }
        self.state
    }

    /// Where an event that arrives on the input goes.
    pub fn sink_event(kind: EventKind) -> (route: EventRoute)
        ensures
            route == match kind {
                EventKind::Segment => EventRoute::KeepAndAll,
                EventKind::Eos => EventRoute::All,
                EventKind::Other => EventRoute::Primary,
            },
    {
        match kind {
            EventKind::Segment => EventRoute::KeepAndAll,
            EventKind::Eos => EventRoute::All,
            EventKind::Other => EventRoute::Primary,
        }
    }

    /// Decides what to do with a unit of the given timing that carries
    /// `meta`. A unit whose metadata cannot be written, because its label is
    /// too long, is refused, and nothing changes.
    pub fn sink_klv(&mut self, meta: Option<&ExampleRsMetaParams>, timing: Timing) -> (r: Result<
        DemuxPlan,
        EncodeError,
    >)
        ensures
            meta is None ==> r is Ok && r->Ok_0 is Primary && final(self)@ == old(self)@,
            meta is Some && !encodable(params_dataset(meta->Some_0@)) ==> r == Err::<
                DemuxPlan,
                EncodeError,
            >(EncodeError::ValueTooLong) && final(self)@ == old(self)@,
            meta is Some && encodable(params_dataset(meta->Some_0@)) ==> {
                &&& r is Ok
                &&& r->Ok_0 is Both
                &&& r->Ok_0->create == (old(self)@.state == State::NoMetaStreamCreated)
                &&& r->Ok_0->unit.packet@ == packet(
                    dataset_records(params_dataset(meta->Some_0@)),
                )
                &&& r->Ok_0->unit.timing == timing
                &&& final(self)@.state == State::MetaStreamCreated
                &&& final(self)@.paths == if old(self)@.state == State::NoMetaStreamCreated {
                    old(self)@.paths.push(FlowStatus::Success)
                } else {
                    old(self)@.paths
                }
            },
    {
        proof {
            use_type_invariant(&*self);
        }
        let meta = match meta {
            None => {
                return Ok(DemuxPlan::Primary);
            },
            Some(meta) => meta,
        };
        let packet = match encode_klv_params(meta) {
            Ok(packet) => packet,
            Err(e) => {
                return Err(e);
            },
        };
        let create = match self.state {
            State::NoMetaStreamCreated => true,
            State::MetaStreamCreated => false,
        };
        if create {
            let mut taken = MetaDemux::new();
            std::mem::swap(&mut taken, self);
            let MetaDemux { state: _, mut combiner } = taken;
            combiner.add_path();
            *self = MetaDemux { state: State::MetaStreamCreated, combiner };
        }
        Ok(DemuxPlan::Both { create, unit: MetaUnit { packet, timing } })
    }

    /// Records the status of the push on the primary stream and returns the
    /// status of the whole. The metadata unit is pushed only if this is
    /// `Success`; any other status is the status of the unit.
    pub fn primary_pushed(&mut self, status: FlowStatus) -> (s: FlowStatus)
        ensures
            final(self)@.state == old(self)@.state,
            final(self)@.paths == old(self)@.paths.update(PRIMARY_PATH as int, status),
            s == reported(status, final(self)@.paths),
    {
        proof {
            use_type_invariant(&*self);
        }
        let mut taken = MetaDemux::new();
        std::mem::swap(&mut taken, self);
        let MetaDemux { state, mut combiner } = taken;
        let s = combiner.update(PRIMARY_PATH, status);
        *self = MetaDemux { state, combiner };
        s
    }

    /// Records the status of the push on the metadata stream and returns the
    /// status of the whole, which is the status of the unit. Without a
    /// metadata stream nothing is recorded.
    pub fn metadata_pushed(&mut self, status: FlowStatus) -> (s: FlowStatus)
        ensures
            final(self)@.state == old(self)@.state,
            final(self)@.paths == if old(self)@.state == State::MetaStreamCreated {
                old(self)@.paths.update(METADATA_PATH as int, status)
            } else {
                old(self)@.paths
            },
            s == reported(status, final(self)@.paths),
    {
        proof {
            use_type_invariant(&*self);
        }
        let mut taken = MetaDemux::new();
        std::mem::swap(&mut taken, self);
        let MetaDemux { state, mut combiner } = taken;
        let s = combiner.update(METADATA_PATH, status);
        *self = MetaDemux { state, combiner };
        s
    }
}

} // verus!
