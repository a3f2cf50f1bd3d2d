//! Joining a primary stream of payload and a metadata stream again.
//!
//! A payload unit and a metadata unit belong together when they have the
//! same offset. Whichever of the two arrives first waits; when the other
//! arrives, the two leave as one merged unit. Among waiting units of one
//! offset the oldest leaves first. At the end of the streams the payload
//! units that still wait leave without metadata, in the order in which they
//! came, and the metadata units that still wait are dropped: nothing waits
//! across the end of the streams.

pub mod laws;
pub mod streams;

use vstd::prelude::*;
use crate::klv::error::ParseError;
use crate::meta::{ExampleRsMetaParams, MetaModel};
use crate::metaklv::{dataset_params, from_bytes, read_packet};

verus! {

/// A payload unit with the metadata that belongs to it, as mathematics.
pub struct MergedModel<P> {
    pub offset: u64,
    pub payload: P,
    pub meta: Option<MetaModel>,
}

/// A payload unit with the metadata that belongs to it, if any.
pub struct Merged<P> {
    pub offset: u64,
    pub payload: P,
    pub meta: Option<ExampleRsMetaParams>,
}

impl<P> View for Merged<P> {
    type V = MergedModel<P>;

    open spec fn view(&self) -> MergedModel<P> {
        MergedModel {
            offset: self.offset,
            payload: self.payload,
            meta: match self.meta {
                Some(m) => Some(m@),
                None => None,
            },
        }
    }
}

/// The units that wait, as mathematics: payload and metadata, each with its
/// offset, in the order in which they came.
pub struct MuxModel<P> {
    pub payloads: Seq<(u64, P)>,
    pub metas: Seq<(u64, MetaModel)>,
}

/// The place of the first unit of `offset` among `waiting`, or their number
/// if there is none.
pub open spec fn first_at<T>(waiting: Seq<(u64, T)>, offset: u64) -> int
    decreases waiting.len(),
{
    if waiting.len() == 0 {
        0
    } else if waiting[0].0 == offset {
        0
    } else {
        1 + first_at(waiting.drop_first(), offset)
    }
}

/// Whether a unit of `offset` is among `waiting`.
pub open spec fn waits<T>(waiting: Seq<(u64, T)>, offset: u64) -> bool {
    exists|i: int| 0 <= i < waiting.len() && (#[trigger] waiting[i]).0 == offset
}

/// No offset waits on both sides.
pub open spec fn mux_wf<P>(m: MuxModel<P>) -> bool {
    forall|i: int, j: int|
        0 <= i < m.payloads.len() && 0 <= j < m.metas.len() ==> (#[trigger] m.payloads[i]).0 != (
        #[trigger] m.metas[j]).0
}

/// The multiplexer with nothing waiting.
pub open spec fn mux_empty<P>() -> MuxModel<P> {
    MuxModel { payloads: Seq::empty(), metas: Seq::empty() }
}

/// What the arrival of a payload unit makes of the waiting units, and the
/// merged unit that leaves, if one does.
pub open spec fn payload_arrives<P>(m: MuxModel<P>, offset: u64, payload: P) -> (
    MuxModel<P>,
    Option<MergedModel<P>>,
) {
    let j = first_at(m.metas, offset);
    if j < m.metas.len() {
        (
            MuxModel { payloads: m.payloads, metas: m.metas.remove(j) },
            Some(MergedModel { offset, payload, meta: Some(m.metas[j].1) }),
        )
    } else {
        (MuxModel { payloads: m.payloads.push((offset, payload)), metas: m.metas }, None)
    }
}

/// What the arrival of a metadata unit makes of the waiting units, and the
/// merged unit that leaves, if one does.
pub open spec fn metadata_arrives<P>(m: MuxModel<P>, offset: u64, meta: MetaModel) -> (
    MuxModel<P>,
    Option<MergedModel<P>>,
) {
    let i = first_at(m.payloads, offset);
    if i < m.payloads.len() {
        (
            MuxModel { payloads: m.payloads.remove(i), metas: m.metas },
            Some(MergedModel { offset, payload: m.payloads[i].1, meta: Some(meta) }),
        )
    } else {
        (MuxModel { payloads: m.payloads, metas: m.metas.push((offset, meta)) }, None)
    }
}

/// The units that leave at the end of the streams: the waiting payload
/// units, without metadata.
pub open spec fn flushed<P>(m: MuxModel<P>) -> Seq<MergedModel<P>> {
    m.payloads.map_values(
        |u: (u64, P)| MergedModel { offset: u.0, payload: u.1, meta: None::<MetaModel> },
    )
}

/// The units of `v`, as mathematics.
pub open spec fn merged_models<P>(v: Seq<Merged<P>>) -> Seq<MergedModel<P>> {
    v.map_values(|m: Merged<P>| m@)
}

/// The first unit of an offset stands where `first_at` says, if there is one.
pub proof fn lemma_first_at<T>(waiting: Seq<(u64, T)>, offset: u64)
    ensures
        0 <= first_at(waiting, offset) <= waiting.len(),
        forall|i: int| 0 <= i < first_at(waiting, offset) ==> (#[trigger] waiting[i]).0 != offset,
        first_at(waiting, offset) < waiting.len() ==> waiting[first_at(waiting, offset)].0
            == offset,
        first_at(waiting, offset) < waiting.len() <==> waits(waiting, offset),
    decreases waiting.len(),
{
    if waiting.len() > 0 && waiting[0].0 != offset {
        let rest = waiting.drop_first();
        lemma_first_at(rest, offset);
        assert forall|i: int| 0 <= i < first_at(waiting, offset) implies (#[trigger] waiting[i]).0
            != offset by {
            if i > 0 {
                assert(waiting[i] == rest[i - 1]);
            }
        }
        if first_at(waiting, offset) < waiting.len() {
            assert(waiting[first_at(waiting, offset)] == rest[first_at(rest, offset)]);
        }
        if waits(waiting, offset) {
            let k = choose|k: int| 0 <= k < waiting.len() && (#[trigger] waiting[k]).0 == offset;
            assert(rest[k - 1] == waiting[k]);
        }
    } else if waiting.len() > 0 {
        assert(waiting[0].0 == offset);
    }
}

/// A metadata unit that waits.
struct PendingMeta {
    offset: u64,
    params: ExampleRsMetaParams,
}

/// The waiting metadata units of `v`, as mathematics.
spec fn meta_models(v: Seq<PendingMeta>) -> Seq<(u64, MetaModel)> {
    v.map_values(|u: PendingMeta| (u.offset, u.params@))
}

/// The multiplexer's own state: the units that wait for their other half.
pub struct MetaMux<P> {
    payloads: Vec<(u64, P)>,
    metas: Vec<PendingMeta>,
}

impl<P> View for MetaMux<P> {
    type V = MuxModel<P>;

    closed spec fn view(&self) -> MuxModel<P> {
        MuxModel { payloads: self.payloads@, metas: meta_models(self.metas@) }
    }
}

/// The place of the first unit of `offset` among `waiting`, if there is one.
fn find_payload<P>(waiting: &Vec<(u64, P)>, offset: u64) -> (r: Option<usize>)
    ensures
        match r {
            Some(i) => i == first_at(waiting@, offset) && i < waiting@.len(),
            None => first_at(waiting@, offset) == waiting@.len(),
        },
{
    proof {
        lemma_first_at(waiting@, offset);
    }
    let n = waiting.len();
    let mut i: usize = 0;
    while i < n
        invariant
            n == waiting@.len(),
            i <= n,
            forall|k: int| 0 <= k < i ==> (#[trigger] waiting@[k]).0 != offset,
            0 <= first_at(waiting@, offset) <= n,
            forall|k: int|
                0 <= k < first_at(waiting@, offset) ==> (#[trigger] waiting@[k]).0 != offset,
            first_at(waiting@, offset) < n ==> waiting@[first_at(waiting@, offset)].0 == offset,
        decreases n - i,
    {
        if waiting[i].0 == offset {
            return Some(i);
        }
        i += 1;
    }
    None
}

/// The place of the first metadata unit of `offset` among `waiting`, if
/// there is one.
fn find_meta(waiting: &Vec<PendingMeta>, offset: u64) -> (r: Option<usize>)
    ensures
        match r {
            Some(j) => j == first_at(meta_models(waiting@), offset) && j < waiting@.len(),
            None => first_at(meta_models(waiting@), offset) == waiting@.len(),
        },
{
    let ghost models = meta_models(waiting@);
    proof {
        lemma_first_at(models, offset);
    }
    let n = waiting.len();
    let mut j: usize = 0;
    while j < n
        invariant
            n == waiting@.len(),
            models == meta_models(waiting@),
            j <= n,
            forall|k: int| 0 <= k < j ==> (#[trigger] models[k]).0 != offset,
            0 <= first_at(models, offset) <= n,
            forall|k: int| 0 <= k < first_at(models, offset) ==> (#[trigger] models[k]).0 != offset,
            first_at(models, offset) < n ==> models[first_at(models, offset)].0 == offset,
        decreases n - j,
    {
        assert(models[j as int].0 == waiting@[j as int].offset);
        if waiting[j].offset == offset {
            return Some(j);
        }
        j += 1;
    }
    None
}

impl<P> MetaMux<P> {
    #[verifier::type_invariant]
    spec fn wf(self) -> bool {
        mux_wf(self@)
    }

    /// A multiplexer with nothing waiting.
    pub fn new() -> (m: MetaMux<P>)
        ensures
            m@ == mux_empty::<P>(),
    {
        let m = MetaMux { payloads: Vec::new(), metas: Vec::new() };
        assert(m@.metas =~= Seq::<(u64, MetaModel)>::empty());
        m
    }

    /// The number of payload units that wait.
    pub fn pending_payloads(&self) -> (n: usize)
        ensures
            n == self@.payloads.len(),
            mux_wf(self@),
    {
        proof {
            use_type_invariant(self);
        }
        self.payloads.len()
    }

    /// The number of metadata units that wait.
    pub fn pending_metadata(&self) -> (n: usize)
        ensures
            n == self@.metas.len(),
            mux_wf(self@),
    {
        proof {
            use_type_invariant(self);
        }
        self.metas.len()
    }

    /// A payload unit arrives. If metadata of its offset waits, the oldest
    /// such leaves with it as a merged unit; else the payload unit waits.
    pub fn push_payload(&mut self, offset: u64, payload: P) -> (out: Option<Merged<P>>)
        ensures
            final(self)@ == payload_arrives(old(self)@, offset, payload).0,
            match payload_arrives(old(self)@, offset, payload).1 {
                Some(merged) => out is Some && out->Some_0@ == merged,
                None => out is None,
            },
    {
        proof {
            use_type_invariant(&*self);
        }
        let ghost before = self@;
        let mut taken = MetaMux::new();
        std::mem::swap(&mut taken, self);
        let MetaMux { mut payloads, mut metas } = taken;
        match find_meta(&metas, offset) {
            Some(j) => {
                let found = metas.remove(j);
                proof {
                    lemma_first_at(before.metas, offset);
                    assert(meta_models(metas@) =~= before.metas.remove(j as int));
                }
                *self = MetaMux { payloads, metas };
                Some(Merged { offset: found.offset, payload, meta: Some(found.params) })
            },
            None => {
                proof {
                    lemma_first_at(before.metas, offset);
                }
                payloads.push((offset, payload));
                *self = MetaMux { payloads, metas };
                None
            },
        }
    }

    /// A metadata unit arrives. If a payload unit of its offset waits, the
    /// oldest such leaves with it as a merged unit; else the metadata waits.
    pub fn push_metadata(&mut self, offset: u64, meta: ExampleRsMetaParams) -> (out: Option<
        Merged<P>,
    >)
        ensures
            final(self)@ == metadata_arrives(old(self)@, offset, meta@).0,
            match metadata_arrives(old(self)@, offset, meta@).1 {
                Some(merged) => out is Some && out->Some_0@ == merged,
                None => out is None,
            },
    {
        proof {
            use_type_invariant(&*self);
        }
        let ghost before = self@;
        let mut taken = MetaMux::new();
        std::mem::swap(&mut taken, self);
        let MetaMux { mut payloads, mut metas } = taken;
        match find_payload(&payloads, offset) {
            Some(i) => {
                let found = payloads.remove(i);
                proof {
                    lemma_first_at(before.payloads, offset);
                }
                *self = MetaMux { payloads, metas };
                Some(Merged { offset: found.0, payload: found.1, meta: Some(meta) })
            },
            None => {
                proof {
                    lemma_first_at(before.payloads, offset);
                    assert(meta_models(metas@.push(PendingMeta { offset, params: meta }))
                        =~= before.metas.push((offset, meta@)));
                }
                metas.push(PendingMeta { offset, params: meta });
                *self = MetaMux { payloads, metas };
                None
            },
        }
    }

    /// A metadata unit arrives as a packet. A packet that cannot be read is
    /// refused with the reason, and nothing changes: the payload unit of its
    /// offset will leave without metadata at the end of the streams.
    pub fn push_packet(&mut self, offset: u64, packet: &[u8]) -> (out: Result<
        Option<Merged<P>>,
        ParseError,
    >)
        ensures
            match read_packet(packet@) {
                Err(e) => out is Err && out->Err_0 == e && final(self)@ == old(self)@,
                Ok(d) => {
                    &&& out is Ok
                    &&& final(self)@ == metadata_arrives(old(self)@, offset, dataset_params(d)).0
                    &&& match metadata_arrives(old(self)@, offset, dataset_params(d)).1 {
                        Some(merged) => out->Ok_0 is Some && out->Ok_0->Some_0@ == merged,
                        None => out->Ok_0 is None,
                    }
                },
            },
    {
        match from_bytes(packet) {
            Err(e) => Err(e),
            Ok(meta) => Ok(self.push_metadata(offset, meta)),
        }
    }

    /// The streams are at their end. The payload units that wait leave
    /// without metadata, in the order in which they came; the metadata units
    /// that wait are dropped. Nothing waits afterwards.
    pub fn end_of_stream(&mut self) -> (out: Vec<Merged<P>>)
        ensures
            final(self)@ == mux_empty::<P>(),
            merged_models(out@) == flushed(old(self)@),
    {
        let ghost before = self@;
        let mut taken = MetaMux::new();
        std::mem::swap(&mut taken, self);
        let MetaMux { mut payloads, metas: _ } = taken;
        let n = payloads.len();
        let mut reversed: Vec<(u64, P)> = Vec::new();
        while payloads.len() > 0
            invariant
                n == before.payloads.len(),
                reversed@.len() + payloads@.len() == n,
                payloads@ == before.payloads.take(payloads@.len() as int),
                forall|k: int|
                    0 <= k < reversed@.len() ==> #[trigger] reversed@[k] == before.payloads[n - 1
                        - k],
            decreases payloads@.len(),
        {
            let unit = payloads.pop().unwrap();
            reversed.push(unit);
            assert(payloads@ =~= before.payloads.take(payloads@.len() as int));
        }
        let mut out: Vec<Merged<P>> = Vec::new();
        while reversed.len() > 0
            invariant
                n == before.payloads.len(),
                out@.len() + reversed@.len() == n,
                forall|k: int|
                    0 <= k < reversed@.len() ==> #[trigger] reversed@[k] == before.payloads[n - 1
                        - k],
                forall|k: int|
                    0 <= k < out@.len() ==> (#[trigger] out@[k])@ == flushed(before)[k],
            decreases reversed@.len(),
        {
            let unit = reversed.pop().unwrap();
            out.push(Merged { offset: unit.0, payload: unit.1, meta: None });
        }
        assert(merged_models(out@) =~= flushed(before));
        out
    }
}

} // verus!
