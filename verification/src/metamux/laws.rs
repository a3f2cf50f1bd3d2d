//! What holds of the multiplexer over a whole run.
//!
//! A run is the sequence of arrivals from the start of the streams. The laws
//! are stated for runs in which no offset arrives twice on one side.

use vstd::prelude::*;
use crate::klv::error::ParseError;
use crate::klv::wire::packet;
use crate::meta::MetaModel;
use crate::metaklv::{
    dataset_params, dataset_records, encodable, law_packet_round_trip, params_dataset,
    read_packet, DatasetModel,
};
use crate::metamux::{
    first_at, lemma_first_at, metadata_arrives, mux_empty, mux_wf, payload_arrives, waits,
    MergedModel, MuxModel,
};

verus! {

/// One arrival.
pub enum MuxEvent<P> {
    Payload(u64, P),
    Metadata(u64, MetaModel),
}

/// What an arrival makes of the waiting units, and the merged unit that
/// leaves, if one does.
pub open spec fn arrives<P>(m: MuxModel<P>, e: MuxEvent<P>) -> (
    MuxModel<P>,
    Option<MergedModel<P>>,
) {
    match e {
        MuxEvent::Payload(offset, payload) => payload_arrives(m, offset, payload),
        MuxEvent::Metadata(offset, meta) => metadata_arrives(m, offset, meta),
    }
}

/// The units that wait after the arrivals, and the merged units that have
/// left, in the order in which they left.
pub open spec fn run<P>(events: Seq<MuxEvent<P>>) -> (MuxModel<P>, Seq<MergedModel<P>>)
    decreases events.len(),
{
    if events.len() == 0 {
        (mux_empty(), Seq::empty())
    } else {
        let (m, out) = run(events.drop_last());
        let (next, left) = arrives(m, events.last());
        (
            next,
            match left {
                Some(merged) => out.push(merged),
                None => out,
            },
        )
    }
}

/// The side and the offset of an arrival.
pub open spec fn side_offset<P>(e: MuxEvent<P>) -> (bool, u64) {
    match e {
        MuxEvent::Payload(offset, _) => (true, offset),
        MuxEvent::Metadata(offset, _) => (false, offset),
    }
}

/// No offset arrives twice on one side.
pub open spec fn distinct_events<P>(events: Seq<MuxEvent<P>>) -> bool {
    forall|i: int, j: int|
        0 <= i < events.len() && 0 <= j < events.len() && i != j ==> side_offset(
            #[trigger] events[i],
        ) != side_offset(#[trigger] events[j])
}

/// A payload unit of `offset` is among the arrivals.
pub open spec fn payload_seen<P>(events: Seq<MuxEvent<P>>, offset: u64) -> bool {
    exists|i: int| 0 <= i < events.len() && side_offset(#[trigger] events[i]) == (true, offset)
}

/// A metadata unit of `offset` is among the arrivals.
pub open spec fn meta_seen<P>(events: Seq<MuxEvent<P>>, offset: u64) -> bool {
    exists|i: int| 0 <= i < events.len() && side_offset(#[trigger] events[i]) == (false, offset)
}

/// A merged unit of `offset` has left.
pub open spec fn emitted<P>(out: Seq<MergedModel<P>>, offset: u64) -> bool {
    exists|k: int| 0 <= k < out.len() && (#[trigger] out[k]).offset == offset
}

/// No offset occurs twice among the units.
pub open spec fn distinct_offsets<T>(s: Seq<(u64, T)>) -> bool {
    forall|i: int, j: int|
        0 <= i < s.len() && 0 <= j < s.len() && i != j ==> (#[trigger] s[i]).0 != (#[trigger] s[j]).0
}

/// No offset occurs twice among the merged units.
pub open spec fn distinct_merged<P>(out: Seq<MergedModel<P>>) -> bool {
    forall|i: int, j: int|
        0 <= i < out.len() && 0 <= j < out.len() && i != j ==> (#[trigger] out[i]).offset != (
        #[trigger] out[j]).offset
}

/// Which offsets wait and which have left, by what has arrived.
pub open spec fn sorted_out<P>(
    events: Seq<MuxEvent<P>>,
    m: MuxModel<P>,
    out: Seq<MergedModel<P>>,
) -> bool {
    &&& forall|o: u64| #[trigger]
        waits(m.payloads, o) <==> payload_seen(events, o) && !meta_seen(events, o)
    &&& forall|o: u64| #[trigger]
        waits(m.metas, o) <==> meta_seen(events, o) && !payload_seen(events, o)
    &&& forall|o: u64| #[trigger] emitted(out, o) <==> payload_seen(events, o) && meta_seen(events, o)
}

/// Every unit that waits or has left is made of what arrived.
pub open spec fn faithful<P>(
    events: Seq<MuxEvent<P>>,
    m: MuxModel<P>,
    out: Seq<MergedModel<P>>,
) -> bool {
    &&& forall|i: int|
        0 <= i < m.payloads.len() ==> events.contains(
            MuxEvent::<P>::Payload((#[trigger] m.payloads[i]).0, m.payloads[i].1),
        )
    &&& forall|j: int|
        0 <= j < m.metas.len() ==> events.contains(
            MuxEvent::<P>::Metadata((#[trigger] m.metas[j]).0, m.metas[j].1),
        )
    &&& forall|k: int|
        0 <= k < out.len() ==> (#[trigger] out[k]).meta is Some && events.contains(
            MuxEvent::<P>::Payload(out[k].offset, out[k].payload),
        ) && events.contains(MuxEvent::<P>::Metadata(out[k].offset, out[k].meta->Some_0))
}

/// What holds after every run without repeated offsets.
pub open spec fn paired<P>(
    events: Seq<MuxEvent<P>>,
    m: MuxModel<P>,
    out: Seq<MergedModel<P>>,
) -> bool {
    &&& sorted_out(events, m, out)
    &&& faithful(events, m, out)
    &&& distinct_offsets(m.payloads)
    &&& distinct_offsets(m.metas)
    &&& distinct_merged(out)
    &&& 2 * out.len() + m.payloads.len() + m.metas.len() == events.len()
}

proof fn lemma_seen_push<P>(events: Seq<MuxEvent<P>>, e: MuxEvent<P>, o: u64)
    ensures
        payload_seen(events.push(e), o) <==> payload_seen(events, o) || side_offset(e) == (true, o),
        meta_seen(events.push(e), o) <==> meta_seen(events, o) || side_offset(e) == (false, o),
{
    let more = events.push(e);
    assert(more[events.len() as int] == e);
    if payload_seen(events, o) {
        let i = choose|i: int|
            0 <= i < events.len() && side_offset(#[trigger] events[i]) == (true, o);
        assert(more[i] == events[i]);
    }
    if meta_seen(events, o) {
        let i = choose|i: int|
            0 <= i < events.len() && side_offset(#[trigger] events[i]) == (false, o);
        assert(more[i] == events[i]);
    }
    if payload_seen(more, o) {
        let i = choose|i: int| 0 <= i < more.len() && side_offset(#[trigger] more[i]) == (true, o);
        if i < events.len() {
            assert(more[i] == events[i]);
        }
    }
    if meta_seen(more, o) {
        let i = choose|i: int| 0 <= i < more.len() && side_offset(#[trigger] more[i]) == (false, o);
        if i < events.len() {
            assert(more[i] == events[i]);
        }
    }
}

proof fn lemma_contains_push<P>(events: Seq<MuxEvent<P>>, e: MuxEvent<P>, x: MuxEvent<P>)
    ensures
        events.contains(x) ==> events.push(e).contains(x),
        events.push(e).contains(e),
{
    let more = events.push(e);
    assert(more[events.len() as int] == e);
    if events.contains(x) {
        let i = choose|i: int| 0 <= i < events.len() && events[i] == x;
        assert(more[i] == x);
    }
}

proof fn lemma_waits_push<T>(s: Seq<(u64, T)>, o: u64, t: T, other: u64)
    ensures
        waits(s.push((o, t)), other) <==> waits(s, other) || other == o,
        distinct_offsets(s) && !waits(s, o) ==> distinct_offsets(s.push((o, t))),
{
    let more = s.push((o, t));
    assert(more[s.len() as int] == (o, t));
    if waits(s, other) {
        let i = choose|i: int| 0 <= i < s.len() && (#[trigger] s[i]).0 == other;
        assert(more[i] == s[i]);
    }
    if waits(more, other) {
        let i = choose|i: int| 0 <= i < more.len() && (#[trigger] more[i]).0 == other;
        if i < s.len() {
            assert(more[i] == s[i]);
        }
    }
    if distinct_offsets(s) && !waits(s, o) {
        assert forall|i: int, j: int|
            0 <= i < more.len() && 0 <= j < more.len() && i != j implies (#[trigger] more[i]).0 != (
            #[trigger] more[j]).0 by {
            if i < s.len() {
                assert(more[i] == s[i]);
            }
            if j < s.len() {
                assert(more[j] == s[j]);
            }
        }
    }
}

proof fn lemma_waits_remove<T>(s: Seq<(u64, T)>, at: int, other: u64)
    requires
        distinct_offsets(s),
        0 <= at < s.len(),
    ensures
        waits(s.remove(at), other) <==> waits(s, other) && other != s[at].0,
        distinct_offsets(s.remove(at)),
        forall|i: int| 0 <= i < s.remove(at).len() ==> s.contains(#[trigger] s.remove(at)[i]),
{
    let less = s.remove(at);
    assert forall|i: int| 0 <= i < less.len() implies less[i] == s[if i < at {
        i
    } else {
        i + 1
    }] by {}
    if waits(s, other) && other != s[at].0 {
        let i = choose|i: int| 0 <= i < s.len() && (#[trigger] s[i]).0 == other;
        if i < at {
            assert(less[i] == s[i]);
        } else {
            assert(less[i - 1] == s[i]);
        }
    }
    if waits(less, other) {
        let i = choose|i: int| 0 <= i < less.len() && (#[trigger] less[i]).0 == other;
        let k = if i < at {
            i
        } else {
            i + 1
        };
        assert(less[i] == s[k]);
    }
    assert forall|i: int, j: int|
        0 <= i < less.len() && 0 <= j < less.len() && i != j implies (#[trigger] less[i]).0 != (
        #[trigger] less[j]).0 by {
        let a = if i < at {
            i
        } else {
            i + 1
        };
        let b = if j < at {
            j
        } else {
            j + 1
        };
        assert(less[i] == s[a] && less[j] == s[b]);
    }
    assert forall|i: int| 0 <= i < less.len() implies s.contains(#[trigger] less[i]) by {
        let a = if i < at {
            i
        } else {
            i + 1
        };
        assert(less[i] == s[a]);
    }
}

proof fn lemma_emitted_push<P>(out: Seq<MergedModel<P>>, x: MergedModel<P>, o: u64)
    ensures
        emitted(out.push(x), o) <==> emitted(out, o) || x.offset == o,
        distinct_merged(out) && !emitted(out, x.offset) ==> distinct_merged(out.push(x)),
{
    let more = out.push(x);
    assert(more[out.len() as int] == x);
    if emitted(out, o) {
        let k = choose|k: int| 0 <= k < out.len() && (#[trigger] out[k]).offset == o;
        assert(more[k] == out[k]);
    }
    if emitted(more, o) {
        let k = choose|k: int| 0 <= k < more.len() && (#[trigger] more[k]).offset == o;
        if k < out.len() {
            assert(more[k] == out[k]);
        }
    }
    if distinct_merged(out) && !emitted(out, x.offset) {
        assert forall|i: int, j: int|
            0 <= i < more.len() && 0 <= j < more.len() && i != j implies (
        #[trigger] more[i]).offset != (#[trigger] more[j]).offset by {
            if i < out.len() {
                assert(more[i] == out[i]);
            }
            if j < out.len() {
                assert(more[j] == out[j]);
            }
        }
    }
}

/// An offset that arrives was not seen on its side before.
proof fn lemma_new_offset<P>(events: Seq<MuxEvent<P>>, e: MuxEvent<P>)
    requires
        distinct_events(events.push(e)),
    ensures
        distinct_events(events),
        side_offset(e).0 ==> !payload_seen(events, side_offset(e).1),
        !side_offset(e).0 ==> !meta_seen(events, side_offset(e).1),
{
    let more = events.push(e);
    let n = events.len() as int;
    assert(more[n] == e);
    assert forall|i: int, j: int|
        0 <= i < events.len() && 0 <= j < events.len() && i != j implies side_offset(
        #[trigger] events[i],
    ) != side_offset(#[trigger] events[j]) by {
        assert(more[i] == events[i] && more[j] == events[j]);
    }
    assert forall|i: int| 0 <= i < events.len() implies side_offset(#[trigger] events[i])
        != side_offset(e) by {
        assert(more[i] == events[i]);
        assert(side_offset(more[i]) != side_offset(more[n]));
    }
}

/// One more arrival keeps what holds of a run.
proof fn lemma_step<P>(
    events: Seq<MuxEvent<P>>,
    m: MuxModel<P>,
    out: Seq<MergedModel<P>>,
    e: MuxEvent<P>,
)
    requires
        paired(events, m, out),
        distinct_events(events.push(e)),
    ensures
        paired(
            events.push(e),
            arrives(m, e).0,
            match arrives(m, e).1 {
                Some(merged) => out.push(merged),
                None => out,
            },
        ),
{
    let more = events.push(e);
    let next = arrives(m, e).0;
    let left = arrives(m, e).1;
    let after = match left {
        Some(merged) => out.push(merged),
        None => out,
    };
    lemma_new_offset(events, e);
    assert forall|x: MuxEvent<P>| events.contains(x) implies more.contains(x) by {
        lemma_contains_push(events, e, x);
    }
    lemma_contains_push(events, e, e);
    match e {
        MuxEvent::Payload(offset, payload) => {
            let at = first_at(m.metas, offset);
            lemma_first_at(m.metas, offset);
            assert(!payload_seen(events, offset));
            assert(!waits(m.payloads, offset));
            assert(!emitted(out, offset));
            if at < m.metas.len() {
                let merged = MergedModel { offset, payload, meta: Some(m.metas[at].1) };
                assert(left == Some(merged));
                assert(meta_seen(events, offset));
                assert forall|o: u64| #[trigger] waits(next.payloads, o) <==> payload_seen(more, o) && !meta_seen(more, o) by {
                    lemma_seen_push(events, e, o);
                    lemma_waits_remove(m.metas, at, o);
                    lemma_emitted_push(out, merged, o);
                }
                assert forall|o: u64| #[trigger] waits(next.metas, o) <==> meta_seen(more, o) && !payload_seen(more, o) by {
                    lemma_seen_push(events, e, o);
                    lemma_waits_remove(m.metas, at, o);
                    lemma_emitted_push(out, merged, o);
                }
                assert forall|o: u64| #[trigger] emitted(after, o) <==> payload_seen(more, o) && meta_seen(more, o) by {
                    lemma_seen_push(events, e, o);
                    lemma_waits_remove(m.metas, at, o);
                    lemma_emitted_push(out, merged, o);
                }
                lemma_waits_remove(m.metas, at, offset);
                lemma_emitted_push(out, merged, offset);
                assert(events.contains(MuxEvent::<P>::Metadata(m.metas[at].0, m.metas[at].1)));
                assert forall|j: int| 0 <= j < next.metas.len() implies more.contains(
                    MuxEvent::<P>::Metadata((#[trigger] next.metas[j]).0, next.metas[j].1),
                ) by {
                    let u = next.metas[j];
                    assert(m.metas.contains(u));
                    let k = choose|k: int| 0 <= k < m.metas.len() && m.metas[k] == u;
                    assert(events.contains(MuxEvent::<P>::Metadata(m.metas[k].0, m.metas[k].1)));
                }
                assert forall|k: int| 0 <= k < after.len() implies (#[trigger] after[k]).meta is Some
                    && more.contains(MuxEvent::<P>::Payload(after[k].offset, after[k].payload))
                    && more.contains(MuxEvent::<P>::Metadata(after[k].offset, after[k].meta->Some_0)) by {
                    if k < out.len() {
                        assert(after[k] == out[k]);
                    }
                }
            } else {
                assert(left is None);
                assert(!waits(m.metas, offset));
                assert(!meta_seen(events, offset));
                assert forall|o: u64| #[trigger] waits(next.payloads, o) <==> payload_seen(more, o) && !meta_seen(more, o) by {
                    lemma_seen_push(events, e, o);
                    lemma_waits_push(m.payloads, offset, payload, o);
                }
                assert forall|o: u64| #[trigger] waits(next.metas, o) <==> meta_seen(more, o) && !payload_seen(more, o) by {
                    lemma_seen_push(events, e, o);
                    lemma_waits_push(m.payloads, offset, payload, o);
                }
                assert forall|o: u64| #[trigger] emitted(after, o) <==> payload_seen(more, o) && meta_seen(more, o) by {
                    lemma_seen_push(events, e, o);
                    lemma_waits_push(m.payloads, offset, payload, o);
                }
                lemma_waits_push(m.payloads, offset, payload, offset);
                assert forall|i: int| 0 <= i < next.payloads.len() implies more.contains(
                    MuxEvent::<P>::Payload((#[trigger] next.payloads[i]).0, next.payloads[i].1),
                ) by {
                    if i < m.payloads.len() {
                        assert(next.payloads[i] == m.payloads[i]);
                    }
                }
            }
        },
        MuxEvent::Metadata(offset, meta) => {
            let at = first_at(m.payloads, offset);
            lemma_first_at(m.payloads, offset);
            assert(!meta_seen(events, offset));
            assert(!waits(m.metas, offset));
            assert(!emitted(out, offset));
            if at < m.payloads.len() {
                let merged = MergedModel { offset, payload: m.payloads[at].1, meta: Some(meta) };
                assert(left == Some(merged));
                assert(payload_seen(events, offset));
                assert forall|o: u64| #[trigger] waits(next.payloads, o) <==> payload_seen(more, o) && !meta_seen(more, o) by {
                    lemma_seen_push(events, e, o);
                    lemma_waits_remove(m.payloads, at, o);
                    lemma_emitted_push(out, merged, o);
                }
                assert forall|o: u64| #[trigger] waits(next.metas, o) <==> meta_seen(more, o) && !payload_seen(more, o) by {
                    lemma_seen_push(events, e, o);
                    lemma_waits_remove(m.payloads, at, o);
                    lemma_emitted_push(out, merged, o);
                }
                assert forall|o: u64| #[trigger] emitted(after, o) <==> payload_seen(more, o) && meta_seen(more, o) by {
                    lemma_seen_push(events, e, o);
                    lemma_waits_remove(m.payloads, at, o);
                    lemma_emitted_push(out, merged, o);
                }
                lemma_waits_remove(m.payloads, at, offset);
                lemma_emitted_push(out, merged, offset);
                assert(events.contains(MuxEvent::<P>::Payload(m.payloads[at].0, m.payloads[at].1)));
                assert forall|i: int| 0 <= i < next.payloads.len() implies more.contains(
                    MuxEvent::<P>::Payload((#[trigger] next.payloads[i]).0, next.payloads[i].1),
                ) by {
                    let u = next.payloads[i];
                    assert(m.payloads.contains(u));
                    let k = choose|k: int| 0 <= k < m.payloads.len() && m.payloads[k] == u;
                    assert(events.contains(MuxEvent::<P>::Payload(m.payloads[k].0, m.payloads[k].1)));
                }
                assert forall|k: int| 0 <= k < after.len() implies (#[trigger] after[k]).meta is Some
                    && more.contains(MuxEvent::<P>::Payload(after[k].offset, after[k].payload))
                    && more.contains(MuxEvent::<P>::Metadata(after[k].offset, after[k].meta->Some_0)) by {
                    if k < out.len() {
                        assert(after[k] == out[k]);
                    }
                }
            } else {
                assert(left is None);
                assert(!waits(m.payloads, offset));
                assert(!payload_seen(events, offset));
                assert forall|o: u64| #[trigger] waits(next.payloads, o) <==> payload_seen(more, o) && !meta_seen(more, o) by {
                    lemma_seen_push(events, e, o);
                    lemma_waits_push(m.metas, offset, meta, o);
                }
                assert forall|o: u64| #[trigger] waits(next.metas, o) <==> meta_seen(more, o) && !payload_seen(more, o) by {
                    lemma_seen_push(events, e, o);
                    lemma_waits_push(m.metas, offset, meta, o);
                }
                assert forall|o: u64| #[trigger] emitted(after, o) <==> payload_seen(more, o) && meta_seen(more, o) by {
                    lemma_seen_push(events, e, o);
                    lemma_waits_push(m.metas, offset, meta, o);
                }
                lemma_waits_push(m.metas, offset, meta, offset);
                assert forall|j: int| 0 <= j < next.metas.len() implies more.contains(
                    MuxEvent::<P>::Metadata((#[trigger] next.metas[j]).0, next.metas[j].1),
                ) by {
                    if j < m.metas.len() {
                        assert(next.metas[j] == m.metas[j]);
                    }
                }
            }
        },
    }
}

/// After every run in which no offset arrives twice on one side: an offset
/// waits on a side exactly if it has arrived on that side and not on the
/// other, and has left as a merged unit exactly if it has arrived on both;
/// every merged unit is made of a payload unit and a metadata unit that
/// arrived with its offset; no offset waits or has left twice; and each
/// arrival either waits or is one half of a merged unit.
pub proof fn law_pairing<P>(events: Seq<MuxEvent<P>>)
    requires
        distinct_events(events),
    ensures
        paired(events, run(events).0, run(events).1),
        mux_wf(run(events).0),
    decreases events.len(),
{
    if events.len() == 0 {
        let m = mux_empty::<P>();
        let out = Seq::<MergedModel<P>>::empty();
        assert(run(events) == (m, out));
        assert(paired(events, m, out));
    } else {
        let before = events.drop_last();
        let e = events.last();
        assert(before.push(e) =~= events);
        lemma_new_offset(before, e);
        law_pairing(before);
        lemma_step(before, run(before).0, run(before).1, e);
    }
    let m = run(events).0;
    assert forall|i: int, j: int|
        0 <= i < m.payloads.len() && 0 <= j < m.metas.len() implies (#[trigger] m.payloads[i]).0
        != (#[trigger] m.metas[j]).0 by {
        let o = m.payloads[i].0;
        assert(waits(m.payloads, o));
        if m.metas[j].0 == o {
            assert(waits(m.metas, o));
        }
    }
}

/// Where every offset arrives once on each side, in whatever order, every
/// payload unit leaves merged with the metadata unit of its offset, and
/// nothing is left waiting: as many merged units leave as payload units
/// arrived.
pub proof fn law_all_paired<P>(events: Seq<MuxEvent<P>>)
    requires
        distinct_events(events),
        forall|i: int|
            0 <= i < events.len() ==> payload_seen(events, side_offset(#[trigger] events[i]).1)
                && meta_seen(events, side_offset(events[i]).1),
    ensures
        run(events).0 == mux_empty::<P>(),
        2 * run(events).1.len() == events.len(),
        forall|i: int, j: int|
            0 <= i < events.len() && 0 <= j < events.len() && side_offset(#[trigger] events[i]).0
                && !side_offset(#[trigger] events[j]).0 && side_offset(events[i]).1 == side_offset(
                events[j],
            ).1 ==> run(events).1.contains(
                MergedModel {
                    offset: side_offset(events[i]).1,
                    payload: events[i]->Payload_1,
                    meta: Some(events[j]->Metadata_1),
                },
            ),
{
    law_pairing(events);
    let m = run(events).0;
    let out = run(events).1;
    if m.payloads.len() > 0 {
        let u = m.payloads[0];
        assert(waits(m.payloads, u.0));
        assert(events.contains(MuxEvent::<P>::Payload(u.0, u.1)));
        let i = choose|i: int| 0 <= i < events.len() && events[i] == MuxEvent::<P>::Payload(u.0, u.1);
        assert(side_offset(events[i]).1 == u.0);
        assert(meta_seen(events, u.0));
    }
    if m.metas.len() > 0 {
        let u = m.metas[0];
        assert(waits(m.metas, u.0));
        assert(events.contains(MuxEvent::<P>::Metadata(u.0, u.1)));
        let j = choose|j: int| 0 <= j < events.len() && events[j] == MuxEvent::<P>::Metadata(u.0, u.1);
        assert(side_offset(events[j]).1 == u.0);
        assert(payload_seen(events, u.0));
    }
    assert(m.payloads =~= Seq::<(u64, P)>::empty());
    assert(m.metas =~= Seq::<(u64, MetaModel)>::empty());
    assert forall|i: int, j: int|
        0 <= i < events.len() && 0 <= j < events.len() && side_offset(#[trigger] events[i]).0
            && !side_offset(#[trigger] events[j]).0 && side_offset(events[i]).1 == side_offset(
            events[j],
        ).1 implies out.contains(
        MergedModel {
            offset: side_offset(events[i]).1,
            payload: events[i]->Payload_1,
            meta: Some(events[j]->Metadata_1),
        },
    ) by {
        let o = side_offset(events[i]).1;
        assert(payload_seen(events, o) && meta_seen(events, o));
        assert(emitted(out, o));
        let k = choose|k: int| 0 <= k < out.len() && (#[trigger] out[k]).offset == o;
        let a = choose|a: int|
            0 <= a < events.len() && events[a] == MuxEvent::<P>::Payload(out[k].offset, out[k].payload);
        let b = choose|b: int|
            0 <= b < events.len() && events[b] == MuxEvent::<P>::Metadata(
                out[k].offset,
                out[k].meta->Some_0,
            );
        assert(events.contains(MuxEvent::<P>::Payload(out[k].offset, out[k].payload)));
        assert(events.contains(MuxEvent::<P>::Metadata(out[k].offset, out[k].meta->Some_0)));
        assert(side_offset(events[a]) == side_offset(events[i]));
        assert(side_offset(events[b]) == side_offset(events[j]));
        assert(a == i && b == j);
    }
}

/// Metadata that was split off a payload unit as a packet is joined to the
/// unit again as it was, whichever of the two arrives first.
pub proof fn law_split_then_join<P>(offset: u64, payload: P, meta: MetaModel)
    requires
        encodable(params_dataset(meta)),
    ensures
        read_packet(packet(dataset_records(params_dataset(meta)))) == Ok::<
            DatasetModel,
            ParseError,
        >(params_dataset(meta)),
        dataset_params(params_dataset(meta)) == meta,
        metadata_arrives(payload_arrives(mux_empty(), offset, payload).0, offset, meta) == (
            mux_empty::<P>(),
            Some(MergedModel { offset, payload, meta: Some(meta) }),
        ),
        payload_arrives(metadata_arrives(mux_empty::<P>(), offset, meta).0, offset, payload) == (
            mux_empty::<P>(),
            Some(MergedModel { offset, payload, meta: Some(meta) }),
        ),
{
    law_packet_round_trip(params_dataset(meta));
    let none = mux_empty::<P>();
    let first = payload_arrives(none, offset, payload).0;
    assert(first_at(none.metas, offset) == 0);
    assert(first.payloads =~= seq![(offset, payload)]);
    assert(first.payloads.drop_first() =~= Seq::<(u64, P)>::empty());
    assert(first_at(first.payloads, offset) == 0);
    assert(first.payloads.remove(0) =~= Seq::<(u64, P)>::empty());
    let other = metadata_arrives(none, offset, meta).0;
    assert(first_at(none.payloads, offset) == 0);
    assert(other.metas =~= seq![(offset, meta)]);
    assert(first_at(other.metas, offset) == 0);
    assert(other.metas.remove(0) =~= Seq::<(u64, MetaModel)>::empty());
}

} // verus!
