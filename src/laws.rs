use vstd::prelude::*;

use crate::channel::{
    is_registered, lemma_registered_wf, lemma_slot_for, names_of, priority, slot_for, position_of, registered, unregistered,
    ChannelModel,
};
use crate::clock::synchronised;
use crate::mux::{mux_wf, MuxModel};
use crate::negotiation::composite_of;
use crate::record::{cleared, composed, contribution, gap_placeholder, BufferModel, RecordModel};
use crate::sync::{
    all_eos, all_pending, any_pending, cycle, gap_of, gap_raised, item_ts,
    max_ts, min_ts, OutcomeModel,
};

verus! {

/// The payload that channel `i` contributed to record `r`.
pub open spec fn record_entry(r: RecordModel, i: int) -> BufferModel {
    if i == 0 {
        r.primary
    } else {
        r.attachments[i - 1]
    }
}

/// Every emitted record is tagged after the channels as they stood: the primary
/// payload carries the name of the highest-priority channel, and is a gap placeholder
/// exactly when that channel's slot was empty; the attachments carry the other names,
/// in priority order, each once.
pub proof fn lemma_emitted_record_tags(m: MuxModel)
    requires
        mux_wf(m),
    ensures
        cycle(m).1 matches OutcomeModel::Emitted(r) ==> {
            &&& r.primary.tag == m.channels[0].name
            &&& (m.channels[0].pending is None ==> r.primary == gap_placeholder(m.channels[0].name))
            &&& (m.channels[0].pending is Some ==> !r.primary.gap)
            &&& r.attachments.map_values(|b: BufferModel| b.tag) == names_of(m.channels).drop_first()
            &&& forall|i: int, j: int|
                0 <= i < r.attachments.len() && 0 <= j < r.attachments.len() && i != j
                    ==> #[trigger] r.attachments[i].tag != #[trigger] r.attachments[j].tag
            &&& forall|i: int|
                0 <= i < r.attachments.len() ==> #[trigger] r.attachments[i].tag != r.primary.tag
        },
{
    if let OutcomeModel::Emitted(r) = cycle(m).1 {
        let chs = m.channels;
        assert(r == composed(chs));
        assert(chs.len() > 0);
        assert(r.attachments.map_values(|b: BufferModel| b.tag) =~= names_of(chs).drop_first());
        assert forall|i: int, j: int|
            0 <= i < r.attachments.len() && 0 <= j < r.attachments.len() && i != j implies #[trigger] r.attachments[i].tag
            != #[trigger] r.attachments[j].tag by {
            assert(r.attachments[i].tag == chs[i + 1].name);
            assert(r.attachments[j].tag == chs[j + 1].name);
        }
        assert forall|i: int| 0 <= i < r.attachments.len() implies #[trigger] r.attachments[i].tag
            != r.primary.tag by {
            assert(r.attachments[i].tag == chs[i + 1].name);
        }
    }
}

/// Registering a channel and releasing it right away gives back the channel list,
/// and with it the composite descriptor.
pub proof fn lemma_register_then_release(m: MuxModel, name: Seq<char>)
    requires
        mux_wf(m),
        !is_registered(m.channels, name),
    ensures
        unregistered(registered(m.channels, name), name) == m.channels,
        names_of(unregistered(registered(m.channels, name), name)) == names_of(m.channels),
        composite_of(unregistered(registered(m.channels, name), name), m.clock.framerate)
            == composite_of(m.channels, m.clock.framerate),
{
    let chs = m.channels;
    lemma_registered_wf(chs, name);
    lemma_slot_for(chs, priority(name));
    let r = registered(chs, name);
    let k = position_of(r, name);
    assert(k == slot_for(chs, priority(name)));
    assert(r.remove(k) =~= chs);
}

/// Some pending item carries the latest timestamp and some the earliest.
pub proof fn lemma_ts_attained(chs: Seq<ChannelModel>)
    requires
        any_pending(chs),
    ensures
        exists|i: int|
            0 <= i < chs.len() && (#[trigger] chs[i]).pending is Some && item_ts(
                chs[i].pending->0,
            ) == max_ts(chs),
        exists|i: int|
            0 <= i < chs.len() && (#[trigger] chs[i]).pending is Some && item_ts(
                chs[i].pending->0,
            ) == min_ts(chs),
    decreases chs.len(),
{
    let last = chs.len() - 1;
    let init = chs.drop_last();
    if any_pending(init) {
        lemma_ts_attained(init);
        let a = choose|i: int|
            0 <= i < init.len() && (#[trigger] init[i]).pending is Some && item_ts(
                init[i].pending->0,
            ) == max_ts(init);
        let b = choose|i: int|
            0 <= i < init.len() && (#[trigger] init[i]).pending is Some && item_ts(
                init[i].pending->0,
            ) == min_ts(init);
        assert(init[a] == chs[a] && init[b] == chs[b]);
    } else {
        assert(chs[last].pending is Some) by {
            let i = choose|i: int| 0 <= i < chs.len() && (#[trigger] chs[i]).pending is Some;
            if i < last {
                assert(init[i] == chs[i]);
            }
        }
        assert forall|i: int| 0 <= i < init.len() implies (#[trigger] init[i]).pending is None by {}
        lemma_no_pending_bounds(init);
    }
}

/// Without pending items the bounds keep their starting values.
pub proof fn lemma_no_pending_bounds(chs: Seq<ChannelModel>)
    requires
        forall|i: int| 0 <= i < chs.len() ==> (#[trigger] chs[i]).pending is None,
    ensures
        max_ts(chs) == 0,
        min_ts(chs) == u64::MAX,
    decreases chs.len(),
{
    if chs.len() > 0 {
        let init = chs.drop_last();
        assert forall|i: int| 0 <= i < init.len() implies (#[trigger] init[i]).pending is None by {
            assert(init[i] == chs[i]);
        }
        lemma_no_pending_bounds(init);
    }
}

/// When dropping to synchronise is on and all pending timestamps lie within half a
/// frame duration of each other, the cycle drops nothing: it emits one record that
/// carries every pending item. (A cycle where every channel has ended, where nothing
/// is pending, or where `drop_if_missing` finds a channel without an item, does not
/// get this far.)
pub proof fn lemma_synchronised_cycle_emits(m: MuxModel)
    requires
        mux_wf(m),
        m.settings.drop_to_synchronise,
        !all_eos(m.channels),
        any_pending(m.channels),
        m.settings.drop_if_missing ==> all_pending(m.channels),
        forall|i: int, j: int|
            0 <= i < m.channels.len() && 0 <= j < m.channels.len() && (#[trigger] m.channels[i]).pending is Some
                && (#[trigger] m.channels[j]).pending is Some ==> 2 * (item_ts(
                m.channels[i].pending->0,
            ) - item_ts(m.channels[j].pending->0)) < m.clock.frameset_duration,
    ensures
        cycle(m).1 == OutcomeModel::Emitted(composed(m.channels)),
        cycle(m).0.channels == cleared(m.channels),
        forall|i: int|
            0 <= i < m.channels.len() && (#[trigger] m.channels[i]).pending is Some ==> record_entry(
                composed(m.channels),
                i,
            ) == (BufferModel {
                tag: m.channels[i].name,
                pts: m.channels[i].pending->0.pts,
                data: m.channels[i].pending->0.data,
                gap: false,
            }),
{
    let chs = m.channels;
    lemma_ts_attained(chs);
    let a = choose|i: int|
        0 <= i < chs.len() && (#[trigger] chs[i]).pending is Some && item_ts(chs[i].pending->0)
            == max_ts(chs);
    let b = choose|i: int|
        0 <= i < chs.len() && (#[trigger] chs[i]).pending is Some && item_ts(chs[i].pending->0)
            == min_ts(chs);
    assert(synchronised(m.clock.frameset_duration as nat, min_ts(chs), max_ts(chs)));
    let r = composed(chs);
    assert forall|i: int| 0 <= i < chs.len() && (#[trigger] chs[i]).pending is Some implies record_entry(
        r,
        i,
    ) == (BufferModel {
        tag: chs[i].name,
        pts: chs[i].pending->0.pts,
        data: chs[i].pending->0.data,
        gap: false,
    }) by {
        if i > 0 {
            assert(r.attachments[i - 1] == contribution(chs[i]));
        }
    }
}

/// When `drop_if_missing` is on and one channel has nothing while another has an
/// item, the cycle drops every pending item, emits nothing, forgets the previous
/// timestamp, and raises a gap signal only if gap signals are on and none was raised
/// yet in this run; with gap signals on, the run is marked as signalled.
pub proof fn lemma_missing_channel_drops_all(m: MuxModel)
    requires
        mux_wf(m),
        m.settings.drop_if_missing,
        !all_eos(m.channels),
        any_pending(m.channels),
        !all_pending(m.channels),
    ensures
        cycle(m).0.channels == cleared(m.channels),
        !any_pending(cycle(m).0.channels),
        cycle(m).1 == (OutcomeModel::DroppedMissing { gap: gap_of(m.settings, m.clock) }),
        cycle(m).0.clock.previous_timestamp is None,
        m.settings.send_gap_events ==> cycle(m).0.clock.is_gap_event_sent,
        m.settings.send_gap_events && !m.clock.is_gap_event_sent ==> gap_raised(cycle(m).1)
            == m.clock.previous_timestamp,
        !m.settings.send_gap_events ==> gap_raised(cycle(m).1) is None,
{
    let c = cleared(m.channels);
    if any_pending(c) {
        let i = choose|i: int| 0 <= i < c.len() && (#[trigger] c[i]).pending is Some;
        assert(c[i].pending is None);
    }
}

/// At most one gap signal per run of cycles without an emission: once a run is
/// marked as signalled no cycle raises another, and only an emission clears the mark.
pub proof fn lemma_gap_once_per_run(m: MuxModel)
    requires
        mux_wf(m),
        m.clock.is_gap_event_sent,
    ensures
        gap_raised(cycle(m).1) is None,
        !(cycle(m).1 is Emitted) ==> cycle(m).0.clock.is_gap_event_sent,
        cycle(m).1 is Emitted ==> !cycle(m).0.clock.is_gap_event_sent,
{
}

} // verus!
