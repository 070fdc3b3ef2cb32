use vstd::prelude::*;

use crate::channel::{ChannelModel, ItemModel};
use crate::clock::{after_gap_request, gap_signal, synchronised, ClockState};
use crate::mux::{MuxModel, Settings};
use crate::record::{cleared, composed, CompositeRecord, RecordModel};

verus! {

/// What one aggregation cycle did.
#[derive(Debug)]
pub enum CycleOutcome {
    /// Every channel has ended: the output ends too.
    EndOfStream,
    /// Nothing was pending: the cycle did nothing.
    Idle,
    /// A channel had nothing pending: every pending item was dropped. `gap` is the
    /// timestamp of the gap signal raised, if one was.
    DroppedMissing { gap: Option<u64> },
    /// The pending items were too far apart: the lagging ones were dropped.
    DroppedUnsynchronised { gap: Option<u64> },
    /// A record was built and is handed on.
    Emitted(CompositeRecord),
}

pub enum OutcomeModel {
    EndOfStream,
    Idle,
    DroppedMissing { gap: Option<u64> },
    DroppedUnsynchronised { gap: Option<u64> },
    Emitted(RecordModel),
}

impl View for CycleOutcome {
    type V = OutcomeModel;

    open spec fn view(&self) -> OutcomeModel {
        match self {
            CycleOutcome::EndOfStream => OutcomeModel::EndOfStream,
            CycleOutcome::Idle => OutcomeModel::Idle,
            CycleOutcome::DroppedMissing { gap } => OutcomeModel::DroppedMissing { gap: *gap },
            CycleOutcome::DroppedUnsynchronised { gap } => OutcomeModel::DroppedUnsynchronised {
                gap: *gap,
            },
            CycleOutcome::Emitted(r) => OutcomeModel::Emitted(r@),
        }
    }
}

/// The gap signal that an outcome carries, if any.
pub open spec fn gap_raised(o: OutcomeModel) -> Option<u64> {
    match o {
        OutcomeModel::DroppedMissing { gap } => gap,
        OutcomeModel::DroppedUnsynchronised { gap } => gap,
        _ => None,
    }
}

/// The timestamp of an item; an item without one counts as time zero.
pub open spec fn item_ts(it: ItemModel) -> nat {
    match it.pts {
        Some(t) => t as nat,
        None => 0,
    }
}

pub open spec fn all_eos(chs: Seq<ChannelModel>) -> bool {
    forall|i: int| 0 <= i < chs.len() ==> (#[trigger] chs[i]).eos
}

pub open spec fn any_pending(chs: Seq<ChannelModel>) -> bool {
    exists|i: int| 0 <= i < chs.len() && (#[trigger] chs[i]).pending is Some
}

pub open spec fn all_pending(chs: Seq<ChannelModel>) -> bool {
    forall|i: int| 0 <= i < chs.len() ==> (#[trigger] chs[i]).pending is Some
}

/// The latest timestamp among the pending items (0 when none is pending).
pub open spec fn max_ts(chs: Seq<ChannelModel>) -> nat
    decreases chs.len(),
{
    if chs.len() == 0 {
        0
    } else {
        let m = max_ts(chs.drop_last());
        match chs.last().pending {
            Some(it) => if item_ts(it) > m { item_ts(it) } else { m },
            None => m,
        }
    }
}

/// The earliest timestamp among the pending items (the largest timestamp when none is pending).
pub open spec fn min_ts(chs: Seq<ChannelModel>) -> nat
    decreases chs.len(),
{
    if chs.len() == 0 {
        u64::MAX as nat
    } else {
        let m = min_ts(chs.drop_last());
        match chs.last().pending {
            Some(it) => if item_ts(it) < m { item_ts(it) } else { m },
            None => m,
        }
    }
}

/// A channel lags when its pending item is older than `latest`.
pub open spec fn lagging(c: ChannelModel, latest: nat) -> bool {
    c.pending matches Some(it) && item_ts(it) < latest
}

/// The channels with the pending item of every lagging channel dropped.
pub open spec fn drop_lagging(chs: Seq<ChannelModel>, latest: nat) -> Seq<ChannelModel> {
    chs.map_values(
        |c: ChannelModel|
            if lagging(c, latest) {
                ChannelModel { pending: None, ..c }
            } else {
                c
            },
    )
}

/// The gap signal raised when items are dropped under settings `s`.
pub open spec fn gap_of(s: Settings, c: ClockState) -> Option<u64> {
    if s.send_gap_events { gap_signal(c) } else { None }
}

/// The clock after items were dropped: the gap request is recorded, the previous
/// timestamp is forgotten.
pub open spec fn dropped_clock(s: Settings, c: ClockState) -> ClockState {
    let g = if s.send_gap_events { after_gap_request(c) } else { c };
    ClockState { previous_timestamp: None, ..g }
}

/// The clock after record `r` was emitted: the previous timestamp is the primary
/// payload's, and a new run for gap signals begins.
pub open spec fn emitted_clock(c: ClockState, r: RecordModel) -> ClockState {
    ClockState { previous_timestamp: r.primary.pts, is_gap_event_sent: false, ..c }
}

/// One aggregation cycle: the state after it and what it did.
/// 1. When every channel has ended, the output ends.
/// 2. With `drop_if_missing`: nothing pending does nothing; some channel without an
///    item drops every pending item.
/// 3. With `drop_to_synchronise`: nothing pending does nothing; pending items further
///    apart than half a frame duration drop every item older than the latest one, once.
/// 4. Otherwise a record is built from every slot, and every slot is consumed.
pub open spec fn cycle(m: MuxModel) -> (MuxModel, OutcomeModel) {
    let chs = m.channels;
    let s = m.settings;
    if all_eos(chs) {
        (m, OutcomeModel::EndOfStream)
    } else if s.drop_if_missing && !any_pending(chs) {
        (m, OutcomeModel::Idle)
    } else if s.drop_if_missing && !all_pending(chs) {
        (
            MuxModel { channels: cleared(chs), clock: dropped_clock(s, m.clock), ..m },
            OutcomeModel::DroppedMissing { gap: gap_of(s, m.clock) },
        )
    } else if s.drop_to_synchronise && !any_pending(chs) {
        (m, OutcomeModel::Idle)
    } else if s.drop_to_synchronise && !synchronised(
        m.clock.frameset_duration as nat,
        min_ts(chs),
        max_ts(chs),
    ) {
        (
            MuxModel {
                channels: drop_lagging(chs, max_ts(chs)),
                clock: dropped_clock(s, m.clock),
                ..m
            },
            OutcomeModel::DroppedUnsynchronised { gap: gap_of(s, m.clock) },
        )
    } else {
        (
            MuxModel { channels: cleared(chs), clock: emitted_clock(m.clock, composed(chs)), ..m },
            OutcomeModel::Emitted(composed(chs)),
        )
    }
}

/// Every pending timestamp lies between the earliest and the latest one, and both fit
/// a timestamp.
pub proof fn lemma_ts_bounds(chs: Seq<ChannelModel>)
    ensures
        max_ts(chs) <= u64::MAX,
        min_ts(chs) <= u64::MAX,
        forall|i: int|
            0 <= i < chs.len() && (#[trigger] chs[i]).pending is Some ==> min_ts(chs) <= item_ts(
                chs[i].pending->0,
            ) <= max_ts(chs),
        any_pending(chs) ==> min_ts(chs) <= max_ts(chs),
    decreases chs.len(),
{
    if chs.len() > 0 {
        let init = chs.drop_last();
        lemma_ts_bounds(init);
        assert forall|i: int|
            0 <= i < chs.len() && (#[trigger] chs[i]).pending is Some implies min_ts(chs) <= item_ts(
            chs[i].pending->0,
        ) <= max_ts(chs) by {
            if i < chs.len() - 1 {
                assert(init[i] == chs[i]);
            }
        }
        if any_pending(chs) {
            let i = choose|i: int| 0 <= i < chs.len() && (#[trigger] chs[i]).pending is Some;
            assert(min_ts(chs) <= item_ts(chs[i].pending->0) <= max_ts(chs));
        }
    }
}

} // verus!
