use vstd::prelude::*;

use crate::channel::{
    channel_models, is_registered, opt_text, lemma_registered_wf, lemma_slot_for, names_of,
    names_unique, position_of, priority, registered, slot_for, sorted_by_priority, stream_priority,
    unregistered, Channel, ChannelModel, ElementaryDescriptor, Item,
};
use crate::clock::{deadline_after, initial_clock, synchronised, with_framerate, ClockState};
use crate::negotiation::{
    build_composite, composite_of, field_models, last_framerate,
    requested_format, requested_format_in, CompositeDescriptor, DescriptorField,
};
use crate::record::{cleared, compose, composed, take_pending, CompositeRecord};
use crate::sync::{
    all_eos, all_pending, any_pending, cycle, drop_lagging, dropped_clock, emitted_clock, gap_of,
    item_ts, lagging, lemma_ts_bounds, max_ts, min_ts, CycleOutcome, OutcomeModel,
};
use crate::text::text_eq;

verus! {

/// Default for dropping lagging items to keep the streams synchronised.
pub const DEFAULT_DROP_TO_SYNCHRONISE: bool = true;

/// Default for deadline-based aggregation that drops everything when one channel is missing.
pub const DEFAULT_DROP_IF_MISSING: bool = false;

/// Default deadline multiplier, in thousandths (2.5 frame durations).
pub const DEFAULT_DEADLINE_MULTIPLIER_PERMILLE: u32 = 2500;

/// Default for raising gap signals when items are dropped.
pub const DEFAULT_SEND_GAP_EVENTS: bool = false;

/// Policies of the multiplexer.
#[derive(Clone, Copy, Debug, PartialEq, Eq, Structural)]
pub struct Settings {
    /// Drop every pending item when one channel has none (deadline-based aggregation).
    pub drop_if_missing: bool,
    /// The deadline in frame durations, in thousandths; it must be positive.
    pub deadline_multiplier_permille: u32,
    /// Drop items that lag behind the latest one by half a frame duration or more.
    pub drop_to_synchronise: bool,
    /// Raise a gap signal when items were dropped.
    pub send_gap_events: bool,
}

/// Why a channel could not be registered, or a descriptor not be produced.
#[derive(Clone, Copy, Debug, PartialEq, Eq, Structural)]
pub enum MuxError {
    /// The requested channel name is empty.
    EmptyName,
    /// The name does not follow the `sink_<stream>` convention.
    InvalidName,
    /// A channel with this stream name is already registered.
    DuplicateName,
    /// No channel is registered yet: negotiation has to wait for more data.
    NeedData,
}

/// Refers to a registered channel by its stream name.
#[derive(Clone, Debug)]
pub struct ChannelHandle {
    pub stream: String,
}

/// The multiplexer: its settings, clock and the channels in priority order. All of it
/// is changed through methods that hold it well formed.
pub struct RgbdMux {
    settings: Settings,
    clock: ClockState,
    channels: Vec<Channel>,
}

pub struct MuxModel {
    pub settings: Settings,
    pub clock: ClockState,
    pub channels: Seq<ChannelModel>,
}

impl View for RgbdMux {
    type V = MuxModel;

    closed spec fn view(&self) -> MuxModel {
        MuxModel {
            settings: self.settings,
            clock: self.clock,
            channels: channel_models(self.channels@),
        }
    }
}

pub open spec fn default_settings() -> Settings {
    Settings {
        drop_if_missing: DEFAULT_DROP_IF_MISSING,
        deadline_multiplier_permille: DEFAULT_DEADLINE_MULTIPLIER_PERMILLE,
        drop_to_synchronise: DEFAULT_DROP_TO_SYNCHRONISE,
        send_gap_events: DEFAULT_SEND_GAP_EVENTS,
    }
}

pub open spec fn settings_wf(s: Settings) -> bool {
    s.deadline_multiplier_permille > 0
}

/// Channels are sorted by priority, their names are unique and not empty.
pub open spec fn channels_wf(chs: Seq<ChannelModel>) -> bool {
    &&& sorted_by_priority(chs)
    &&& names_unique(chs)
    &&& forall|i: int| 0 <= i < chs.len() ==> (#[trigger] chs[i]).name.len() > 0
}

pub open spec fn mux_wf(m: MuxModel) -> bool {
    settings_wf(m.settings) && channels_wf(m.channels)
}

/// A channel name follows the convention `sink_<stream>` with a non-empty stream.
pub open spec fn has_sink_prefix(pad: Seq<char>) -> bool {
    pad.len() > 5 && pad.take(5) == "sink_"@
}

pub open spec fn stream_of(pad: Seq<char>) -> Seq<char> {
    pad.skip(5)
}

/// Why registering `pad` would fail, if it would.
pub open spec fn registration_error(chs: Seq<ChannelModel>, pad: Seq<char>) -> Option<MuxError> {
    if pad.len() == 0 {
        Some(MuxError::EmptyName)
    } else if !has_sink_prefix(pad) {
        Some(MuxError::InvalidName)
    } else if is_registered(chs, stream_of(pad)) {
        Some(MuxError::DuplicateName)
    } else {
        None
    }
}

/// The channels with the one named `name`, if there is one, replaced by `c`.
pub open spec fn with_slot(
    chs: Seq<ChannelModel>,
    name: Seq<char>,
    c: ChannelModel,
) -> Seq<ChannelModel> {
    if is_registered(chs, name) {
        chs.update(position_of(chs, name), c)
    } else {
        chs
    }
}

/// The clock after negotiation took the framerate that the channels announced last.
pub open spec fn renegotiated_clock(c: ClockState, chs: Seq<ChannelModel>, multiplier_permille: nat) -> ClockState {
    match last_framerate(chs) {
        Some(f) => with_framerate(c, f, multiplier_permille),
        None => c,
    }
}

/// In a list of unique names, the channel found under a name is the one at its position.
pub proof fn lemma_position_unique(chs: Seq<ChannelModel>, i: int)
    requires
        names_unique(chs),
        0 <= i < chs.len(),
    ensures
        is_registered(chs, chs[i].name),
        position_of(chs, chs[i].name) == i,
{
    let n = chs[i].name;
    assert(is_registered(chs, n));
    let q = position_of(chs, n);
    assert(chs[q].name == n);
}

/// Channels that differ only in their slots and flags are well formed together.
pub proof fn lemma_same_names_wf(a: Seq<ChannelModel>, b: Seq<ChannelModel>)
    requires
        channels_wf(a),
        a.len() == b.len(),
        forall|i: int| 0 <= i < a.len() ==> a[i].name == (#[trigger] b[i]).name,
    ensures
        channels_wf(b),
{
    assert forall|i: int, j: int| 0 <= i < j < b.len() implies priority(#[trigger] b[i].name)
        <= priority(#[trigger] b[j].name) by {
        assert(a[i].name == b[i].name && a[j].name == b[j].name);
    }
    assert forall|i: int, j: int|
        0 <= i < b.len() && 0 <= j < b.len() && i != j implies #[trigger] b[i].name
        != #[trigger] b[j].name by {
        assert(a[i].name == b[i].name && a[j].name == b[j].name);
    }
    assert forall|i: int| 0 <= i < b.len() implies (#[trigger] b[i]).name.len() > 0 by {
        assert(a[i].name == b[i].name);
    }
}

impl RgbdMux {
    pub open spec fn wf(&self) -> bool {
        mux_wf(self@)
    }

    /// A multiplexer with default settings, a fresh clock and no channels.
    pub fn new() -> (r: RgbdMux)
        ensures
            r@ == (MuxModel { settings: default_settings(), clock: initial_clock(), channels: seq![] }),
            r.wf(),
    {
        let r = RgbdMux {
            settings: Settings {
                drop_if_missing: DEFAULT_DROP_IF_MISSING,
                deadline_multiplier_permille: DEFAULT_DEADLINE_MULTIPLIER_PERMILLE,
                drop_to_synchronise: DEFAULT_DROP_TO_SYNCHRONISE,
                send_gap_events: DEFAULT_SEND_GAP_EVENTS,
            },
            clock: ClockState::new(),
            channels: Vec::new(),
        };
        assert(r@.channels =~= seq![]);
        r
    }

    pub fn settings(&self) -> (r: Settings)
        ensures
            r == self@.settings,
    {
        self.settings
    }

    /// Replaces the settings. The durations take a new multiplier at the next negotiation.
    pub fn set_settings(&mut self, settings: Settings)
        requires
            old(self).wf(),
            settings_wf(settings),
        ensures
            final(self)@ == (MuxModel { settings, ..old(self)@ }),
            final(self).wf(),
    {
        self.settings = settings;
    }

    pub fn clock(&self) -> (r: ClockState)
        ensures
            r == self@.clock,
    {
        self.clock
    }

    /// Where the channel with stream name `stream` stands, if it is registered.
    pub fn find_channel(&self, stream: &str) -> (r: Option<usize>)
        requires
            self.wf(),
        ensures
            r is None <==> !is_registered(self@.channels, stream@),
            r matches Some(i) ==> i == position_of(self@.channels, stream@) && i < self@.channels.len(),
    {
        let ghost models = self@.channels;
        let mut i: usize = 0;
        while i < self.channels.len()
            invariant
                i <= self.channels.len(),
                models == channel_models(self.channels@),
                names_unique(models),
                forall|j: int| 0 <= j < i ==> (#[trigger] models[j]).name != stream@,
            decreases self.channels.len() - i,
        {
            if text_eq(self.channels[i].name.as_str(), stream) {
                proof {
                    lemma_position_unique(models, i as int);
                }
                return Some(i);
            }
            i = i + 1;
        }
        None
    }

    /// Registers a channel named `sink_<stream>`. It is inserted after every channel of
    /// equal or higher priority, so channels of equal rank keep their registration order.
    pub fn add_channel(&mut self, pad_name: &str) -> (r: Result<ChannelHandle, MuxError>)
        requires
            old(self).wf(),
        ensures
            final(self).wf(),
            match registration_error(old(self)@.channels, pad_name@) {
                Some(e) => r == Err::<ChannelHandle, MuxError>(e) && final(self)@ == old(self)@,
                None => r matches Ok(h) && h.stream@ == stream_of(pad_name@) && final(self)@ == (
                MuxModel {
                    channels: registered(old(self)@.channels, stream_of(pad_name@)),
                    ..old(self)@
                }),
            },
    {
        let len = pad_name.unicode_len();
        if len == 0 {
            return Err(MuxError::EmptyName);
        }
        if len <= 5 || !text_eq(pad_name.substring_char(0, 5), "sink_") {
            return Err(MuxError::InvalidName);
        }
        let stream = String::from_str(pad_name.substring_char(5, len));
        assert(stream@ == stream_of(pad_name@));
        if self.find_channel(stream.as_str()).is_some() {
            return Err(MuxError::DuplicateName);
        }
        let ghost models = self@.channels;
        let p = stream_priority(stream.as_str());
        let mut k: usize = self.channels.len();
        assert(models.take(k as int) =~= models);
        loop
            invariant
                k <= self.channels.len(),
                models == channel_models(self.channels@),
                slot_for(models, p as nat) == slot_for(models.take(k as int), p as nat),
            ensures
                k <= self.channels.len(),
                models == channel_models(self.channels@),
                slot_for(models, p as nat) == k,
            decreases k,
        {
            if k == 0 {
                assert(models.take(0).len() == 0);
                break;
            }
            let q = stream_priority(self.channels[k - 1].name.as_str());
            assert(models.take(k as int).last() == models[k - 1]);
            if p < q {
                assert(models.take(k as int).drop_last() =~= models.take(k - 1));
                k = k - 1;
            } else {
                assert(slot_for(models.take(k as int), p as nat) == k);
                break;
            }
        }
        assert(slot_for(models, priority(stream@)) == k);
        let handle = ChannelHandle { stream: stream.clone() };
        let ch = Channel { name: stream, pending: None, eos: false, descriptor: None };
        self.channels.insert(k, ch);
        proof {
            lemma_registered_wf(models, stream_of(pad_name@));
            lemma_slot_for(models, p as nat);
            assert(channel_models(self.channels@) =~= registered(models, stream_of(pad_name@)));
        }
        Ok(handle)
    }

    /// Releases the channel of `handle`. Returns whether it was registered.
    pub fn remove_channel(&mut self, handle: &ChannelHandle) -> (r: bool)
        requires
            old(self).wf(),
        ensures
            final(self).wf(),
            r == is_registered(old(self)@.channels, handle.stream@),
            final(self)@ == (MuxModel {
                channels: unregistered(old(self)@.channels, handle.stream@),
                ..old(self)@
            }),
    {
        let ghost models = self@.channels;
        match self.find_channel(handle.stream.as_str()) {
            None => false,
            Some(i) => {
                self.channels.remove(i);
                assert(channel_models(self.channels@) =~= models.remove(i as int));
                assert forall|a: int, b: int|
                    0 <= a < b < models.len() - 1 implies priority(
                    #[trigger] models.remove(i as int)[a].name,
                ) <= priority(#[trigger] models.remove(i as int)[b].name) by {
                    let a0 = if a < i { a } else { a + 1 };
                    let b0 = if b < i { b } else { b + 1 };
                    assert(models.remove(i as int)[a] == models[a0]);
                    assert(models.remove(i as int)[b] == models[b0]);
                }
                assert forall|a: int, b: int|
                    0 <= a < models.len() - 1 && 0 <= b < models.len() - 1 && a != b implies #[trigger] models.remove(i as int)[a].name
                    != #[trigger] models.remove(i as int)[b].name by {
                    let a0 = if a < i { a } else { a + 1 };
                    let b0 = if b < i { b } else { b + 1 };
                    assert(models.remove(i as int)[a] == models[a0]);
                    assert(models.remove(i as int)[b] == models[b0]);
                }
                assert forall|a: int| 0 <= a < models.len() - 1 implies (#[trigger] models.remove(i as int)[a]).name.len() > 0 by {
                    let a0 = if a < i { a } else { a + 1 };
                    assert(models.remove(i as int)[a] == models[a0]);
                }
                true
            },
        }
    }

    /// The stream names of the registered channels, in priority order.
    pub fn stream_names(&self) -> (r: Vec<String>)
        ensures
            r@.map_values(|s: String| s@) == names_of(self@.channels),
    {
        let mut r: Vec<String> = Vec::new();
        let mut i: usize = 0;
        while i < self.channels.len()
            invariant
                i <= self.channels.len(),
                r@.len() == i,
                forall|j: int| 0 <= j < i ==> #[trigger] r@[j]@ == self.channels@[j].name@,
            decreases self.channels.len() - i,
        {
            r.push(self.channels[i].name.clone());
            i = i + 1;
        }
        assert(r@.map_values(|s: String| s@) =~= names_of(self@.channels));
        r
    }

    /// Puts `item` into the slot of channel `stream`, replacing an unread one.
    /// Returns whether the channel is registered.
    pub fn push_item(&mut self, stream: &str, item: Item) -> (r: bool)
        requires
            old(self).wf(),
        ensures
            final(self).wf(),
            r == is_registered(old(self)@.channels, stream@),
            names_of(final(self)@.channels) == names_of(old(self)@.channels),
            final(self)@ == (MuxModel {
                channels: with_slot(
                    old(self)@.channels,
                    stream@,
                    ChannelModel {
                        pending: Some(item@),
                        ..old(self)@.channels[position_of(old(self)@.channels, stream@)]
                    },
                ),
                ..old(self)@
            }),
    {
        let ghost models = self@.channels;
        match self.find_channel(stream) {
            None => false,
            Some(i) => {
                let ch = &mut self.channels[i];
                ch.pending = Some(item);
                proof {
                    self.lemma_updated_wf(models, i as int);
                }
                true
            },
        }
    }

    /// Marks channel `stream` as ended. Returns whether the channel is registered.
    pub fn mark_eos(&mut self, stream: &str) -> (r: bool)
        requires
            old(self).wf(),
        ensures
            final(self).wf(),
            r == is_registered(old(self)@.channels, stream@),
            names_of(final(self)@.channels) == names_of(old(self)@.channels),
            final(self)@ == (MuxModel {
                channels: with_slot(
                    old(self)@.channels,
                    stream@,
                    ChannelModel {
                        eos: true,
                        ..old(self)@.channels[position_of(old(self)@.channels, stream@)]
                    },
                ),
                ..old(self)@
            }),
    {
        let ghost models = self@.channels;
        match self.find_channel(stream) {
            None => false,
            Some(i) => {
                let ch = &mut self.channels[i];
                ch.eos = true;
                proof {
                    self.lemma_updated_wf(models, i as int);
                }
                true
            },
        }
    }

    /// Records the format that the producer of channel `stream` announced.
    /// Returns whether the channel is registered.
    pub fn set_descriptor(&mut self, stream: &str, descriptor: ElementaryDescriptor) -> (r: bool)
        requires
            old(self).wf(),
        ensures
            final(self).wf(),
            r == is_registered(old(self)@.channels, stream@),
            names_of(final(self)@.channels) == names_of(old(self)@.channels),
            final(self)@ == (MuxModel {
                channels: with_slot(
                    old(self)@.channels,
                    stream@,
                    ChannelModel {
                        descriptor: Some(descriptor@),
                        ..old(self)@.channels[position_of(old(self)@.channels, stream@)]
                    },
                ),
                ..old(self)@
            }),
    {
        let ghost models = self@.channels;
        match self.find_channel(stream) {
            None => false,
            Some(i) => {
                let ch = &mut self.channels[i];
                ch.descriptor = Some(descriptor);
                proof {
                    self.lemma_updated_wf(models, i as int);
                }
                true
            },
        }
    }

    /// After one channel changed in place (its name kept), the channels are still
    /// well formed and the change is `with_slot` at that channel's name.
    proof fn lemma_updated_wf(&self, models: Seq<ChannelModel>, i: int)
        requires
            channels_wf(models),
            0 <= i < models.len(),
            self.channels@.len() == models.len(),
            forall|j: int| 0 <= j < models.len() && j != i ==> #[trigger] self.channels@[j]@ == models[j],
            self.channels@[i]@.name == models[i].name,
        ensures
            channels_wf(self@.channels),
            self@.channels == with_slot(models, models[i].name, self.channels@[i]@),
            names_of(self@.channels) == names_of(models),
    {
        lemma_position_unique(models, i);
        assert(self@.channels =~= models.update(i, self.channels@[i]@));
        let m = self@.channels;
        assert forall|a: int| 0 <= a < m.len() implies (#[trigger] m[a]).name == models[a].name by {}
        assert forall|a: int, b: int| 0 <= a < b < m.len() implies priority(#[trigger] m[a].name)
            <= priority(#[trigger] m[b].name) by {
            assert(m[a].name == models[a].name && m[b].name == models[b].name);
        }
        assert forall|a: int, b: int|
            0 <= a < m.len() && 0 <= b < m.len() && a != b implies #[trigger] m[a].name
            != #[trigger] m[b].name by {
            assert(m[a].name == models[a].name && m[b].name == models[b].name);
        }
        assert(names_of(m) =~= names_of(models));
    }

    /// Produces the composite descriptor: first takes the framerate that the channels
    /// announced last, then lists the streams, the framerate and the per-stream fields.
    /// Before any channel is registered there is nothing to negotiate.
    pub fn renegotiate(&mut self) -> (r: Result<CompositeDescriptor, MuxError>)
        requires
            old(self).wf(),
        ensures
            final(self).wf(),
            old(self)@.channels.len() == 0 ==> r == Err::<CompositeDescriptor, MuxError>(
                MuxError::NeedData,
            ) && final(self)@ == old(self)@,
            old(self)@.channels.len() > 0 ==> final(self)@ == (MuxModel {
                clock: renegotiated_clock(
                    old(self)@.clock,
                    old(self)@.channels,
                    old(self)@.settings.deadline_multiplier_permille as nat,
                ),
                ..old(self)@
            }) && (r matches Ok(d) && d@ == composite_of(
                old(self)@.channels,
                final(self)@.clock.framerate,
            )),
    {
        if self.channels.len() == 0 {
            return Err(MuxError::NeedData);
        }
        let ghost models = self@.channels;
        let ghost c0 = self.clock;
        let multiplier = self.settings.deadline_multiplier_permille;
        let mut i: usize = 0;
        while i < self.channels.len()
            invariant
                i <= self.channels.len(),
                models == channel_models(self.channels@),
                multiplier == self.settings.deadline_multiplier_permille,
                self.settings == old(self).settings,
                self.clock == renegotiated_clock(c0, models.take(i as int), multiplier as nat),
            decreases self.channels.len() - i,
        {
            let announced = match &self.channels[i].descriptor {
                Some(d) => d.framerate,
                None => None,
            };
            let ghost after = models.take(i + 1);
            assert(after.drop_last() =~= models.take(i as int));
            assert(after.last() == models[i as int]);
            match announced {
                Some(f) => {
                    self.clock.update_from_framerate(f, multiplier);
                },
                None => {},
            }
            i = i + 1;
        }
        assert(models.take(self.channels.len() as int) =~= models);
        Ok(build_composite(&self.channels, self.clock.framerate))
    }

    /// The format that downstream asks of channel `stream`, found in the downstream
    /// descriptor's `{stream}_format` field. Unknown channels get none.
    pub fn format_request(&self, downstream: &Vec<DescriptorField>, stream: &String) -> (r: Option<String>)
        requires
            self.wf(),
        ensures
            opt_text(r) == (if is_registered(self@.channels, stream@) {
                requested_format_in(field_models(downstream@), stream@)
            } else {
                None
            }),
    {
        match self.find_channel(stream.as_str()) {
            None => None,
            Some(_) => requested_format(downstream, stream),
        }
    }

    /// When the next cycle must run at the latest: with deadline-based aggregation, the
    /// previous timestamp plus the deadline duration; else no deadline.
    pub fn next_time(&self) -> (r: Option<u64>)
        ensures
            r == (if self@.settings.drop_if_missing { deadline_after(self@.clock) } else { None }),
    {
        self.clock.next_deadline(self.settings.drop_if_missing)
    }

    /// Resets the clock and releases every channel; the settings stay.
    pub fn stop(&mut self)
        requires
            old(self).wf(),
        ensures
            final(self).wf(),
            final(self)@ == (MuxModel {
                settings: old(self)@.settings,
                clock: initial_clock(),
                channels: seq![],
            }),
    {
        self.clock = ClockState::new();
        self.channels = Vec::new();
        assert(self@.channels =~= seq![]);
    }

    /// Whether every channel has an item pending or has ended, so that a cycle can run
    /// without waiting for a deadline.
    pub fn is_ready(&self) -> (r: bool)
        ensures
            r == (forall|i: int|
                0 <= i < self@.channels.len() ==> (#[trigger] self@.channels[i]).pending is Some
                    || self@.channels[i].eos),
    {
        let ghost models = self@.channels;
        let mut i: usize = 0;
        while i < self.channels.len()
            invariant
                i <= self.channels.len(),
                models == channel_models(self.channels@),
                forall|j: int| 0 <= j < i ==> (#[trigger] models[j]).pending is Some || models[j].eos,
            decreases self.channels.len() - i,
        {
            if self.channels[i].pending.is_none() && !self.channels[i].eos {
                assert(models[i as int].pending is None && !models[i as int].eos);
                return false;
            }
            i = i + 1;
        }
        true
    }

    fn all_channels_eos(&self) -> (r: bool)
        ensures
            r == all_eos(self@.channels),
    {
        let ghost models = self@.channels;
        let mut i: usize = 0;
        while i < self.channels.len()
            invariant
                i <= self.channels.len(),
                models == channel_models(self.channels@),
                forall|j: int| 0 <= j < i ==> (#[trigger] models[j]).eos,
            decreases self.channels.len() - i,
        {
            if !self.channels[i].eos {
                assert(!models[i as int].eos);
                return false;
            }
            i = i + 1;
        }
        true
    }

    /// Whether some channel, and whether every channel, has an item pending.
    fn pending_census(&self) -> (r: (bool, bool))
        ensures
            r.0 == any_pending(self@.channels),
            r.1 == all_pending(self@.channels),
    {
        let ghost models = self@.channels;
        let mut any = false;
        let mut all = true;
        let mut i: usize = 0;
        while i < self.channels.len()
            invariant
                i <= self.channels.len(),
                models == channel_models(self.channels@),
                any == (exists|j: int| 0 <= j < i && (#[trigger] models[j]).pending is Some),
                all == (forall|j: int| 0 <= j < i ==> (#[trigger] models[j]).pending is Some),
            decreases self.channels.len() - i,
        {
            if self.channels[i].pending.is_some() {
                assert(models[i as int].pending is Some);
                any = true;
            } else {
                assert(models[i as int].pending is None);
                all = false;
            }
            i = i + 1;
        }
        (any, all)
    }

    /// Drops the pending item of every channel.
    fn drop_all_queued_buffers(&mut self)
        requires
            old(self).wf(),
        ensures
            final(self).wf(),
            final(self)@ == (MuxModel { channels: cleared(old(self)@.channels), ..old(self)@ }),
    {
        let ghost start = self@.channels;
        let mut i: usize = 0;
        while i < self.channels.len()
            invariant
                i <= self.channels.len(),
                self.channels.len() == start.len(),
                self.settings == old(self).settings,
                self.clock == old(self).clock,
                start == old(self)@.channels,
                forall|j: int| 0 <= j < i ==> #[trigger] self.channels@[j]@ == (ChannelModel { pending: None, ..start[j] }),
                forall|j: int| i <= j < start.len() ==> #[trigger] self.channels@[j]@ == start[j],
            decreases start.len() - i,
        {
            take_pending(&mut self.channels, i);
            i = i + 1;
        }
        assert(self@.channels =~= cleared(start));
        proof {
            lemma_same_names_wf(start, self@.channels);
        }
    }

    /// Asks the clock for a gap signal when gap signals are enabled.
    fn send_gap_event(&mut self) -> (r: Option<u64>)
        ensures
            r == gap_of(old(self)@.settings, old(self)@.clock),
            final(self)@.channels == old(self)@.channels,
            final(self)@.settings == old(self)@.settings,
            dropped_clock(old(self)@.settings, old(self)@.clock) == (ClockState {
                previous_timestamp: None,
                ..final(self)@.clock
            }),
    {
        if self.settings.send_gap_events {
            self.clock.send_gap_once()
        } else {
            None
        }
    }

    /// With some but not all channels holding an item, drops every pending item and
    /// ends the cycle; with none, ends the cycle doing nothing.
    fn drop_buffers_if_one_missing(&mut self) -> (r: Result<(), CycleOutcome>)
        requires
            old(self).wf(),
        ensures
            final(self).wf(),
            !any_pending(old(self)@.channels) ==> (r matches Err(CycleOutcome::Idle)) && final(self)@ == old(self)@,
            any_pending(old(self)@.channels) && !all_pending(old(self)@.channels) ==> (
            r matches Err(o) && o@ == OutcomeModel::DroppedMissing {
                gap: gap_of(old(self)@.settings, old(self)@.clock),
            }) && final(self)@ == (MuxModel {
                channels: cleared(old(self)@.channels),
                clock: dropped_clock(old(self)@.settings, old(self)@.clock),
                ..old(self)@
            }),
            all_pending(old(self)@.channels) && any_pending(old(self)@.channels) ==> r is Ok && final(self)@ == old(self)@,
    {
        let (any, all) = self.pending_census();
        if !any {
            return Err(CycleOutcome::Idle);
        }
        if !all {
            self.drop_all_queued_buffers();
            let gap = self.send_gap_event();
            self.clock.forget_previous();
            return Err(CycleOutcome::DroppedMissing { gap });
        }
        Ok(())
    }

    /// The earliest and the latest timestamp among the pending items.
    fn get_timestamps(&self) -> (r: (u64, u64))
        ensures
            r.0 as nat == min_ts(self@.channels),
            r.1 as nat == max_ts(self@.channels),
    {
        let ghost models = self@.channels;
        let mut earliest: u64 = u64::MAX;
        let mut latest: u64 = 0;
        let mut i: usize = 0;
        while i < self.channels.len()
            invariant
                i <= self.channels.len(),
                models == channel_models(self.channels@),
                earliest as nat == min_ts(models.take(i as int)),
                latest as nat == max_ts(models.take(i as int)),
            decreases self.channels.len() - i,
        {
            let ghost after = models.take(i + 1);
            assert(after.drop_last() =~= models.take(i as int));
            assert(after.last() == models[i as int]);
            match &self.channels[i].pending {
                Some(it) => {
                    let t: u64 = match it.pts {
                        Some(t) => t,
                        None => 0,
                    };
                    assert(t as nat == item_ts(models[i as int].pending->0));
                    if t < earliest {
                        earliest = t;
                    }
                    if t > latest {
                        latest = t;
                    }
                },
                None => {},
            }
            i = i + 1;
        }
        assert(models.take(self.channels.len() as int) =~= models);
        (earliest, latest)
    }

    /// Drops the pending item of every channel whose item is older than `latest`.
    fn drop_lagging_buffers(&mut self, latest: u64)
        requires
            old(self).wf(),
        ensures
            final(self).wf(),
            final(self)@ == (MuxModel {
                channels: drop_lagging(old(self)@.channels, latest as nat),
                ..old(self)@
            }),
    {
        let ghost start = self@.channels;
        let mut i: usize = 0;
        while i < self.channels.len()
            invariant
                i <= self.channels.len(),
                self.channels.len() == start.len(),
                self.settings == old(self).settings,
                self.clock == old(self).clock,
                start == old(self)@.channels,
                forall|j: int| 0 <= j < i ==> #[trigger] self.channels@[j]@ == (if lagging(start[j], latest as nat) {
                    ChannelModel { pending: None, ..start[j] }
                } else {
                    start[j]
                }),
                forall|j: int| i <= j < start.len() ==> #[trigger] self.channels@[j]@ == start[j],
            decreases start.len() - i,
        {
            let behind = match &self.channels[i].pending {
                Some(it) => {
                    let t: u64 = match it.pts {
                        Some(t) => t,
                        None => 0,
                    };
                    t < latest
                },
                None => false,
            };
            assert(self.channels@[i as int]@ == start[i as int]);
            assert(behind == lagging(start[i as int], latest as nat));
            if behind {
                take_pending(&mut self.channels, i);
            }
            i = i + 1;
        }
        assert(self@.channels =~= drop_lagging(start, latest as nat));
        proof {
            lemma_same_names_wf(start, self@.channels);
        }
    }

    /// With pending items further apart than half a frame duration, drops every item
    /// older than the latest one and ends the cycle; with none pending, ends the cycle
    /// doing nothing.
    fn check_synchronisation(&mut self) -> (r: Result<(), CycleOutcome>)
        requires
            old(self).wf(),
        ensures
            final(self).wf(),
            !any_pending(old(self)@.channels) ==> (r matches Err(CycleOutcome::Idle)) && final(self)@ == old(self)@,
            any_pending(old(self)@.channels) && !synchronised(
                old(self)@.clock.frameset_duration as nat,
                min_ts(old(self)@.channels),
                max_ts(old(self)@.channels),
            ) ==> (r matches Err(o) && o@ == OutcomeModel::DroppedUnsynchronised {
                gap: gap_of(old(self)@.settings, old(self)@.clock),
            }) && final(self)@ == (MuxModel {
                channels: drop_lagging(old(self)@.channels, max_ts(old(self)@.channels)),
                clock: dropped_clock(old(self)@.settings, old(self)@.clock),
                ..old(self)@
            }),
            any_pending(old(self)@.channels) && synchronised(
                old(self)@.clock.frameset_duration as nat,
                min_ts(old(self)@.channels),
                max_ts(old(self)@.channels),
            ) ==> r is Ok && final(self)@ == old(self)@,
    {
        let (any, _) = self.pending_census();
        if !any {
            return Err(CycleOutcome::Idle);
        }
        let (earliest, latest) = self.get_timestamps();
        proof {
            lemma_ts_bounds(self@.channels);
        }
        if self.clock.is_synchronised(earliest, latest) {
            return Ok(());
        }
        self.drop_lagging_buffers(latest);
        let gap = self.send_gap_event();
        self.clock.forget_previous();
        Err(CycleOutcome::DroppedUnsynchronised { gap })
    }

    /// Builds a record from every slot, consumes the slots and records the emission.
    fn mux_buffers(&mut self) -> (r: CompositeRecord)
        requires
            old(self).wf(),
            old(self)@.channels.len() > 0,
        ensures
            final(self).wf(),
            r@ == composed(old(self)@.channels),
            final(self)@ == (MuxModel {
                channels: cleared(old(self)@.channels),
                clock: emitted_clock(old(self)@.clock, composed(old(self)@.channels)),
                ..old(self)@
            }),
    {
        let ghost start = self@.channels;
        let record = compose(&mut self.channels);
        self.clock.record_emission(record.primary.pts);
        proof {
            lemma_same_names_wf(start, self@.channels);
        }
        record
    }

    /// Runs one aggregation cycle; see `cycle` for what it does.
    pub fn aggregate(&mut self) -> (r: CycleOutcome)
        requires
            old(self).wf(),
        ensures
            final(self).wf(),
            (final(self)@, r@) == cycle(old(self)@),
    {
        if self.all_channels_eos() {
            return CycleOutcome::EndOfStream;
        }
        if self.settings.drop_if_missing {
            match self.drop_buffers_if_one_missing() {
                Err(o) => {
                    return o;
                },
                Ok(()) => {},
            }
        }
        if self.settings.drop_to_synchronise {
            match self.check_synchronisation() {
                Err(o) => {
                    return o;
                },
                Ok(()) => {},
            }
        }
        CycleOutcome::Emitted(self.mux_buffers())
    }

    /// Whether channel `stream` is registered and has an item pending.
    pub fn has_pending(&self, stream: &str) -> (r: bool)
        requires
            self.wf(),
        ensures
            r == (is_registered(self@.channels, stream@) && self@.channels[position_of(
                self@.channels,
                stream@,
            )].pending is Some),
    {
        match self.find_channel(stream) {
            None => false,
            Some(i) => self.channels[i].pending.is_some(),
        }
    }
}

} // verus!
