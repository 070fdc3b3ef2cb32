use vstd::prelude::*;

use crate::clock::Fraction;
use crate::text::text_eq;

verus! {

/// One unconsumed item waiting in a channel's slot: a timestamp (nanoseconds) and a payload.
#[derive(Clone, Debug)]
pub struct Item {
    pub pts: Option<u64>,
    pub data: Vec<u8>,
}

pub struct ItemModel {
    pub pts: Option<u64>,
    pub data: Seq<u8>,
}

impl View for Item {
    type V = ItemModel;

    open spec fn view(&self) -> ItemModel {
        ItemModel { pts: self.pts, data: self.data@ }
    }
}

/// The format description that an upstream producer announced for one channel.
#[derive(Clone, Debug)]
pub struct ElementaryDescriptor {
    /// The stream carries JPEG images.
    pub jpeg: bool,
    pub format: Option<String>,
    pub width: Option<i32>,
    pub height: Option<i32>,
    pub framerate: Option<Fraction>,
}

pub struct DescriptorModel {
    pub jpeg: bool,
    pub format: Option<Seq<char>>,
    pub width: Option<i32>,
    pub height: Option<i32>,
    pub framerate: Option<Fraction>,
}

pub open spec fn opt_text(o: Option<String>) -> Option<Seq<char>> {
    match o {
        Some(s) => Some(s@),
        None => None,
    }
}

impl View for ElementaryDescriptor {
    type V = DescriptorModel;

    open spec fn view(&self) -> DescriptorModel {
        DescriptorModel {
            jpeg: self.jpeg,
            format: opt_text(self.format),
            width: self.width,
            height: self.height,
            framerate: self.framerate,
        }
    }
}

/// A registered input channel: its stream name, a single-slot buffer, an end-of-stream
/// flag, and the format its producer announced.
#[derive(Debug)]
pub struct Channel {
    pub name: String,
    pub pending: Option<Item>,
    pub eos: bool,
    pub descriptor: Option<ElementaryDescriptor>,
}

pub struct ChannelModel {
    pub name: Seq<char>,
    pub pending: Option<ItemModel>,
    pub eos: bool,
    pub descriptor: Option<DescriptorModel>,
}

pub open spec fn opt_item(o: Option<Item>) -> Option<ItemModel> {
    match o {
        Some(it) => Some(it@),
        None => None,
    }
}

pub open spec fn opt_descriptor(o: Option<ElementaryDescriptor>) -> Option<DescriptorModel> {
    match o {
        Some(d) => Some(d@),
        None => None,
    }
}

impl View for Channel {
    type V = ChannelModel;

    open spec fn view(&self) -> ChannelModel {
        ChannelModel {
            name: self.name@,
            pending: opt_item(self.pending),
            eos: self.eos,
            descriptor: opt_descriptor(self.descriptor),
        }
    }
}

pub open spec fn channel_models(v: Seq<Channel>) -> Seq<ChannelModel> {
    v.map_values(|c: Channel| c@)
}

/// A channel as it is right after registration.
pub open spec fn fresh_channel(name: Seq<char>) -> ChannelModel {
    ChannelModel { name, pending: None, eos: false, descriptor: None }
}

/// Rank of a stream name: the canonical streams come first, in the order
/// depth, infra1, infra2, color; every other name shares the last rank.
pub open spec fn priority(name: Seq<char>) -> nat {
    if name == "depth"@ {
        0
    } else if name == "infra1"@ {
        1
    } else if name == "infra2"@ {
        2
    } else if name == "color"@ {
        3
    } else {
        4
    }
}

pub fn stream_priority(name: &str) -> (r: u8)
    ensures
        r as nat == priority(name@),
{
    if text_eq(name, "depth") {
        0
    } else if text_eq(name, "infra1") {
        1
    } else if text_eq(name, "infra2") {
        2
    } else if text_eq(name, "color") {
        3
    } else {
        4
    }
}

pub open spec fn names_of(chs: Seq<ChannelModel>) -> Seq<Seq<char>> {
    chs.map_values(|c: ChannelModel| c.name)
}

pub open spec fn sorted_by_priority(chs: Seq<ChannelModel>) -> bool {
    forall|i: int, j: int|
        0 <= i < j < chs.len() ==> priority(#[trigger] chs[i].name) <= priority(
            #[trigger] chs[j].name,
        )
}

pub open spec fn names_unique(chs: Seq<ChannelModel>) -> bool {
    forall|i: int, j: int|
        0 <= i < chs.len() && 0 <= j < chs.len() && i != j ==> #[trigger] chs[i].name
            != #[trigger] chs[j].name
}

pub open spec fn is_registered(chs: Seq<ChannelModel>, name: Seq<char>) -> bool {
    exists|i: int| 0 <= i < chs.len() && #[trigger] chs[i].name == name
}

/// Where the channel with `name` stands (meaningful when it is registered).
pub open spec fn position_of(chs: Seq<ChannelModel>, name: Seq<char>) -> int {
    choose|i: int| 0 <= i < chs.len() && #[trigger] chs[i].name == name
}

/// The slot where a channel of priority `p` goes: after every channel whose priority
/// is at most `p`, so that channels of equal priority keep their order of registration.
pub open spec fn slot_for(chs: Seq<ChannelModel>, p: nat) -> nat
    decreases chs.len(),
{
    if chs.len() == 0 {
        0
    } else if p < priority(chs.last().name) {
        slot_for(chs.drop_last(), p)
    } else {
        chs.len()
    }
}

/// The channel list after registering a fresh channel `name`.
pub open spec fn registered(chs: Seq<ChannelModel>, name: Seq<char>) -> Seq<ChannelModel> {
    chs.insert(slot_for(chs, priority(name)) as int, fresh_channel(name))
}

/// The channel list after releasing the channel `name`.
pub open spec fn unregistered(chs: Seq<ChannelModel>, name: Seq<char>) -> Seq<ChannelModel> {
    if is_registered(chs, name) {
        chs.remove(position_of(chs, name))
    } else {
        chs
    }
}

/// In a list sorted by priority, the slot for `p` splits the channels of priority
/// at most `p` from those of higher priority.
pub proof fn lemma_slot_for(chs: Seq<ChannelModel>, p: nat)
    requires
        sorted_by_priority(chs),
    ensures
        slot_for(chs, p) <= chs.len(),
        forall|j: int| 0 <= j < slot_for(chs, p) ==> priority(#[trigger] chs[j].name) <= p,
        forall|j: int| slot_for(chs, p) <= j < chs.len() ==> p < priority(#[trigger] chs[j].name),
    decreases chs.len(),
{
    if chs.len() > 0 {
        let last = chs.len() - 1;
        if p < priority(chs.last().name) {
            lemma_slot_for(chs.drop_last(), p);
            assert forall|j: int| 0 <= j < slot_for(chs, p) implies priority(
                #[trigger] chs[j].name,
            ) <= p by {
                assert(chs.drop_last()[j] == chs[j]);
            }
            assert forall|j: int| slot_for(chs, p) <= j < chs.len() implies p < priority(
                #[trigger] chs[j].name,
            ) by {
                if j < last {
                    assert(chs.drop_last()[j] == chs[j]);
                }
            }
        } else {
            assert forall|j: int| 0 <= j < slot_for(chs, p) implies priority(
                #[trigger] chs[j].name,
            ) <= p by {
                if j < last {
                    assert(priority(chs[j].name) <= priority(chs[last].name));
                }
            }
        }
    }
}

/// Registration keeps the list sorted by priority, and keeps names unique when the
/// new name is not registered yet.
pub proof fn lemma_registered_wf(chs: Seq<ChannelModel>, name: Seq<char>)
    requires
        sorted_by_priority(chs),
        names_unique(chs),
        !is_registered(chs, name),
    ensures
        sorted_by_priority(registered(chs, name)),
        names_unique(registered(chs, name)),
        registered(chs, name)[slot_for(chs, priority(name)) as int] == fresh_channel(name),
        is_registered(registered(chs, name), name),
        position_of(registered(chs, name), name) == slot_for(chs, priority(name)),
{
    let p = priority(name);
    let k = slot_for(chs, p) as int;
    let r = registered(chs, name);
    lemma_slot_for(chs, p);
    assert(r.len() == chs.len() + 1);
    assert forall|i: int| 0 <= i < r.len() && i != k implies #[trigger] r[i] == (if i < k {
        chs[i]
    } else {
        chs[i - 1]
    }) by {}
    assert forall|i: int, j: int| 0 <= i < j < r.len() implies priority(#[trigger] r[i].name)
        <= priority(#[trigger] r[j].name) by {
        if i == k {
            assert(p < priority(chs[j - 1].name));
        } else if j == k {
            assert(priority(chs[i].name) <= p);
        } else {
            let i0 = if i < k { i } else { i - 1 };
            let j0 = if j < k { j } else { j - 1 };
            assert(r[i] == chs[i0] && r[j] == chs[j0]);
        }
    }
    assert forall|i: int, j: int|
        0 <= i < r.len() && 0 <= j < r.len() && i != j implies #[trigger] r[i].name
        != #[trigger] r[j].name by {
        let i0 = if i < k { i } else { i - 1 };
        let j0 = if j < k { j } else { j - 1 };
        if i == k {
            assert(r[j] == chs[j0]);
        } else if j == k {
            assert(r[i] == chs[i0]);
        } else {
            assert(r[i] == chs[i0] && r[j] == chs[j0]);
        }
    }
    assert(r[k].name == name);
    assert(is_registered(r, name));
    let q = position_of(r, name);
    assert(r[q].name == name);
}

} // verus!
