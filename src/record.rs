use vstd::prelude::*;

use crate::channel::{channel_models, opt_item, Channel, ChannelModel, Item, ItemModel};

verus! {

/// A payload tagged with the name of the channel it came from. A gap placeholder is
/// empty, has no timestamp, and is flagged as a gap that may be dropped.
#[derive(Clone, Debug)]
pub struct TaggedBuffer {
    pub tag: String,
    pub pts: Option<u64>,
    pub data: Vec<u8>,
    pub gap: bool,
}

pub struct BufferModel {
    pub tag: Seq<char>,
    pub pts: Option<u64>,
    pub data: Seq<u8>,
    pub gap: bool,
}

impl View for TaggedBuffer {
    type V = BufferModel;

    open spec fn view(&self) -> BufferModel {
        BufferModel { tag: self.tag@, pts: self.pts, data: self.data@, gap: self.gap }
    }
}

/// One synchronised frameset: a primary payload and the payloads of the other
/// channels attached to it in priority order.
#[derive(Clone, Debug)]
pub struct CompositeRecord {
    pub primary: TaggedBuffer,
    pub attachments: Vec<TaggedBuffer>,
}

pub struct RecordModel {
    pub primary: BufferModel,
    pub attachments: Seq<BufferModel>,
}

impl View for CompositeRecord {
    type V = RecordModel;

    open spec fn view(&self) -> RecordModel {
        RecordModel {
            primary: self.primary@,
            attachments: self.attachments@.map_values(|b: TaggedBuffer| b@),
        }
    }
}

pub open spec fn gap_placeholder(name: Seq<char>) -> BufferModel {
    BufferModel { tag: name, pts: None, data: Seq::empty(), gap: true }
}

/// What a channel contributes to a record: its pending item, or a gap placeholder.
pub open spec fn tagged(name: Seq<char>, slot: Option<ItemModel>) -> BufferModel {
    match slot {
        Some(it) => BufferModel { tag: name, pts: it.pts, data: it.data, gap: false },
        None => gap_placeholder(name),
    }
}

pub open spec fn contribution(c: ChannelModel) -> BufferModel {
    tagged(c.name, c.pending)
}

/// The record built from the channels in priority order: the first channel gives the
/// primary payload, every other channel one attachment.
pub open spec fn composed(chs: Seq<ChannelModel>) -> RecordModel {
    RecordModel {
        primary: contribution(chs[0]),
        attachments: chs.drop_first().map_values(|c: ChannelModel| contribution(c)),
    }
}

/// The channels with every slot consumed.
pub open spec fn cleared(chs: Seq<ChannelModel>) -> Seq<ChannelModel> {
    chs.map_values(|c: ChannelModel| ChannelModel { pending: None, ..c })
}

/// Turns what a slot held into a buffer tagged with the channel's name.
pub fn tag_item(name: &String, slot: Option<Item>) -> (r: TaggedBuffer)
    ensures
        r@ == tagged(name@, opt_item(slot)),
{
    match slot {
        Some(it) => TaggedBuffer { tag: name.clone(), pts: it.pts, data: it.data, gap: false },
        None => new_gap_placeholder(name),
    }
}


/// An empty buffer flagged as a gap, tagged with `name`.
pub fn new_gap_placeholder(name: &String) -> (r: TaggedBuffer)
    ensures
        r@ == gap_placeholder(name@),
{
    let r = TaggedBuffer { tag: name.clone(), pts: None, data: Vec::new(), gap: true };
    assert(r@.data =~= Seq::<u8>::empty());
    r
}

/// Empties the slot of channel `i` and returns what it held.
pub fn take_pending(chs: &mut Vec<Channel>, i: usize) -> (r: Option<Item>)
    requires
        i < old(chs).len(),
    ensures
        final(chs).len() == old(chs).len(),
        forall|j: int| 0 <= j < old(chs).len() && j != i ==> final(chs)[j] == old(chs)[j],
        final(chs)[i as int]@ == (ChannelModel { pending: None, ..old(chs)[i as int]@ }),
        r == old(chs)[i as int].pending,
{
    let ch = &mut chs[i];
    ch.pending.take()
}

/// Builds a record from the channels' slots and consumes every slot.
pub fn compose(chs: &mut Vec<Channel>) -> (r: CompositeRecord)
    requires
        old(chs).len() > 0,
    ensures
        r@ == composed(channel_models(old(chs)@)),
        channel_models(final(chs)@) == cleared(channel_models(old(chs)@)),
{
    let ghost start = channel_models(chs@);
    let first = take_pending(chs, 0);
    let primary = tag_item(&chs[0].name, first);
    let mut attachments: Vec<TaggedBuffer> = Vec::new();
    let mut i: usize = 1;
    while i < chs.len()
        invariant
            1 <= i <= chs.len(),
            chs.len() == start.len(),
            forall|j: int| 0 <= j < i ==> #[trigger] chs[j]@ == (ChannelModel { pending: None, ..start[j] }),
            forall|j: int| i <= j < start.len() ==> #[trigger] chs[j]@ == start[j],
            primary@ == contribution(start[0]),
            attachments@.len() == i - 1,
            forall|j: int| 0 <= j < i - 1 ==> #[trigger] attachments@[j]@ == contribution(start[j + 1]),
        decreases start.len() - i,
    {
        let slot = take_pending(chs, i);
        let b = tag_item(&chs[i].name, slot);
        attachments.push(b);
        i = i + 1;
    }
    let r = CompositeRecord { primary, attachments };
    assert(r@.attachments =~= start.drop_first().map_values(|c: ChannelModel| contribution(c)));
    assert(channel_models(chs@) =~= cleared(start));
    r
}

} // verus!
