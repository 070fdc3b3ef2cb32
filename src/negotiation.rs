use vstd::prelude::*;

use crate::channel::{channel_models, names_of, opt_text, Channel, ChannelModel, DescriptorModel};
use crate::clock::Fraction;
use crate::text::text_eq;

verus! {

/// The value of one field of a composite descriptor.
#[derive(Clone, Debug)]
pub enum FieldValue {
    Text(String),
    Int(i32),
}

pub enum ValueModel {
    Text(Seq<char>),
    Int(i32),
}

impl View for FieldValue {
    type V = ValueModel;

    open spec fn view(&self) -> ValueModel {
        match self {
            FieldValue::Text(s) => ValueModel::Text(s@),
            FieldValue::Int(i) => ValueModel::Int(*i),
        }
    }
}

/// A named field of a descriptor, such as `depth_format` or `color_width`.
#[derive(Clone, Debug)]
pub struct DescriptorField {
    pub key: String,
    pub value: FieldValue,
}

pub struct FieldModel {
    pub key: Seq<char>,
    pub value: ValueModel,
}

impl View for DescriptorField {
    type V = FieldModel;

    open spec fn view(&self) -> FieldModel {
        FieldModel { key: self.key@, value: self.value@ }
    }
}

pub open spec fn field_models(v: Seq<DescriptorField>) -> Seq<FieldModel> {
    v.map_values(|f: DescriptorField| f@)
}

/// The format description of the composite stream: the ordered, comma-joined list of
/// stream names, the shared framerate, and the per-stream format fields.
#[derive(Clone, Debug)]
pub struct CompositeDescriptor {
    pub streams: String,
    pub framerate: Fraction,
    pub fields: Vec<DescriptorField>,
}

pub struct CompositeModel {
    pub streams: Seq<char>,
    pub framerate: Fraction,
    pub fields: Seq<FieldModel>,
}

impl View for CompositeDescriptor {
    type V = CompositeModel;

    open spec fn view(&self) -> CompositeModel {
        CompositeModel {
            streams: self.streams@,
            framerate: self.framerate,
            fields: field_models(self.fields@),
        }
    }
}

/// The names joined with commas, in order.
pub open spec fn joined(names: Seq<Seq<char>>) -> Seq<char>
    decreases names.len(),
{
    if names.len() == 0 {
        Seq::empty()
    } else if names.len() == 1 {
        names[0]
    } else {
        joined(names.drop_last()) + seq![','] + names.last()
    }
}

/// The `{name}_format` field of a stream: its announced format, else `image/jpeg`
/// for a JPEG stream, else none.
pub open spec fn format_fields(name: Seq<char>, d: DescriptorModel) -> Seq<FieldModel> {
    match d.format {
        Some(f) => seq![FieldModel { key: name + "_format"@, value: ValueModel::Text(f) }],
        None => if d.jpeg {
            seq![FieldModel { key: name + "_format"@, value: ValueModel::Text("image/jpeg"@) }]
        } else {
            Seq::empty()
        },
    }
}

pub open spec fn size_fields(name: Seq<char>, d: DescriptorModel) -> Seq<FieldModel> {
    (match d.width {
        Some(w) => seq![FieldModel { key: name + "_width"@, value: ValueModel::Int(w) }],
        None => Seq::empty(),
    }) + (match d.height {
        Some(h) => seq![FieldModel { key: name + "_height"@, value: ValueModel::Int(h) }],
        None => Seq::empty(),
    })
}

/// The fields that one channel contributes to the composite descriptor.
pub open spec fn channel_fields(c: ChannelModel) -> Seq<FieldModel> {
    match c.descriptor {
        Some(d) => format_fields(c.name, d) + size_fields(c.name, d),
        None => Seq::empty(),
    }
}

pub open spec fn descriptor_fields(chs: Seq<ChannelModel>) -> Seq<FieldModel>
    decreases chs.len(),
{
    if chs.len() == 0 {
        Seq::empty()
    } else {
        descriptor_fields(chs.drop_last()) + channel_fields(chs.last())
    }
}

/// The composite descriptor of the channels at the given framerate.
pub open spec fn composite_of(chs: Seq<ChannelModel>, framerate: Fraction) -> CompositeModel {
    CompositeModel {
        streams: joined(names_of(chs)),
        framerate,
        fields: descriptor_fields(chs),
    }
}

/// The framerate announced last in priority order, if any channel announced one.
pub open spec fn last_framerate(chs: Seq<ChannelModel>) -> Option<Fraction>
    decreases chs.len(),
{
    if chs.len() == 0 {
        None
    } else {
        match chs.last().descriptor {
            Some(d) if d.framerate is Some => d.framerate,
            _ => last_framerate(chs.drop_last()),
        }
    }
}

/// The format that downstream asks of `stream`: the text of its `{stream}_format`
/// field (the last one, should there be several).
pub open spec fn requested_format_in(fields: Seq<FieldModel>, stream: Seq<char>) -> Option<
    Seq<char>,
>
    decreases fields.len(),
{
    if fields.len() == 0 {
        None
    } else if fields.last().key == stream + "_format"@ && fields.last().value is Text {
        Some(fields.last().value->Text_0)
    } else {
        requested_format_in(fields.drop_last(), stream)
    }
}

fn suffixed(name: &String, suffix: &str) -> (r: String)
    ensures
        r@ == name@ + suffix@,
{
    name.clone().concat(suffix)
}

/// Appends the fields of one channel.
fn push_channel_fields(out: &mut Vec<DescriptorField>, c: &Channel)
    ensures
        field_models(final(out)@) == field_models(old(out)@) + channel_fields(c@),
{
    let ghost start = field_models(out@);
    match &c.descriptor {
        None => {},
        Some(d) => {
            match &d.format {
                Some(f) => {
                    out.push(
                        DescriptorField {
                            key: suffixed(&c.name, "_format"),
                            value: FieldValue::Text(f.clone()),
                        },
                    );
                },
                None => {
                    if d.jpeg {
                        out.push(
                            DescriptorField {
                                key: suffixed(&c.name, "_format"),
                                value: FieldValue::Text(String::from_str("image/jpeg")),
                            },
                        );
                    }
                },
            }
            let ghost mid = field_models(out@);
            assert(mid =~= start + format_fields(c@.name, d@));
            match d.width {
                Some(w) => {
                    out.push(
                        DescriptorField { key: suffixed(&c.name, "_width"), value: FieldValue::Int(w) },
                    );
                },
                None => {},
            }
            match d.height {
                Some(h) => {
                    out.push(
                        DescriptorField {
                            key: suffixed(&c.name, "_height"),
                            value: FieldValue::Int(h),
                        },
                    );
                },
                None => {},
            }
            assert(field_models(out@) =~= start + channel_fields(c@));
        },
    }
    assert(field_models(out@) =~= start + channel_fields(c@));
}

/// Builds the composite descriptor of the channels at the given framerate.
pub fn build_composite(chs: &Vec<Channel>, framerate: Fraction) -> (r: CompositeDescriptor)
    ensures
        r@ == composite_of(channel_models(chs@), framerate),
{
    let ghost models = channel_models(chs@);
    let mut streams = String::new();
    let mut fields: Vec<DescriptorField> = Vec::new();
    let mut i: usize = 0;
    while i < chs.len()
        invariant
            i <= chs.len(),
            models == channel_models(chs@),
            streams@ == joined(names_of(models.take(i as int))),
            field_models(fields@) == descriptor_fields(models.take(i as int)),
        decreases chs.len() - i,
    {
        let ghost before = models.take(i as int);
        let ghost after = models.take(i + 1);
        assert(after.drop_last() =~= before);
        assert(names_of(after).drop_last() =~= names_of(before));
        let ghost joined_before = streams@;
        if i > 0 {
            streams.append(",");
            proof {
                reveal_strlit(",");
            }
            assert(streams@ == joined_before + seq![',']);
        }
        streams.append(chs[i].name.as_str());
        push_channel_fields(&mut fields, &chs[i]);
        assert(after.last() == models[i as int]);
        assert(names_of(after).len() == i + 1);
        assert(names_of(after).last() == models[i as int].name);
        if i == 0 {
            assert(names_of(after) =~= seq![models[0].name]);
        }
        i = i + 1;
    }
    assert(models.take(chs.len() as int) =~= models);
    CompositeDescriptor { streams, framerate, fields }
}

/// The format that downstream asks of `stream` among `fields`.
pub fn requested_format(fields: &Vec<DescriptorField>, stream: &String) -> (r: Option<String>)
    ensures
        opt_text(r) == requested_format_in(field_models(fields@), stream@),
{
    let key = suffixed(stream, "_format");
    let ghost models = field_models(fields@);
    let mut i: usize = fields.len();
    assert(models.take(i as int) =~= models);
    while i > 0
        invariant
            i <= fields.len(),
            models == field_models(fields@),
            key@ == stream@ + "_format"@,
            requested_format_in(models, stream@) == requested_format_in(
                models.take(i as int),
                stream@,
            ),
        decreases i,
    {
        let f = &fields[i - 1];
        let ghost prefix = models.take(i as int);
        assert(prefix.last() == f@);
        assert(prefix.drop_last() =~= models.take(i - 1));
        if text_eq(f.key.as_str(), key.as_str()) {
            match &f.value {
                FieldValue::Text(t) => {
                    return Some(t.clone());
                },
                FieldValue::Int(_) => {},
            }
        }
        i = i - 1;
    }
    None
}


} // verus!
