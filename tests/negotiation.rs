use rgbd_mux::channel::{stream_priority, ElementaryDescriptor};
use rgbd_mux::clock::{frame_duration, ClockState, Fraction};
use rgbd_mux::mux::{MuxError, RgbdMux};
use rgbd_mux::negotiation::{DescriptorField, FieldValue};
use rgbd_mux::stream::{Metadata, StreamResolution, METADATA_ACTUAL_FPS, METADATA_FRAME_COUNTER, METADATA_SEQUENCE_SIZE};
use rgbd_mux::text::text_eq;

fn text(key: &str, value: &str) -> DescriptorField {
    DescriptorField { key: key.to_string(), value: FieldValue::Text(value.to_string()) }
}

fn field_text(f: &DescriptorField) -> (String, String) {
    match &f.value {
        FieldValue::Text(t) => (f.key.clone(), t.clone()),
        FieldValue::Int(i) => (f.key.clone(), i.to_string()),
    }
}

#[test]
fn infra1_lands_between_depth_and_color() {
    let mut mux = RgbdMux::new();
    mux.add_channel("sink_depth").unwrap();
    mux.add_channel("sink_color").unwrap();
    mux.add_channel("sink_infra1").unwrap();
    assert_eq!(mux.stream_names(), vec!["depth", "infra1", "color"]);
    let d = mux.renegotiate().unwrap();
    assert_eq!(d.streams, "depth,infra1,color");
}

#[test]
fn other_streams_keep_registration_order_after_canonical_ones() {
    let mut mux = RgbdMux::new();
    for n in ["sink_extra", "sink_color", "sink_camerameta", "sink_infra2", "sink_depth"] {
        mux.add_channel(n).unwrap();
    }
    assert_eq!(
        mux.stream_names(),
        vec!["depth", "infra2", "color", "extra", "camerameta"]
    );
}

#[test]
fn register_then_release_restores_order_and_descriptor() {
    let mut mux = RgbdMux::new();
    mux.add_channel("sink_depth").unwrap();
    mux.add_channel("sink_color").unwrap();
    let before_names = mux.stream_names();
    let before = mux.renegotiate().unwrap();
    let h = mux.add_channel("sink_infra2").unwrap();
    assert_eq!(mux.stream_names(), vec!["depth", "infra2", "color"]);
    assert!(mux.remove_channel(&h));
    assert_eq!(mux.stream_names(), before_names);
    let after = mux.renegotiate().unwrap();
    assert_eq!(after.streams, before.streams);
    assert_eq!(after.framerate, before.framerate);
    assert_eq!(after.fields.len(), before.fields.len());
    assert!(!mux.remove_channel(&h));
}

#[test]
fn negotiation_needs_a_channel() {
    let mut mux = RgbdMux::new();
    assert_eq!(mux.renegotiate().unwrap_err(), MuxError::NeedData);
}

#[test]
fn descriptor_fields_per_stream() {
    let mut mux = RgbdMux::new();
    mux.add_channel("sink_color").unwrap();
    mux.add_channel("sink_depth").unwrap();
    mux.add_channel("sink_infra1").unwrap();
    assert!(mux.set_descriptor(
        "depth",
        ElementaryDescriptor {
            jpeg: false,
            format: Some("GRAY16_LE".to_string()),
            width: Some(640),
            height: Some(480),
            framerate: Some(Fraction { num: 15, den: 1 }),
        },
    ));
    assert!(mux.set_descriptor(
        "color",
        ElementaryDescriptor {
            jpeg: true,
            format: None,
            width: Some(1280),
            height: None,
            framerate: Some(Fraction { num: 30, den: 1 }),
        },
    ));
    let d = mux.renegotiate().unwrap();
    assert_eq!(d.streams, "depth,infra1,color");
    // the framerate announced last in priority order wins
    assert_eq!(d.framerate, Fraction { num: 30, den: 1 });
    assert_eq!(mux.clock().frameset_duration, 33_333_333);
    let fields: Vec<(String, String)> = d.fields.iter().map(field_text).collect();
    let expected: Vec<(String, String)> = vec![
        ("depth_format", "GRAY16_LE"),
        ("depth_width", "640"),
        ("depth_height", "480"),
        ("color_format", "image/jpeg"),
        ("color_width", "1280"),
    ]
    .into_iter()
    .map(|(k, v)| (k.to_string(), v.to_string()))
    .collect();
    assert_eq!(fields, expected);
}

#[test]
fn jpeg_stream_with_format_keeps_its_format() {
    let mut mux = RgbdMux::new();
    mux.add_channel("sink_color").unwrap();
    mux.set_descriptor(
        "color",
        ElementaryDescriptor {
            jpeg: true,
            format: Some("RGB".to_string()),
            width: None,
            height: None,
            framerate: None,
        },
    );
    let d = mux.renegotiate().unwrap();
    let fields: Vec<(String, String)> = d.fields.iter().map(field_text).collect();
    assert_eq!(fields, vec![("color_format".to_string(), "RGB".to_string())]);
    assert_eq!(d.framerate, Fraction { num: 30, den: 1 });
}

#[test]
fn downstream_format_requests() {
    let mut mux = RgbdMux::new();
    mux.add_channel("sink_depth").unwrap();
    mux.add_channel("sink_color").unwrap();
    let downstream = vec![
        text("streams", "depth,color"),
        text("depth_format", "GRAY16_LE"),
        DescriptorField { key: "color_format".to_string(), value: FieldValue::Int(3) },
        text("infra1_format", "GRAY8"),
    ];
    assert_eq!(
        mux.format_request(&downstream, &"depth".to_string()),
        Some("GRAY16_LE".to_string())
    );
    assert_eq!(mux.format_request(&downstream, &"color".to_string()), None);
    // a stream that is not registered is ignored
    assert_eq!(mux.format_request(&downstream, &"infra1".to_string()), None);
}

#[test]
fn frame_durations() {
    assert_eq!(frame_duration(Fraction { num: 30, den: 1 }), 33_333_333);
    assert_eq!(frame_duration(Fraction { num: 60, den: 1 }), 16_666_666);
    assert_eq!(frame_duration(Fraction { num: 30000, den: 1001 }), 33_366_666);
    assert_eq!(frame_duration(Fraction { num: -15, den: -1 }), 66_666_666);
    // unusable framerates fall back to 30 frames per second
    assert_eq!(frame_duration(Fraction { num: 0, den: 1 }), 33_333_333);
    assert_eq!(frame_duration(Fraction { num: 5, den: 0 }), 33_333_333);
    assert_eq!(frame_duration(Fraction { num: -30, den: 1 }), 33_333_333);
}

#[test]
fn clock_updates_and_synchronisation() {
    let mut c = ClockState::new();
    c.update_from_framerate(Fraction { num: 30, den: 1 }, 2500);
    assert_eq!(c.frameset_duration, 33_333_333);
    assert_eq!(c.deadline_duration, 83_333_332);
    assert!(c.is_synchronised(100, 100 + 16_666_666));
    assert!(!c.is_synchronised(100, 100 + 16_666_667));
    c.update_from_framerate(Fraction { num: 1, den: 2_000_000_000 }, u32::MAX);
    assert_eq!(c.deadline_duration, u64::MAX);
    assert_eq!(c.next_deadline(true), None);
    c.record_emission(Some(u64::MAX - 5));
    assert_eq!(c.next_deadline(true), Some(u64::MAX));
    assert_eq!(c.next_deadline(false), None);
}

#[test]
fn gap_requests_are_debounced() {
    let mut c = ClockState::new();
    c.record_emission(Some(7));
    assert_eq!(c.send_gap_once(), Some(7));
    assert!(c.is_gap_event_sent);
    assert_eq!(c.send_gap_once(), None);
    c.forget_previous();
    c.record_emission(None);
    assert!(!c.is_gap_event_sent);
    // without a previous timestamp nothing is raised, but the run is marked
    assert_eq!(c.send_gap_once(), None);
    assert!(c.is_gap_event_sent);
}

#[test]
fn priorities() {
    assert_eq!(stream_priority("depth"), 0);
    assert_eq!(stream_priority("infra1"), 1);
    assert_eq!(stream_priority("infra2"), 2);
    assert_eq!(stream_priority("color"), 3);
    assert_eq!(stream_priority("camerameta"), 4);
    assert_eq!(stream_priority(""), 4);
    assert!(text_eq("abc", "abc"));
    assert!(!text_eq("abc", "abd"));
    assert!(!text_eq("abc", "ab"));
}

#[test]
fn stream_resolution_and_metadata() {
    let r = StreamResolution::new(640, 480);
    assert_eq!(r.width, 640);
    assert_eq!(r.height, 480);
    assert_eq!(StreamResolution::default(), StreamResolution::new(-1, -1));
    assert_eq!(r.to_text(), "640x480px");
    assert_eq!(StreamResolution::default().to_text(), "-1x-1px");
    assert_eq!(StreamResolution::new(0, i32::MIN).to_text(), "0x-2147483648px");
    assert_eq!(StreamResolution::new(1920, 1080).to_text(), "1920x1080px");
    let m = Metadata::default();
    assert_eq!(m.frame_counter, None);
    assert_eq!(m.sequence_size, None);
}

#[test]
fn metadata_from_reported_pairs() {
    let values = vec![
        (METADATA_FRAME_COUNTER, 12),
        (METADATA_SEQUENCE_SIZE, 7),
        (METADATA_FRAME_COUNTER, 13),
        (99, 1),
        (METADATA_ACTUAL_FPS, 30),
    ];
    let m = Metadata::from(&values);
    assert_eq!(m.frame_counter, Some(13));
    assert_eq!(m.sequence_size, Some(7));
    assert_eq!(m.actual_fps, Some(30));
    assert_eq!(m.gain_level, None);
    assert_eq!(Metadata::from(&vec![]), Metadata::default());
}
