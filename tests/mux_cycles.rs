use rgbd_mux::channel::{ElementaryDescriptor, Item};
use rgbd_mux::clock::Fraction;
use rgbd_mux::mux::{MuxError, RgbdMux, Settings};
use rgbd_mux::record::CompositeRecord;
use rgbd_mux::sync::CycleOutcome;

const MS: u64 = 1_000_000;

fn item(ms: u64, byte: u8) -> Item {
    Item { pts: Some(ms * MS), data: vec![byte] }
}

fn rate_30() -> ElementaryDescriptor {
    ElementaryDescriptor {
        jpeg: false,
        format: None,
        width: None,
        height: None,
        framerate: Some(Fraction { num: 30, den: 1 }),
    }
}

fn mux_with(names: &[&str], settings: Settings) -> RgbdMux {
    let mut mux = RgbdMux::new();
    mux.set_settings(settings);
    for n in names {
        mux.add_channel(n).unwrap();
    }
    assert!(mux.set_descriptor("depth", rate_30()));
    mux.renegotiate().unwrap();
    mux
}

fn settings(drop_if_missing: bool, drop_to_synchronise: bool, send_gap_events: bool) -> Settings {
    Settings {
        drop_if_missing,
        deadline_multiplier_permille: 2500,
        drop_to_synchronise,
        send_gap_events,
    }
}

fn emitted(o: CycleOutcome) -> CompositeRecord {
    match o {
        CycleOutcome::Emitted(r) => r,
        other => panic!("expected a record, got {:?}", other),
    }
}

fn tags(r: &CompositeRecord) -> Vec<String> {
    r.attachments.iter().map(|b| b.tag.clone()).collect()
}

#[test]
fn synchronised_pairs_give_three_records() {
    let mut mux = mux_with(&["sink_depth", "sink_color"], settings(false, true, false));
    let depth = [100, 133, 166];
    let color = [100, 134, 168];
    for k in 0..3 {
        assert!(mux.push_item("depth", item(depth[k], 1)));
        assert!(mux.push_item("color", item(color[k], 2)));
        assert!(mux.is_ready());
        let r = emitted(mux.aggregate());
        assert_eq!(r.primary.tag, "depth");
        assert_eq!(r.primary.pts, Some(depth[k] * MS));
        assert!(!r.primary.gap);
        assert_eq!(tags(&r), vec!["color".to_string()]);
        assert_eq!(r.attachments[0].pts, Some(color[k] * MS));
        assert_eq!(r.attachments[0].data, vec![2]);
        assert_eq!(mux.clock().previous_timestamp, Some(depth[k] * MS));
        assert!(!mux.has_pending("depth"));
        assert!(!mux.has_pending("color"));
    }
}

#[test]
fn stalled_channel_drops_and_signals_gap_once() {
    let mut mux = mux_with(&["sink_depth", "sink_color"], settings(true, true, true));
    assert_eq!(mux.clock().deadline_duration, 83_333_332);
    mux.push_item("depth", item(100, 1));
    mux.push_item("color", item(100, 2));
    emitted(mux.aggregate());
    assert_eq!(mux.next_time(), Some(100 * MS + 83_333_332));

    // color stalls while depth keeps producing
    mux.push_item("depth", item(133, 1));
    assert!(!mux.is_ready());
    match mux.aggregate() {
        CycleOutcome::DroppedMissing { gap } => assert_eq!(gap, Some(100 * MS)),
        other => panic!("unexpected {:?}", other),
    }
    assert!(!mux.has_pending("depth"));
    assert_eq!(mux.clock().previous_timestamp, None);
    assert_eq!(mux.next_time(), None);

    mux.push_item("depth", item(166, 1));
    match mux.aggregate() {
        CycleOutcome::DroppedMissing { gap } => assert_eq!(gap, None),
        other => panic!("unexpected {:?}", other),
    }

    // a successful emission starts a new run
    mux.push_item("depth", item(200, 1));
    mux.push_item("color", item(200, 2));
    emitted(mux.aggregate());
    assert!(!mux.clock().is_gap_event_sent);
    mux.push_item("color", item(233, 2));
    match mux.aggregate() {
        CycleOutcome::DroppedMissing { gap } => assert_eq!(gap, Some(200 * MS)),
        other => panic!("unexpected {:?}", other),
    }
}

#[test]
fn unsynchronised_items_drop_the_lagging_one() {
    let mut mux = mux_with(&["sink_depth", "sink_color"], settings(false, true, false));
    mux.push_item("depth", item(100, 1));
    mux.push_item("color", item(150, 2));
    match mux.aggregate() {
        CycleOutcome::DroppedUnsynchronised { gap } => assert_eq!(gap, None),
        other => panic!("unexpected {:?}", other),
    }
    assert!(!mux.has_pending("depth"));
    assert!(mux.has_pending("color"));
    assert_eq!(mux.clock().previous_timestamp, None);
}

#[test]
fn equal_latest_timestamps_are_all_kept() {
    let mut mux = mux_with(
        &["sink_depth", "sink_infra1", "sink_color"],
        settings(false, true, false),
    );
    mux.push_item("depth", item(100, 1));
    mux.push_item("infra1", item(150, 2));
    mux.push_item("color", item(150, 3));
    match mux.aggregate() {
        CycleOutcome::DroppedUnsynchronised { .. } => {}
        other => panic!("unexpected {:?}", other),
    }
    assert!(!mux.has_pending("depth"));
    assert!(mux.has_pending("infra1"));
    assert!(mux.has_pending("color"));
}

#[test]
fn empty_primary_becomes_gap_placeholder() {
    let mut mux = mux_with(&["sink_color", "sink_depth"], settings(false, false, false));
    mux.push_item("color", item(40, 7));
    let r = emitted(mux.aggregate());
    assert_eq!(r.primary.tag, "depth");
    assert!(r.primary.gap);
    assert!(r.primary.data.is_empty());
    assert_eq!(r.primary.pts, None);
    assert_eq!(tags(&r), vec!["color".to_string()]);
    assert_eq!(r.attachments[0].data, vec![7]);
    // the previous timestamp is the primary payload's, unknown for a gap
    assert_eq!(mux.clock().previous_timestamp, None);
}

#[test]
fn attachments_follow_priority_and_are_unique() {
    let mut mux = mux_with(
        &["sink_camerameta", "sink_color", "sink_infra2", "sink_depth", "sink_infra1"],
        settings(false, false, false),
    );
    mux.push_item("infra2", item(10, 3));
    let r = emitted(mux.aggregate());
    assert_eq!(r.primary.tag, "depth");
    assert_eq!(tags(&r), vec!["infra1", "infra2", "color", "camerameta"]);
    assert!(r.attachments[0].gap);
    assert!(!r.attachments[1].gap);
    assert!(r.attachments[2].gap);
}

#[test]
fn no_pending_items_is_idle() {
    let mut mux = mux_with(&["sink_depth", "sink_color"], settings(true, true, false));
    assert!(matches!(mux.aggregate(), CycleOutcome::Idle));
    let mut mux = mux_with(&["sink_depth", "sink_color"], settings(false, true, false));
    assert!(matches!(mux.aggregate(), CycleOutcome::Idle));
}

#[test]
fn all_channels_ended_ends_the_output() {
    let mut mux = mux_with(&["sink_depth", "sink_color"], settings(false, true, false));
    mux.push_item("depth", item(1, 1));
    assert!(mux.mark_eos("depth"));
    assert!(matches!(mux.aggregate(), CycleOutcome::Emitted(_)));
    assert!(mux.mark_eos("color"));
    assert!(matches!(mux.aggregate(), CycleOutcome::EndOfStream));
    assert!(!mux.mark_eos("infra1"));
}

#[test]
fn without_channels_the_cycle_ends() {
    let mut mux = RgbdMux::new();
    assert!(matches!(mux.aggregate(), CycleOutcome::EndOfStream));
}

#[test]
fn unknown_channel_takes_no_item() {
    let mut mux = mux_with(&["sink_depth"], settings(false, true, false));
    assert!(!mux.push_item("color", item(1, 1)));
    assert!(!mux.has_pending("color"));
}

#[test]
fn registration_errors() {
    let mut mux = RgbdMux::new();
    assert_eq!(mux.add_channel("").unwrap_err(), MuxError::EmptyName);
    assert_eq!(mux.add_channel("src_depth").unwrap_err(), MuxError::InvalidName);
    assert_eq!(mux.add_channel("sink_").unwrap_err(), MuxError::InvalidName);
    assert_eq!(mux.add_channel("sink").unwrap_err(), MuxError::InvalidName);
    let h = mux.add_channel("sink_depth").unwrap();
    assert_eq!(h.stream, "depth");
    assert_eq!(mux.add_channel("sink_depth").unwrap_err(), MuxError::DuplicateName);
    assert_eq!(mux.stream_names(), vec!["depth".to_string()]);
}

#[test]
fn defaults() {
    let mux = RgbdMux::new();
    let s = mux.settings();
    assert!(s.drop_to_synchronise);
    assert!(!s.drop_if_missing);
    assert!(!s.send_gap_events);
    assert_eq!(s.deadline_multiplier_permille, 2500);
    let c = mux.clock();
    assert_eq!(c.framerate, Fraction { num: 30, den: 1 });
    assert_eq!(c.frameset_duration, 0);
    assert_eq!(c.previous_timestamp, None);
    assert_eq!(mux.next_time(), None);
}

#[test]
fn stop_resets_clock_and_channels() {
    let mut mux = mux_with(&["sink_depth", "sink_color"], settings(true, true, false));
    mux.push_item("depth", item(5, 1));
    mux.push_item("color", item(5, 1));
    emitted(mux.aggregate());
    mux.stop();
    assert!(mux.stream_names().is_empty());
    assert_eq!(mux.clock().previous_timestamp, None);
    assert_eq!(mux.clock().frameset_duration, 0);
    assert!(mux.settings().drop_if_missing);
}
