use klvmeta::flow::{is_fatal, FlowCombiner, FlowStatus};
use klvmeta::klv::error::EncodeError;
use klvmeta::meta::{ExampleRsMetaParams, TransformMode};
use klvmeta::metademux::{DemuxPlan, EventKind, EventRoute, MetaDemux, State, Timing};
use klvmeta::metaklv::from_bytes;

fn timing(offset: u64) -> Timing {
    Timing { pts: Some(offset * 10), dts: None, duration: Some(10), offset }
}

#[test]
fn metadata_stream_is_created_once_and_stays() {
    let mut demux = MetaDemux::new();
    assert_eq!(demux.state(), State::NoMetaStreamCreated);
    assert!(matches!(demux.sink_klv(None, timing(0)), Ok(DemuxPlan::Primary)));
    assert_eq!(demux.state(), State::NoMetaStreamCreated);
    let meta = ExampleRsMetaParams::new("m".to_string(), 1, TransformMode::Copy);
    match demux.sink_klv(Some(&meta), timing(1)).unwrap() {
        DemuxPlan::Both { create, unit } => {
            assert!(create);
            assert_eq!(unit.timing, timing(1));
            let back = from_bytes(&unit.packet).unwrap();
            assert_eq!(back.label, "m");
            assert_eq!(back.index, 1);
            assert_eq!(back.mode, TransformMode::Copy);
        }
        other => panic!("{:?}", other),
    }
    assert_eq!(demux.state(), State::MetaStreamCreated);
    match demux.sink_klv(Some(&meta), timing(2)).unwrap() {
        DemuxPlan::Both { create, unit } => {
            assert!(!create);
            assert_eq!(unit.timing.offset, 2);
        }
        other => panic!("{:?}", other),
    }
    assert!(matches!(demux.sink_klv(None, timing(3)), Ok(DemuxPlan::Primary)));
    assert_eq!(demux.state(), State::MetaStreamCreated);
}

#[test]
fn unit_with_unwritable_metadata_is_refused() {
    let mut demux = MetaDemux::new();
    let meta = ExampleRsMetaParams::new("x".repeat(256), 1, TransformMode::Copy);
    assert!(matches!(demux.sink_klv(Some(&meta), timing(0)), Err(EncodeError::ValueTooLong)));
    assert_eq!(demux.state(), State::NoMetaStreamCreated);
}

#[test]
fn both_paths_make_the_reported_status() {
    let mut demux = MetaDemux::new();
    let meta = ExampleRsMetaParams::new("m".to_string(), 1, TransformMode::Copy);
    demux.sink_klv(Some(&meta), timing(0)).unwrap();
    assert_eq!(demux.primary_pushed(FlowStatus::Success), FlowStatus::Success);
    assert_eq!(demux.metadata_pushed(FlowStatus::NotLinked), FlowStatus::Success);
    assert_eq!(demux.primary_pushed(FlowStatus::Success), FlowStatus::Success);
    assert_eq!(demux.metadata_pushed(FlowStatus::Error), FlowStatus::Error);
    assert_eq!(demux.primary_pushed(FlowStatus::Success), FlowStatus::Error);
    assert_eq!(demux.metadata_pushed(FlowStatus::Success), FlowStatus::Success);
    assert_eq!(demux.primary_pushed(FlowStatus::Eos), FlowStatus::Success);
    assert_eq!(demux.metadata_pushed(FlowStatus::Eos), FlowStatus::Eos);
    assert_eq!(demux.primary_pushed(FlowStatus::NotLinked), FlowStatus::Eos);
    assert_eq!(demux.metadata_pushed(FlowStatus::NotLinked), FlowStatus::NotLinked);
    assert_eq!(demux.primary_pushed(FlowStatus::Flushing), FlowStatus::Flushing);
}

#[test]
fn primary_path_alone() {
    let mut demux = MetaDemux::new();
    assert_eq!(demux.primary_pushed(FlowStatus::Success), FlowStatus::Success);
    assert_eq!(demux.primary_pushed(FlowStatus::NotLinked), FlowStatus::NotLinked);
    assert_eq!(demux.metadata_pushed(FlowStatus::Success), FlowStatus::NotLinked);
    assert_eq!(demux.metadata_pushed(FlowStatus::Error), FlowStatus::Error);
    assert_eq!(demux.primary_pushed(FlowStatus::Success), FlowStatus::Success);
    assert_eq!(demux.primary_pushed(FlowStatus::NotNegotiated), FlowStatus::NotNegotiated);
}

#[test]
fn events_are_routed() {
    assert_eq!(MetaDemux::sink_event(EventKind::Segment), EventRoute::KeepAndAll);
    assert_eq!(MetaDemux::sink_event(EventKind::Eos), EventRoute::All);
    assert_eq!(MetaDemux::sink_event(EventKind::Other), EventRoute::Primary);
}

#[test]
fn combiner_reports_the_first_fatal_path() {
    let mut combiner = FlowCombiner::new();
    assert_eq!(combiner.status(), FlowStatus::NotLinked);
    assert_eq!(combiner.add_path(), 0);
    assert_eq!(combiner.add_path(), 1);
    assert_eq!(combiner.add_path(), 2);
    assert_eq!(combiner.len(), 3);
    assert_eq!(combiner.status(), FlowStatus::Success);
    assert_eq!(combiner.update(2, FlowStatus::Error), FlowStatus::Error);
    assert_eq!(combiner.update(1, FlowStatus::NotSupported), FlowStatus::NotSupported);
    assert_eq!(combiner.status(), FlowStatus::NotSupported);
    assert_eq!(combiner.update(0, FlowStatus::Success), FlowStatus::NotSupported);
    assert_eq!(combiner.update(1, FlowStatus::Eos), FlowStatus::Error);
    assert_eq!(combiner.update(2, FlowStatus::NotLinked), FlowStatus::Success);
    assert_eq!(combiner.update(0, FlowStatus::Eos), FlowStatus::Eos);
    assert_eq!(combiner.update(9, FlowStatus::Success), FlowStatus::Eos);
    assert_eq!(combiner.update(9, FlowStatus::Flushing), FlowStatus::Flushing);
    assert_eq!(combiner.status(), FlowStatus::Eos);
    for status in [FlowStatus::Flushing, FlowStatus::NotNegotiated, FlowStatus::Error, FlowStatus::NotSupported] {
        assert!(is_fatal(status));
    }
    for status in [FlowStatus::Success, FlowStatus::NotLinked, FlowStatus::Eos] {
        assert!(!is_fatal(status));
    }
}
