use klvmeta::klv::error::ParseError;
use klvmeta::meta::{ExampleRsMetaParams, TransformMode};
use klvmeta::metaklv::encode_klv_params;
use klvmeta::metamux::streams::{classify, create_streams, video_pad, CapsType, Stream};
use klvmeta::metamux::{Merged, MetaMux};

fn meta(offset: u64) -> ExampleRsMetaParams {
    ExampleRsMetaParams::new(format!("meta{}", offset), offset as i32, TransformMode::Copy)
}

fn check_pair(merged: &Merged<String>) {
    assert_eq!(merged.payload, format!("payload{}", merged.offset));
    let meta = merged.meta.as_ref().unwrap();
    assert_eq!(meta.label, format!("meta{}", merged.offset));
    assert_eq!(meta.index, merged.offset as i32);
}

fn interleavings(a: usize, b: usize, done: &mut Vec<bool>, all: &mut Vec<Vec<bool>>) {
    if a == 0 && b == 0 {
        all.push(done.clone());
        return;
    }
    if a > 0 {
        done.push(true);
        interleavings(a - 1, b, done, all);
        done.pop();
    }
    if b > 0 {
        done.push(false);
        interleavings(a, b - 1, done, all);
        done.pop();
    }
}

#[test]
fn three_pairs_in_every_interleaving() {
    let mut all = Vec::new();
    interleavings(3, 3, &mut Vec::new(), &mut all);
    assert_eq!(all.len(), 20);
    for order in all {
        let mut mux: MetaMux<String> = MetaMux::new();
        let mut out = Vec::new();
        let (mut p, mut m) = (0u64, 0u64);
        for is_payload in order {
            let left = if is_payload {
                p += 1;
                mux.push_payload(p - 1, format!("payload{}", p - 1))
            } else {
                m += 1;
                mux.push_packet(m - 1, &encode_klv_params(&meta(m - 1)).unwrap()).unwrap()
            };
            out.extend(left);
        }
        assert_eq!(out.len(), 3);
        let mut offsets: Vec<u64> = out.iter().map(|merged| merged.offset).collect();
        offsets.sort();
        assert_eq!(offsets, vec![0, 1, 2]);
        for merged in &out {
            check_pair(merged);
        }
        assert_eq!(mux.pending_payloads(), 0);
        assert_eq!(mux.pending_metadata(), 0);
        assert!(mux.end_of_stream().is_empty());
    }
}

#[test]
fn three_pairs_in_every_order_of_arrival() {
    let mut orders: Vec<Vec<usize>> = vec![vec![]];
    for _ in 0..6 {
        let mut longer = Vec::new();
        for order in &orders {
            for next in 0..6 {
                if !order.contains(&next) {
                    let mut one = order.clone();
                    one.push(next);
                    longer.push(one);
                }
            }
        }
        orders = longer;
    }
    assert_eq!(orders.len(), 720);
    for order in orders {
        let mut mux: MetaMux<String> = MetaMux::new();
        let mut out = Vec::new();
        for event in order {
            let offset = (event % 3) as u64;
            let left = if event < 3 {
                mux.push_payload(offset, format!("payload{}", offset))
            } else {
                mux.push_metadata(offset, meta(offset))
            };
            out.extend(left);
        }
        assert_eq!(out.len(), 3);
        for merged in &out {
            check_pair(merged);
        }
        assert_eq!(mux.pending_payloads() + mux.pending_metadata(), 0);
    }
}

#[test]
fn unmatched_metadata_does_not_outlive_the_streams() {
    let mut mux: MetaMux<String> = MetaMux::new();
    assert!(mux.push_metadata(7, meta(7)).is_none());
    assert!(mux.push_payload(0, "payload0".to_string()).is_none());
    assert!(mux.push_metadata(8, meta(8)).is_none());
    assert_eq!(mux.pending_metadata(), 2);
    assert_eq!(mux.pending_payloads(), 1);
    let flushed = mux.end_of_stream();
    assert_eq!(flushed.len(), 1);
    assert_eq!(flushed[0].offset, 0);
    assert_eq!(flushed[0].payload, "payload0");
    assert!(flushed[0].meta.is_none());
    assert_eq!(mux.pending_metadata(), 0);
    assert_eq!(mux.pending_payloads(), 0);
    assert!(mux.push_payload(7, "payload7".to_string()).is_none());
    assert!(mux.end_of_stream()[0].meta.is_none());
}

#[test]
fn unmatched_payload_leaves_in_order_at_the_end() {
    let mut mux: MetaMux<u32> = MetaMux::new();
    for offset in [5u64, 3, 9] {
        assert!(mux.push_payload(offset, offset as u32 * 2).is_none());
    }
    let merged = mux.push_metadata(3, meta(3)).unwrap();
    assert_eq!((merged.offset, merged.payload), (3, 6));
    assert_eq!(merged.meta.unwrap().label, "meta3");
    let flushed = mux.end_of_stream();
    let seen: Vec<(u64, u32, bool)> =
        flushed.iter().map(|m| (m.offset, m.payload, m.meta.is_some())).collect();
    assert_eq!(seen, vec![(5, 10, false), (9, 18, false)]);
    assert!(mux.end_of_stream().is_empty());
}

#[test]
fn oldest_of_equal_offsets_leaves_first() {
    let mut mux: MetaMux<&str> = MetaMux::new();
    assert!(mux.push_payload(1, "first").is_none());
    assert!(mux.push_payload(1, "second").is_none());
    assert_eq!(mux.push_metadata(1, meta(1)).unwrap().payload, "first");
    assert_eq!(mux.push_metadata(1, meta(1)).unwrap().payload, "second");
    assert!(mux.push_metadata(1, ExampleRsMetaParams::new("a".to_string(), 0, TransformMode::Copy)).is_none());
    assert!(mux.push_metadata(1, ExampleRsMetaParams::new("b".to_string(), 0, TransformMode::Copy)).is_none());
    assert_eq!(mux.push_payload(1, "third").unwrap().meta.unwrap().label, "a");
    assert_eq!(mux.push_payload(1, "fourth").unwrap().meta.unwrap().label, "b");
}

#[test]
fn unreadable_packet_is_refused_and_changes_nothing() {
    let mut mux: MetaMux<u8> = MetaMux::new();
    assert!(mux.push_payload(4, 44).is_none());
    let mut packet = encode_klv_params(&meta(4)).unwrap();
    packet[0] = b'G';
    assert!(matches!(mux.push_packet(4, &packet), Err(ParseError::EnvelopeKeyMismatch)));
    packet[0] = b'g';
    assert!(matches!(
        mux.push_packet(4, &packet[..packet.len() - 1]),
        Err(ParseError::TruncatedRecord)
    ));
    assert_eq!(mux.pending_payloads(), 1);
    assert_eq!(mux.pending_metadata(), 0);
    let merged = mux.push_packet(4, &packet).unwrap().unwrap();
    assert_eq!(merged.payload, 44);
    assert_eq!(merged.meta.unwrap().index, 4);
}

#[test]
fn streams_by_format_name() {
    assert_eq!(classify("video/x-raw"), Some(CapsType::Video));
    assert_eq!(classify("meta/x-klv"), Some(CapsType::Meta));
    assert_eq!(classify("video/x-raw2"), None);
    assert_eq!(classify("video/x-ra"), None);
    assert_eq!(classify(""), None);
    let caps = vec![
        Some("meta/x-klv".to_string()),
        None,
        Some("video/x-raw".to_string()),
        Some("video/x-raw".to_string()),
    ];
    assert_eq!(
        create_streams(&caps),
        Some(vec![
            Stream { pad: 0, capstype: CapsType::Meta },
            Stream { pad: 2, capstype: CapsType::Video },
            Stream { pad: 3, capstype: CapsType::Video },
        ])
    );
    assert_eq!(create_streams(&vec![]), Some(vec![]));
    assert_eq!(create_streams(&vec![None, None]), Some(vec![]));
    assert_eq!(create_streams(&vec![Some("video/x-raw".to_string()), Some("audio/x-raw".to_string()), None]), None);
}

#[test]
fn first_pad_with_video() {
    let caps = vec![
        Some("meta/x-klv".to_string()),
        None,
        Some("video/x-raw(memory:X)".to_string()),
        Some("video/x-raw".to_string()),
    ];
    assert_eq!(video_pad(&caps), Some(2));
    assert_eq!(video_pad(&vec![Some("video/x-ra".to_string()), None]), None);
    assert_eq!(video_pad(&vec![]), None);
    assert_eq!(video_pad(&vec![Some("video/x-raw".to_string())]), Some(0));
}
