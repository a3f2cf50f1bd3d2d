use klvmeta::klv::decode::decode;
use klvmeta::klv::encode::{encode, encode_len, to_bytes};
use klvmeta::klv::error::{EncodeError, ParseError};
use klvmeta::klv::record::{Record, RecordSet};
use klvmeta::meta::{ExampleRsMetaParams, Mode, TransformMode};
use klvmeta::metaklv::{encode_klv_params, from_bytes, from_klv, to_klv, ExampleDataset};

fn records_of(items: &[(u8, Vec<u8>)]) -> RecordSet {
    let mut records = RecordSet::new();
    for (tag, value) in items {
        records.push(Record::new(*tag, value.clone()).unwrap()).unwrap();
    }
    records
}

#[test]
fn test_write_read() {
    const LABEL: &str = "testlabel";
    const INDEX: i32 = 12345;
    const MODE: TransformMode = TransformMode::Ignore;
    let mut buffer = vec![0u8; 1024];
    let params = ExampleRsMetaParams::new(LABEL.to_string(), INDEX, MODE);
    let records = to_klv(&params).unwrap();
    let written = encode(&mut buffer, &records).unwrap();
    assert_eq!(written, encode_len(&records));
    let meta = from_bytes(&buffer[..written]).unwrap();
    assert_eq!(meta.label, LABEL);
    assert_eq!(meta.index, INDEX);
    assert_eq!(meta.mode, MODE);
}

#[test]
fn metadata_round_trip() {
    let labels = ["", "a", "testlabel", "ラベル", &"x".repeat(255), &"ä".repeat(127)];
    for label in labels {
        for index in [0, 1, -1, 12345, i32::MIN, i32::MAX] {
            for mode in [TransformMode::Ignore, TransformMode::Copy] {
                let params = ExampleRsMetaParams::new(label.to_string(), index, mode);
                let records = to_klv(&params).unwrap();
                let decoded = decode(&to_bytes(&records)).unwrap();
                assert_eq!(decoded.len(), 3);
                for i in 0..3 {
                    assert_eq!(decoded.get(i).unwrap().tag(), records.get(i).unwrap().tag());
                    assert_eq!(decoded.get(i).unwrap().value(), records.get(i).unwrap().value());
                }
                let back = from_klv(&decoded).unwrap();
                assert_eq!(back.label, label);
                assert_eq!(back.index, index);
                assert_eq!(back.mode, mode);
                let again = from_bytes(&encode_klv_params(&params).unwrap()).unwrap();
                assert_eq!(again.label, label);
                assert_eq!(again.index, index);
                assert_eq!(again.mode, mode);
            }
        }
    }
}

#[test]
fn dataset_records_are_index_mode_label() {
    let dataset = ExampleDataset::new(-2, 0x0A0B_0C0D, "hé".to_string());
    let records = dataset.to_records().unwrap();
    assert_eq!(records.len(), 3);
    assert_eq!(records.get(0).unwrap().tag(), 2);
    assert_eq!(records.get(0).unwrap().value(), &[0xFF, 0xFF, 0xFF, 0xFE]);
    assert_eq!(records.get(1).unwrap().tag(), 3);
    assert_eq!(records.get(1).unwrap().value(), &[0x0A, 0x0B, 0x0C, 0x0D]);
    assert_eq!(records.get(2).unwrap().tag(), 16);
    assert_eq!(records.get(2).unwrap().value(), &[0x68, 0xC3, 0xA9]);
    let back = ExampleDataset::from_records(&records).unwrap();
    assert!(back == dataset);
    assert_eq!(back.index(), -2);
    assert_eq!(back.mode(), 0x0A0B_0C0D);
    assert_eq!(back.label(), "hé");
    assert!(back != ExampleDataset::new(-2, 0x0A0B_0C0D, "he".to_string()));
    assert!(back != ExampleDataset::new(-3, 0x0A0B_0C0D, "hé".to_string()));
    assert!(back != ExampleDataset::new(-2, 1, "hé".to_string()));
}

#[test]
fn dataset_and_metadata_convert() {
    let params = ExampleRsMetaParams::new("l".to_string(), 7, TransformMode::Copy);
    let dataset = ExampleDataset::from(&params);
    assert_eq!(dataset.index(), 7);
    assert_eq!(dataset.mode(), 1);
    assert_eq!(dataset.label(), "l");
    let ignore = ExampleDataset::from(&ExampleRsMetaParams::new(String::new(), 0, TransformMode::Ignore));
    assert_eq!(ignore.mode(), 0);
    let back: ExampleRsMetaParams = dataset.into();
    assert_eq!(back.label, "l");
    assert_eq!(back.index, 7);
    assert_eq!(back.mode, TransformMode::Copy);
    let lenient: ExampleRsMetaParams = ExampleDataset::new(0, 7, String::new()).into();
    assert_eq!(lenient.mode, TransformMode::Copy);
    let zero: ExampleRsMetaParams = ExampleDataset::new(0, 0, String::new()).into();
    assert_eq!(zero.mode, TransformMode::Ignore);
}

#[test]
fn label_over_255_octets_cannot_be_written() {
    let long = ExampleRsMetaParams::new("x".repeat(256), 0, TransformMode::Copy);
    assert!(matches!(to_klv(&long), Err(EncodeError::ValueTooLong)));
    assert!(matches!(encode_klv_params(&long), Err(EncodeError::ValueTooLong)));
    let wide = ExampleRsMetaParams::new("ä".repeat(128), 0, TransformMode::Copy);
    assert!(matches!(to_klv(&wide), Err(EncodeError::ValueTooLong)));
    let fits = ExampleRsMetaParams::new("x".repeat(255), 0, TransformMode::Copy);
    assert_eq!(encode_klv_params(&fits).unwrap().len(), 16 + 3 + 6 + 6 + 257);
}

#[test]
fn missing_fields_are_reported() {
    let index = (2u8, vec![0u8, 0, 0, 1]);
    let mode = (3u8, vec![0u8, 0, 0, 1]);
    let label = (16u8, b"l".to_vec());
    assert!(matches!(
        from_klv(&records_of(&[mode.clone(), label.clone()])),
        Err(ParseError::MissingRequiredField(2))
    ));
    assert!(matches!(
        from_klv(&records_of(&[index.clone(), label.clone()])),
        Err(ParseError::MissingRequiredField(3))
    ));
    assert!(matches!(
        from_klv(&records_of(&[index.clone(), mode.clone()])),
        Err(ParseError::MissingRequiredField(16))
    ));
    assert!(matches!(from_klv(&RecordSet::new()), Err(ParseError::MissingRequiredField(2))));
    assert!(matches!(
        from_bytes(&to_bytes(&records_of(&[(10u8, b"l".to_vec()), index, mode]))),
        Err(ParseError::MissingRequiredField(16))
    ));
}

#[test]
fn malformed_fields_are_reported_in_schema_order() {
    let bad_index = (2u8, vec![0u8, 1]);
    let bad_mode = (3u8, vec![0u8; 5]);
    let bad_label = (16u8, vec![0xFFu8]);
    let index = (2u8, vec![0u8, 0, 0, 1]);
    let mode = (3u8, vec![0u8, 0, 0, 1]);
    assert!(matches!(
        from_klv(&records_of(&[bad_label.clone(), bad_mode.clone(), bad_index])),
        Err(ParseError::WrongWidth(2))
    ));
    assert!(matches!(
        from_klv(&records_of(&[bad_label.clone(), bad_mode, index.clone()])),
        Err(ParseError::WrongWidth(3))
    ));
    assert!(matches!(
        from_klv(&records_of(&[bad_label, mode, index])),
        Err(ParseError::InvalidUtf8(16))
    ));
}

#[test]
fn unknown_tags_are_skipped_and_first_record_wins() {
    let records = records_of(&[
        (99, vec![1, 2, 3]),
        (16, b"first".to_vec()),
        (3, vec![0, 0, 0, 0]),
        (10, b"old label tag".to_vec()),
        (2, vec![0, 0, 0, 5]),
        (2, vec![0, 0, 0, 6]),
        (16, vec![0xFF]),
        (3, vec![1]),
    ]);
    let meta = from_klv(&records).unwrap();
    assert_eq!(meta.label, "first");
    assert_eq!(meta.index, 5);
    assert_eq!(meta.mode, TransformMode::Ignore);
}

#[test]
fn packet_errors_come_before_dataset_errors() {
    assert!(matches!(from_bytes(&[]), Err(ParseError::TruncatedRecord)));
    assert!(matches!(from_bytes(&[0u8; 17]), Err(ParseError::EnvelopeKeyMismatch)));
    let mut packet = b"gstexamplers0000".to_vec();
    packet.push(0);
    assert!(matches!(from_bytes(&packet), Err(ParseError::MissingRequiredField(2))));
}

#[test]
fn modes_and_their_numbers() {
    assert_eq!(TransformMode::default(), TransformMode::Copy);
    assert_eq!(TransformMode::Ignore.to_u32(), 0);
    assert_eq!(TransformMode::Copy.to_u32(), 1);
    assert_eq!(TransformMode::from(0), TransformMode::Ignore);
    assert_eq!(TransformMode::from(1), TransformMode::Copy);
    assert_eq!(TransformMode::from(u32::MAX), TransformMode::Copy);
    assert_eq!(Mode::default(), Mode::A);
    for mode in [Mode::A, Mode::B, Mode::C] {
        assert_eq!(Mode::from_u32(mode.to_u32()), Some(mode));
    }
    assert_eq!(Mode::C.to_u32(), 2);
    assert_eq!(Mode::from_u32(3), None);
}

#[test]
fn metadata_of_a_copy() {
    let defaults = ExampleRsMetaParams::default();
    assert_eq!(defaults.label, "");
    assert_eq!(defaults.index, 0);
    assert_eq!(defaults.mode, TransformMode::Copy);
    let copy = ExampleRsMetaParams::new("c".to_string(), 3, TransformMode::Copy);
    let carried = copy.transform().unwrap();
    assert_eq!(carried.label, "c");
    assert_eq!(carried.index, 3);
    assert_eq!(carried.mode, TransformMode::Copy);
    let ignore = ExampleRsMetaParams::new("c".to_string(), 3, TransformMode::Ignore);
    assert!(ignore.transform().is_none());
    let clone = ignore.clone_params();
    assert_eq!(clone.label, "c");
    assert_eq!(clone.index, 3);
    assert_eq!(clone.mode, TransformMode::Ignore);
}
