use klvmeta::klv::decode::decode;
use klvmeta::klv::encode::{encode, encode_len, envelope_key_octets, to_bytes};
use klvmeta::klv::error::{EncodeError, ParseError};
use klvmeta::klv::length::{length_len, length_octets, read_length};
use klvmeta::klv::record::{Record, RecordSet};
use klvmeta::meta::{ExampleRsMetaParams, TransformMode};
use klvmeta::metaklv::{from_klv, to_klv};

fn packet_of(content: &[u8], length_field: &[u8]) -> Vec<u8> {
    let mut bytes: Vec<u8> = b"gstexamplers0000".to_vec();
    bytes.extend_from_slice(length_field);
    bytes.extend_from_slice(content);
    bytes
}

fn records_of(items: &[(u8, Vec<u8>)]) -> RecordSet {
    let mut records = RecordSet::new();
    for (tag, value) in items {
        records.push(Record::new(*tag, value.clone()).unwrap()).unwrap();
    }
    records
}

fn items_of(records: &RecordSet) -> Vec<(u8, Vec<u8>)> {
    let mut items = Vec::new();
    for i in 0..records.len() {
        let record = records.get(i).unwrap();
        items.push((record.tag(), record.value().to_vec()));
    }
    items
}

#[test]
fn encode_then_decode_example_record() {
    let params = ExampleRsMetaParams::new("testlabel".to_string(), 12345, TransformMode::Copy);
    let records = to_klv(&params).unwrap();
    let size = encode_len(&records);
    let mut buffer = vec![0u8; size];
    let written = encode(&mut buffer, &records).unwrap();
    assert_eq!(written, size);
    let decoded = decode(&buffer).unwrap();
    let back = from_klv(&decoded).unwrap();
    assert_eq!(back.label, "testlabel");
    assert_eq!(back.index, 12345);
    assert_eq!(back.mode, TransformMode::Copy);
}

#[test]
fn example_record_bytes_are_exact() {
    let params = ExampleRsMetaParams::new("testlabel".to_string(), 12345, TransformMode::Copy);
    let records = to_klv(&params).unwrap();
    let bytes = to_bytes(&records);
    let mut content: Vec<u8> = Vec::new();
    content.extend_from_slice(&[2, 4, 0, 0, 0x30, 0x39]);
    content.extend_from_slice(&[3, 4, 0, 0, 0, 1]);
    content.extend_from_slice(&[16, 9]);
    content.extend_from_slice(b"testlabel");
    assert_eq!(bytes, packet_of(&content, &[23]));
    assert_eq!(encode_len(&records), 40);
}

#[test]
fn envelope_key_is_the_agreed_text() {
    assert_eq!(&envelope_key_octets(), b"gstexamplers0000");
}

#[test]
fn empty_record_set_is_a_minimal_packet() {
    let records = RecordSet::new();
    assert_eq!(encode_len(&records), 17);
    let bytes = to_bytes(&records);
    assert_eq!(bytes, packet_of(&[], &[0]));
    let decoded = decode(&bytes).unwrap();
    assert_eq!(decoded.len(), 0);
    assert!(decoded.get(0).is_none());
}

#[test]
fn encode_len_is_the_written_length() {
    let sets = vec![
        vec![],
        vec![(1u8, vec![])],
        vec![(1u8, vec![9u8; 3]), (1u8, vec![8u8; 255])],
        vec![(200u8, vec![7u8; 125])],
        vec![(200u8, vec![7u8; 126])],
        vec![(5u8, vec![1u8; 255]), (6u8, vec![2u8; 255]), (7u8, vec![3u8; 255])],
    ];
    for items in sets {
        let records = records_of(&items);
        let size = encode_len(&records);
        let mut buffer = vec![0u8; size + 5];
        assert_eq!(encode(&mut buffer, &records), Ok(size));
        assert_eq!(&buffer[size..], &[0u8; 5]);
        assert_eq!(to_bytes(&records), &buffer[..size]);
    }
}

#[test]
fn records_keep_their_order_and_repeat() {
    let items = vec![(9u8, vec![1u8, 2]), (3u8, vec![]), (9u8, vec![4u8]), (0u8, vec![0u8; 255])];
    let records = records_of(&items);
    let decoded = decode(&to_bytes(&records)).unwrap();
    assert_eq!(items_of(&decoded), items);
}

#[test]
fn content_length_takes_the_shortest_form() {
    let short = records_of(&[(1, vec![0u8; 125])]);
    assert_eq!(&to_bytes(&short)[16..18], &[127, 1]);
    assert_eq!(encode_len(&short), 16 + 1 + 127);
    let one = records_of(&[(1, vec![0u8; 126])]);
    assert_eq!(&to_bytes(&one)[16..19], &[0x81, 128, 1]);
    assert_eq!(encode_len(&one), 16 + 2 + 128);
    let two = records_of(&[(1, vec![0u8; 254]), (2, vec![])]);
    assert_eq!(&to_bytes(&two)[16..20], &[0x82, 1, 2, 1]);
    assert_eq!(encode_len(&two), 16 + 3 + 258);
    let mut many = RecordSet::new();
    for _ in 0..256 {
        many.push(Record::new(4, vec![0u8; 254]).unwrap()).unwrap();
    }
    assert_eq!(many.content_len(), 65536);
    assert_eq!(&to_bytes(&many)[16..22], &[0x84, 0, 1, 0, 0, 4]);
    assert_eq!(encode_len(&many), 16 + 5 + 65536);
    assert_eq!(items_of(&decode(&to_bytes(&many)).unwrap()).len(), 256);
}

#[test]
fn length_field_forms() {
    assert_eq!(length_octets(0), Some(vec![0]));
    assert_eq!(length_octets(127), Some(vec![127]));
    assert_eq!(length_octets(128), Some(vec![0x81, 128]));
    assert_eq!(length_octets(255), Some(vec![0x81, 255]));
    assert_eq!(length_octets(256), Some(vec![0x82, 1, 0]));
    assert_eq!(length_octets(65535), Some(vec![0x82, 255, 255]));
    assert_eq!(length_octets(65536), Some(vec![0x84, 0, 1, 0, 0]));
    assert_eq!(length_octets(0x1234_5678), Some(vec![0x84, 0x12, 0x34, 0x56, 0x78]));
    assert_eq!(length_octets(0xFFFF_FFFF), Some(vec![0x84, 0xFF, 0xFF, 0xFF, 0xFF]));
    if usize::BITS > 32 {
        assert_eq!(length_octets(0xFFFF_FFFF + 1), None);
    }
    for n in [0usize, 127, 128, 255, 256, 65535, 65536, 0x1234_5678] {
        let field = length_octets(n).unwrap();
        assert_eq!(length_len(n), field.len());
        assert_eq!(read_length(&field, 0), Ok((field.len(), n)));
    }
    assert_eq!(read_length(&[9, 9, 0x82, 0, 5, 9], 2), Ok((3, 5)));
    assert_eq!(read_length(&[0x81], 0), Err(ParseError::TruncatedRecord));
    assert_eq!(read_length(&[0x84, 1, 2, 3], 0), Err(ParseError::TruncatedRecord));
    assert_eq!(read_length(&[1], 1), Err(ParseError::TruncatedRecord));
    assert_eq!(read_length(&[1], 2), Err(ParseError::TruncatedRecord));
    assert_eq!(read_length(&[0x80, 0], 0), Err(ParseError::InvalidLength));
    assert_eq!(read_length(&[0x83, 0, 0, 0], 0), Err(ParseError::InvalidLength));
    assert_eq!(read_length(&[0x88, 0, 0, 0, 0, 0, 0, 0, 0], 0), Err(ParseError::InvalidLength));
    assert_eq!(read_length(&[0xFF], 0), Err(ParseError::InvalidLength));
}

#[test]
fn longer_length_forms_are_read() {
    let content = [7u8, 1, 42];
    for field in [vec![3u8], vec![0x81, 3], vec![0x82, 0, 3], vec![0x84, 0, 0, 0, 3]] {
        let decoded = decode(&packet_of(&content, &field)).unwrap();
        assert_eq!(items_of(&decoded), vec![(7u8, vec![42u8])]);
    }
}

#[test]
fn value_of_256_octets_is_too_long() {
    assert!(Record::new(1, vec![0u8; 255]).is_ok());
    assert!(matches!(Record::new(1, vec![0u8; 256]), Err(EncodeError::ValueTooLong)));
}

#[test]
fn small_destination_is_refused_and_untouched() {
    let records = records_of(&[(7, vec![1, 2, 3])]);
    assert_eq!(encode_len(&records), 22);
    let mut buffer = vec![0xAAu8; 21];
    assert_eq!(encode(&mut buffer, &records), Err(EncodeError::BufferTooSmall));
    assert_eq!(buffer, vec![0xAAu8; 21]);
    let mut none: Vec<u8> = Vec::new();
    assert_eq!(encode(&mut none, &records), Err(EncodeError::BufferTooSmall));
    let mut exact = vec![0xAAu8; 22];
    assert_eq!(encode(&mut exact, &records), Ok(22));
}

#[test]
fn altered_key_is_a_mismatch() {
    let records = records_of(&[(7, vec![1, 2, 3])]);
    let bytes = to_bytes(&records);
    for i in 0..16 {
        let mut altered = bytes.clone();
        altered[i] ^= 0x20;
        assert!(matches!(decode(&altered), Err(ParseError::EnvelopeKeyMismatch)));
    }
    let mut wrong = vec![0u8; 16];
    wrong.extend_from_slice(&[0xFF, 1, 2]);
    assert!(matches!(decode(&wrong), Err(ParseError::EnvelopeKeyMismatch)));
}

#[test]
fn truncated_packet_is_refused() {
    let records = records_of(&[(7, vec![1, 2, 3]), (9, vec![4, 5]), (1, vec![0u8; 200])]);
    let bytes = to_bytes(&records);
    assert_eq!(&bytes[16..18], &[0x81, 211]);
    for cut in 0..bytes.len() {
        assert!(matches!(decode(&bytes[..cut]), Err(ParseError::TruncatedRecord)));
    }
    assert!(decode(&bytes).is_ok());
}

#[test]
fn record_that_overruns_the_content_is_truncated() {
    assert!(matches!(decode(&packet_of(&[7], &[1])), Err(ParseError::TruncatedRecord)));
    assert!(matches!(decode(&packet_of(&[7, 2, 1], &[3])), Err(ParseError::TruncatedRecord)));
    assert!(matches!(
        decode(&packet_of(&[7, 1, 1, 8, 200], &[5])),
        Err(ParseError::TruncatedRecord)
    ));
}

#[test]
fn trailing_data_and_bad_lengths_are_refused() {
    assert!(matches!(decode(&packet_of(&[7, 1, 1, 0], &[3])), Err(ParseError::TrailingData)));
    assert!(matches!(decode(&packet_of(&[], &[0x80])), Err(ParseError::InvalidLength)));
    assert!(matches!(decode(&packet_of(&[0, 0, 0], &[0x83])), Err(ParseError::InvalidLength)));
    assert!(matches!(
        decode(&packet_of(&[], &[0x84, 0xFF, 0xFF, 0xFF, 0xEB])),
        Err(ParseError::InvalidLength)
    ));
    assert!(matches!(
        decode(&packet_of(&[], &[0x84, 0xFF, 0xFF, 0xFF, 0xEA])),
        Err(ParseError::TruncatedRecord)
    ));
}

#[test]
fn first_value_of_a_tag_is_found() {
    let records = records_of(&[(1, vec![1]), (2, vec![2]), (1, vec![3])]);
    assert_eq!(records.find(1), Some(&[1u8][..]));
    assert_eq!(records.find(2), Some(&[2u8][..]));
    assert_eq!(records.find(3), None);
    assert_eq!(records.content_len(), 9);
    assert_eq!(records.len(), 3);
}

#[test]
fn packets_are_read_alike_by_serde_klv() {
    let items = vec![(2u8, vec![0u8, 0, 0x30, 0x39]), (3u8, vec![0u8, 0, 0, 1]), (16u8, b"testlabel".to_vec())];
    let bytes = to_bytes(&records_of(&items));
    let map = serde_klv::KLVMap::try_from_bytes(&bytes).unwrap();
    assert_eq!(map.universal_key(), b"gstexamplers0000");
    assert_eq!(map.content_len(), 23);
    let seen: Vec<(u8, Vec<u8>)> = map
        .iter()
        .map(|raw| (raw.key, raw.value.map(|v| v.to_vec()).unwrap_or_default()))
        .collect();
    assert_eq!(seen, items);
    assert_eq!(serde_klv::parse_length(&bytes[16..]), Ok((1, 23)));
}
