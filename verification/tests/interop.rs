use klvmeta::meta::{ExampleRsMetaParams, TransformMode};
use klvmeta::metaklv::{encode_klv_params, from_bytes};
use serde::de::{Deserialize, Deserializer, IgnoredAny, MapAccess, Visitor};
use serde::ser::{Serialize, SerializeStruct, Serializer};

/// The dataset as a program that uses serde_klv would declare it.
#[derive(Debug, PartialEq)]
struct Wire {
    index: i32,
    mode: u32,
    label: String,
}

impl Serialize for Wire {
    fn serialize<S: Serializer>(&self, serializer: S) -> Result<S::Ok, S::Error> {
        let mut s = serializer.serialize_struct("gstexamplers0000", 3)?;
        s.serialize_field("2", &self.index)?;
        s.serialize_field("3", &self.mode)?;
        s.serialize_field("16", &self.label)?;
        s.end()
    }
}

struct Key(String);

struct KeyVisitor;

impl<'de> Visitor<'de> for KeyVisitor {
    type Value = Key;

    fn expecting(&self, f: &mut std::fmt::Formatter) -> std::fmt::Result {
        f.write_str("a tag")
    }

    fn visit_str<E: serde::de::Error>(self, v: &str) -> Result<Key, E> {
        Ok(Key(v.to_string()))
    }
}

impl<'de> Deserialize<'de> for Key {
    fn deserialize<D: Deserializer<'de>>(d: D) -> Result<Key, D::Error> {
        d.deserialize_identifier(KeyVisitor)
    }
}

struct WireVisitor;

impl<'de> Visitor<'de> for WireVisitor {
    type Value = Wire;

    fn expecting(&self, f: &mut std::fmt::Formatter) -> std::fmt::Result {
        f.write_str("a dataset")
    }

    fn visit_map<A: MapAccess<'de>>(self, mut map: A) -> Result<Wire, A::Error> {
        let (mut index, mut mode, mut label) = (None, None, None);
        while let Some(Key(key)) = map.next_key()? {
            match key.as_str() {
                "2" => index = Some(map.next_value()?),
                "3" => mode = Some(map.next_value()?),
                "16" => label = Some(map.next_value()?),
                _ => {
                    map.next_value::<IgnoredAny>()?;
                }
            }
        }
        let missing = |tag| serde::de::Error::missing_field(tag);
        Ok(Wire {
            index: index.ok_or_else(|| missing("2"))?,
            mode: mode.ok_or_else(|| missing("3"))?,
            label: label.ok_or_else(|| missing("16"))?,
        })
    }
}

impl<'de> Deserialize<'de> for Wire {
    fn deserialize<D: Deserializer<'de>>(d: D) -> Result<Wire, D::Error> {
        d.deserialize_struct("gstexamplers0000", &["2", "3", "16"], WireVisitor)
    }
}

fn cases() -> Vec<(String, i32, TransformMode)> {
    let mut cases = Vec::new();
    for label in ["", "testlabel", "ラベル", &"x".repeat(127)] {
        for index in [0, 12345, -1, i32::MIN, i32::MAX] {
            for mode in [TransformMode::Ignore, TransformMode::Copy] {
                cases.push((label.to_string(), index, mode));
            }
        }
    }
    cases
}

#[test]
fn packets_are_those_that_serde_klv_writes() {
    for (label, index, mode) in cases() {
        let params = ExampleRsMetaParams::new(label.clone(), index, mode);
        let wire = Wire { index, mode: mode.to_u32(), label };
        assert_eq!(encode_klv_params(&params).unwrap(), serde_klv::to_bytes(&wire).unwrap());
    }
}

#[test]
fn packets_are_read_by_serde_klv() {
    for (label, index, mode) in cases() {
        let params = ExampleRsMetaParams::new(label.clone(), index, mode);
        let packet = encode_klv_params(&params).unwrap();
        let wire: Wire = serde_klv::from_bytes(&packet).unwrap();
        assert_eq!(wire, Wire { index, mode: mode.to_u32(), label });
    }
}

#[test]
fn packets_of_serde_klv_are_read() {
    for (label, index, mode) in cases() {
        let wire = Wire { index, mode: mode.to_u32(), label: label.clone() };
        let back = from_bytes(&serde_klv::to_bytes(&wire).unwrap()).unwrap();
        assert_eq!(back.label, label);
        assert_eq!(back.index, index);
        assert_eq!(back.mode, mode);
    }
}

#[test]
fn long_values_keep_a_length_of_one_octet() {
    let params = ExampleRsMetaParams::new("x".repeat(200), 0, TransformMode::Copy);
    let packet = encode_klv_params(&params).unwrap();
    assert_eq!(packet.len(), 16 + 2 + 6 + 6 + 202);
    assert_eq!(&packet[16..18], &[0x81, 214]);
    assert_eq!(&packet[30..32], &[16, 200]);
    assert_eq!(from_bytes(&packet).unwrap().label, "x".repeat(200));
}
