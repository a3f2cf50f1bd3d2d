//! Between a metadata record and the records of a packet.
//!
//! A dataset is written as three records, the index, the mode and the label,
//! in this order. It is read from the first record of each of the three tags,
//! wherever it stands; records of other tags are passed over, and so are
//! later records of a tag that was found. A dataset without one of the three
//! is refused.

use vstd::prelude::*;
use vstd::utf8::{encode_utf8, encode_utf8_decode_utf8, encode_utf8_valid_utf8};
use crate::dataset::{
    be32, i32_bits, i32_from_bits, i32_to_bits, law_be32_reads_back, law_bits_inverse,
    spec_tag_for, text_from_bytes, typed_value, u32_from_be, u32_to_be, ExampleTag, TypedModel,
    TAG_INDEX, TAG_LABEL, TAG_MODE,
};
use crate::klv::decode::decode;
use crate::klv::encode::to_bytes;
use crate::klv::error::{EncodeError, ParseError};
use crate::klv::laws::law_decode_encode;
use crate::klv::record::{Record, RecordSet};
use crate::klv::wire::{
    first_value, lemma_content_push, packet, parse_packet, valid_records, RawRecord,
    MAX_VALUE_LEN,
};
use crate::meta::{ExampleRsMetaParams, MetaModel, TransformMode};

verus! {

/// What a dataset says, as mathematics.
pub struct DatasetModel {
    pub index: i32,
    pub mode: u32,
    pub label: Seq<char>,
}

/// Whether the dataset can be written: its label is at most `MAX_VALUE_LEN`
/// octets of UTF-8.
pub open spec fn encodable(d: DatasetModel) -> bool {
    encode_utf8(d.label).len() <= MAX_VALUE_LEN
}

/// The records of the dataset.
pub open spec fn dataset_records(d: DatasetModel) -> Seq<RawRecord> {
    seq![
        RawRecord { tag: TAG_INDEX, value: be32(i32_bits(d.index)) },
        RawRecord { tag: TAG_MODE, value: be32(d.mode) },
        RawRecord { tag: TAG_LABEL, value: encode_utf8(d.label) },
    ]
}

/// The value of the field among the records.
pub open spec fn field_value(rs: Seq<RawRecord>, field: ExampleTag) -> Result<
    TypedModel,
    ParseError,
> {
    match first_value(rs, spec_tag_for(field)) {
        None => Err(ParseError::MissingRequiredField(spec_tag_for(field))),
        Some(raw) => typed_value(spec_tag_for(field), raw),
    }
}

/// The dataset that the records hold. Where more than one field is missing
/// or malformed, the error is that of the first in the order index, mode,
/// label.
pub open spec fn read_dataset(rs: Seq<RawRecord>) -> Result<DatasetModel, ParseError> {
    match field_value(rs, ExampleTag::Index) {
        Err(e) => Err(e),
        Ok(index) => match field_value(rs, ExampleTag::Mode) {
            Err(e) => Err(e),
            Ok(mode) => match field_value(rs, ExampleTag::Label) {
                Err(e) => Err(e),
                Ok(label) => Ok(
                    DatasetModel {
                        index: index->I32_0,
                        mode: mode->U32_0,
                        label: label->Text_0,
                    },
                ),
            },
        },
    }
}

/// The dataset of a metadata record.
pub open spec fn params_dataset(p: MetaModel) -> DatasetModel {
    DatasetModel { index: p.index, mode: p.mode.spec_to_u32(), label: p.label }
}

/// The metadata record of a dataset. A mode other than 0 stands for `Copy`.
pub open spec fn dataset_params(d: DatasetModel) -> MetaModel {
    MetaModel { label: d.label, index: d.index, mode: TransformMode::spec_from_u32(d.mode) }
}

/// The example dataset: an index, a mode as the wire holds it, and a label.
#[derive(Debug)]
pub struct ExampleDataset {
    index: i32,
    mode: u32,
    label: String,
}

impl View for ExampleDataset {
    type V = DatasetModel;

    closed spec fn view(&self) -> DatasetModel {
        DatasetModel { index: self.index, mode: self.mode, label: self.label@ }
    }
}

impl PartialEq for ExampleDataset {
    fn eq(&self, other: &ExampleDataset) -> (b: bool) {
        self.index == other.index && self.mode == other.mode && self.label == other.label
    }
}

impl Eq for ExampleDataset {

}

impl vstd::std_specs::cmp::PartialEqSpecImpl for ExampleDataset {
    open spec fn obeys_eq_spec() -> bool {
        true
    }

    open spec fn eq_spec(&self, other: &ExampleDataset) -> bool {
        self@ == other@
    }
}

impl<'a> From<&'a ExampleRsMetaParams> for ExampleDataset {
    fn from(params: &'a ExampleRsMetaParams) -> (d: ExampleDataset)
        ensures
            d@ == params_dataset(params@),
    {
        ExampleDataset {
            index: params.index,
            mode: params.mode.to_u32(),
            label: params.label.clone(),
        }
    }
}

impl<'a> vstd::std_specs::convert::FromSpecImpl<&'a ExampleRsMetaParams> for ExampleDataset {
    open spec fn obeys_from_spec() -> bool {
        true
    }

    closed spec fn from_spec(params: &'a ExampleRsMetaParams) -> ExampleDataset {
        ExampleDataset {
            index: params.index,
            mode: params.mode.spec_to_u32(),
            label: params.label,
        }
    }
}

impl From<ExampleDataset> for ExampleRsMetaParams {
    fn from(d: ExampleDataset) -> (p: ExampleRsMetaParams)
        ensures
            p@ == dataset_params(d@),
    {
        ExampleRsMetaParams {
            index: d.index,
            mode: TransformMode::from(d.mode),
            label: d.label,
        }
    }
}

impl vstd::std_specs::convert::FromSpecImpl<ExampleDataset> for ExampleRsMetaParams {
    open spec fn obeys_from_spec() -> bool {
        true
    }

    closed spec fn from_spec(d: ExampleDataset) -> ExampleRsMetaParams {
        ExampleRsMetaParams {
            index: d.index,
            mode: TransformMode::spec_from_u32(d.mode),
            label: d.label,
        }
    }
}

impl ExampleDataset {
    /// The dataset of the three values.
    pub fn new(index: i32, mode: u32, label: String) -> (d: ExampleDataset)
        ensures
            d@ == (DatasetModel { index, mode, label: label@ }),
    {
        ExampleDataset { index, mode, label }
    }

    /// The index.
    pub fn index(&self) -> (i: i32)
        ensures
            i == self@.index,
    {
        self.index
    }

    /// The mode, as the wire holds it.
    pub fn mode(&self) -> (m: u32)
        ensures
            m == self@.mode,
    {
        self.mode
    }

    /// The label.
    pub fn label(&self) -> (s: &str)
        ensures
            s@ == self@.label,
    {
        self.label.as_str()
    }

    /// The records of the dataset, unless its label is too long for a record.
    pub fn to_records(&self) -> (r: Result<RecordSet, EncodeError>)
        ensures
            encodable(self@) ==> r is Ok && r->Ok_0@ == dataset_records(self@),
            !encodable(self@) ==> r == Err::<RecordSet, EncodeError>(EncodeError::ValueTooLong),
    {
        let label = match Record::new(
            TAG_LABEL,
            vstd::slice::slice_to_vec(self.label.as_str().as_bytes()),
        ) {
            Ok(record) => record,
            Err(e) => {
                return Err(e);
            },
        };
        let index = match Record::new(TAG_INDEX, u32_to_be(i32_to_bits(self.index))) {
            Ok(record) => record,
            Err(e) => {
                return Err(e);
            },
        };
        let mode = match Record::new(TAG_MODE, u32_to_be(self.mode)) {
            Ok(record) => record,
            Err(e) => {
                return Err(e);
            },
        };
        let mut set = RecordSet::new();
        proof {
            let none = Seq::<RawRecord>::empty();
            lemma_content_push(none, index@);
            lemma_content_push(none.push(index@), mode@);
            lemma_content_push(none.push(index@).push(mode@), label@);
            assert(none.push(index@).push(mode@).push(label@) =~= dataset_records(self@));
        }
        match set.push(index) {
            Ok(()) => {},
            Err(e) => {
                return Err(e);
            },
        }
        match set.push(mode) {
            Ok(()) => {},
            Err(e) => {
                return Err(e);
            },
        }
        match set.push(label) {
            Ok(()) => {},
            Err(e) => {
                return Err(e);
            },
        }
        Ok(set)
    }

    /// The dataset that the records hold.
    pub fn from_records(records: &RecordSet) -> (r: Result<ExampleDataset, ParseError>)
        ensures
            match read_dataset(records@) {
                Ok(d) => r is Ok && r->Ok_0@ == d,
                Err(e) => r is Err && r->Err_0 == e,
            },
    {
        let index = match records.find(TAG_INDEX) {
            None => {
                return Err(ParseError::MissingRequiredField(TAG_INDEX));
            },
            Some(raw) => match u32_from_be(raw) {
                None => {
                    return Err(ParseError::WrongWidth(TAG_INDEX));
                },
                Some(bits) => i32_from_bits(bits),
            },
        };
        let mode = match records.find(TAG_MODE) {
            None => {
                return Err(ParseError::MissingRequiredField(TAG_MODE));
            },
            Some(raw) => match u32_from_be(raw) {
                None => {
                    return Err(ParseError::WrongWidth(TAG_MODE));
                },
                Some(mode) => mode,
            },
        };
        let label = match records.find(TAG_LABEL) {
            None => {
                return Err(ParseError::MissingRequiredField(TAG_LABEL));
            },
            Some(raw) => match text_from_bytes(raw) {
                None => {
                    return Err(ParseError::InvalidUtf8(TAG_LABEL));
                },
                Some(text) => text,
            },
        };
        Ok(ExampleDataset { index, mode, label })
    }
}

/// The records of a metadata record, unless its label is too long for a
/// record.
pub fn to_klv(params: &ExampleRsMetaParams) -> (r: Result<RecordSet, EncodeError>)
    ensures
        encodable(params_dataset(params@)) ==> r is Ok && r->Ok_0@ == dataset_records(
            params_dataset(params@),
        ),
        !encodable(params_dataset(params@)) ==> r == Err::<RecordSet, EncodeError>(
            EncodeError::ValueTooLong,
        ),
{
    ExampleDataset::from(params).to_records()
}

/// The metadata record that the records hold.
pub fn from_klv(records: &RecordSet) -> (r: Result<ExampleRsMetaParams, ParseError>)
    ensures
        match read_dataset(records@) {
            Ok(d) => r is Ok && r->Ok_0@ == dataset_params(d),
            Err(e) => r is Err && r->Err_0 == e,
        },
{
    match ExampleDataset::from_records(records) {
        Ok(d) => Ok(ExampleRsMetaParams::from(d)),
        Err(e) => Err(e),
    }
}

/// What the packet in `b` says, or why `b` holds no dataset.
pub open spec fn read_packet(b: Seq<u8>) -> Result<DatasetModel, ParseError> {
    match parse_packet(b) {
        Ok(rs) => read_dataset(rs),
        Err(e) => Err(e),
    }
}

/// The packet of a metadata record, unless its label is too long for a record.
pub fn encode_klv_params(params: &ExampleRsMetaParams) -> (r: Result<Vec<u8>, EncodeError>)
    ensures
        encodable(params_dataset(params@)) ==> r is Ok && r->Ok_0@ == packet(
            dataset_records(params_dataset(params@)),
        ),
        !encodable(params_dataset(params@)) ==> r == Err::<Vec<u8>, EncodeError>(
            EncodeError::ValueTooLong,
        ),
{
    match to_klv(params) {
        Ok(records) => Ok(to_bytes(&records)),
        Err(e) => Err(e),
    }
}

/// The metadata record that the packet in `bytes` holds.
pub fn from_bytes(bytes: &[u8]) -> (r: Result<ExampleRsMetaParams, ParseError>)
    ensures
        match read_packet(bytes@) {
            Ok(d) => r is Ok && r->Ok_0@ == dataset_params(d),
            Err(e) => r is Err && r->Err_0 == e,
        },
{
    match decode(bytes) {
        Ok(records) => from_klv(&records),
        Err(e) => Err(e),
    }
}

/// A metadata record is the record of its own dataset.
pub proof fn law_params_round_trip(p: MetaModel)
    ensures
        dataset_params(params_dataset(p)) == p,
{
}

/// The records of a dataset that can be written fit in one packet, and the
/// dataset that they hold is the one they were made from.
pub proof fn law_records_round_trip(d: DatasetModel)
    requires
        encodable(d),
    ensures
        valid_records(dataset_records(d)),
        read_dataset(dataset_records(d)) == Ok::<DatasetModel, ParseError>(d),
{
    let rs = dataset_records(d);
    let none = Seq::<RawRecord>::empty();
    lemma_content_push(none, rs[0]);
    lemma_content_push(none.push(rs[0]), rs[1]);
    lemma_content_push(none.push(rs[0]).push(rs[1]), rs[2]);
    assert(none.push(rs[0]).push(rs[1]).push(rs[2]) =~= rs);
    let one = rs.drop_first();
    let two = one.drop_first();
    assert(one[0] == rs[1] && two[0] == rs[2]);
    assert(first_value(rs, TAG_INDEX) == Some(rs[0].value));
    assert(first_value(one, TAG_MODE) == Some(rs[1].value));
    assert(first_value(rs, TAG_MODE) == Some(rs[1].value));
    assert(first_value(two, TAG_LABEL) == Some(rs[2].value));
    assert(first_value(one, TAG_LABEL) == Some(rs[2].value));
    assert(first_value(rs, TAG_LABEL) == Some(rs[2].value));
    law_be32_reads_back(i32_bits(d.index));
    law_be32_reads_back(d.mode);
    law_bits_inverse(d.index, 0);
    encode_utf8_valid_utf8(d.label);
    encode_utf8_decode_utf8(d.label);
}

/// A dataset that was written to a packet is read from it as it was: the
/// records of the packet are those of the dataset, tag for tag, and they
/// hold the dataset.
pub proof fn law_packet_round_trip(d: DatasetModel)
    requires
        encodable(d),
    ensures
        parse_packet(packet(dataset_records(d))) == Ok::<Seq<RawRecord>, ParseError>(
            dataset_records(d),
        ),
        read_packet(packet(dataset_records(d))) == Ok::<DatasetModel, ParseError>(d),
{
    law_records_round_trip(d);
    law_decode_encode(dataset_records(d));
}

/// A metadata record that was written to a packet is read from it as it was.
pub proof fn law_metadata_round_trip(p: MetaModel)
    requires
        encodable(params_dataset(p)),
    ensures
        read_packet(packet(dataset_records(params_dataset(p)))) matches Ok(d) && dataset_params(d)
            == p,
{
    law_packet_round_trip(params_dataset(p));
}

} // verus!
