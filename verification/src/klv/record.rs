//! Records and record sets as the program holds them.

use vstd::prelude::*;
use crate::klv::error::EncodeError;
use crate::klv::wire::{
    content_len, first_value, valid_records, RawRecord, MAX_CONTENT_LEN, MAX_VALUE_LEN,
};

verus! {

/// A tag and its value. The value is at most `MAX_VALUE_LEN` octets long.
#[derive(Debug)]
pub struct Record {
    tag: u8,
    value: Vec<u8>,
}

impl View for Record {
    type V = RawRecord;

    closed spec fn view(&self) -> RawRecord {
        RawRecord { tag: self.tag, value: self.value@ }
    }
}

impl Record {
    #[verifier::type_invariant]
    spec fn fits(self) -> bool {
        self.value@.len() <= MAX_VALUE_LEN
    }

    /// The record of `tag` and `value`, unless the value is too long.
    pub fn new(tag: u8, value: Vec<u8>) -> (r: Result<Record, EncodeError>)
        ensures
            value@.len() <= MAX_VALUE_LEN ==> r is Ok && r->Ok_0@ == (RawRecord { tag, value: value@ }),
            value@.len() > MAX_VALUE_LEN ==> r == Err::<Record, EncodeError>(EncodeError::ValueTooLong),
    {
        if value.len() > MAX_VALUE_LEN {
            Err(EncodeError::ValueTooLong)
        } else {
            Ok(Record { tag, value })
        }
    }

    /// The tag.
    pub fn tag(&self) -> (t: u8)
        ensures
            t == self@.tag,
    {
        self.tag
    }

    /// The value.
    pub fn value(&self) -> (v: &[u8])
        ensures
            v@ == self@.value,
            v@.len() <= MAX_VALUE_LEN,
    {
        proof {
            use_type_invariant(self);
        }
        self.value.as_slice()
    }
}

/// The views of the records of `v`.
pub open spec fn raw_records(v: Seq<Record>) -> Seq<RawRecord> {
    v.map_values(|r: Record| r@)
}

/// Records in the order in which they were added, few enough for one packet.
#[derive(Debug)]
pub struct RecordSet {
    records: Vec<Record>,
    content: usize,
}

impl View for RecordSet {
    type V = Seq<RawRecord>;

    closed spec fn view(&self) -> Seq<RawRecord> {
        raw_records(self.records@)
    }
}

impl RecordSet {
    #[verifier::type_invariant]
    spec fn fits(self) -> bool {
        &&& valid_records(raw_records(self.records@))
        &&& self.content == content_len(raw_records(self.records@))
    }

    /// The set without records.
    pub fn new() -> (s: RecordSet)
        ensures
            s@ == Seq::<RawRecord>::empty(),
    {
        let s = RecordSet { records: Vec::new(), content: 0 };
        assert(raw_records(s.records@) =~= Seq::<RawRecord>::empty());
        s
    }

    /// The number of records.
    pub fn len(&self) -> (n: usize)
        ensures
            n == self@.len(),
    {
        self.records.len()
    }

    /// The number of octets that the records take in a packet.
    pub fn content_len(&self) -> (n: usize)
        ensures
            n == content_len(self@),
            valid_records(self@),
    {
        proof {
            use_type_invariant(self);
        }
        self.content
    }

    /// The record at place `i`, if there is one.
    pub fn get(&self, i: usize) -> (r: Option<&Record>)
        ensures
            i < self@.len() ==> r is Some && r->Some_0@ == self@[i as int],
            i >= self@.len() ==> r is None,
    {
        if i < self.records.len() {
            Some(&self.records[i])
        } else {
            None
        }
    }

    /// The value of the first record that carries `tag`, if any does.
    pub fn find(&self, tag: u8) -> (v: Option<&[u8]>)
        ensures
            match first_value(self@, tag) {
                Some(value) => v is Some && v->Some_0@ == value,
                None => v is None,
            },
    {
        let ghost rs = self@;
        let count = self.records.len();
        let mut i: usize = 0;
        assert(rs.skip(0) =~= rs);
        while i < count
            invariant
                rs == self@,
                count == rs.len(),
                i <= count,
                first_value(rs, tag) == first_value(rs.skip(i as int), tag),
            decreases count - i,
        {
            let record = &self.records[i];
            assert(rs.skip(i as int)[0] == rs[i as int]);
            assert(rs.skip(i as int).drop_first() =~= rs.skip(i + 1));
            if record.tag == tag {
                return Some(record.value.as_slice());
            }
            i += 1;
        }
        None
    }

    /// Adds `r` behind the records that are there, unless the content would
    /// grow beyond `MAX_CONTENT_LEN`; then the set stays as it is.
    pub fn push(&mut self, r: Record) -> (res: Result<(), EncodeError>)
        ensures
            content_len(old(self)@.push(r@)) <= MAX_CONTENT_LEN ==> res is Ok && final(self)@
                == old(self)@.push(r@),
            content_len(old(self)@.push(r@)) > MAX_CONTENT_LEN ==> res == Err::<(), EncodeError>(
                EncodeError::ContentTooLong,
            ) && final(self)@ == old(self)@,
    {
        proof {
            use_type_invariant(&*self);
            use_type_invariant(&r);
        }
        let ghost before = raw_records(self.records@);
        assert(before.push(r@).drop_last() =~= before);
        let size = r.value.len() + 2;
        if size > MAX_CONTENT_LEN - self.content {
            return Err(EncodeError::ContentTooLong);
        }
        let mut taken = RecordSet::new();
        std::mem::swap(&mut taken, self);
        let RecordSet { mut records, content } = taken;
        records.push(r);
        assert(raw_records(records@) =~= before.push(r@));
        *self = RecordSet { records, content: content + size };
        Ok(())
    }
}

} // verus!
