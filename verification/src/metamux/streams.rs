//! Telling the input streams of the multiplexer apart by the name of their
//! format.

use vstd::prelude::*;
use vstd::utf8::encode_utf8;
use crate::text::{begins_with, same_text, text_begins_with};

verus! {

/// What an input stream carries.
#[derive(Clone, Copy, Debug, PartialEq, Eq, Structural)]
pub enum CapsType {
    Video,
    Meta,
}

/// An input stream: the place of its pad among the pads, and what it carries.
#[derive(Clone, Copy, Debug, PartialEq, Eq, Structural)]
pub struct Stream {
    pub pad: usize,
    pub capstype: CapsType,
}

/// The name of the format of payload.
pub open spec fn video_name() -> Seq<char> {
    "video/x-raw"@
}

/// The name of the format of metadata.
pub open spec fn meta_name() -> Seq<char> {
    "meta/x-klv"@
}

/// What a stream of the format `name` carries, if the name is one of the two.
pub open spec fn spec_classify(name: Seq<char>) -> Option<CapsType> {
    if name == video_name() {
        Some(CapsType::Video)
    } else if name == meta_name() {
        Some(CapsType::Meta)
    } else {
        None
    }
}

/// What a stream of the format `name` carries, if the name is one of the two.
pub fn classify(name: &str) -> (t: Option<CapsType>)
    ensures
        t == spec_classify(name@),
{
    if same_text(name, "video/x-raw") {
        Some(CapsType::Video)
    } else if same_text(name, "meta/x-klv") {
        Some(CapsType::Meta)
    } else {
        None
    }
}

/// The streams of the pads whose formats are `caps`, in the order of the
/// pads. A pad without format has no stream. There are no streams at all if
/// one pad has a format of another name.
pub open spec fn streams_of(caps: Seq<Option<Seq<char>>>) -> Option<Seq<Stream>>
    decreases caps.len(),
{
    if caps.len() == 0 {
        Some(Seq::empty())
    } else {
        match streams_of(caps.drop_last()) {
            None => None,
            Some(before) => match caps.last() {
                None => Some(before),
                Some(name) => match spec_classify(name) {
                    None => None,
                    Some(capstype) => Some(
                        before.push(Stream { pad: (caps.len() - 1) as usize, capstype }),
                    ),
                },
            },
        }
    }
}

/// The formats of the pads, as mathematics.
pub open spec fn caps_names(caps: Seq<Option<String>>) -> Seq<Option<Seq<char>>> {
    caps.map_values(
        |c: Option<String>|
            match c {
                Some(name) => Some(name@),
                None => None,
            },
    )
}

/// The streams of the pads whose formats are `caps`.
pub fn create_streams(caps: &Vec<Option<String>>) -> (streams: Option<Vec<Stream>>)
    ensures
        match streams_of(caps_names(caps@)) {
            Some(s) => streams is Some && streams->Some_0@ == s,
            None => streams is None,
        },
{
    let ghost names = caps_names(caps@);
    let n = caps.len();
    let mut streams: Vec<Stream> = Vec::new();
    let mut i: usize = 0;
    assert(names.take(0) =~= Seq::<Option<Seq<char>>>::empty());
    while i < n
        invariant
            names == caps_names(caps@),
            n == caps@.len(),
            i <= n,
            streams_of(names.take(i as int)) == Some(streams@),
        decreases n - i,
    {
        proof {
            assert(names.take(i + 1).drop_last() =~= names.take(i as int));
            assert(names.take(i + 1).last() == names[i as int]);
            if streams_of(names.take(i + 1)) is None {
                lemma_streams_stay_none(names, i + 1);
            }
        }
        match &caps[i] {
            None => {},
            Some(name) => match classify(name.as_str()) {
                None => {
                    return None;
                },
                Some(capstype) => {
                    streams.push(Stream { pad: i, capstype });
                },
            },
        }
        i += 1;
    }
    assert(names.take(n as int) =~= names);
    Some(streams)
}

/// Once the first pads have no streams, all the pads have none.
pub proof fn lemma_streams_stay_none(caps: Seq<Option<Seq<char>>>, k: int)
    requires
        0 <= k <= caps.len(),
        streams_of(caps.take(k)) is None,
    ensures
        streams_of(caps) is None,
    decreases caps.len() - k,
{
    if k < caps.len() {
        assert(caps.take(k + 1).drop_last() =~= caps.take(k));
        lemma_streams_stay_none(caps, k + 1);
    } else {
        assert(caps.take(k) =~= caps);
    }
}

/// Whether the format `name` is one of payload: its octets begin with
/// those of `video/x-raw`.
pub open spec fn is_video(name: Seq<char>) -> bool {
    begins_with(encode_utf8(name), encode_utf8(video_name()))
}

/// The place of the first pad with a format of payload, or the number of
/// pads if there is none. A pad without format is passed over.
pub open spec fn first_video(caps: Seq<Option<Seq<char>>>) -> int
    decreases caps.len(),
{
    if caps.len() == 0 {
        0
    } else if caps[0] is Some && is_video(caps[0]->Some_0) {
        0
    } else {
        1 + first_video(caps.drop_first())
    }
}

/// The pad whose format the output takes over: the first with a format of
/// payload, if there is one.
pub fn video_pad(caps: &Vec<Option<String>>) -> (pad: Option<usize>)
    ensures
        match pad {
            Some(i) => i == first_video(caps_names(caps@)) && i < caps@.len(),
            None => first_video(caps_names(caps@)) == caps@.len(),
        },
{
    let ghost names = caps_names(caps@);
    let n = caps.len();
    let mut i: usize = 0;
    assert(names.skip(0) =~= names);
    while i < n
        invariant
            names == caps_names(caps@),
            n == caps@.len(),
            i <= n,
            first_video(names) == i + first_video(names.skip(i as int)),
        decreases n - i,
    {
        proof {
            assert(names.skip(i as int)[0] == names[i as int]);
            assert(names.skip(i as int).drop_first() =~= names.skip(i + 1));
        }
        match &caps[i] {
            None => {},
            Some(name) => {
                if text_begins_with(name.as_str(), "video/x-raw") {
                    return Some(i);
                }
            },
        }
        i += 1;
    }
    None
}

} // verus!
