//! A source of test metadata: one packet per frame, at a fixed frame rate.
//!
//! Frame number `n` carries the label `KlvTestSrcLabel`, the index
//! `n mod (2^31 - 1)` and the mode `Copy`. It lasts one second divided by the
//! frame rate, in whole nanoseconds, is due at `n` times that, and has `n`
//! as its offset. A due time that does not fit in 64 bits is left out.

use vstd::prelude::*;
use vstd::utf8::{encode_utf8, is_ascii_chars, is_ascii_chars_encode_utf8};
use crate::klv::wire::packet;
use crate::meta::{ExampleRsMetaParams, MetaModel, TransformMode};
use crate::metademux::{MetaUnit, Timing};
use crate::metaklv::{dataset_records, encodable, encode_klv_params, params_dataset};

verus! {

/// The nanoseconds of one second.
pub const SECOND: u64 = 1_000_000_000;

/// The lowest frame rate, in frames per second.
pub const MIN_FPS: i32 = 1;

/// The highest frame rate, in frames per second.
pub const MAX_FPS: i32 = 90;

/// The frame rate that a new source has.
pub const DEFAULT_FPS: i32 = 30;

/// Whether a new source is live.
pub const DEFAULT_IS_LIVE: bool = false;

/// The settings of a source, as mathematics.
pub struct SettingsModel {
    pub fps: i32,
    pub is_live: bool,
}

/// The settings of a source: its frame rate, between `MIN_FPS` and
/// `MAX_FPS`, and whether it waits for the time at which a frame is due.
#[derive(Clone, Copy, Debug)]
pub struct Settings {
    fps: i32,
    is_live: bool,
}

impl View for Settings {
    type V = SettingsModel;

    closed spec fn view(&self) -> SettingsModel {
        SettingsModel { fps: self.fps, is_live: self.is_live }
    }
}

impl Settings {
    #[verifier::type_invariant]
    spec fn in_range(self) -> bool {
        MIN_FPS <= self.fps <= MAX_FPS
    }

    /// The frame rate.
    pub fn fps(&self) -> (fps: i32)
        ensures
            fps == self@.fps,
            MIN_FPS <= fps <= MAX_FPS,
    {
        proof {
            use_type_invariant(self);
        }
        self.fps
    }

    /// Whether the source is live.
    pub fn is_live(&self) -> (is_live: bool)
        ensures
            is_live == self@.is_live,
    {
        self.is_live
    }

    /// Sets the frame rate, if it is between `MIN_FPS` and `MAX_FPS`, and
    /// says whether it did.
    pub fn set_fps(&mut self, fps: i32) -> (set: bool)
        ensures
            set == (MIN_FPS <= fps <= MAX_FPS),
            final(self)@.is_live == old(self)@.is_live,
            final(self)@.fps == if set {
                fps
            } else {
                old(self)@.fps
            },
    {
        if MIN_FPS <= fps && fps <= MAX_FPS {
            *self = Settings { fps, is_live: self.is_live };
            true
        } else {
            false
        }
    }

    /// Sets whether the source is live.
    pub fn set_is_live(&mut self, is_live: bool)
        ensures
            final(self)@ == (SettingsModel { fps: old(self)@.fps, is_live }),
    {
        proof {
            use_type_invariant(&*self);
        }
        *self = Settings { fps: self.fps, is_live };
    }
}

impl Default for Settings {
    fn default() -> (s: Settings)
        ensures
            s@ == (SettingsModel { fps: DEFAULT_FPS, is_live: DEFAULT_IS_LIVE }),
    {
        Settings { fps: DEFAULT_FPS, is_live: DEFAULT_IS_LIVE }
    }
}

/// The label of every frame.
pub open spec fn frame_label() -> Seq<char> {
    "KlvTestSrcLabel"@
}

/// The metadata of frame number `count`.
pub open spec fn frame_meta(count: u64) -> MetaModel {
    MetaModel {
        label: frame_label(),
        index: (count % 0x7FFF_FFFF) as i32,
        mode: TransformMode::Copy,
    }
}

/// How long a frame lasts at `fps` frames per second, in nanoseconds.
pub open spec fn frame_interval(fps: i32) -> u64 {
    SECOND / (fps as u64)
}

/// The timing of frame number `count` at `fps` frames per second.
pub open spec fn frame_timing(count: u64, fps: i32) -> Timing {
    Timing {
        pts: if frame_interval(fps) * count <= u64::MAX {
            Some((frame_interval(fps) * count) as u64)
        } else {
            None
        },
        dts: None,
        duration: Some(frame_interval(fps)),
        offset: count,
    }
}

/// The label of the frames is short enough for a record.
pub proof fn lemma_frame_label_fits()
    ensures
        encode_utf8(frame_label()).len() == 15,
        forall|count: u64| encodable(params_dataset(#[trigger] frame_meta(count))),
{
    reveal_strlit("KlvTestSrcLabel");
    let label = frame_label();
    assert(label.len() == 15);
    assert(is_ascii_chars(label)) by {
        assert forall|i: int| 0 <= i < label.len() implies '\0' <= #[trigger] label[i]
            <= '\u{7f}' by {
            if i == 0 {
            } else if i == 1 {
            } else if i == 2 {
            } else if i == 3 {
            } else if i == 4 {
            } else if i == 5 {
            } else if i == 6 {
            } else if i == 7 {
            } else if i == 8 {
            } else if i == 9 {
            } else if i == 10 {
            } else if i == 11 {
            } else if i == 12 {
            } else if i == 13 {
            } else {
            }
        }
    }
    is_ascii_chars_encode_utf8(label);
}

/// The source's own state: its settings and the number of the next frame.
pub struct KlvTestSrc {
    count: u64,
    settings: Settings,
}

/// A source, as mathematics.
pub struct SourceModel {
    pub count: u64,
    pub settings: SettingsModel,
}

impl View for KlvTestSrc {
    type V = SourceModel;

    closed spec fn view(&self) -> SourceModel {
        SourceModel { count: self.count, settings: self.settings@ }
    }
}

impl KlvTestSrc {
    /// A source with the given settings, about to make frame 0.
    pub fn new(settings: Settings) -> (s: KlvTestSrc)
        ensures
            s@ == (SourceModel { count: 0, settings: settings@ }),
    {
        KlvTestSrc { count: 0, settings }
    }

    /// The settings.
    pub fn settings(&self) -> (s: Settings)
        ensures
            s@ == self@.settings,
    {
        self.settings
    }

    /// Replaces the settings.
    pub fn set_settings(&mut self, settings: Settings)
        ensures
            final(self)@ == (SourceModel { count: old(self)@.count, settings: settings@ }),
    {
        self.settings = settings;
    }

    /// Makes the next frame. The number of the frame after it is one more,
    /// and 0 after the last number that 64 bits hold.
    pub fn create(&mut self) -> (unit: MetaUnit)
        ensures
            unit.packet@ == packet(dataset_records(params_dataset(frame_meta(old(self)@.count)))),
            unit.timing == frame_timing(old(self)@.count, old(self)@.settings.fps),
            final(self)@.settings == old(self)@.settings,
            final(self)@.count == if old(self)@.count == u64::MAX {
                0
            } else {
                (old(self)@.count + 1) as u64
            },
    {
        let count = self.count;
        self.count = if count == u64::MAX {
            0
        } else {
            count + 1
        };
        let fps = self.settings.fps();
        let meta = ExampleRsMetaParams::new(
            "KlvTestSrcLabel".to_owned(),
            (count % 0x7FFF_FFFF) as i32,
            TransformMode::Copy,
        );
        proof {
            lemma_frame_label_fits();
            assert(meta@ == frame_meta(count));
        }
        // The label is short enough, so a packet is always made.
        let packet = match encode_klv_params(&meta) {
            Ok(packet) => packet,
            Err(_) => Vec::new(),
        };
        let interval = SECOND / (fps as u64);
        let timing = Timing {
            pts: interval.checked_mul(count),
            dts: None,
            duration: Some(interval),
            offset: count,
        };
        MetaUnit { packet, timing }
    }
}

} // verus!
