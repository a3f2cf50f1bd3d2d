//! The metadata record that travels with a payload unit.

use vstd::prelude::*;

verus! {

/// What becomes of a unit's metadata when the unit is copied into a new one.
#[derive(Clone, Copy, Debug, PartialEq, Eq, Structural)]
pub enum TransformMode {
    /// The new unit gets no metadata.
    Ignore,
    /// The new unit gets a copy of the metadata.
    Copy,
}

impl TransformMode {
    /// The number that stands for the mode on the wire.
    pub open spec fn spec_to_u32(self) -> u32 {
        match self {
            TransformMode::Ignore => 0,
            TransformMode::Copy => 1,
        }
    }

    /// The mode that a number of the wire stands for: 0 is `Ignore`, every
    /// other number is `Copy`.
    pub open spec fn spec_from_u32(x: u32) -> TransformMode {
        if x == 0 {
            TransformMode::Ignore
        } else {
            TransformMode::Copy
        }
    }

    /// The number that stands for the mode on the wire.
    #[verifier::when_used_as_spec(spec_to_u32)]
    pub fn to_u32(self) -> (x: u32)
        ensures
            x == self.spec_to_u32(),
    {
        match self {
            TransformMode::Ignore => 0,
            TransformMode::Copy => 1,
        }
    }
}

impl Default for TransformMode {
    fn default() -> (m: TransformMode)
        ensures
            m == TransformMode::Copy,
    {
        TransformMode::Copy
    }
}

impl From<u32> for TransformMode {
    fn from(x: u32) -> (m: TransformMode) {
        match x {
            0 => TransformMode::Ignore,
            _ => TransformMode::Copy,
        }
    }
}

impl vstd::std_specs::convert::FromSpecImpl<u32> for TransformMode {
    open spec fn obeys_from_spec() -> bool {
        true
    }

    open spec fn from_spec(x: u32) -> TransformMode {
        TransformMode::spec_from_u32(x)
    }
}

/// A mode is the mode that its number stands for.
pub proof fn law_mode_number(m: TransformMode)
    ensures
        TransformMode::spec_from_u32(m.spec_to_u32()) == m,
{
}

/// A three-way mode, for metadata that is not tied to copying.
#[derive(Clone, Copy, Debug, PartialEq, Eq, Structural)]
pub enum Mode {
    A,
    B,
    C,
}

impl Mode {
    /// The number that stands for the mode on the wire.
    pub open spec fn spec_to_u32(self) -> u32 {
        match self {
            Mode::A => 0,
            Mode::B => 1,
            Mode::C => 2,
        }
    }

    /// The mode that a number of the wire stands for, if it stands for one.
    pub open spec fn spec_from_u32(x: u32) -> Option<Mode> {
        if x == 0 {
            Some(Mode::A)
        } else if x == 1 {
            Some(Mode::B)
        } else if x == 2 {
            Some(Mode::C)
        } else {
            None
        }
    }

    /// The number that stands for the mode on the wire.
    #[verifier::when_used_as_spec(spec_to_u32)]
    pub fn to_u32(self) -> (x: u32)
        ensures
            x == self.spec_to_u32(),
    {
        match self {
            Mode::A => 0,
            Mode::B => 1,
            Mode::C => 2,
        }
    }

    /// The mode that a number of the wire stands for, if it stands for one.
    #[verifier::when_used_as_spec(spec_from_u32)]
    pub fn from_u32(x: u32) -> (m: Option<Mode>)
        ensures
            m == Mode::spec_from_u32(x),
    {
        match x {
            0 => Some(Mode::A),
            1 => Some(Mode::B),
            2 => Some(Mode::C),
            _ => None,
        }
    }
}

impl Default for Mode {
    fn default() -> (m: Mode)
        ensures
            m == Mode::A,
    {
        Mode::A
    }
}

/// A three-way mode is the mode that its number stands for, and no other
/// number stands for it.
pub proof fn law_three_way_mode_number(m: Mode, x: u32)
    ensures
        Mode::spec_from_u32(m.spec_to_u32()) == Some(m),
        Mode::spec_from_u32(x) == Some(m) ==> x == m.spec_to_u32(),
{
}

/// What a metadata record says, as mathematics.
pub struct MetaModel {
    pub label: Seq<char>,
    pub index: i32,
    pub mode: TransformMode,
}

/// The metadata of one payload unit: a label, an index and the mode by which
/// it is carried over to copies of the unit.
#[derive(Debug)]
pub struct ExampleRsMetaParams {
    pub label: String,
    pub index: i32,
    pub mode: TransformMode,
}

impl View for ExampleRsMetaParams {
    type V = MetaModel;

    open spec fn view(&self) -> MetaModel {
        MetaModel { label: self.label@, index: self.index, mode: self.mode }
    }
}

impl ExampleRsMetaParams {
    /// The record of the three values.
    pub fn new(label: String, index: i32, mode: TransformMode) -> (p: ExampleRsMetaParams)
        ensures
            p@ == (MetaModel { label: label@, index, mode }),
    {
        ExampleRsMetaParams { label, index, mode }
    }

    /// A record of its own with the same values.
    pub fn clone_params(&self) -> (p: ExampleRsMetaParams)
        ensures
            p@ == self@,
    {
        ExampleRsMetaParams { label: self.label.clone(), index: self.index, mode: self.mode }
    }

    /// The metadata that a copy of the unit gets: none where the mode is
    /// `Ignore`, a record of its own with the same values where it is `Copy`.
    pub fn transform(&self) -> (p: Option<ExampleRsMetaParams>)
        ensures
            self.mode == TransformMode::Ignore ==> p is None,
            self.mode == TransformMode::Copy ==> p is Some && p->Some_0@ == self@,
    {
        match self.mode {
            TransformMode::Ignore => None,
            TransformMode::Copy => Some(self.clone_params()),
        }
    }
}

impl Default for ExampleRsMetaParams {
    fn default() -> (p: ExampleRsMetaParams)
        ensures
            p@ == (MetaModel { label: Seq::<char>::empty(), index: 0, mode: TransformMode::Copy }),
    {
        ExampleRsMetaParams { label: String::new(), index: 0, mode: TransformMode::Copy }
    }
}

} // verus!
