//! An element that copies each unit into a new one, in one of several ways.

use vstd::prelude::*;

verus! {

/// How a unit is copied.
#[derive(Clone, Copy, Debug, PartialEq, Eq, Structural)]
pub enum CopyMode {
    Timestamp,
    Meta,
    MetaOnly,
    MetaDeep,
    Memory,
    All,
}

impl Default for CopyMode {
    fn default() -> (m: CopyMode)
        ensures
            m == CopyMode::Meta,
    {
        CopyMode::Meta
    }
}

/// The parts of a unit that a copy takes over.
#[derive(Clone, Copy, Debug, PartialEq, Eq, Structural)]
pub struct CopyFlags {
    pub flags: bool,
    pub timestamps: bool,
    pub meta: bool,
    pub memory: bool,
    pub merge: bool,
    pub deep: bool,
}

/// No part.
pub open spec fn no_flags() -> CopyFlags {
    CopyFlags {
        flags: false,
        timestamps: false,
        meta: false,
        memory: false,
        merge: false,
        deep: false,
    }
}

/// Every part.
pub open spec fn all_flags() -> CopyFlags {
    CopyFlags { flags: true, timestamps: true, meta: true, memory: true, merge: true, deep: true }
}

impl CopyMode {
    /// The parts that a copy in this mode takes over.
    pub open spec fn spec_buffer_copy_flag(self) -> CopyFlags {
        match self {
            CopyMode::Timestamp => CopyFlags { timestamps: true, ..no_flags() },
            CopyMode::MetaOnly => CopyFlags { meta: true, ..no_flags() },
            CopyMode::Meta => CopyFlags { timestamps: true, meta: true, ..no_flags() },
            CopyMode::MetaDeep => CopyFlags { timestamps: true, meta: true, deep: true, ..no_flags() },
            CopyMode::Memory => CopyFlags { memory: true, ..no_flags() },
            CopyMode::All => all_flags(),
        }
    }

    /// Whether a copy in this mode takes its octets over with the memory of
    /// the unit, so that the memory that the new unit came with is dropped
    /// first. In the other modes the octets are written into the memory that
    /// the new unit came with.
    pub open spec fn spec_replaces_memory(self) -> bool {
        self == CopyMode::Memory || self == CopyMode::All
    }

    /// The parts that a copy in this mode takes over.
    #[verifier::when_used_as_spec(spec_buffer_copy_flag)]
    pub fn buffer_copy_flag(self) -> (f: CopyFlags)
        ensures
            f == self.spec_buffer_copy_flag(),
    {
        let none = CopyFlags {
            flags: false,
            timestamps: false,
            meta: false,
            memory: false,
            merge: false,
            deep: false,
        };
        match self {
            CopyMode::Timestamp => CopyFlags { timestamps: true, ..none },
            CopyMode::MetaOnly => CopyFlags { meta: true, ..none },
            CopyMode::Meta => CopyFlags { timestamps: true, meta: true, ..none },
            CopyMode::MetaDeep => CopyFlags { timestamps: true, meta: true, deep: true, ..none },
            CopyMode::Memory => CopyFlags { memory: true, ..none },
            CopyMode::All => CopyFlags {
                flags: true,
                timestamps: true,
                meta: true,
                memory: true,
                merge: true,
                deep: true,
            },
        }
    }

    /// Whether the memory that the new unit came with is dropped first.
    #[verifier::when_used_as_spec(spec_replaces_memory)]
    pub fn replaces_memory(self) -> (b: bool)
        ensures
            b == self.spec_replaces_memory(),
    {
        match self {
            CopyMode::Memory | CopyMode::All => true,
            _ => false,
        }
    }
}

/// The settings of the element.
#[derive(Clone, Copy, Debug, PartialEq, Eq, Structural)]
pub struct Settings {
    pub copy_mode: CopyMode,
}

impl Settings {
    /// Sets how units are copied.
    pub fn set_copy_mode(&mut self, v: CopyMode)
        ensures
            final(self).copy_mode == v,
    {
        self.copy_mode = v
    }
}

impl Default for Settings {
    fn default() -> (s: Settings)
        ensures
            s.copy_mode == CopyMode::Meta,
    {
        Settings { copy_mode: CopyMode::Meta }
    }
}

} // verus!
