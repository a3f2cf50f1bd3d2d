//! An element that shows, adds or removes the metadata of the units that
//! pass through it.
//!
//! What is done to a unit is decided here; doing it is left to the caller.
//! Metadata that is added carries the name of the element as its label and
//! the number of the addition as its index: 0 for the first, one more for
//! each, and the least number that 32 bits hold after the greatest.

use vstd::prelude::*;
use crate::meta::{ExampleRsMetaParams, MetaModel, TransformMode};

verus! {

/// What the element does to the units.
#[derive(Clone, Copy, Debug, PartialEq, Eq, Structural)]
pub enum OperationMode {
    Show,
    Add,
    Remove,
}

impl Default for OperationMode {
    fn default() -> (m: OperationMode)
        ensures
            m == OperationMode::Show,
    {
        OperationMode::Show
    }
}

/// The mode that added metadata gets.
#[derive(Clone, Copy, Debug, PartialEq, Eq, Structural)]
pub enum TransformMethod {
    Ignore,
    Copy,
}

impl TransformMethod {
    /// The mode of the same name.
    pub open spec fn spec_mode(self) -> TransformMode {
        match self {
            TransformMethod::Ignore => TransformMode::Ignore,
            TransformMethod::Copy => TransformMode::Copy,
        }
    }
}

impl Default for TransformMethod {
    fn default() -> (m: TransformMethod)
        ensures
            m == TransformMethod::Ignore,
    {
        TransformMethod::Ignore
    }
}

impl From<TransformMethod> for TransformMode {
    fn from(m: TransformMethod) -> (mode: TransformMode) {
        match m {
            TransformMethod::Ignore => TransformMode::Ignore,
            TransformMethod::Copy => TransformMode::Copy,
        }
    }
}

impl vstd::std_specs::convert::FromSpecImpl<TransformMethod> for TransformMode {
    open spec fn obeys_from_spec() -> bool {
        true
    }

    open spec fn from_spec(m: TransformMethod) -> TransformMode {
        m.spec_mode()
    }
}

/// The kind of metadata that the element works on.
#[derive(Clone, Copy, Debug, PartialEq, Eq, Structural)]
pub enum MetaType {
    Rs,
    C,
}

impl Default for MetaType {
    fn default() -> (t: MetaType)
        ensures
            t == MetaType::Rs,
    {
        MetaType::Rs
    }
}

/// The settings of the element.
#[derive(Clone, Copy, Debug, PartialEq, Eq, Structural)]
pub struct Settings {
    pub op_mode: OperationMode,
    pub transform_meta: TransformMethod,
    pub meta_type: MetaType,
}

impl Settings {
    /// Sets what the element does to the units.
    pub fn set_op_mode(&mut self, v: OperationMode)
        ensures
            *final(self) == (Settings { op_mode: v, ..*old(self) }),
    {
        self.op_mode = v
    }

    /// Sets the mode that added metadata gets.
    pub fn set_transform_method(&mut self, v: TransformMethod)
        ensures
            *final(self) == (Settings { transform_meta: v, ..*old(self) }),
    {
        self.transform_meta = v
    }

    /// Sets the kind of metadata that the element works on.
    pub fn set_meta_type(&mut self, v: MetaType)
        ensures
            *final(self) == (Settings { meta_type: v, ..*old(self) }),
    {
        self.meta_type = v
    }
}

impl Default for Settings {
    fn default() -> (s: Settings)
        ensures
            s == (Settings {
                op_mode: OperationMode::Show,
                transform_meta: TransformMethod::Ignore,
                meta_type: MetaType::Rs,
            }),
    {
        Settings {
            op_mode: OperationMode::Show,
            transform_meta: TransformMethod::Ignore,
            meta_type: MetaType::Rs,
        }
    }
}

/// What is done to a unit, as mathematics.
pub enum ActionModel {
    Show(MetaType),
    AddRs(MetaModel),
    AddC { label: Seq<char>, count: i64 },
    Remove(MetaType),
}

/// What is done to a unit.
#[derive(Debug)]
pub enum MetaAction {
    /// The metadata of the kind is shown, if the unit has it; the unit stays
    /// as it is.
    Show(MetaType),
    /// The unit gets this metadata.
    AddRs(ExampleRsMetaParams),
    /// The unit gets metadata of the other kind, with this label and count;
    /// its third value is a tenth of the count.
    AddC { label: String, count: i64 },
    /// The unit loses its metadata of the kind.
    Remove(MetaType),
}

impl View for MetaAction {
    type V = ActionModel;

    open spec fn view(&self) -> ActionModel {
        match self {
            MetaAction::Show(t) => ActionModel::Show(*t),
            MetaAction::AddRs(p) => ActionModel::AddRs(p@),
            MetaAction::AddC { label, count } => ActionModel::AddC {
                label: label@,
                count: *count,
            },
            MetaAction::Remove(t) => ActionModel::Remove(*t),
        }
    }
}

/// The element, as mathematics: its settings and the number of the next
/// addition.
pub struct TransModel {
    pub settings: Settings,
    pub count: i32,
}

/// What is done to a unit by an element that stands at `m` and is called
/// `name`.
pub open spec fn action_of(m: TransModel, name: Seq<char>) -> ActionModel {
    match m.settings.op_mode {
        OperationMode::Show => ActionModel::Show(m.settings.meta_type),
        OperationMode::Remove => ActionModel::Remove(m.settings.meta_type),
        OperationMode::Add => match m.settings.meta_type {
            MetaType::Rs => ActionModel::AddRs(
                MetaModel {
                    label: name,
                    index: m.count,
                    mode: m.settings.transform_meta.spec_mode(),
                },
            ),
            MetaType::C => ActionModel::AddC { label: name, count: m.count as i64 },
        },
    }
}

/// The number of the addition after number `count`.
pub open spec fn next_count(count: i32) -> i32 {
    if count == i32::MAX {
        i32::MIN
    } else {
        (count + 1) as i32
    }
}

/// The element's own state.
pub struct MetaTrans {
    settings: Settings,
    count: i32,
}

impl View for MetaTrans {
    type V = TransModel;

    closed spec fn view(&self) -> TransModel {
        TransModel { settings: self.settings, count: self.count }
    }
}

impl MetaTrans {
    /// An element with the given settings that has added nothing yet.
    pub fn new(settings: Settings) -> (t: MetaTrans)
        ensures
            t@ == (TransModel { settings, count: 0 }),
    {
        MetaTrans { settings, count: 0 }
    }

    /// The settings.
    pub fn settings(&self) -> (s: Settings)
        ensures
            s == self@.settings,
    {
        self.settings
    }

    /// Replaces the settings.
    pub fn set_settings(&mut self, settings: Settings)
        ensures
            final(self)@ == (TransModel { settings, count: old(self)@.count }),
    {
        self.settings = settings;
    }

    /// Decides what is done to the unit that passes through the element
    /// called `name`. Every addition is counted.
    pub fn transform_ip(&mut self, name: &str) -> (action: MetaAction)
        ensures
            action@ == action_of(old(self)@, name@),
            final(self)@.settings == old(self)@.settings,
            final(self)@.count == if old(self)@.settings.op_mode == OperationMode::Add {
                next_count(old(self)@.count)
            } else {
                old(self)@.count
            },
    {
        let settings = self.settings;
        match settings.op_mode {
            OperationMode::Show => MetaAction::Show(settings.meta_type),
            OperationMode::Remove => MetaAction::Remove(settings.meta_type),
            OperationMode::Add => {
                let count = self.count;
                self.count = if count == i32::MAX {
                    i32::MIN
                } else {
                    count + 1
                };
                match settings.meta_type {
                    MetaType::Rs => MetaAction::AddRs(
                        ExampleRsMetaParams::new(
                            name.to_owned(),
                            count,
                            TransformMode::from(settings.transform_meta),
                        ),
                    ),
                    MetaType::C => MetaAction::AddC { label: name.to_owned(), count: count as i64 },
                }
            },
        }
    }
}

} // verus!
