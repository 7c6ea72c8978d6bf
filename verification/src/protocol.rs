//! The exchange between a correction component and the host adapter.
//!
//! A component never touches the simulator. It answers every [`Event`] with the
//! one [`Action`] it wants carried out next, or with nothing when it is done for
//! the frame. The adapter carries the action out and reports the outcome as the
//! next event.
//!
//! Two kinds of action are no access to the simulator. The tolerance comparisons
//! are floating-point arithmetic, while this crate works on bit patterns alone,
//! so the adapter is asked to make them. The toggle lives behind a lock that the
//! frame must not wait for, so the adapter is asked to try it.

use crate::dataref::DataRefId;
use crate::single::Single;
use vstd::prelude::*;

verus! {

/// Positions of the four throttle levers, first to fourth.
#[derive(Clone, Copy, PartialEq, Eq, Structural, Debug)]
pub struct Levers {
    pub first: Single,
    pub second: Single,
    pub third: Single,
    pub fourth: Single,
}

/// What a component asks the host adapter to do.
#[derive(Clone, Copy, PartialEq, Eq, Structural, Debug)]
pub enum Action {
    /// Resolve the variable by its name; one that the add-on writes has to accept
    /// writes. Answered by [`Event::Found`] or [`Event::Missing`].
    Find(DataRefId),
    /// Read an integer variable. Answered by [`Event::Int`].
    ReadInt(DataRefId),
    /// Read a single-precision variable. Answered by [`Event::Float`].
    ReadFloat(DataRefId),
    /// Read up to the given number of leading elements of an array variable.
    /// Answered by [`Event::Floats`].
    ReadFloats(DataRefId, usize),
    /// Read the throttle synchronisation toggle without blocking. Answered by
    /// [`Event::Toggle`].
    ReadToggle,
    /// Decide whether two values are equal within the relative tolerance, as
    /// `almost::equal` does. Answered by [`Event::Verdict`].
    AlmostEqual(Single, Single),
    /// Decide whether a value is zero within the absolute tolerance, as
    /// `almost::zero` does. Answered by [`Event::Verdict`].
    AlmostZero(Single),
    /// Write an integer variable. Answered by [`Event::Written`].
    WriteInt(DataRefId, i32),
    /// Write a single-precision variable. Answered by [`Event::Written`].
    WriteFloat(DataRefId, Single),
    /// Write the four leading elements of an array variable. Answered by
    /// [`Event::Written`].
    WriteFloats(DataRefId, Levers),
}

impl Action {
    /// Whether the action changes a simulator variable.
    pub open spec fn is_write(self) -> bool {
        self is WriteInt || self is WriteFloat || self is WriteFloats
    }

    /// Whether the action reads or writes a simulator variable through a
    /// resolved handle.
    pub open spec fn uses_handle(self) -> bool {
        self is ReadInt || self is ReadFloat || self is ReadFloats || self.is_write()
    }

    /// The variable that the action names, if it names one.
    pub open spec fn spec_target(self) -> Option<DataRefId> {
        match self {
            Action::Find(id) => Some(id),
            Action::ReadInt(id) => Some(id),
            Action::ReadFloat(id) => Some(id),
            Action::ReadFloats(id, _) => Some(id),
            Action::WriteInt(id, _) => Some(id),
            Action::WriteFloat(id, _) => Some(id),
            Action::WriteFloats(id, _) => Some(id),
            _ => None,
        }
    }

    /// The variable that the action names, if it names one.
    pub fn target(self) -> (r: Option<DataRefId>)
        ensures
            r == self.spec_target(),
    {
        match self {
            Action::Find(id) => Some(id),
            Action::ReadInt(id) => Some(id),
            Action::ReadFloat(id) => Some(id),
            Action::ReadFloats(id, _) => Some(id),
            Action::WriteInt(id, _) => Some(id),
            Action::WriteFloat(id, _) => Some(id),
            Action::WriteFloats(id, _) => Some(id),
            _ => None,
        }
    }
}

/// What the host adapter reports to a component.
#[derive(Debug)]
pub enum Event {
    /// A new frame starts.
    Begin,
    /// The variable asked for was resolved.
    Found,
    /// The variable asked for could not be resolved.
    Missing,
    /// The integer that was read.
    Int(i32),
    /// The single-precision value that was read.
    Float(Single),
    /// The array elements that were read, in order; there may be fewer than
    /// were asked for.
    Floats(Vec<Single>),
    /// The toggle, or nothing when it could not be read without blocking.
    Toggle(Option<bool>),
    /// The outcome of a tolerance comparison.
    Verdict(bool),
    /// The write was carried out.
    Written,
}

/// The element at `index` of what was read, or `fallback` where the array was
/// too short to supply it.
pub open spec fn element_or(values: Seq<Single>, index: int, fallback: Single) -> Single {
    if 0 <= index < values.len() {
        values[index]
    } else {
        fallback
    }
}

/// The element at `index` of what was read, or `fallback` where the array was
/// too short to supply it.
pub fn pick(values: &Vec<Single>, index: usize, fallback: Single) -> (r: Single)
    ensures
        r == element_or(values@, index as int, fallback),
{
    if index < values.len() {
        values[index]
    } else {
        fallback
    }
}

} // verus!
