//! Nosewheel steering: the steering override follows the pressure in the green
//! hydraulic system.

use crate::component::action_at;
use crate::component::Corrects;
use crate::component::PluginComponent;
use crate::dataref::DataRefId;
use crate::frame::entry;
use crate::frame::lemma_advance;
use crate::frame::Snapshot;
use crate::protocol::Action;
use crate::protocol::Event;
use crate::single::Single;
use vstd::prelude::*;

verus! {

/// Bit pattern of 100.0, the pressure above which steering is enabled.
pub const STEERING_PRESSURE_BITS: u32 = 0x42c8_0000;

/// Number of variables that the component needs.
pub const NOSEWHEEL_HANDLES: usize = 2;

/// The value for the steering override at the given pressure: 1 where the
/// pressure is above the threshold, 0 otherwise.
pub open spec fn steering_override(pressure: Single) -> i32 {
    if pressure.greater_than(Single { bits: STEERING_PRESSURE_BITS }) {
        1
    } else {
        0
    }
}

/// The correction of one frame: the pressure is read, and the override that goes
/// with it is written.
pub open spec fn steering_correction(world: Snapshot) -> Seq<Action> {
    seq![
        Action::ReadFloat(DataRefId::HydraulicPressureGreen),
        Action::WriteInt(
            DataRefId::OverrideWheelSteer,
            steering_override(world.floats[DataRefId::HydraulicPressureGreen]),
        ),
    ]
}

/// Where the component stands within a frame.
#[derive(Clone, Copy, PartialEq, Eq, Structural, Debug)]
pub enum NosewheelPhase {
    /// Between frames, or done for this frame.
    Idle,
    /// A lookup is outstanding.
    Resolving,
    /// The pressure is being read.
    ReadingPressure,
    /// The override is being written.
    WritingOverride,
}

/// Enables nosewheel steering as long as the green hydraulic system has enough
/// pressure.
#[derive(Clone, Copy, PartialEq, Eq, Structural, Debug)]
pub struct NosewheelSteering {
    /// How many of the needed variables are resolved.
    pub resolved: usize,
    pub phase: NosewheelPhase,
}

impl NosewheelSteering {
    /// The variable at the given place in the order of resolution.
    pub open spec fn spec_handle(index: int) -> DataRefId {
        if index == 0 {
            DataRefId::HydraulicPressureGreen
        } else {
            DataRefId::OverrideWheelSteer
        }
    }

    /// The same component in another phase.
    pub open spec fn at(self, phase: NosewheelPhase) -> Self {
        NosewheelSteering { phase, ..self }
    }

    /// A component that has resolved nothing yet.
    pub open spec fn new_spec() -> Self {
        NosewheelSteering { resolved: 0, phase: NosewheelPhase::Idle }
    }

    /// A component that has resolved nothing yet.
    pub fn new() -> (r: Self)
        ensures
            r == Self::new_spec(),
            !r.initialized(),
    {
        NosewheelSteering { resolved: 0, phase: NosewheelPhase::Idle }
    }

    /// The variable at the given place in the order of resolution.
    pub fn handle(index: usize) -> (r: DataRefId)
        ensures
            r == Self::spec_handle(index as int),
    {
        if index == 0 {
            DataRefId::HydraulicPressureGreen
        } else {
            DataRefId::OverrideWheelSteer
        }
    }

    /// The value for the steering override at the given pressure.
    pub fn override_for(pressure: Single) -> (r: i32)
        ensures
            r == steering_override(pressure),
    {
        if pressure.gt(Single::from_bits(STEERING_PRESSURE_BITS)) {
            1
        } else {
            0
        }
    }
}

impl PluginComponent for NosewheelSteering {
    open spec fn handles() -> Seq<DataRefId> {
        Seq::new(NOSEWHEEL_HANDLES as nat, |i: int| Self::spec_handle(i))
    }

    open spec fn resolved(&self) -> nat {
        if self.resolved >= NOSEWHEEL_HANDLES {
            NOSEWHEEL_HANDLES as nat
        } else {
            self.resolved as nat
        }
    }

    open spec fn initialized(&self) -> bool {
        self.resolved >= NOSEWHEEL_HANDLES
    }

    open spec fn step(self, event: Event) -> (Self, Option<Action>) {
        let idle = (self.at(NosewheelPhase::Idle), None);
        let rule = (
            self.at(NosewheelPhase::ReadingPressure),
            Some(Action::ReadFloat(DataRefId::HydraulicPressureGreen)),
        );
        if !self.initialized() {
            match (self.phase, event) {
                (_, Event::Begin) => (
                    self.at(NosewheelPhase::Resolving),
                    Some(Action::Find(Self::spec_handle(self.resolved as int))),
                ),
                (NosewheelPhase::Resolving, Event::Found) => {
                    let next = NosewheelSteering { resolved: (self.resolved + 1) as usize, ..self };
                    if next.initialized() {
                        (next.at(NosewheelPhase::ReadingPressure), rule.1)
                    } else {
                        (next, Some(Action::Find(Self::spec_handle(next.resolved as int))))
                    }
                },
                _ => idle,
            }
        } else {
            match (self.phase, event) {
                (_, Event::Begin) => rule,
                (NosewheelPhase::ReadingPressure, Event::Float(pressure)) => (
                    self.at(NosewheelPhase::WritingOverride),
                    Some(
                        Action::WriteInt(DataRefId::OverrideWheelSteer, steering_override(pressure)),
                    ),
                ),
                _ => idle,
            }
        }
    }

    fn is_initialized(&self) -> (r: bool) {
        self.resolved >= NOSEWHEEL_HANDLES
    }

    fn update(&mut self, event: Event) -> (action: Option<Action>) {
        if self.resolved < NOSEWHEEL_HANDLES {
            match (self.phase, event) {
                (_, Event::Begin) => {
                    self.phase = NosewheelPhase::Resolving;
                    Some(Action::Find(Self::handle(self.resolved)))
                },
                (NosewheelPhase::Resolving, Event::Found) => {
                    self.resolved = self.resolved + 1;
                    if self.resolved >= NOSEWHEEL_HANDLES {
                        self.phase = NosewheelPhase::ReadingPressure;
                        Some(Action::ReadFloat(DataRefId::HydraulicPressureGreen))
                    } else {
                        Some(Action::Find(Self::handle(self.resolved)))
                    }
                },
                _ => {
                    self.phase = NosewheelPhase::Idle;
                    None
                },
            }
        } else {
            match (self.phase, event) {
                (_, Event::Begin) => {
                    self.phase = NosewheelPhase::ReadingPressure;
                    Some(Action::ReadFloat(DataRefId::HydraulicPressureGreen))
                },
                (NosewheelPhase::ReadingPressure, Event::Float(pressure)) => {
                    self.phase = NosewheelPhase::WritingOverride;
                    let steering = Self::override_for(pressure);
                    Some(Action::WriteInt(DataRefId::OverrideWheelSteer, steering))
                },
                _ => {
                    self.phase = NosewheelPhase::Idle;
                    None
                },
            }
        }
    }

    proof fn lemma_life_cycle(self, event: Event) {
        let after = self.step(event);
        if after.1 matches Some(action) && action.uses_handle() {
            assert(Self::handles()[0] == DataRefId::HydraulicPressureGreen);
            assert(Self::handles()[1] == DataRefId::OverrideWheelSteer);
        }
    }
}

impl Corrects for NosewheelSteering {
    open spec fn resolving(self, resolved: nat) -> Self {
        NosewheelSteering { resolved: resolved as usize, phase: NosewheelPhase::Resolving, ..self }
    }

    open spec fn arming() -> Seq<Action> {
        Seq::empty()
    }

    open spec fn correction(self, world: Snapshot) -> Seq<Action> {
        steering_correction(world)
    }

    proof fn lemma_resolution(self, event: Event, resolved: nat, world: Snapshot) {
    }

    proof fn lemma_correction(self, world: Snapshot, events: Seq<Event>, base: int) {
        let script = steering_correction(world);
        let n = events.len();
        lemma_advance(self, world, events, base);
        assert(Self::arming() + script =~= script);
        assert(action_at(self, events, base) == entry(script, 0));
        if n > base + 1 {
            lemma_advance(self, world, events, base + 1);
            assert(action_at(self, events, base + 1) == entry(script, 1));
        }
        if n > base + 2 {
            lemma_advance(self, world, events, base + 2);
            assert(action_at(self, events, base + 2) == entry(script, 2));
        }
        assert(n <= base + 3);
    }
}

} // verus!
