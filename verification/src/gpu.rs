//! Ground power: the generator voltage follows the aircraft's own
//! ground-power-available flag.

use crate::component::action_at;
use crate::component::run;
use crate::component::Corrects;
use crate::component::PluginComponent;
use crate::dataref::DataRefId;
use crate::frame::compare_and_write;
use crate::frame::entry;
use crate::frame::lemma_advance;
use crate::frame::Snapshot;
use crate::protocol::Action;
use crate::protocol::Event;
use crate::single::Single;
use vstd::prelude::*;

verus! {

/// Bit pattern of 27.5, the voltage of a connected ground power unit.
pub const CONNECTED_VOLTS_BITS: u32 = 0x41dc_0000;

/// Bit pattern of 0.0, the voltage without a ground power unit.
pub const DISCONNECTED_VOLTS_BITS: u32 = 0;

/// Number of variables that the component needs.
pub const GENERATOR_HANDLES: usize = 3;

/// The voltage that the generator should show: 27.5 where ground power is
/// reported available (1), 0.0 where it is reported unavailable (0), and no
/// opinion on any other report.
pub open spec fn volts_target(available: i32) -> Option<Single> {
    if available == 1 {
        Some(Single { bits: CONNECTED_VOLTS_BITS })
    } else if available == 0 {
        Some(Single { bits: DISCONNECTED_VOLTS_BITS })
    } else {
        None
    }
}

/// The tolerance comparison that decides whether `volts` is already at the
/// target for the given report: relative against 27.5, absolute against zero.
pub open spec fn volts_comparison(available: i32, volts: Single) -> Option<Action> {
    if available == 1 {
        Some(Action::AlmostEqual(volts, Single { bits: CONNECTED_VOLTS_BITS }))
    } else if available == 0 {
        Some(Action::AlmostZero(volts))
    } else {
        None
    }
}

/// The correction of one frame. The ground-power report and the voltage are
/// read. Where the report calls for a voltage, the voltage read is compared with
/// it, and the voltage called for is written unless the two are within tolerance.
pub open spec fn volts_correction(world: Snapshot) -> Seq<Action> {
    let available = world.ints[DataRefId::GpuAvailable];
    let volts = world.floats[DataRefId::GpuGeneratorVolts];
    let reads = seq![
        Action::ReadInt(DataRefId::GpuAvailable),
        Action::ReadFloat(DataRefId::GpuGeneratorVolts),
    ];
    match (volts_comparison(available, volts), volts_target(available)) {
        (Some(comparison), Some(target)) => reads + compare_and_write(
            world,
            comparison,
            Action::WriteFloat(DataRefId::GpuGeneratorVolts, target),
        ),
        _ => reads,
    }
}

/// Where the component stands within a frame.
#[derive(Clone, Copy, PartialEq, Eq, Structural, Debug)]
pub enum GeneratorPhase {
    /// Between frames, or done for this frame.
    Idle,
    /// A lookup is outstanding.
    Resolving,
    /// The simulator's own voltage computation is being switched off, once.
    Arming,
    /// The ground-power-available flag is being read.
    ReadingAvailable,
    /// The voltage is being read; the flag was as given.
    ReadingVolts(i32),
    /// The voltage is being compared with the given target.
    Comparing(Single),
    /// The voltage is being written.
    WritingVolts,
}

/// Corrects the generator voltage of the ground power unit.
#[derive(Clone, Copy, PartialEq, Eq, Structural, Debug)]
pub struct GeneratorVolts {
    /// How many of the needed variables are resolved.
    pub resolved: usize,
    pub phase: GeneratorPhase,
}

impl GeneratorVolts {
    /// The variable at the given place in the order of resolution.
    pub open spec fn spec_handle(index: int) -> DataRefId {
        if index == 0 {
            DataRefId::GpuGeneratorVolts
        } else if index == 1 {
            DataRefId::OverrideGpuVolts
        } else {
            DataRefId::GpuAvailable
        }
    }

    /// The same component in another phase.
    pub open spec fn at(self, phase: GeneratorPhase) -> Self {
        GeneratorVolts { phase, ..self }
    }

    /// A component that has resolved nothing yet.
    pub open spec fn new_spec() -> Self {
        GeneratorVolts { resolved: 0, phase: GeneratorPhase::Idle }
    }

    /// A component that has resolved nothing yet.
    pub fn new() -> (r: Self)
        ensures
            r == Self::new_spec(),
            !r.initialized(),
    {
        GeneratorVolts { resolved: 0, phase: GeneratorPhase::Idle }
    }

    /// The variable at the given place in the order of resolution.
    pub fn handle(index: usize) -> (r: DataRefId)
        ensures
            r == Self::spec_handle(index as int),
    {
        if index == 0 {
            DataRefId::GpuGeneratorVolts
        } else if index == 1 {
            DataRefId::OverrideGpuVolts
        } else {
            DataRefId::GpuAvailable
        }
    }

    /// The voltage that the generator should show for the given report.
    pub fn target_for(available: i32) -> (r: Option<Single>)
        ensures
            r == volts_target(available),
    {
        if available == 1 {
            Some(Single::from_bits(CONNECTED_VOLTS_BITS))
        } else if available == 0 {
            Some(Single::from_bits(DISCONNECTED_VOLTS_BITS))
        } else {
            None
        }
    }

    /// The comparison that decides whether `volts` is already at its target.
    pub fn comparison_for(available: i32, volts: Single) -> (r: Option<Action>)
        ensures
            r == volts_comparison(available, volts),
    {
        if available == 1 {
            Some(Action::AlmostEqual(volts, Single::from_bits(CONNECTED_VOLTS_BITS)))
        } else if available == 0 {
            Some(Action::AlmostZero(volts))
        } else {
            None
        }
    }
}

impl PluginComponent for GeneratorVolts {
    open spec fn handles() -> Seq<DataRefId> {
        Seq::new(GENERATOR_HANDLES as nat, |i: int| Self::spec_handle(i))
    }

    open spec fn resolved(&self) -> nat {
        if self.resolved >= GENERATOR_HANDLES {
            GENERATOR_HANDLES as nat
        } else {
            self.resolved as nat
        }
    }

    open spec fn initialized(&self) -> bool {
        self.resolved >= GENERATOR_HANDLES
    }

    open spec fn step(self, event: Event) -> (Self, Option<Action>) {
        let idle = (self.at(GeneratorPhase::Idle), None);
        let rule = (
            self.at(GeneratorPhase::ReadingAvailable),
            Some(Action::ReadInt(DataRefId::GpuAvailable)),
        );
        if !self.initialized() {
            match (self.phase, event) {
                (_, Event::Begin) => (
                    self.at(GeneratorPhase::Resolving),
                    Some(Action::Find(Self::spec_handle(self.resolved as int))),
                ),
                (GeneratorPhase::Resolving, Event::Found) => {
                    let next = GeneratorVolts { resolved: (self.resolved + 1) as usize, ..self };
                    if next.initialized() {
                        (
                            next.at(GeneratorPhase::Arming),
                            Some(Action::WriteInt(DataRefId::OverrideGpuVolts, 1)),
                        )
                    } else {
                        (next, Some(Action::Find(Self::spec_handle(next.resolved as int))))
                    }
                },
                _ => idle,
            }
        } else {
            match (self.phase, event) {
                (_, Event::Begin) => rule,
                (GeneratorPhase::Arming, Event::Written) => rule,
                (GeneratorPhase::ReadingAvailable, Event::Int(available)) => (
                    self.at(GeneratorPhase::ReadingVolts(available)),
                    Some(Action::ReadFloat(DataRefId::GpuGeneratorVolts)),
                ),
                (GeneratorPhase::ReadingVolts(available), Event::Float(volts)) => {
                    match volts_target(available) {
                        Some(target) => (
                            self.at(GeneratorPhase::Comparing(target)),
                            volts_comparison(available, volts),
                        ),
                        None => idle,
                    }
                },
                (GeneratorPhase::Comparing(target), Event::Verdict(near)) => {
                    if near {
                        idle
                    } else {
                        (
                            self.at(GeneratorPhase::WritingVolts),
                            Some(Action::WriteFloat(DataRefId::GpuGeneratorVolts, target)),
                        )
                    }
                },
                _ => idle,
            }
        }
    }

    fn is_initialized(&self) -> (r: bool) {
        self.resolved >= GENERATOR_HANDLES
    }

    fn update(&mut self, event: Event) -> (action: Option<Action>) {
        if self.resolved < GENERATOR_HANDLES {
            match (self.phase, event) {
                (_, Event::Begin) => {
                    self.phase = GeneratorPhase::Resolving;
                    Some(Action::Find(Self::handle(self.resolved)))
                },
                (GeneratorPhase::Resolving, Event::Found) => {
                    self.resolved = self.resolved + 1;
                    if self.resolved >= GENERATOR_HANDLES {
                        self.phase = GeneratorPhase::Arming;
                        Some(Action::WriteInt(DataRefId::OverrideGpuVolts, 1))
                    } else {
                        Some(Action::Find(Self::handle(self.resolved)))
                    }
                },
                _ => {
                    self.phase = GeneratorPhase::Idle;
                    None
                },
            }
        } else {
            match (self.phase, event) {
                (_, Event::Begin) | (GeneratorPhase::Arming, Event::Written) => {
                    self.phase = GeneratorPhase::ReadingAvailable;
                    Some(Action::ReadInt(DataRefId::GpuAvailable))
                },
                (GeneratorPhase::ReadingAvailable, Event::Int(available)) => {
                    self.phase = GeneratorPhase::ReadingVolts(available);
                    Some(Action::ReadFloat(DataRefId::GpuGeneratorVolts))
                },
                (GeneratorPhase::ReadingVolts(available), Event::Float(volts)) => {
                    match Self::target_for(available) {
                        Some(target) => {
                            self.phase = GeneratorPhase::Comparing(target);
                            Self::comparison_for(available, volts)
                        },
                        None => {
                            self.phase = GeneratorPhase::Idle;
                            None
                        },
                    }
                },
                (GeneratorPhase::Comparing(target), Event::Verdict(false)) => {
                    self.phase = GeneratorPhase::WritingVolts;
                    Some(Action::WriteFloat(DataRefId::GpuGeneratorVolts, target))
                },
                _ => {
                    self.phase = GeneratorPhase::Idle;
                    None
                },
            }
        }
    }

    proof fn lemma_life_cycle(self, event: Event) {
        let after = self.step(event);
        if after.1 matches Some(action) && action.uses_handle() {
            assert(Self::handles()[0] == DataRefId::GpuGeneratorVolts);
            assert(Self::handles()[1] == DataRefId::OverrideGpuVolts);
            assert(Self::handles()[2] == DataRefId::GpuAvailable);
        }
    }
}

impl Corrects for GeneratorVolts {
    open spec fn resolving(self, resolved: nat) -> Self {
        GeneratorVolts { resolved: resolved as usize, phase: GeneratorPhase::Resolving, ..self }
    }

    open spec fn arming() -> Seq<Action> {
        seq![Action::WriteInt(DataRefId::OverrideGpuVolts, 1)]
    }

    open spec fn correction(self, world: Snapshot) -> Seq<Action> {
        volts_correction(world)
    }

    proof fn lemma_resolution(self, event: Event, resolved: nat, world: Snapshot) {
    }

    proof fn lemma_correction(self, world: Snapshot, events: Seq<Event>, base: int) {
        let before = run(self, events.take(base));
        let script = volts_correction(world);
        let n = events.len();
        // Where the correction starts: right away, or after arming.
        let first = if before.initialized() {
            base
        } else {
            base + 1
        };
        lemma_advance(self, world, events, base);
        if !before.initialized() {
            assert(action_at(self, events, base) == entry(Self::arming() + script, 0));
            if n > base + 1 {
                lemma_advance(self, world, events, base + 1);
            }
        }
        if n > first {
            assert(action_at(self, events, first) == entry(script, 0));
        }
        if n > first + 1 {
            lemma_advance(self, world, events, first + 1);
            assert(action_at(self, events, first + 1) == entry(script, 1));
        }
        if n > first + 2 {
            lemma_advance(self, world, events, first + 2);
            assert(action_at(self, events, first + 2) == entry(script, 2));
        }
        if n > first + 3 {
            lemma_advance(self, world, events, first + 3);
            assert(action_at(self, events, first + 3) == entry(script, 3));
        }
        if n > first + 4 {
            lemma_advance(self, world, events, first + 4);
            assert(action_at(self, events, first + 4) == entry(script, 4));
        }
        assert(n <= first + 5);
        assert forall|i: int| base <= i < n implies #[trigger] action_at(self, events, i) == entry(
            if before.initialized() {
                script
            } else {
                Self::arming() + script
            },
            i - base,
        ) by {
            if !before.initialized() && i > base {
                assert(entry(Self::arming() + script, i - base) == entry(script, i - first));
            }
        }
    }
}

} // verus!
