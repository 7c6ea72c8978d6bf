//! Copilot HSI: while both HSIs are in RNAV mode, the copilot's course and
//! deviation follow the pilot's.

use crate::component::action_at;
use crate::component::Corrects;
use crate::component::PluginComponent;
use crate::dataref::DataRefId;
use crate::frame::compare_and_write;
use crate::frame::entry;
use crate::frame::lemma_advance;
use crate::frame::Snapshot;
use crate::protocol::Action;
use crate::protocol::Event;
use crate::single::Single;
use vstd::prelude::*;

verus! {

/// The selector value that stands for RNAV mode.
pub const RNAV_MODE: i32 = 2;

/// Number of variables that the component needs.
pub const HSI_HANDLES: usize = 6;

/// Whether both HSI selectors are in RNAV mode.
pub open spec fn both_rnav(selector: i32, selector2: i32) -> bool {
    selector == RNAV_MODE && selector2 == RNAV_MODE
}

/// The correction of one frame. Both selectors are read. If both are in RNAV
/// mode, the courses and deviations of both sides are read; then the copilot's
/// course is compared with the pilot's and overwritten with it unless the two
/// are within tolerance, and likewise the deviation.
pub open spec fn hsi_correction(world: Snapshot) -> Seq<Action> {
    let selectors = seq![
        Action::ReadInt(DataRefId::HsiSelector),
        Action::ReadInt(DataRefId::HsiSelector2),
    ];
    let obs_pilot = world.floats[DataRefId::HsiObsPilot];
    let obs_copilot = world.floats[DataRefId::HsiObsCopilot];
    let dots_pilot = world.floats[DataRefId::HsiDotsPilot];
    let dots_copilot = world.floats[DataRefId::HsiDotsCopilot];
    if both_rnav(world.ints[DataRefId::HsiSelector], world.ints[DataRefId::HsiSelector2]) {
        selectors + seq![
            Action::ReadFloat(DataRefId::HsiObsPilot),
            Action::ReadFloat(DataRefId::HsiObsCopilot),
            Action::ReadFloat(DataRefId::HsiDotsPilot),
            Action::ReadFloat(DataRefId::HsiDotsCopilot),
        ] + compare_and_write(
            world,
            Action::AlmostEqual(obs_pilot, obs_copilot),
            Action::WriteFloat(DataRefId::HsiObsCopilot, obs_pilot),
        ) + compare_and_write(
            world,
            Action::AlmostEqual(dots_pilot, dots_copilot),
            Action::WriteFloat(DataRefId::HsiDotsCopilot, dots_pilot),
        )
    } else {
        selectors
    }
}

/// Where the component stands within a frame. The readings taken so far in the
/// frame are carried along as far as they are still needed.
#[derive(Clone, Copy, PartialEq, Eq, Structural, Debug)]
pub enum HsiPhase {
    /// Between frames, or done for this frame.
    Idle,
    /// A lookup is outstanding.
    Resolving,
    /// The pilot's selector is being read.
    ReadingSelector,
    /// The copilot's selector is being read; the pilot's was as given.
    ReadingSelector2(i32),
    /// The pilot's course is being read.
    ReadingObsPilot,
    /// The copilot's course is being read; carries the pilot's course.
    ReadingObsCopilot(Single),
    /// The pilot's deviation is being read; carries both courses, pilot first.
    ReadingDotsPilot(Single, Single),
    /// The copilot's deviation is being read; carries both courses and the
    /// pilot's deviation.
    ReadingDotsCopilot(Single, Single, Single),
    /// The courses are being compared; carries the pilot's course and both
    /// deviations, pilot first.
    ComparingObs(Single, Single, Single),
    /// The copilot's course is being written; carries both deviations, pilot
    /// first.
    WritingObs(Single, Single),
    /// The deviations are being compared; carries the pilot's deviation.
    ComparingDots(Single),
    /// The copilot's deviation is being written.
    WritingDots,
}

/// Keeps the copilot's HSI in line with the pilot's in RNAV mode.
#[derive(Clone, Copy, PartialEq, Eq, Structural, Debug)]
pub struct CopilotHSI {
    /// How many of the needed variables are resolved.
    pub resolved: usize,
    pub phase: HsiPhase,
}

impl CopilotHSI {
    /// The variable at the given place in the order of resolution.
    pub open spec fn spec_handle(index: int) -> DataRefId {
        if index == 0 {
            DataRefId::HsiSelector
        } else if index == 1 {
            DataRefId::HsiSelector2
        } else if index == 2 {
            DataRefId::HsiObsPilot
        } else if index == 3 {
            DataRefId::HsiObsCopilot
        } else if index == 4 {
            DataRefId::HsiDotsPilot
        } else {
            DataRefId::HsiDotsCopilot
        }
    }

    /// The same component in another phase.
    pub open spec fn at(self, phase: HsiPhase) -> Self {
        CopilotHSI { phase, ..self }
    }

    /// The step that starts the comparison of the deviations.
    pub open spec fn compare_dots(self, pilot: Single, copilot: Single) -> (Self, Option<Action>) {
        (self.at(HsiPhase::ComparingDots(pilot)), Some(Action::AlmostEqual(pilot, copilot)))
    }

    /// A component that has resolved nothing yet.
    pub open spec fn new_spec() -> Self {
        CopilotHSI { resolved: 0, phase: HsiPhase::Idle }
    }

    /// A component that has resolved nothing yet.
    pub fn new() -> (r: Self)
        ensures
            r == Self::new_spec(),
            !r.initialized(),
    {
        CopilotHSI { resolved: 0, phase: HsiPhase::Idle }
    }

    /// The variable at the given place in the order of resolution.
    pub fn handle(index: usize) -> (r: DataRefId)
        ensures
            r == Self::spec_handle(index as int),
    {
        if index == 0 {
            DataRefId::HsiSelector
        } else if index == 1 {
            DataRefId::HsiSelector2
        } else if index == 2 {
            DataRefId::HsiObsPilot
        } else if index == 3 {
            DataRefId::HsiObsCopilot
        } else if index == 4 {
            DataRefId::HsiDotsPilot
        } else {
            DataRefId::HsiDotsCopilot
        }
    }

    /// Whether both HSI selectors are in RNAV mode.
    pub fn in_rnav(selector: i32, selector2: i32) -> (r: bool)
        ensures
            r == both_rnav(selector, selector2),
    {
        selector == RNAV_MODE && selector2 == RNAV_MODE
    }
}

impl PluginComponent for CopilotHSI {
    open spec fn handles() -> Seq<DataRefId> {
        Seq::new(HSI_HANDLES as nat, |i: int| Self::spec_handle(i))
    }

    open spec fn resolved(&self) -> nat {
        if self.resolved >= HSI_HANDLES {
            HSI_HANDLES as nat
        } else {
            self.resolved as nat
        }
    }

    open spec fn initialized(&self) -> bool {
        self.resolved >= HSI_HANDLES
    }

    open spec fn step(self, event: Event) -> (Self, Option<Action>) {
        let idle = (self.at(HsiPhase::Idle), None);
        let rule = (
            self.at(HsiPhase::ReadingSelector),
            Some(Action::ReadInt(DataRefId::HsiSelector)),
        );
        if !self.initialized() {
            match (self.phase, event) {
                (_, Event::Begin) => (
                    self.at(HsiPhase::Resolving),
                    Some(Action::Find(Self::spec_handle(self.resolved as int))),
                ),
                (HsiPhase::Resolving, Event::Found) => {
                    let next = CopilotHSI { resolved: (self.resolved + 1) as usize, ..self };
                    if next.initialized() {
                        (next.at(HsiPhase::ReadingSelector), rule.1)
                    } else {
                        (next, Some(Action::Find(Self::spec_handle(next.resolved as int))))
                    }
                },
                _ => idle,
            }
        } else {
            match (self.phase, event) {
                (_, Event::Begin) => rule,
                (HsiPhase::ReadingSelector, Event::Int(selector)) => (
                    self.at(HsiPhase::ReadingSelector2(selector)),
                    Some(Action::ReadInt(DataRefId::HsiSelector2)),
                ),
                (HsiPhase::ReadingSelector2(selector), Event::Int(selector2)) => {
                    if both_rnav(selector, selector2) {
                        (
                            self.at(HsiPhase::ReadingObsPilot),
                            Some(Action::ReadFloat(DataRefId::HsiObsPilot)),
                        )
                    } else {
                        idle
                    }
                },
                (HsiPhase::ReadingObsPilot, Event::Float(obs_pilot)) => (
                    self.at(HsiPhase::ReadingObsCopilot(obs_pilot)),
                    Some(Action::ReadFloat(DataRefId::HsiObsCopilot)),
                ),
                (HsiPhase::ReadingObsCopilot(obs_pilot), Event::Float(obs_copilot)) => (
                    self.at(HsiPhase::ReadingDotsPilot(obs_pilot, obs_copilot)),
                    Some(Action::ReadFloat(DataRefId::HsiDotsPilot)),
                ),
                (HsiPhase::ReadingDotsPilot(obs_pilot, obs_copilot), Event::Float(dots_pilot)) => (
                    self.at(HsiPhase::ReadingDotsCopilot(obs_pilot, obs_copilot, dots_pilot)),
                    Some(Action::ReadFloat(DataRefId::HsiDotsCopilot)),
                ),
                (
                    HsiPhase::ReadingDotsCopilot(obs_pilot, obs_copilot, dots_pilot),
                    Event::Float(dots_copilot),
                ) => (
                    self.at(HsiPhase::ComparingObs(obs_pilot, dots_pilot, dots_copilot)),
                    Some(Action::AlmostEqual(obs_pilot, obs_copilot)),
                ),
                (HsiPhase::ComparingObs(obs_pilot, dots_pilot, dots_copilot), Event::Verdict(near)) => {
                    if near {
                        self.compare_dots(dots_pilot, dots_copilot)
                    } else {
                        (
                            self.at(HsiPhase::WritingObs(dots_pilot, dots_copilot)),
                            Some(Action::WriteFloat(DataRefId::HsiObsCopilot, obs_pilot)),
                        )
                    }
                },
                (HsiPhase::WritingObs(dots_pilot, dots_copilot), Event::Written) => self.compare_dots(
                    dots_pilot,
                    dots_copilot,
                ),
                (HsiPhase::ComparingDots(dots_pilot), Event::Verdict(near)) => {
                    if near {
                        idle
                    } else {
                        (
                            self.at(HsiPhase::WritingDots),
                            Some(Action::WriteFloat(DataRefId::HsiDotsCopilot, dots_pilot)),
                        )
                    }
                },
                _ => idle,
            }
        }
    }

    fn is_initialized(&self) -> (r: bool) {
        self.resolved >= HSI_HANDLES
    }

    fn update(&mut self, event: Event) -> (action: Option<Action>) {
        if self.resolved < HSI_HANDLES {
            match (self.phase, event) {
                (_, Event::Begin) => {
                    self.phase = HsiPhase::Resolving;
                    Some(Action::Find(Self::handle(self.resolved)))
                },
                (HsiPhase::Resolving, Event::Found) => {
                    self.resolved = self.resolved + 1;
                    if self.resolved >= HSI_HANDLES {
                        self.phase = HsiPhase::ReadingSelector;
                        Some(Action::ReadInt(DataRefId::HsiSelector))
                    } else {
                        Some(Action::Find(Self::handle(self.resolved)))
                    }
                },
                _ => {
                    self.phase = HsiPhase::Idle;
                    None
                },
            }
        } else {
            match (self.phase, event) {
                (_, Event::Begin) => {
                    self.phase = HsiPhase::ReadingSelector;
                    Some(Action::ReadInt(DataRefId::HsiSelector))
                },
                (HsiPhase::ReadingSelector, Event::Int(selector)) => {
                    self.phase = HsiPhase::ReadingSelector2(selector);
                    Some(Action::ReadInt(DataRefId::HsiSelector2))
                },
                (HsiPhase::ReadingSelector2(selector), Event::Int(selector2)) => {
                    if Self::in_rnav(selector, selector2) {
                        self.phase = HsiPhase::ReadingObsPilot;
                        Some(Action::ReadFloat(DataRefId::HsiObsPilot))
                    } else {
                        self.phase = HsiPhase::Idle;
                        None
                    }
                },
                (HsiPhase::ReadingObsPilot, Event::Float(obs_pilot)) => {
                    self.phase = HsiPhase::ReadingObsCopilot(obs_pilot);
                    Some(Action::ReadFloat(DataRefId::HsiObsCopilot))
                },
                (HsiPhase::ReadingObsCopilot(obs_pilot), Event::Float(obs_copilot)) => {
                    self.phase = HsiPhase::ReadingDotsPilot(obs_pilot, obs_copilot);
                    Some(Action::ReadFloat(DataRefId::HsiDotsPilot))
                },
                (HsiPhase::ReadingDotsPilot(obs_pilot, obs_copilot), Event::Float(dots_pilot)) => {
                    self.phase = HsiPhase::ReadingDotsCopilot(obs_pilot, obs_copilot, dots_pilot);
                    Some(Action::ReadFloat(DataRefId::HsiDotsCopilot))
                },
                (
                    HsiPhase::ReadingDotsCopilot(obs_pilot, obs_copilot, dots_pilot),
                    Event::Float(dots_copilot),
                ) => {
                    self.phase = HsiPhase::ComparingObs(obs_pilot, dots_pilot, dots_copilot);
                    Some(Action::AlmostEqual(obs_pilot, obs_copilot))
                },
                (HsiPhase::ComparingObs(obs_pilot, dots_pilot, dots_copilot), Event::Verdict(false)) => {
                    self.phase = HsiPhase::WritingObs(dots_pilot, dots_copilot);
                    Some(Action::WriteFloat(DataRefId::HsiObsCopilot, obs_pilot))
                },
                (HsiPhase::ComparingObs(_, dots_pilot, dots_copilot), Event::Verdict(true))
                | (HsiPhase::WritingObs(dots_pilot, dots_copilot), Event::Written) => {
                    self.phase = HsiPhase::ComparingDots(dots_pilot);
                    Some(Action::AlmostEqual(dots_pilot, dots_copilot))
                },
                (HsiPhase::ComparingDots(dots_pilot), Event::Verdict(false)) => {
                    self.phase = HsiPhase::WritingDots;
                    Some(Action::WriteFloat(DataRefId::HsiDotsCopilot, dots_pilot))
                },
                _ => {
                    self.phase = HsiPhase::Idle;
                    None
                },
            }
        }
    }

    proof fn lemma_life_cycle(self, event: Event) {
        let after = self.step(event);
        if after.1 matches Some(action) && action.uses_handle() {
            assert(Self::handles()[0] == DataRefId::HsiSelector);
            assert(Self::handles()[1] == DataRefId::HsiSelector2);
            assert(Self::handles()[2] == DataRefId::HsiObsPilot);
            assert(Self::handles()[3] == DataRefId::HsiObsCopilot);
            assert(Self::handles()[4] == DataRefId::HsiDotsPilot);
            assert(Self::handles()[5] == DataRefId::HsiDotsCopilot);
        }
    }
}

impl Corrects for CopilotHSI {
    open spec fn resolving(self, resolved: nat) -> Self {
        CopilotHSI { resolved: resolved as usize, phase: HsiPhase::Resolving, ..self }
    }

    open spec fn arming() -> Seq<Action> {
        Seq::empty()
    }

    open spec fn correction(self, world: Snapshot) -> Seq<Action> {
        hsi_correction(world)
    }

    proof fn lemma_resolution(self, event: Event, resolved: nat, world: Snapshot) {
    }

    proof fn lemma_correction(self, world: Snapshot, events: Seq<Event>, base: int) {
        let script = hsi_correction(world);
        let n = events.len();
        assert(Self::arming() + script =~= script);
        lemma_advance(self, world, events, base);
        assert(action_at(self, events, base) == entry(script, 0));
        if n > base + 1 {
            lemma_advance(self, world, events, base + 1);
            assert(action_at(self, events, base + 1) == entry(script, 1));
        }
        if n > base + 2 {
            lemma_advance(self, world, events, base + 2);
            assert(action_at(self, events, base + 2) == entry(script, 2));
        }
        if n > base + 3 {
            lemma_advance(self, world, events, base + 3);
            assert(action_at(self, events, base + 3) == entry(script, 3));
        }
        if n > base + 4 {
            lemma_advance(self, world, events, base + 4);
            assert(action_at(self, events, base + 4) == entry(script, 4));
        }
        if n > base + 5 {
            lemma_advance(self, world, events, base + 5);
            assert(action_at(self, events, base + 5) == entry(script, 5));
        }
        if n > base + 6 {
            lemma_advance(self, world, events, base + 6);
            assert(action_at(self, events, base + 6) == entry(script, 6));
        }
        if n > base + 7 {
            lemma_advance(self, world, events, base + 7);
            assert(action_at(self, events, base + 7) == entry(script, 7));
        }
        if n > base + 8 {
            lemma_advance(self, world, events, base + 8);
            assert(action_at(self, events, base + 8) == entry(script, 8));
        }
        if n > base + 9 {
            lemma_advance(self, world, events, base + 9);
            assert(action_at(self, events, base + 9) == entry(script, 9));
        }
        if n > base + 10 {
            lemma_advance(self, world, events, base + 10);
            assert(action_at(self, events, base + 10) == entry(script, 10));
        }
        assert(n <= base + 11);
    }
}

} // verus!
