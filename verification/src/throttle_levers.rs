//! Throttle levers: while synchronisation is switched on, levers three and four
//! follow lever two.

use crate::component::action_at;
use crate::component::run;
use crate::component::Corrects;
use crate::component::PluginComponent;
use crate::dataref::DataRefId;
use crate::frame::entry;
use crate::frame::lemma_advance;
use crate::frame::Snapshot;
use crate::protocol::element_or;
use crate::protocol::pick;
use crate::protocol::Action;
use crate::protocol::Event;
use crate::protocol::Levers;
use crate::single::Single;
use crate::toggle::toggle_enabled;
use crate::toggle::SyncThrottles;
use vstd::prelude::*;

verus! {

/// Number of throttle levers.
pub const THROTTLE_LEVERS: usize = 4;

/// Number of variables that the component needs.
pub const THROTTLE_HANDLES: usize = 1;

/// The lever positions after a reading: each position that the reading
/// supplies replaces the one held, the others stay.
pub open spec fn refreshed(held: Levers, reading: Seq<Single>) -> Levers {
    Levers {
        first: element_or(reading, 0, held.first),
        second: element_or(reading, 1, held.second),
        third: element_or(reading, 2, held.third),
        fourth: element_or(reading, 3, held.fourth),
    }
}

/// The lever positions with levers three and four moved to where lever two is.
pub open spec fn aligned(levers: Levers) -> Levers {
    Levers { third: levers.second, fourth: levers.second, ..levers }
}

/// The correction of one frame. The toggle is read. If it is on, the lever
/// positions are read and written back with levers three and four moved to
/// where lever two is. A position that the reading does not supply is taken as
/// held from earlier frames.
pub open spec fn throttle_correction(component: ThrottleLevers, world: Snapshot) -> Seq<Action> {
    if toggle_enabled(world.toggle) {
        seq![
            Action::ReadToggle,
            Action::ReadFloats(DataRefId::ThrottleRatio, THROTTLE_LEVERS),
            Action::WriteFloats(
                DataRefId::ThrottleRatio,
                aligned(
                    refreshed(
                        component.levers,
                        world.leading(DataRefId::ThrottleRatio, THROTTLE_LEVERS),
                    ),
                ),
            ),
        ]
    } else {
        seq![Action::ReadToggle]
    }
}

/// Where the component stands within a frame.
#[derive(Clone, Copy, PartialEq, Eq, Structural, Debug)]
pub enum ThrottlePhase {
    /// Between frames, or done for this frame.
    Idle,
    /// The lookup is outstanding.
    Resolving,
    /// The toggle is being read.
    ReadingToggle,
    /// The lever positions are being read.
    ReadingLevers,
    /// The lever positions are being written.
    WritingLevers,
}

/// Aligns throttle levers three and four with lever two.
#[derive(Clone, Copy, PartialEq, Eq, Structural, Debug)]
pub struct ThrottleLevers {
    /// How many of the needed variables are resolved.
    pub resolved: usize,
    pub phase: ThrottlePhase,
    /// The lever positions as last read and aligned; all 0.0 before the first
    /// reading.
    pub levers: Levers,
}

impl ThrottleLevers {
    /// The variable at the given place in the order of resolution.
    pub open spec fn spec_handle(index: int) -> DataRefId {
        DataRefId::ThrottleRatio
    }

    /// The same component in another phase.
    pub open spec fn at(self, phase: ThrottlePhase) -> Self {
        ThrottleLevers { phase, ..self }
    }

    /// A component that has resolved nothing yet; every lever is held at 0.0.
    pub open spec fn new_spec() -> Self {
        ThrottleLevers {
            resolved: 0,
            phase: ThrottlePhase::Idle,
            levers: Levers {
                first: Single { bits: 0 },
                second: Single { bits: 0 },
                third: Single { bits: 0 },
                fourth: Single { bits: 0 },
            },
        }
    }

    /// A component that has resolved nothing yet.
    pub fn new() -> (r: Self)
        ensures
            r == Self::new_spec(),
            !r.initialized(),
    {
        let rest = Single::from_bits(0);
        ThrottleLevers {
            resolved: 0,
            phase: ThrottlePhase::Idle,
            levers: Levers { first: rest, second: rest, third: rest, fourth: rest },
        }
    }

    /// The variable at the given place in the order of resolution.
    pub fn handle(index: usize) -> (r: DataRefId)
        ensures
            r == Self::spec_handle(index as int),
    {
        DataRefId::ThrottleRatio
    }

    /// The lever positions after a reading, with levers three and four moved to
    /// where lever two is.
    pub fn synchronised(held: Levers, reading: &Vec<Single>) -> (r: Levers)
        ensures
            r == aligned(refreshed(held, reading@)),
    {
        let second = pick(reading, 1, held.second);
        Levers { first: pick(reading, 0, held.first), second, third: second, fourth: second }
    }
}

impl PluginComponent for ThrottleLevers {
    open spec fn handles() -> Seq<DataRefId> {
        Seq::new(THROTTLE_HANDLES as nat, |i: int| Self::spec_handle(i))
    }

    open spec fn resolved(&self) -> nat {
        if self.resolved >= THROTTLE_HANDLES {
            THROTTLE_HANDLES as nat
        } else {
            self.resolved as nat
        }
    }

    open spec fn initialized(&self) -> bool {
        self.resolved >= THROTTLE_HANDLES
    }

    open spec fn step(self, event: Event) -> (Self, Option<Action>) {
        let idle = (self.at(ThrottlePhase::Idle), None);
        let rule = (self.at(ThrottlePhase::ReadingToggle), Some(Action::ReadToggle));
        if !self.initialized() {
            match (self.phase, event) {
                (_, Event::Begin) => (
                    self.at(ThrottlePhase::Resolving),
                    Some(Action::Find(Self::spec_handle(self.resolved as int))),
                ),
                (ThrottlePhase::Resolving, Event::Found) => {
                    let next = ThrottleLevers { resolved: (self.resolved + 1) as usize, ..self };
                    if next.initialized() {
                        (next.at(ThrottlePhase::ReadingToggle), rule.1)
                    } else {
                        (next, Some(Action::Find(Self::spec_handle(next.resolved as int))))
                    }
                },
                _ => idle,
            }
        } else {
            match (self.phase, event) {
                (_, Event::Begin) => rule,
                (ThrottlePhase::ReadingToggle, Event::Toggle(toggle)) => {
                    if toggle_enabled(toggle) {
                        (
                            self.at(ThrottlePhase::ReadingLevers),
                            Some(Action::ReadFloats(DataRefId::ThrottleRatio, THROTTLE_LEVERS)),
                        )
                    } else {
                        idle
                    }
                },
                (ThrottlePhase::ReadingLevers, Event::Floats(reading)) => {
                    let levers = aligned(refreshed(self.levers, reading@));
                    (
                        ThrottleLevers { phase: ThrottlePhase::WritingLevers, levers, ..self },
                        Some(Action::WriteFloats(DataRefId::ThrottleRatio, levers)),
                    )
                },
                _ => idle,
            }
        }
    }

    fn is_initialized(&self) -> (r: bool) {
        self.resolved >= THROTTLE_HANDLES
    }

    fn update(&mut self, event: Event) -> (action: Option<Action>) {
        if self.resolved < THROTTLE_HANDLES {
            match (self.phase, event) {
                (_, Event::Begin) => {
                    self.phase = ThrottlePhase::Resolving;
                    Some(Action::Find(Self::handle(self.resolved)))
                },
                (ThrottlePhase::Resolving, Event::Found) => {
                    self.resolved = self.resolved + 1;
                    if self.resolved >= THROTTLE_HANDLES {
                        self.phase = ThrottlePhase::ReadingToggle;
                        Some(Action::ReadToggle)
                    } else {
                        Some(Action::Find(Self::handle(self.resolved)))
                    }
                },
                _ => {
                    self.phase = ThrottlePhase::Idle;
                    None
                },
            }
        } else {
            match (self.phase, event) {
                (_, Event::Begin) => {
                    self.phase = ThrottlePhase::ReadingToggle;
                    Some(Action::ReadToggle)
                },
                (ThrottlePhase::ReadingToggle, Event::Toggle(toggle)) => {
                    if SyncThrottles::observed(toggle) {
                        self.phase = ThrottlePhase::ReadingLevers;
                        Some(Action::ReadFloats(DataRefId::ThrottleRatio, THROTTLE_LEVERS))
                    } else {
                        self.phase = ThrottlePhase::Idle;
                        None
                    }
                },
                (ThrottlePhase::ReadingLevers, Event::Floats(reading)) => {
                    self.levers = Self::synchronised(self.levers, &reading);
                    self.phase = ThrottlePhase::WritingLevers;
                    Some(Action::WriteFloats(DataRefId::ThrottleRatio, self.levers))
                },
                _ => {
                    self.phase = ThrottlePhase::Idle;
                    None
                },
            }
        }
    }

    proof fn lemma_life_cycle(self, event: Event) {
        let after = self.step(event);
        if after.1 matches Some(action) && action.uses_handle() {
            assert(Self::handles()[0] == DataRefId::ThrottleRatio);
        }
    }
}

impl Corrects for ThrottleLevers {
    open spec fn resolving(self, resolved: nat) -> Self {
        ThrottleLevers { resolved: resolved as usize, phase: ThrottlePhase::Resolving, ..self }
    }

    open spec fn arming() -> Seq<Action> {
        Seq::empty()
    }

    open spec fn correction(self, world: Snapshot) -> Seq<Action> {
        throttle_correction(self, world)
    }

    proof fn lemma_resolution(self, event: Event, resolved: nat, world: Snapshot) {
    }

    proof fn lemma_correction(self, world: Snapshot, events: Seq<Event>, base: int) {
        let before = run(self, events.take(base));
        let script = throttle_correction(before, world);
        let n = events.len();
        assert(Self::arming() + script =~= script);
        lemma_advance(self, world, events, base);
        assert(action_at(self, events, base) == entry(script, 0));
        if n > base + 1 {
            lemma_advance(self, world, events, base + 1);
            assert(action_at(self, events, base + 1) == entry(script, 1));
        }
        if n > base + 2 {
            lemma_advance(self, world, events, base + 2);
            assert(action_at(self, events, base + 2) == entry(script, 2));
        }
        if n > base + 3 {
            lemma_advance(self, world, events, base + 3);
            assert(action_at(self, events, base + 3) == entry(script, 3));
        }
        assert(n <= base + 4);
    }
}

} // verus!
