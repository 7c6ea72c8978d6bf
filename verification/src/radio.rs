//! Radio power: each COM radio is powered only while its bus carries enough
//! voltage and its GPS unit is on.

use crate::component::action_at;
use crate::component::run;
use crate::component::Corrects;
use crate::component::PluginComponent;
use crate::dataref::DataRefId;
use crate::frame::entry;
use crate::frame::lemma_advance;
use crate::frame::Snapshot;
use crate::frame::write_int;
use crate::protocol::element_or;
use crate::protocol::pick;
use crate::protocol::Action;
use crate::protocol::Event;
use crate::single::Single;
use vstd::prelude::*;

verus! {

/// Bit pattern of 21.0, the bus voltage above which a radio may be powered.
pub const RADIO_BUS_VOLTS_BITS: u32 = 0x41a8_0000;

/// Number of bus voltages that the component reads.
pub const RADIO_BUSES: usize = 2;

/// Number of variables that the component needs.
pub const RADIO_HANDLES: usize = 7;

/// The value to write to a radio's power, if any. While the bus voltage is above
/// 21.0 and the GPS unit is on, the power follows what the aircraft asks for;
/// otherwise a radio that is on is switched off. Nothing is written where the
/// power is already right.
pub open spec fn com_power_target(bus_volts: Single, gps_power: i32, com_power: i32, desired: i32) -> Option<
    i32,
> {
    if bus_volts.greater_than(Single { bits: RADIO_BUS_VOLTS_BITS }) && gps_power == 1 {
        if com_power != desired {
            Some(desired)
        } else {
            None
        }
    } else if com_power == 1 {
        Some(0)
    } else {
        None
    }
}

/// The correction of one frame. The bus voltages and the power of the radios,
/// of the GPS units and as asked for are read; then each radio is written what
/// `com_power_target` gives for its side, if it gives anything. A bus voltage
/// that the reading does not supply is taken as held from earlier frames.
pub open spec fn radio_correction(component: Radio, world: Snapshot) -> Seq<Action> {
    let volts = world.leading(DataRefId::BusVolts, RADIO_BUSES);
    let target = com_power_target(
        element_or(volts, 0, component.bus_volts_1),
        world.ints[DataRefId::Gps1Power],
        world.ints[DataRefId::Com1Power],
        world.ints[DataRefId::DesiredCom1Power],
    );
    let target2 = com_power_target(
        element_or(volts, 1, component.bus_volts_2),
        world.ints[DataRefId::Gps2Power],
        world.ints[DataRefId::Com2Power],
        world.ints[DataRefId::DesiredCom2Power],
    );
    seq![
        Action::ReadFloats(DataRefId::BusVolts, RADIO_BUSES),
        Action::ReadInt(DataRefId::Com1Power),
        Action::ReadInt(DataRefId::Com2Power),
        Action::ReadInt(DataRefId::Gps1Power),
        Action::ReadInt(DataRefId::Gps2Power),
        Action::ReadInt(DataRefId::DesiredCom1Power),
        Action::ReadInt(DataRefId::DesiredCom2Power),
    ] + write_int(DataRefId::Com1Power, target) + write_int(DataRefId::Com2Power, target2)
}

/// Where the component stands within a frame. The readings taken so far in the
/// frame are carried along, in the order in which they were taken: power of
/// radio 1 and 2, power of GPS 1 and 2, power asked for radio 1.
#[derive(Clone, Copy, PartialEq, Eq, Structural, Debug)]
pub enum RadioPhase {
    /// Between frames, or done for this frame.
    Idle,
    /// A lookup is outstanding.
    Resolving,
    /// The bus voltages are being read.
    ReadingBusVolts,
    /// The power of radio 1 is being read.
    ReadingCom1,
    /// The power of radio 2 is being read.
    ReadingCom2(i32),
    /// The power of GPS 1 is being read.
    ReadingGps1(i32, i32),
    /// The power of GPS 2 is being read.
    ReadingGps2(i32, i32, i32),
    /// The power asked for radio 1 is being read.
    ReadingDesired1(i32, i32, i32, i32),
    /// The power asked for radio 2 is being read.
    ReadingDesired2(i32, i32, i32, i32, i32),
    /// Radio 1 is being written; carries what is to be written to radio 2.
    WritingCom1(Option<i32>),
    /// Radio 2 is being written.
    WritingCom2,
}

/// Corrects the power of the two COM radios.
#[derive(Clone, Copy, PartialEq, Eq, Structural, Debug)]
pub struct Radio {
    /// How many of the needed variables are resolved.
    pub resolved: usize,
    pub phase: RadioPhase,
    /// Voltage of the first bus as last read; 0.0 before the first reading.
    pub bus_volts_1: Single,
    /// Voltage of the second bus as last read; 0.0 before the first reading.
    pub bus_volts_2: Single,
}

impl Radio {
    /// The variable at the given place in the order of resolution.
    pub open spec fn spec_handle(index: int) -> DataRefId {
        if index == 0 {
            DataRefId::BusVolts
        } else if index == 1 {
            DataRefId::Gps1Power
        } else if index == 2 {
            DataRefId::Gps2Power
        } else if index == 3 {
            DataRefId::Com1Power
        } else if index == 4 {
            DataRefId::Com2Power
        } else if index == 5 {
            DataRefId::DesiredCom1Power
        } else {
            DataRefId::DesiredCom2Power
        }
    }

    /// The same component in another phase.
    pub open spec fn at(self, phase: RadioPhase) -> Self {
        Radio { phase, ..self }
    }

    /// The step that deals with radio 2, given what is to be written to it.
    pub open spec fn settle_com2(self, target: Option<i32>) -> (Self, Option<Action>) {
        match target {
            Some(power) => (
                self.at(RadioPhase::WritingCom2),
                Some(Action::WriteInt(DataRefId::Com2Power, power)),
            ),
            None => (self.at(RadioPhase::Idle), None),
        }
    }

    /// The step that deals with radio 1 and then radio 2, given what is to be
    /// written to each.
    pub open spec fn settle_com1(self, target: Option<i32>, target2: Option<i32>) -> (
        Self,
        Option<Action>,
    ) {
        match target {
            Some(power) => (
                self.at(RadioPhase::WritingCom1(target2)),
                Some(Action::WriteInt(DataRefId::Com1Power, power)),
            ),
            None => self.settle_com2(target2),
        }
    }

    /// A component that has resolved nothing yet; both bus voltages are held as
    /// 0.0.
    pub open spec fn new_spec() -> Self {
        Radio {
            resolved: 0,
            phase: RadioPhase::Idle,
            bus_volts_1: Single { bits: 0 },
            bus_volts_2: Single { bits: 0 },
        }
    }

    /// A component that has resolved nothing yet.
    pub fn new() -> (r: Self)
        ensures
            r == Self::new_spec(),
            !r.initialized(),
    {
        Radio {
            resolved: 0,
            phase: RadioPhase::Idle,
            bus_volts_1: Single::from_bits(0),
            bus_volts_2: Single::from_bits(0),
        }
    }

    /// The variable at the given place in the order of resolution.
    pub fn handle(index: usize) -> (r: DataRefId)
        ensures
            r == Self::spec_handle(index as int),
    {
        if index == 0 {
            DataRefId::BusVolts
        } else if index == 1 {
            DataRefId::Gps1Power
        } else if index == 2 {
            DataRefId::Gps2Power
        } else if index == 3 {
            DataRefId::Com1Power
        } else if index == 4 {
            DataRefId::Com2Power
        } else if index == 5 {
            DataRefId::DesiredCom1Power
        } else {
            DataRefId::DesiredCom2Power
        }
    }

    /// The value to write to a radio's power, if any.
    pub fn com_power_for(bus_volts: Single, gps_power: i32, com_power: i32, desired: i32) -> (r: Option<
        i32,
    >)
        ensures
            r == com_power_target(bus_volts, gps_power, com_power, desired),
    {
        if bus_volts.gt(Single::from_bits(RADIO_BUS_VOLTS_BITS)) && gps_power == 1 {
            if com_power != desired {
                Some(desired)
            } else {
                None
            }
        } else if com_power == 1 {
            Some(0)
        } else {
            None
        }
    }

    fn write_com2(&mut self, target: Option<i32>) -> (action: Option<Action>)
        ensures
            (*final(self), action) == old(self).settle_com2(target),
    {
        match target {
            Some(power) => {
                self.phase = RadioPhase::WritingCom2;
                Some(Action::WriteInt(DataRefId::Com2Power, power))
            },
            None => {
                self.phase = RadioPhase::Idle;
                None
            },
        }
    }

    fn write_com1(&mut self, target: Option<i32>, target2: Option<i32>) -> (action: Option<Action>)
        ensures
            (*final(self), action) == old(self).settle_com1(target, target2),
    {
        match target {
            Some(power) => {
                self.phase = RadioPhase::WritingCom1(target2);
                Some(Action::WriteInt(DataRefId::Com1Power, power))
            },
            None => self.write_com2(target2),
        }
    }
}

impl PluginComponent for Radio {
    open spec fn handles() -> Seq<DataRefId> {
        Seq::new(RADIO_HANDLES as nat, |i: int| Self::spec_handle(i))
    }

    open spec fn resolved(&self) -> nat {
        if self.resolved >= RADIO_HANDLES {
            RADIO_HANDLES as nat
        } else {
            self.resolved as nat
        }
    }

    open spec fn initialized(&self) -> bool {
        self.resolved >= RADIO_HANDLES
    }

    open spec fn step(self, event: Event) -> (Self, Option<Action>) {
        let idle = (self.at(RadioPhase::Idle), None);
        let rule = (
            self.at(RadioPhase::ReadingBusVolts),
            Some(Action::ReadFloats(DataRefId::BusVolts, RADIO_BUSES)),
        );
        if !self.initialized() {
            match (self.phase, event) {
                (_, Event::Begin) => (
                    self.at(RadioPhase::Resolving),
                    Some(Action::Find(Self::spec_handle(self.resolved as int))),
                ),
                (RadioPhase::Resolving, Event::Found) => {
                    let next = Radio { resolved: (self.resolved + 1) as usize, ..self };
                    if next.initialized() {
                        (next.at(RadioPhase::ReadingBusVolts), rule.1)
                    } else {
                        (next, Some(Action::Find(Self::spec_handle(next.resolved as int))))
                    }
                },
                _ => idle,
            }
        } else {
            match (self.phase, event) {
                (_, Event::Begin) => rule,
                (RadioPhase::ReadingBusVolts, Event::Floats(volts)) => (
                    Radio {
                        phase: RadioPhase::ReadingCom1,
                        bus_volts_1: element_or(volts@, 0, self.bus_volts_1),
                        bus_volts_2: element_or(volts@, 1, self.bus_volts_2),
                        ..self
                    },
                    Some(Action::ReadInt(DataRefId::Com1Power)),
                ),
                (RadioPhase::ReadingCom1, Event::Int(com1)) => (
                    self.at(RadioPhase::ReadingCom2(com1)),
                    Some(Action::ReadInt(DataRefId::Com2Power)),
                ),
                (RadioPhase::ReadingCom2(com1), Event::Int(com2)) => (
                    self.at(RadioPhase::ReadingGps1(com1, com2)),
                    Some(Action::ReadInt(DataRefId::Gps1Power)),
                ),
                (RadioPhase::ReadingGps1(com1, com2), Event::Int(gps1)) => (
                    self.at(RadioPhase::ReadingGps2(com1, com2, gps1)),
                    Some(Action::ReadInt(DataRefId::Gps2Power)),
                ),
                (RadioPhase::ReadingGps2(com1, com2, gps1), Event::Int(gps2)) => (
                    self.at(RadioPhase::ReadingDesired1(com1, com2, gps1, gps2)),
                    Some(Action::ReadInt(DataRefId::DesiredCom1Power)),
                ),
                (RadioPhase::ReadingDesired1(com1, com2, gps1, gps2), Event::Int(desired1)) => (
                    self.at(RadioPhase::ReadingDesired2(com1, com2, gps1, gps2, desired1)),
                    Some(Action::ReadInt(DataRefId::DesiredCom2Power)),
                ),
                (
                    RadioPhase::ReadingDesired2(com1, com2, gps1, gps2, desired1),
                    Event::Int(desired2),
                ) => self.settle_com1(
                    com_power_target(self.bus_volts_1, gps1, com1, desired1),
                    com_power_target(self.bus_volts_2, gps2, com2, desired2),
                ),
                (RadioPhase::WritingCom1(target2), Event::Written) => self.settle_com2(target2),
                _ => idle,
            }
        }
    }

    fn is_initialized(&self) -> (r: bool) {
        self.resolved >= RADIO_HANDLES
    }

    fn update(&mut self, event: Event) -> (action: Option<Action>) {
        if self.resolved < RADIO_HANDLES {
            match (self.phase, event) {
                (_, Event::Begin) => {
                    self.phase = RadioPhase::Resolving;
                    Some(Action::Find(Self::handle(self.resolved)))
                },
                (RadioPhase::Resolving, Event::Found) => {
                    self.resolved = self.resolved + 1;
                    if self.resolved >= RADIO_HANDLES {
                        self.phase = RadioPhase::ReadingBusVolts;
                        Some(Action::ReadFloats(DataRefId::BusVolts, RADIO_BUSES))
                    } else {
                        Some(Action::Find(Self::handle(self.resolved)))
                    }
                },
                _ => {
                    self.phase = RadioPhase::Idle;
                    None
                },
            }
        } else {
            match (self.phase, event) {
                (_, Event::Begin) => {
                    self.phase = RadioPhase::ReadingBusVolts;
                    Some(Action::ReadFloats(DataRefId::BusVolts, RADIO_BUSES))
                },
                (RadioPhase::ReadingBusVolts, Event::Floats(volts)) => {
                    self.bus_volts_1 = pick(&volts, 0, self.bus_volts_1);
                    self.bus_volts_2 = pick(&volts, 1, self.bus_volts_2);
                    self.phase = RadioPhase::ReadingCom1;
                    Some(Action::ReadInt(DataRefId::Com1Power))
                },
                (RadioPhase::ReadingCom1, Event::Int(com1)) => {
                    self.phase = RadioPhase::ReadingCom2(com1);
                    Some(Action::ReadInt(DataRefId::Com2Power))
                },
                (RadioPhase::ReadingCom2(com1), Event::Int(com2)) => {
                    self.phase = RadioPhase::ReadingGps1(com1, com2);
                    Some(Action::ReadInt(DataRefId::Gps1Power))
                },
                (RadioPhase::ReadingGps1(com1, com2), Event::Int(gps1)) => {
                    self.phase = RadioPhase::ReadingGps2(com1, com2, gps1);
                    Some(Action::ReadInt(DataRefId::Gps2Power))
                },
                (RadioPhase::ReadingGps2(com1, com2, gps1), Event::Int(gps2)) => {
                    self.phase = RadioPhase::ReadingDesired1(com1, com2, gps1, gps2);
                    Some(Action::ReadInt(DataRefId::DesiredCom1Power))
                },
                (RadioPhase::ReadingDesired1(com1, com2, gps1, gps2), Event::Int(desired1)) => {
                    self.phase = RadioPhase::ReadingDesired2(com1, com2, gps1, gps2, desired1);
                    Some(Action::ReadInt(DataRefId::DesiredCom2Power))
                },
                (
                    RadioPhase::ReadingDesired2(com1, com2, gps1, gps2, desired1),
                    Event::Int(desired2),
                ) => {
                    let target = Self::com_power_for(self.bus_volts_1, gps1, com1, desired1);
                    let target2 = Self::com_power_for(self.bus_volts_2, gps2, com2, desired2);
                    self.write_com1(target, target2)
                },
                (RadioPhase::WritingCom1(target2), Event::Written) => self.write_com2(target2),
                _ => {
                    self.phase = RadioPhase::Idle;
                    None
                },
            }
        }
    }

    proof fn lemma_life_cycle(self, event: Event) {
        let after = self.step(event);
        if after.1 matches Some(action) && action.uses_handle() {
            assert(Self::handles()[0] == DataRefId::BusVolts);
            assert(Self::handles()[1] == DataRefId::Gps1Power);
            assert(Self::handles()[2] == DataRefId::Gps2Power);
            assert(Self::handles()[3] == DataRefId::Com1Power);
            assert(Self::handles()[4] == DataRefId::Com2Power);
            assert(Self::handles()[5] == DataRefId::DesiredCom1Power);
            assert(Self::handles()[6] == DataRefId::DesiredCom2Power);
        }
    }
}

impl Corrects for Radio {
    open spec fn resolving(self, resolved: nat) -> Self {
        Radio { resolved: resolved as usize, phase: RadioPhase::Resolving, ..self }
    }

    open spec fn arming() -> Seq<Action> {
        Seq::empty()
    }

    open spec fn correction(self, world: Snapshot) -> Seq<Action> {
        radio_correction(self, world)
    }

    proof fn lemma_resolution(self, event: Event, resolved: nat, world: Snapshot) {
    }

    proof fn lemma_correction(self, world: Snapshot, events: Seq<Event>, base: int) {
        let before = run(self, events.take(base));
        let script = radio_correction(before, world);
        let n = events.len();
        assert(Self::arming() + script =~= script);
        lemma_advance(self, world, events, base);
        assert(action_at(self, events, base) == entry(script, 0));
        if n > base + 1 {
            lemma_advance(self, world, events, base + 1);
            assert(action_at(self, events, base + 1) == entry(script, 1));
        }
        if n > base + 2 {
            lemma_advance(self, world, events, base + 2);
            assert(action_at(self, events, base + 2) == entry(script, 2));
        }
        if n > base + 3 {
            lemma_advance(self, world, events, base + 3);
            assert(action_at(self, events, base + 3) == entry(script, 3));
        }
        if n > base + 4 {
            lemma_advance(self, world, events, base + 4);
            assert(action_at(self, events, base + 4) == entry(script, 4));
        }
        if n > base + 5 {
            lemma_advance(self, world, events, base + 5);
            assert(action_at(self, events, base + 5) == entry(script, 5));
        }
        if n > base + 6 {
            lemma_advance(self, world, events, base + 6);
            assert(action_at(self, events, base + 6) == entry(script, 6));
        }
        if n > base + 7 {
            lemma_advance(self, world, events, base + 7);
            assert(action_at(self, events, base + 7) == entry(script, 7));
        }
        if n > base + 8 {
            lemma_advance(self, world, events, base + 8);
            assert(action_at(self, events, base + 8) == entry(script, 8));
        }
        if n > base + 9 {
            lemma_advance(self, world, events, base + 9);
            assert(action_at(self, events, base + 9) == entry(script, 9));
        }
        assert(n <= base + 10);
    }
}

} // verus!
