use bae146_tweaks::component::PluginComponent;
use bae146_tweaks::dataref::DataRefId;
use bae146_tweaks::gpu::GeneratorVolts;
use bae146_tweaks::handler::FlightLoopHandler;
use bae146_tweaks::handler::FrameStep;
use bae146_tweaks::hsi::CopilotHSI;
use bae146_tweaks::nosewheel_steering::NosewheelSteering;
use bae146_tweaks::protocol::Action;
use bae146_tweaks::protocol::Event;
use bae146_tweaks::protocol::Levers;
use bae146_tweaks::radio::Radio;
use bae146_tweaks::single::Single;
use bae146_tweaks::throttle_levers::ThrottleLevers;
use std::collections::HashMap;

/// A simulator made of a few tables, which carries out actions as the host
/// adapter would and keeps a record of them.
struct Sim {
    ints: HashMap<DataRefId, i32>,
    floats: HashMap<DataRefId, f32>,
    arrays: HashMap<DataRefId, Vec<f32>>,
    toggle: Option<bool>,
    asked: Vec<Action>,
}

fn single(value: f32) -> Single {
    Single::from_bits(value.to_bits())
}

fn value(single: Single) -> f32 {
    f32::from_bits(single.to_bits())
}

impl Sim {
    fn new() -> Sim {
        Sim {
            ints: HashMap::new(),
            floats: HashMap::new(),
            arrays: HashMap::new(),
            toggle: Some(true),
            asked: Vec::new(),
        }
    }

    fn with_int(mut self, id: DataRefId, value: i32) -> Sim {
        self.ints.insert(id, value);
        self
    }

    fn with_float(mut self, id: DataRefId, value: f32) -> Sim {
        self.floats.insert(id, value);
        self
    }

    fn with_array(mut self, id: DataRefId, values: &[f32]) -> Sim {
        self.arrays.insert(id, values.to_vec());
        self
    }

    fn with_toggle(mut self, toggle: Option<bool>) -> Sim {
        self.toggle = toggle;
        self
    }

    fn has(&self, id: DataRefId) -> bool {
        self.ints.contains_key(&id) || self.floats.contains_key(&id) || self.arrays.contains_key(&id)
    }

    fn perform(&mut self, action: Action) -> Event {
        self.asked.push(action);
        match action {
            Action::Find(id) => {
                if self.has(id) {
                    Event::Found
                } else {
                    Event::Missing
                }
            }
            Action::ReadInt(id) => Event::Int(self.ints[&id]),
            Action::ReadFloat(id) => Event::Float(single(self.floats[&id])),
            Action::ReadFloats(id, count) => {
                Event::Floats(self.arrays[&id].iter().take(count).map(|v| single(*v)).collect())
            }
            Action::ReadToggle => Event::Toggle(self.toggle),
            Action::AlmostEqual(left, right) => Event::Verdict(almost::equal(value(left), value(right))),
            Action::AlmostZero(subject) => Event::Verdict(almost::zero(value(subject))),
            Action::WriteInt(id, value) => {
                self.ints.insert(id, value);
                Event::Written
            }
            Action::WriteFloat(id, written) => {
                self.floats.insert(id, value(written));
                Event::Written
            }
            Action::WriteFloats(id, levers) => {
                let written = [
                    value(levers.first),
                    value(levers.second),
                    value(levers.third),
                    value(levers.fourth),
                ];
                let held = self.arrays.entry(id).or_default();
                for (place, position) in written.iter().enumerate() {
                    if place < held.len() {
                        held[place] = *position;
                    }
                }
                Event::Written
            }
        }
    }

    /// Runs one frame of a component and returns the writes it asked for.
    fn frame<C: PluginComponent>(&mut self, component: &mut C) -> Vec<Action> {
        let start = self.asked.len();
        let mut event = Event::Begin;
        let mut budget = 64;
        while let Some(action) = component.update(event) {
            event = self.perform(action);
            budget -= 1;
            assert!(budget > 0);
        }
        writes(&self.asked[start..])
    }

    /// Runs one frame of the driver and returns how the frame ended.
    fn drive(&mut self, handler: &mut FlightLoopHandler) -> FrameStep {
        let mut event = Event::Begin;
        let mut budget = 256;
        loop {
            match handler.flight_loop(event) {
                FrameStep::Perform(action) => event = self.perform(action),
                end => return end,
            }
            budget -= 1;
            assert!(budget > 0);
        }
    }
}

fn writes(actions: &[Action]) -> Vec<Action> {
    actions
        .iter()
        .copied()
        .filter(|a| matches!(a, Action::WriteInt(..) | Action::WriteFloat(..) | Action::WriteFloats(..)))
        .collect()
}

fn generator_sim(available: i32, volts: f32) -> Sim {
    Sim::new()
        .with_float(DataRefId::GpuGeneratorVolts, volts)
        .with_int(DataRefId::OverrideGpuVolts, 0)
        .with_int(DataRefId::GpuAvailable, available)
}

/// A generator component that has gone through its first frame.
fn settled_generator(sim: &mut Sim) -> GeneratorVolts {
    let mut component = GeneratorVolts::new();
    sim.frame(&mut component);
    assert!(component.is_initialized());
    component
}

#[test]
fn generator_volts_are_raised_when_ground_power_is_available() {
    let mut sim = generator_sim(1, 0.0);
    let mut component = GeneratorVolts::new();
    let written = sim.frame(&mut component);
    assert_eq!(
        written,
        vec![
            Action::WriteInt(DataRefId::OverrideGpuVolts, 1),
            Action::WriteFloat(DataRefId::GpuGeneratorVolts, single(27.5)),
        ]
    );
    assert_eq!(sim.floats[&DataRefId::GpuGeneratorVolts], 27.5);
    assert_eq!(sim.ints[&DataRefId::OverrideGpuVolts], 1);
}

#[test]
fn generator_volts_are_dropped_when_ground_power_is_gone() {
    let mut sim = generator_sim(0, 27.5);
    let mut component = settled_generator(&mut sim);
    sim.floats.insert(DataRefId::GpuGeneratorVolts, 27.5);
    let written = sim.frame(&mut component);
    assert_eq!(written, vec![Action::WriteFloat(DataRefId::GpuGeneratorVolts, single(0.0))]);
    assert_eq!(sim.floats[&DataRefId::GpuGeneratorVolts], 0.0);
}

#[test]
fn generator_volts_already_right_are_not_written() {
    let mut sim = generator_sim(1, 27.5);
    let mut component = settled_generator(&mut sim);
    assert_eq!(sim.frame(&mut component), vec![]);
    sim.ints.insert(DataRefId::GpuAvailable, 0);
    sim.floats.insert(DataRefId::GpuGeneratorVolts, 0.0);
    assert_eq!(sim.frame(&mut component), vec![]);
}

#[test]
fn generator_volts_within_tolerance_are_not_written() {
    let mut sim = generator_sim(1, 27.5001);
    let mut component = settled_generator(&mut sim);
    assert_eq!(sim.frame(&mut component), vec![]);
    assert_eq!(sim.floats[&DataRefId::GpuGeneratorVolts], 27.5001);
    sim.ints.insert(DataRefId::GpuAvailable, 0);
    sim.floats.insert(DataRefId::GpuGeneratorVolts, -0.0001);
    assert_eq!(sim.frame(&mut component), vec![]);
    assert_eq!(sim.floats[&DataRefId::GpuGeneratorVolts], -0.0001);
}

#[test]
fn generator_volts_outside_tolerance_are_written() {
    let mut sim = generator_sim(1, 27.6);
    let mut component = settled_generator(&mut sim);
    sim.floats.insert(DataRefId::GpuGeneratorVolts, 27.6);
    assert_eq!(
        sim.frame(&mut component),
        vec![Action::WriteFloat(DataRefId::GpuGeneratorVolts, single(27.5))]
    );
    sim.ints.insert(DataRefId::GpuAvailable, 0);
    sim.floats.insert(DataRefId::GpuGeneratorVolts, 0.001);
    assert_eq!(
        sim.frame(&mut component),
        vec![Action::WriteFloat(DataRefId::GpuGeneratorVolts, single(0.0))]
    );
}

#[test]
fn generator_volts_are_left_alone_on_any_other_report() {
    let mut sim = generator_sim(2, 13.0);
    let mut component = settled_generator(&mut sim);
    let before = sim.asked.len();
    assert_eq!(sim.frame(&mut component), vec![]);
    assert_eq!(
        sim.asked[before..].to_vec(),
        vec![
            Action::ReadInt(DataRefId::GpuAvailable),
            Action::ReadFloat(DataRefId::GpuGeneratorVolts),
        ]
    );
    assert_eq!(sim.floats[&DataRefId::GpuGeneratorVolts], 13.0);
}

#[test]
fn generator_override_is_forced_on_exactly_once() {
    let mut sim = generator_sim(1, 27.5);
    let mut component = GeneratorVolts::new();
    let first = sim.frame(&mut component);
    assert_eq!(first, vec![Action::WriteInt(DataRefId::OverrideGpuVolts, 1)]);
    sim.ints.insert(DataRefId::OverrideGpuVolts, 0);
    for _ in 0..5 {
        assert_eq!(sim.frame(&mut component), vec![]);
    }
    assert_eq!(sim.ints[&DataRefId::OverrideGpuVolts], 0);
}

#[test]
fn generator_frame_asks_in_order() {
    let mut sim = generator_sim(1, 0.0);
    let mut component = GeneratorVolts::new();
    sim.frame(&mut component);
    assert_eq!(
        sim.asked,
        vec![
            Action::Find(DataRefId::GpuGeneratorVolts),
            Action::Find(DataRefId::OverrideGpuVolts),
            Action::Find(DataRefId::GpuAvailable),
            Action::WriteInt(DataRefId::OverrideGpuVolts, 1),
            Action::ReadInt(DataRefId::GpuAvailable),
            Action::ReadFloat(DataRefId::GpuGeneratorVolts),
            Action::AlmostEqual(single(0.0), single(27.5)),
            Action::WriteFloat(DataRefId::GpuGeneratorVolts, single(27.5)),
        ]
    );
}

fn hsi_sim(selector: i32, selector2: i32, obs: (f32, f32), dots: (f32, f32)) -> Sim {
    Sim::new()
        .with_int(DataRefId::HsiSelector, selector)
        .with_int(DataRefId::HsiSelector2, selector2)
        .with_float(DataRefId::HsiObsPilot, obs.0)
        .with_float(DataRefId::HsiObsCopilot, obs.1)
        .with_float(DataRefId::HsiDotsPilot, dots.0)
        .with_float(DataRefId::HsiDotsCopilot, dots.1)
}

#[test]
fn copilot_course_follows_the_pilot_in_rnav_mode() {
    let mut sim = hsi_sim(2, 2, (90.0, 85.0), (0.5, 0.5));
    let mut component = CopilotHSI::new();
    let written = sim.frame(&mut component);
    assert_eq!(written, vec![Action::WriteFloat(DataRefId::HsiObsCopilot, single(90.0))]);
    assert_eq!(sim.floats[&DataRefId::HsiObsCopilot], 90.0);
    assert_eq!(sim.floats[&DataRefId::HsiDotsCopilot], 0.5);
}

#[test]
fn copilot_hsi_is_left_alone_outside_rnav_mode() {
    for (selector, selector2) in [(1, 2), (2, 1), (1, 1), (0, 0), (2, 3)] {
        let mut sim = hsi_sim(selector, selector2, (90.0, 85.0), (1.0, -1.0));
        let mut component = CopilotHSI::new();
        assert_eq!(sim.frame(&mut component), vec![]);
        assert!(component.is_initialized());
        assert_eq!(sim.frame(&mut component), vec![]);
        assert_eq!(sim.floats[&DataRefId::HsiObsCopilot], 85.0);
        assert_eq!(sim.floats[&DataRefId::HsiDotsCopilot], -1.0);
    }
}

#[test]
fn copilot_hsi_reads_no_course_outside_rnav_mode() {
    let mut sim = hsi_sim(1, 2, (90.0, 85.0), (1.0, -1.0));
    let mut component = CopilotHSI::new();
    sim.frame(&mut component);
    let before = sim.asked.len();
    sim.frame(&mut component);
    assert_eq!(
        sim.asked[before..].to_vec(),
        vec![Action::ReadInt(DataRefId::HsiSelector), Action::ReadInt(DataRefId::HsiSelector2)]
    );
}

#[test]
fn copilot_deviation_follows_the_pilot_in_rnav_mode() {
    let mut sim = hsi_sim(2, 2, (90.0, 90.0), (1.25, -0.75));
    let mut component = CopilotHSI::new();
    let written = sim.frame(&mut component);
    assert_eq!(written, vec![Action::WriteFloat(DataRefId::HsiDotsCopilot, single(1.25))]);
    assert_eq!(sim.floats[&DataRefId::HsiDotsCopilot], 1.25);
}

#[test]
fn copilot_course_and_deviation_are_both_written() {
    let mut sim = hsi_sim(2, 2, (270.0, 10.0), (2.0, 0.0));
    let mut component = CopilotHSI::new();
    let written = sim.frame(&mut component);
    assert_eq!(
        written,
        vec![
            Action::WriteFloat(DataRefId::HsiObsCopilot, single(270.0)),
            Action::WriteFloat(DataRefId::HsiDotsCopilot, single(2.0)),
        ]
    );
    assert_eq!(sim.frame(&mut component), vec![]);
}

#[test]
fn copilot_hsi_within_tolerance_is_not_written() {
    let mut sim = hsi_sim(2, 2, (90.0, 90.00001), (0.5, 0.50000006));
    let mut component = CopilotHSI::new();
    assert_eq!(sim.frame(&mut component), vec![]);
    assert_eq!(sim.floats[&DataRefId::HsiObsCopilot], 90.00001);
}

#[test]
fn copilot_hsi_frame_asks_in_order() {
    let mut sim = hsi_sim(2, 2, (90.0, 85.0), (0.5, 0.25));
    let mut component = CopilotHSI::new();
    sim.frame(&mut component);
    sim.floats.insert(DataRefId::HsiObsCopilot, 85.0);
    sim.floats.insert(DataRefId::HsiDotsCopilot, 0.25);
    let before = sim.asked.len();
    sim.frame(&mut component);
    assert_eq!(
        sim.asked[before..].to_vec(),
        vec![
            Action::ReadInt(DataRefId::HsiSelector),
            Action::ReadInt(DataRefId::HsiSelector2),
            Action::ReadFloat(DataRefId::HsiObsPilot),
            Action::ReadFloat(DataRefId::HsiObsCopilot),
            Action::ReadFloat(DataRefId::HsiDotsPilot),
            Action::ReadFloat(DataRefId::HsiDotsCopilot),
            Action::AlmostEqual(single(90.0), single(85.0)),
            Action::WriteFloat(DataRefId::HsiObsCopilot, single(90.0)),
            Action::AlmostEqual(single(0.5), single(0.25)),
            Action::WriteFloat(DataRefId::HsiDotsCopilot, single(0.5)),
        ]
    );
}

fn nosewheel_sim(pressure: f32, steering: i32) -> Sim {
    Sim::new()
        .with_float(DataRefId::HydraulicPressureGreen, pressure)
        .with_int(DataRefId::OverrideWheelSteer, steering)
}

#[test]
fn nosewheel_steering_is_enabled_under_pressure() {
    let mut sim = nosewheel_sim(150.0, 0);
    let mut component = NosewheelSteering::new();
    assert_eq!(sim.frame(&mut component), vec![Action::WriteInt(DataRefId::OverrideWheelSteer, 1)]);
    assert_eq!(sim.ints[&DataRefId::OverrideWheelSteer], 1);
}

#[test]
fn nosewheel_steering_is_disabled_without_pressure() {
    let mut sim = nosewheel_sim(50.0, 1);
    let mut component = NosewheelSteering::new();
    assert_eq!(sim.frame(&mut component), vec![Action::WriteInt(DataRefId::OverrideWheelSteer, 0)]);
    assert_eq!(sim.ints[&DataRefId::OverrideWheelSteer], 0);
}

#[test]
fn nosewheel_steering_is_disabled_at_the_threshold() {
    let mut sim = nosewheel_sim(100.0, 1);
    let mut component = NosewheelSteering::new();
    assert_eq!(sim.frame(&mut component), vec![Action::WriteInt(DataRefId::OverrideWheelSteer, 0)]);
    assert_eq!(sim.ints[&DataRefId::OverrideWheelSteer], 0);
}

#[test]
fn nosewheel_steering_is_written_in_every_frame() {
    let mut sim = nosewheel_sim(100.00001, 1);
    let mut component = NosewheelSteering::new();
    for _ in 0..3 {
        assert_eq!(
            sim.frame(&mut component),
            vec![Action::WriteInt(DataRefId::OverrideWheelSteer, 1)]
        );
    }
    sim.floats.insert(DataRefId::HydraulicPressureGreen, f32::NAN);
    assert_eq!(sim.frame(&mut component), vec![Action::WriteInt(DataRefId::OverrideWheelSteer, 0)]);
}

fn radio_sim(bus: &[f32], gps: (i32, i32), com: (i32, i32), desired: (i32, i32)) -> Sim {
    Sim::new()
        .with_array(DataRefId::BusVolts, bus)
        .with_int(DataRefId::Gps1Power, gps.0)
        .with_int(DataRefId::Gps2Power, gps.1)
        .with_int(DataRefId::Com1Power, com.0)
        .with_int(DataRefId::Com2Power, com.1)
        .with_int(DataRefId::DesiredCom1Power, desired.0)
        .with_int(DataRefId::DesiredCom2Power, desired.1)
}

#[test]
fn radio_is_switched_on_when_the_bus_is_powered() {
    let mut sim = radio_sim(&[22.0, 0.0], (1, 0), (0, 0), (1, 0));
    let mut component = Radio::new();
    assert_eq!(sim.frame(&mut component), vec![Action::WriteInt(DataRefId::Com1Power, 1)]);
    assert_eq!(sim.ints[&DataRefId::Com1Power], 1);
}

#[test]
fn radio_is_switched_off_when_the_bus_is_weak() {
    let mut sim = radio_sim(&[10.0, 0.0], (1, 0), (1, 0), (1, 0));
    let mut component = Radio::new();
    assert_eq!(sim.frame(&mut component), vec![Action::WriteInt(DataRefId::Com1Power, 0)]);
    assert_eq!(sim.ints[&DataRefId::Com1Power], 0);
}

#[test]
fn radio_sides_are_corrected_independently() {
    let mut sim = radio_sim(&[28.0, 20.9], (1, 1), (0, 1), (1, 1));
    let mut component = Radio::new();
    assert_eq!(
        sim.frame(&mut component),
        vec![Action::WriteInt(DataRefId::Com1Power, 1), Action::WriteInt(DataRefId::Com2Power, 0)]
    );
    assert_eq!(sim.frame(&mut component), vec![]);
}

#[test]
fn radio_second_side_alone_is_corrected() {
    let mut sim = radio_sim(&[0.0, 24.0], (0, 1), (0, 0), (0, 1));
    let mut component = Radio::new();
    assert_eq!(sim.frame(&mut component), vec![Action::WriteInt(DataRefId::Com2Power, 1)]);
}

#[test]
fn radio_is_switched_off_when_the_gps_is_off() {
    let mut sim = radio_sim(&[28.0, 28.0], (0, 2), (1, 1), (1, 1));
    let mut component = Radio::new();
    assert_eq!(
        sim.frame(&mut component),
        vec![Action::WriteInt(DataRefId::Com1Power, 0), Action::WriteInt(DataRefId::Com2Power, 0)]
    );
}

#[test]
fn radio_is_not_powered_at_the_threshold() {
    let mut sim = radio_sim(&[21.0, 21.000002], (1, 1), (0, 0), (1, 1));
    let mut component = Radio::new();
    assert_eq!(sim.frame(&mut component), vec![Action::WriteInt(DataRefId::Com2Power, 1)]);
}

#[test]
fn radio_follows_what_the_aircraft_asks_for() {
    let mut sim = radio_sim(&[28.0, 28.0], (1, 1), (1, 0), (0, 0));
    let mut component = Radio::new();
    assert_eq!(sim.frame(&mut component), vec![Action::WriteInt(DataRefId::Com1Power, 0)]);
    sim.ints.insert(DataRefId::DesiredCom2Power, 3);
    assert_eq!(sim.frame(&mut component), vec![Action::WriteInt(DataRefId::Com2Power, 3)]);
    assert_eq!(sim.frame(&mut component), vec![]);
}

#[test]
fn radio_keeps_the_last_voltage_of_a_bus_that_is_not_read() {
    let mut sim = radio_sim(&[28.0, 28.0], (1, 1), (1, 1), (1, 1));
    let mut component = Radio::new();
    assert_eq!(sim.frame(&mut component), vec![]);
    sim.arrays.insert(DataRefId::BusVolts, vec![5.0]);
    assert_eq!(sim.frame(&mut component), vec![Action::WriteInt(DataRefId::Com1Power, 0)]);
    assert_eq!(component.bus_volts_1, single(5.0));
    assert_eq!(component.bus_volts_2, single(28.0));
}

#[test]
fn radio_takes_a_bus_never_read_as_dead() {
    let mut sim = radio_sim(&[], (1, 1), (1, 0), (1, 1));
    let mut component = Radio::new();
    assert_eq!(sim.frame(&mut component), vec![Action::WriteInt(DataRefId::Com1Power, 0)]);
}

#[test]
fn radio_frame_asks_in_order() {
    let mut sim = radio_sim(&[22.0, 23.0, 24.0], (1, 1), (0, 0), (1, 1));
    let mut component = Radio::new();
    sim.frame(&mut component);
    assert_eq!(
        sim.asked[7..].to_vec(),
        vec![
            Action::ReadFloats(DataRefId::BusVolts, 2),
            Action::ReadInt(DataRefId::Com1Power),
            Action::ReadInt(DataRefId::Com2Power),
            Action::ReadInt(DataRefId::Gps1Power),
            Action::ReadInt(DataRefId::Gps2Power),
            Action::ReadInt(DataRefId::DesiredCom1Power),
            Action::ReadInt(DataRefId::DesiredCom2Power),
            Action::WriteInt(DataRefId::Com1Power, 1),
            Action::WriteInt(DataRefId::Com2Power, 1),
        ]
    );
}

fn levers(first: f32, second: f32, third: f32, fourth: f32) -> Levers {
    Levers { first: single(first), second: single(second), third: single(third), fourth: single(fourth) }
}

#[test]
fn throttle_levers_are_aligned_with_the_second() {
    let mut sim = Sim::new().with_array(DataRefId::ThrottleRatio, &[0.2, 0.5, 0.1, 0.9]);
    let mut component = ThrottleLevers::new();
    assert_eq!(
        sim.frame(&mut component),
        vec![Action::WriteFloats(DataRefId::ThrottleRatio, levers(0.2, 0.5, 0.5, 0.5))]
    );
    assert_eq!(sim.arrays[&DataRefId::ThrottleRatio], vec![0.2, 0.5, 0.5, 0.5]);
}

#[test]
fn throttle_levers_are_left_alone_when_switched_off() {
    let mut sim = Sim::new().with_array(DataRefId::ThrottleRatio, &[0.2, 0.5, 0.1, 0.9]).with_toggle(Some(false));
    let mut component = ThrottleLevers::new();
    assert_eq!(sim.frame(&mut component), vec![]);
    assert!(component.is_initialized());
    let before = sim.asked.len();
    assert_eq!(sim.frame(&mut component), vec![]);
    assert_eq!(sim.asked[before..].to_vec(), vec![Action::ReadToggle]);
    assert_eq!(sim.arrays[&DataRefId::ThrottleRatio], vec![0.2, 0.5, 0.1, 0.9]);
}

#[test]
fn throttle_levers_are_left_alone_when_the_toggle_is_busy() {
    let mut sim = Sim::new().with_array(DataRefId::ThrottleRatio, &[0.2, 0.5, 0.1, 0.9]).with_toggle(None);
    let mut component = ThrottleLevers::new();
    assert_eq!(sim.frame(&mut component), vec![]);
    assert_eq!(sim.asked, vec![Action::Find(DataRefId::ThrottleRatio), Action::ReadToggle]);
    sim.toggle = Some(true);
    assert_eq!(
        sim.frame(&mut component),
        vec![Action::WriteFloats(DataRefId::ThrottleRatio, levers(0.2, 0.5, 0.5, 0.5))]
    );
}

#[test]
fn throttle_levers_are_written_in_every_frame() {
    let mut sim = Sim::new().with_array(DataRefId::ThrottleRatio, &[1.0, 0.25, 0.25, 0.25]);
    let mut component = ThrottleLevers::new();
    for _ in 0..3 {
        assert_eq!(
            sim.frame(&mut component),
            vec![Action::WriteFloats(DataRefId::ThrottleRatio, levers(1.0, 0.25, 0.25, 0.25))]
        );
    }
}

#[test]
fn throttle_levers_not_read_keep_their_last_position() {
    let mut sim = Sim::new().with_array(DataRefId::ThrottleRatio, &[0.1, 0.2, 0.3, 0.4]);
    let mut component = ThrottleLevers::new();
    sim.frame(&mut component);
    assert_eq!(component.levers, levers(0.1, 0.2, 0.2, 0.2));
    sim.arrays.insert(DataRefId::ThrottleRatio, vec![0.7]);
    assert_eq!(
        sim.frame(&mut component),
        vec![Action::WriteFloats(DataRefId::ThrottleRatio, levers(0.7, 0.2, 0.2, 0.2))]
    );
    sim.arrays.insert(DataRefId::ThrottleRatio, vec![]);
    assert_eq!(
        sim.frame(&mut component),
        vec![Action::WriteFloats(DataRefId::ThrottleRatio, levers(0.7, 0.2, 0.2, 0.2))]
    );
}

#[test]
fn component_without_its_variables_never_initializes_nor_writes() {
    let mut sim = Sim::new();
    let mut generator = GeneratorVolts::new();
    let mut hsi = CopilotHSI::new();
    let mut nosewheel = NosewheelSteering::new();
    let mut radio = Radio::new();
    let mut throttle = ThrottleLevers::new();
    for _ in 0..50 {
        assert_eq!(sim.frame(&mut generator), vec![]);
        assert_eq!(sim.frame(&mut hsi), vec![]);
        assert_eq!(sim.frame(&mut nosewheel), vec![]);
        assert_eq!(sim.frame(&mut radio), vec![]);
        assert_eq!(sim.frame(&mut throttle), vec![]);
        assert!(!generator.is_initialized());
        assert!(!hsi.is_initialized());
        assert!(!nosewheel.is_initialized());
        assert!(!radio.is_initialized());
        assert!(!throttle.is_initialized());
    }
    assert!(sim.asked.iter().all(|a| matches!(a, Action::Find(_))));
    assert_eq!(sim.asked.len(), 250);
}

#[test]
fn resolution_stops_at_the_first_failure_and_resumes_there() {
    let mut sim = Sim::new()
        .with_int(DataRefId::HsiSelector, 2)
        .with_int(DataRefId::HsiSelector2, 2)
        .with_float(DataRefId::HsiObsPilot, 90.0)
        .with_float(DataRefId::HsiDotsPilot, 1.0)
        .with_float(DataRefId::HsiDotsCopilot, 0.0);
    let mut component = CopilotHSI::new();
    assert_eq!(sim.frame(&mut component), vec![]);
    assert_eq!(
        sim.asked,
        vec![
            Action::Find(DataRefId::HsiSelector),
            Action::Find(DataRefId::HsiSelector2),
            Action::Find(DataRefId::HsiObsPilot),
            Action::Find(DataRefId::HsiObsCopilot),
        ]
    );
    assert!(!component.is_initialized());
    assert_eq!(component.resolved, 3);

    sim.asked.clear();
    assert_eq!(sim.frame(&mut component), vec![]);
    assert_eq!(sim.asked, vec![Action::Find(DataRefId::HsiObsCopilot)]);

    sim.asked.clear();
    sim.floats.insert(DataRefId::HsiObsCopilot, 90.0);
    let written = sim.frame(&mut component);
    assert_eq!(
        sim.asked[..3].to_vec(),
        vec![
            Action::Find(DataRefId::HsiObsCopilot),
            Action::Find(DataRefId::HsiDotsPilot),
            Action::Find(DataRefId::HsiDotsCopilot),
        ]
    );
    assert!(component.is_initialized());
    assert_eq!(written, vec![Action::WriteFloat(DataRefId::HsiDotsCopilot, single(1.0))]);
}

#[test]
fn initialized_component_never_looks_anything_up_again() {
    let mut sim = nosewheel_sim(150.0, 0);
    let mut component = NosewheelSteering::new();
    sim.frame(&mut component);
    assert!(component.is_initialized());
    sim.asked.clear();
    for _ in 0..10 {
        sim.frame(&mut component);
        assert!(component.is_initialized());
    }
    assert!(sim.asked.iter().all(|a| !matches!(a, Action::Find(_))));
}

#[test]
fn initialized_component_stays_initialized_whatever_it_is_told() {
    let mut sim = nosewheel_sim(150.0, 0);
    let mut component = NosewheelSteering::new();
    sim.frame(&mut component);
    for event in [
        Event::Missing,
        Event::Found,
        Event::Written,
        Event::Verdict(true),
        Event::Int(7),
        Event::Begin,
        Event::Missing,
        Event::Toggle(None),
        Event::Floats(vec![]),
    ] {
        component.update(event);
        assert!(component.is_initialized());
    }
}

#[test]
fn unexpected_event_ends_the_frame_without_a_write() {
    let mut component = GeneratorVolts::new();
    assert_eq!(component.update(Event::Begin), Some(Action::Find(DataRefId::GpuGeneratorVolts)));
    assert_eq!(component.update(Event::Int(1)), None);
    assert_eq!(component.update(Event::Found), None);
    assert_eq!(component.update(Event::Verdict(false)), None);
    assert!(!component.is_initialized());
    assert_eq!(component.resolved, 0);
}

#[test]
fn missing_answer_ends_the_frame() {
    let mut component = Radio::new();
    assert_eq!(component.update(Event::Begin), Some(Action::Find(DataRefId::BusVolts)));
    assert_eq!(component.update(Event::Found), Some(Action::Find(DataRefId::Gps1Power)));
    assert_eq!(component.update(Event::Missing), None);
    assert_eq!(component.update(Event::Found), None);
    assert_eq!(component.resolved, 1);
    assert_eq!(component.update(Event::Begin), Some(Action::Find(DataRefId::Gps1Power)));
}

fn full_sim() -> Sim {
    let mut sim = generator_sim(1, 0.0);
    for other in [
        hsi_sim(2, 2, (90.0, 85.0), (0.5, 0.5)),
        nosewheel_sim(150.0, 0),
        radio_sim(&[22.0, 10.0], (1, 1), (0, 1), (1, 1)),
        Sim::new().with_array(DataRefId::ThrottleRatio, &[0.2, 0.5, 0.1, 0.9]),
    ] {
        sim.ints.extend(other.ints);
        sim.floats.extend(other.floats);
        sim.arrays.extend(other.arrays);
    }
    sim
}

#[test]
fn driver_runs_every_component_in_order() {
    let mut sim = full_sim();
    let mut handler = FlightLoopHandler::new();
    assert!(!handler.is_initialized());
    assert_eq!(sim.drive(&mut handler), FrameStep::Settled);
    assert!(handler.is_initialized());
    assert_eq!(
        writes(&sim.asked),
        vec![
            Action::WriteInt(DataRefId::OverrideGpuVolts, 1),
            Action::WriteFloat(DataRefId::GpuGeneratorVolts, single(27.5)),
            Action::WriteFloat(DataRefId::HsiObsCopilot, single(90.0)),
            Action::WriteInt(DataRefId::OverrideWheelSteer, 1),
            Action::WriteInt(DataRefId::Com1Power, 1),
            Action::WriteInt(DataRefId::Com2Power, 0),
            Action::WriteFloats(DataRefId::ThrottleRatio, levers(0.2, 0.5, 0.5, 0.5)),
        ]
    );
}

#[test]
fn driver_waits_while_a_component_is_not_initialized() {
    let mut sim = full_sim();
    sim.arrays.remove(&DataRefId::ThrottleRatio);
    sim.ints.remove(&DataRefId::HsiSelector2);
    let mut handler = FlightLoopHandler::new();
    for _ in 0..5 {
        assert_eq!(sim.drive(&mut handler), FrameStep::Waiting);
        assert!(!handler.is_initialized());
    }
    assert!(handler.generator_volts.is_initialized());
    assert!(!handler.copilot_hsi.is_initialized());
    assert!(handler.nosewheel_steering.is_initialized());
    assert!(handler.radio.is_initialized());
    assert!(!handler.throttle_levers.is_initialized());

    sim.ints.insert(DataRefId::HsiSelector2, 2);
    assert_eq!(sim.drive(&mut handler), FrameStep::Waiting);
    assert!(handler.copilot_hsi.is_initialized());

    sim.arrays.insert(DataRefId::ThrottleRatio, vec![0.0, 1.0, 0.0, 0.0]);
    assert_eq!(sim.drive(&mut handler), FrameStep::Settled);
    assert_eq!(sim.arrays[&DataRefId::ThrottleRatio], vec![0.0, 1.0, 1.0, 1.0]);
}

#[test]
fn driver_corrects_the_initialized_components_while_waiting() {
    let mut sim = full_sim();
    sim.ints.remove(&DataRefId::GpuAvailable);
    let mut handler = FlightLoopHandler::new();
    assert_eq!(sim.drive(&mut handler), FrameStep::Waiting);
    assert_eq!(
        writes(&sim.asked),
        vec![
            Action::WriteFloat(DataRefId::HsiObsCopilot, single(90.0)),
            Action::WriteInt(DataRefId::OverrideWheelSteer, 1),
            Action::WriteInt(DataRefId::Com1Power, 1),
            Action::WriteInt(DataRefId::Com2Power, 0),
            Action::WriteFloats(DataRefId::ThrottleRatio, levers(0.2, 0.5, 0.5, 0.5)),
        ]
    );
    assert_eq!(sim.floats[&DataRefId::GpuGeneratorVolts], 0.0);
}

#[test]
fn driver_never_waits_again_once_settled() {
    let mut sim = full_sim();
    let mut handler = FlightLoopHandler::new();
    assert_eq!(sim.drive(&mut handler), FrameStep::Settled);
    let mut gone = Sim::new();
    for _ in 0..10 {
        let mut event = Event::Begin;
        loop {
            match handler.flight_loop(event) {
                FrameStep::Perform(Action::Find(_)) => panic!("a settled driver looks nothing up"),
                FrameStep::Perform(_) => event = Event::Missing,
                end => {
                    assert_eq!(end, FrameStep::Settled);
                    break;
                }
            }
        }
        assert!(handler.is_initialized());
    }
    for event in [Event::Missing, Event::Found, Event::Written, Event::Int(0)] {
        assert_eq!(handler.flight_loop(event), FrameStep::Settled);
    }
    assert_eq!(gone.drive(&mut FlightLoopHandler::new()), FrameStep::Waiting);
}

#[test]
fn driver_between_frames_repeats_how_the_frame_ended() {
    let mut handler = FlightLoopHandler::new();
    assert_eq!(handler.flight_loop(Event::Written), FrameStep::Waiting);
    assert_eq!(handler.flight_loop(Event::Found), FrameStep::Waiting);
    assert_eq!(handler.generator_volts.resolved, 0);
    assert_eq!(
        handler.flight_loop(Event::Begin),
        FrameStep::Perform(Action::Find(DataRefId::GpuGeneratorVolts))
    );
    assert_eq!(
        handler.flight_loop(Event::Missing),
        FrameStep::Perform(Action::Find(DataRefId::HsiSelector))
    );
}

// The rules once more, written straight down against the tables, to hold the
// step-by-step components against.

fn expected_generator_write(available: i32, volts: f32) -> Option<f32> {
    if available == 1 && !almost::equal(volts, 27.5) {
        Some(27.5)
    } else if available == 0 && !almost::zero(volts) {
        Some(0.0)
    } else {
        None
    }
}

fn expected_com_write(bus_volts: f32, gps: i32, com: i32, desired: i32) -> Option<i32> {
    if bus_volts > 21.0 && gps == 1 {
        if com != desired {
            Some(desired)
        } else {
            None
        }
    } else if com == 1 {
        Some(0)
    } else {
        None
    }
}

const READINGS: [f32; 16] = [
    0.0,
    -0.0,
    0.0001,
    -0.0003,
    0.00035,
    0.001,
    13.0,
    20.999998,
    21.0,
    21.000002,
    27.49,
    27.499998,
    27.5,
    27.51,
    f32::INFINITY,
    f32::NAN,
];

#[test]
fn generator_agrees_with_the_rule_on_every_reading() {
    for available in [-1, 0, 1, 2] {
        for volts in READINGS {
            let mut sim = generator_sim(available, 27.5);
            let mut component = settled_generator(&mut sim);
            sim.floats.insert(DataRefId::GpuGeneratorVolts, volts);
            let written = sim.frame(&mut component);
            let expected: Vec<Action> = expected_generator_write(available, volts)
                .into_iter()
                .map(|target| Action::WriteFloat(DataRefId::GpuGeneratorVolts, single(target)))
                .collect();
            assert_eq!(written, expected, "available {available}, volts {volts}");
        }
    }
}

#[test]
fn nosewheel_agrees_with_the_rule_on_every_reading() {
    for pressure in READINGS.into_iter().chain([99.99999, 100.0, 100.00001, 3000.0, -150.0, f32::NEG_INFINITY]) {
        let mut sim = nosewheel_sim(pressure, 7);
        let mut component = NosewheelSteering::new();
        let expected = if pressure > 100.0 { 1 } else { 0 };
        assert_eq!(
            sim.frame(&mut component),
            vec![Action::WriteInt(DataRefId::OverrideWheelSteer, expected)],
            "pressure {pressure}"
        );
    }
}

#[test]
fn radio_agrees_with_the_rule_on_every_reading() {
    let levels = [-1, 0, 1, 2];
    for bus in READINGS {
        for gps in levels {
            for com in levels {
                for desired in levels {
                    let mut sim = radio_sim(&[bus, 28.0], (gps, 1), (com, 1), (desired, 1));
                    let mut component = Radio::new();
                    let expected: Vec<Action> = expected_com_write(bus, gps, com, desired)
                        .into_iter()
                        .map(|power| Action::WriteInt(DataRefId::Com1Power, power))
                        .collect();
                    assert_eq!(sim.frame(&mut component), expected, "{bus} {gps} {com} {desired}");

                    let mut sim = radio_sim(&[28.0, bus], (1, gps), (1, com), (1, desired));
                    let mut component = Radio::new();
                    let expected: Vec<Action> = expected_com_write(bus, gps, com, desired)
                        .into_iter()
                        .map(|power| Action::WriteInt(DataRefId::Com2Power, power))
                        .collect();
                    assert_eq!(sim.frame(&mut component), expected, "{bus} {gps} {com} {desired}");
                }
            }
        }
    }
}

#[test]
fn copilot_hsi_agrees_with_the_rule_on_every_reading() {
    let courses = [0.0f32, 85.0, 90.0, 90.00001, 90.1, 359.9, f32::NAN];
    let dots = [-2.5f32, 0.0, 0.5, 0.50000006, 0.6];
    for selector in 0..4 {
        for selector2 in 0..4 {
            for pilot in courses {
                for copilot in courses {
                    for dots_pilot in dots {
                        for dots_copilot in dots {
                            let mut sim = hsi_sim(
                                selector,
                                selector2,
                                (pilot, copilot),
                                (dots_pilot, dots_copilot),
                            );
                            let mut component = CopilotHSI::new();
                            let mut expected = Vec::new();
                            if selector == 2 && selector2 == 2 {
                                if !almost::equal(pilot, copilot) {
                                    expected
                                        .push(Action::WriteFloat(DataRefId::HsiObsCopilot, single(pilot)));
                                }
                                if !almost::equal(dots_pilot, dots_copilot) {
                                    expected.push(Action::WriteFloat(
                                        DataRefId::HsiDotsCopilot,
                                        single(dots_pilot),
                                    ));
                                }
                            }
                            assert_eq!(sim.frame(&mut component), expected);
                        }
                    }
                }
            }
        }
    }
}

#[test]
fn throttle_levers_agree_with_the_rule_on_every_reading() {
    let positions = [0.2f32, 0.5, 0.1, 0.9, 1.0];
    for toggle in [Some(true), Some(false), None] {
        for supplied in 0..=5 {
            let mut sim = Sim::new().with_array(DataRefId::ThrottleRatio, &[0.3, 0.4, 0.6, 0.7]);
            let mut component = ThrottleLevers::new();
            sim.frame(&mut component);
            let held = [0.3f32, 0.4, 0.4, 0.4];
            sim.toggle = toggle;
            sim.arrays.insert(DataRefId::ThrottleRatio, positions[..supplied].to_vec());
            let mut expected = held;
            for place in 0..supplied.min(4) {
                expected[place] = positions[place];
            }
            expected[2] = expected[1];
            expected[3] = expected[1];
            let written = sim.frame(&mut component);
            if toggle == Some(true) {
                assert_eq!(
                    written,
                    vec![Action::WriteFloats(
                        DataRefId::ThrottleRatio,
                        levers(expected[0], expected[1], expected[2], expected[3]),
                    )]
                );
            } else {
                assert_eq!(written, vec![]);
            }
        }
    }
}

#[test]
fn begin_in_the_middle_of_a_frame_starts_the_frame_over() {
    let mut component = Radio::new();
    component.resolved = 7;
    assert_eq!(component.update(Event::Begin), Some(Action::ReadFloats(DataRefId::BusVolts, 2)));
    assert_eq!(
        component.update(Event::Floats(vec![single(28.0), single(28.0)])),
        Some(Action::ReadInt(DataRefId::Com1Power))
    );
    assert_eq!(component.update(Event::Begin), Some(Action::ReadFloats(DataRefId::BusVolts, 2)));

    let mut handler = FlightLoopHandler::new();
    assert_eq!(
        handler.flight_loop(Event::Begin),
        FrameStep::Perform(Action::Find(DataRefId::GpuGeneratorVolts))
    );
    assert_eq!(
        handler.flight_loop(Event::Missing),
        FrameStep::Perform(Action::Find(DataRefId::HsiSelector))
    );
    assert_eq!(
        handler.flight_loop(Event::Begin),
        FrameStep::Perform(Action::Find(DataRefId::GpuGeneratorVolts))
    );
}
