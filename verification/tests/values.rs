use bae146_tweaks::dataref::DataRefId;
use bae146_tweaks::dataref::ValueKind;
use bae146_tweaks::gpu::GeneratorVolts;
use bae146_tweaks::gpu::CONNECTED_VOLTS_BITS;
use bae146_tweaks::gpu::DISCONNECTED_VOLTS_BITS;
use bae146_tweaks::handler::SyncThrottlesMenuHandler;
use bae146_tweaks::hsi::CopilotHSI;
use bae146_tweaks::nosewheel_steering::NosewheelSteering;
use bae146_tweaks::nosewheel_steering::STEERING_PRESSURE_BITS;
use bae146_tweaks::plugin::ensure_single_instance;
use bae146_tweaks::plugin::ensure_supported_aircraft;
use bae146_tweaks::plugin::is_supported_aircraft;
use bae146_tweaks::plugin::PluginError;
use bae146_tweaks::protocol::pick;
use bae146_tweaks::protocol::Action;
use bae146_tweaks::protocol::Levers;
use bae146_tweaks::radio::Radio;
use bae146_tweaks::radio::RADIO_BUS_VOLTS_BITS;
use bae146_tweaks::single::Single;
use bae146_tweaks::throttle_levers::ThrottleLevers;
use bae146_tweaks::toggle::SyncThrottles;

fn reading(value: f32) -> Single {
    Single::from_bits(value.to_bits())
}

#[test]
fn thresholds_and_targets_have_the_right_bit_patterns() {
    assert_eq!(STEERING_PRESSURE_BITS, 100.0f32.to_bits());
    assert_eq!(RADIO_BUS_VOLTS_BITS, 21.0f32.to_bits());
    assert_eq!(CONNECTED_VOLTS_BITS, 27.5f32.to_bits());
    assert_eq!(DISCONNECTED_VOLTS_BITS, 0.0f32.to_bits());
}

#[test]
fn bit_pattern_round_trips() {
    for bits in [0u32, 1, 0x42c8_0000, 0x7f80_0000, 0x8000_0000, 0xffff_ffff] {
        assert_eq!(Single::from_bits(bits).to_bits(), bits);
    }
}

#[test]
fn ordering_agrees_with_the_hardware() {
    let samples = [
        0.0f32,
        -0.0,
        1.0,
        -1.0,
        100.0,
        100.00001,
        99.99999,
        -100.0,
        21.0,
        27.5,
        150.0,
        50.0,
        f32::MIN_POSITIVE,
        -f32::MIN_POSITIVE,
        f32::from_bits(1),
        f32::from_bits(0x8000_0001),
        f32::from_bits(0x007f_ffff),
        f32::from_bits(0x0080_0000),
        f32::MAX,
        f32::MIN,
        f32::INFINITY,
        f32::NEG_INFINITY,
        f32::NAN,
        f32::from_bits(0x7f80_0001),
        f32::from_bits(0xffc0_0000),
        f32::EPSILON,
        3.4e38,
        1.0e-40,
        -1.0e-40,
        0.5,
        0.49999997,
    ];
    for a in samples {
        for b in samples {
            assert_eq!(reading(a).gt(reading(b)), a > b, "{a:?} > {b:?}");
        }
    }
}

#[test]
fn ordering_agrees_with_the_hardware_across_binades() {
    let mut bits: u32 = 0;
    let mut previous = reading(0.0);
    while bits < 0x7f80_0000 {
        bits += 0x0003_fff1;
        let next = Single::from_bits(bits);
        assert!(f32::from_bits(bits).is_nan() || next.gt(previous));
        assert!(!previous.gt(next));
        let negative = Single::from_bits(bits | 0x8000_0000);
        assert!(!negative.gt(previous));
        assert_eq!(previous.gt(negative), !f32::from_bits(bits).is_nan());
        if !f32::from_bits(bits).is_nan() {
            previous = next;
        }
    }
}

#[test]
fn steering_override_follows_the_pressure() {
    assert_eq!(NosewheelSteering::override_for(reading(150.0)), 1);
    assert_eq!(NosewheelSteering::override_for(reading(50.0)), 0);
    assert_eq!(NosewheelSteering::override_for(reading(100.0)), 0);
    assert_eq!(NosewheelSteering::override_for(reading(100.00001)), 1);
    assert_eq!(NosewheelSteering::override_for(reading(-150.0)), 0);
    assert_eq!(NosewheelSteering::override_for(reading(f32::INFINITY)), 1);
    assert_eq!(NosewheelSteering::override_for(reading(f32::NAN)), 0);
}

#[test]
fn generator_target_follows_the_report() {
    assert_eq!(GeneratorVolts::target_for(1), Some(reading(27.5)));
    assert_eq!(GeneratorVolts::target_for(0), Some(reading(0.0)));
    assert_eq!(GeneratorVolts::target_for(2), None);
    assert_eq!(GeneratorVolts::target_for(-1), None);
}

#[test]
fn generator_comparison_follows_the_report() {
    let volts = reading(13.0);
    assert_eq!(
        GeneratorVolts::comparison_for(1, volts),
        Some(Action::AlmostEqual(volts, reading(27.5)))
    );
    assert_eq!(GeneratorVolts::comparison_for(0, volts), Some(Action::AlmostZero(volts)));
    assert_eq!(GeneratorVolts::comparison_for(5, volts), None);
}

#[test]
fn rnav_mode_needs_both_selectors() {
    assert!(CopilotHSI::in_rnav(2, 2));
    assert!(!CopilotHSI::in_rnav(1, 2));
    assert!(!CopilotHSI::in_rnav(2, 1));
    assert!(!CopilotHSI::in_rnav(0, 0));
}

#[test]
fn com_power_rule() {
    assert_eq!(Radio::com_power_for(reading(22.0), 1, 0, 1), Some(1));
    assert_eq!(Radio::com_power_for(reading(10.0), 1, 1, 1), Some(0));
    assert_eq!(Radio::com_power_for(reading(22.0), 1, 1, 1), None);
    assert_eq!(Radio::com_power_for(reading(22.0), 1, 1, 0), Some(0));
    assert_eq!(Radio::com_power_for(reading(22.0), 0, 1, 1), Some(0));
    assert_eq!(Radio::com_power_for(reading(22.0), 0, 0, 1), None);
    assert_eq!(Radio::com_power_for(reading(10.0), 1, 0, 1), None);
    assert_eq!(Radio::com_power_for(reading(10.0), 1, 2, 1), None);
    assert_eq!(Radio::com_power_for(reading(21.0), 1, 0, 1), None);
    assert_eq!(Radio::com_power_for(reading(21.000002), 1, 0, 1), Some(1));
    assert_eq!(Radio::com_power_for(reading(22.0), 1, 0, 7), Some(7));
}

#[test]
fn levers_are_refreshed_and_aligned() {
    let held = Levers { first: reading(0.1), second: reading(0.2), third: reading(0.3), fourth: reading(0.4) };
    let all = vec![reading(0.2), reading(0.5), reading(0.1), reading(0.9)];
    assert_eq!(
        ThrottleLevers::synchronised(held, &all),
        Levers { first: reading(0.2), second: reading(0.5), third: reading(0.5), fourth: reading(0.5) }
    );
    let one = vec![reading(0.7)];
    assert_eq!(
        ThrottleLevers::synchronised(held, &one),
        Levers { first: reading(0.7), second: reading(0.2), third: reading(0.2), fourth: reading(0.2) }
    );
    let long = vec![reading(1.0), reading(0.0), reading(1.0), reading(1.0), reading(1.0)];
    assert_eq!(
        ThrottleLevers::synchronised(held, &long),
        Levers { first: reading(1.0), second: reading(0.0), third: reading(0.0), fourth: reading(0.0) }
    );
}

#[test]
fn pick_falls_back_past_the_end() {
    let values = vec![reading(1.0), reading(2.0)];
    assert_eq!(pick(&values, 0, reading(9.0)), reading(1.0));
    assert_eq!(pick(&values, 1, reading(9.0)), reading(2.0));
    assert_eq!(pick(&values, 2, reading(9.0)), reading(9.0));
    assert_eq!(pick(&Vec::new(), 0, reading(9.0)), reading(9.0));
}

#[test]
fn toggle_is_on_until_switched_off() {
    let mut toggle = SyncThrottles::new();
    assert!(toggle.get());
    toggle.set(false);
    assert!(!toggle.get());
    toggle.set(true);
    assert!(toggle.get());
}

#[test]
fn toggle_that_cannot_be_read_counts_as_off() {
    assert!(SyncThrottles::observed(Some(true)));
    assert!(!SyncThrottles::observed(Some(false)));
    assert!(!SyncThrottles::observed(None));
}

#[test]
fn menu_check_box_sets_the_toggle() {
    let mut toggle = SyncThrottles::new();
    let mut menu = SyncThrottlesMenuHandler;
    menu.item_checked(&mut toggle, false);
    assert!(!toggle.get());
    menu.item_checked(&mut toggle, false);
    assert!(!toggle.get());
    menu.item_checked(&mut toggle, true);
    assert!(toggle.get());
}

#[test]
fn supported_aircraft_are_the_three_variants() {
    assert!(is_supported_aircraft("B461"));
    assert!(is_supported_aircraft("B462"));
    assert!(is_supported_aircraft("B463"));
    for other in ["", "B46", "B464", "B460", "B4611", "b461", "C172", "B361", "A461", "B471", "Ｂ461"] {
        assert!(!is_supported_aircraft(other), "{other}");
    }
}

#[test]
fn start_is_refused_beside_a_running_instance() {
    assert!(matches!(ensure_single_instance(true), Err(PluginError::AlreadyRunning)));
    assert!(ensure_single_instance(false).is_ok());
}

#[test]
fn start_is_refused_in_another_aircraft() {
    assert!(ensure_supported_aircraft(String::from("B462")).is_ok());
    match ensure_supported_aircraft(String::from("C172")) {
        Err(PluginError::AircraftNotSupported(icao)) => assert_eq!(icao, "C172"),
        other => panic!("{other:?}"),
    }
}

#[test]
fn variables_have_their_names() {
    assert_eq!(DataRefId::GpuGeneratorVolts.name(), "sim/cockpit2/electrical/GPU_generator_volts");
    assert_eq!(DataRefId::OverrideGpuVolts.name(), "sim/operation/override/override_GPU_volts");
    assert_eq!(DataRefId::GpuAvailable.name(), "thranda/electrical/ExtPwrGPUAvailable");
    assert_eq!(DataRefId::HsiSelector.name(), "sim/cockpit/switches/HSI_selector");
    assert_eq!(DataRefId::HsiSelector2.name(), "sim/cockpit/switches/HSI_selector2");
    assert_eq!(DataRefId::HsiObsPilot.name(), "sim/cockpit2/radios/actuators/hsi_obs_deg_mag_pilot");
    assert_eq!(DataRefId::HsiObsCopilot.name(), "sim/cockpit2/radios/actuators/hsi_obs_deg_mag_copilot");
    assert_eq!(DataRefId::HsiDotsPilot.name(), "thranda/anim/hsiHdefDotsPilot");
    assert_eq!(DataRefId::HsiDotsCopilot.name(), "thranda/anim/hsiHdefDotsCoPilot");
    assert_eq!(
        DataRefId::HydraulicPressureGreen.name(),
        "sim/cockpit2/hydraulics/indicators/hydraulic_pressure_2"
    );
    assert_eq!(DataRefId::OverrideWheelSteer.name(), "sim/operation/override/override_wheel_steer");
    assert_eq!(DataRefId::BusVolts.name(), "sim/cockpit2/electrical/bus_volts");
    assert_eq!(DataRefId::Gps1Power.name(), "sim/cockpit2/radios/actuators/gps_power");
    assert_eq!(DataRefId::Gps2Power.name(), "sim/cockpit2/radios/actuators/gps2_power");
    assert_eq!(DataRefId::Com1Power.name(), "sim/cockpit2/radios/actuators/com1_power");
    assert_eq!(DataRefId::Com2Power.name(), "sim/cockpit2/radios/actuators/com2_power");
    assert_eq!(DataRefId::DesiredCom1Power.name(), "thranda/generic/com1/genCom1Pwr");
    assert_eq!(DataRefId::DesiredCom2Power.name(), "thranda/generic/com1/genCom2Pwr");
    assert_eq!(DataRefId::ThrottleRatio.name(), "sim/cockpit2/engine/actuators/throttle_ratio");
}

#[test]
fn variables_written_are_resolved_for_writing() {
    let written = [
        DataRefId::GpuGeneratorVolts,
        DataRefId::OverrideGpuVolts,
        DataRefId::HsiObsCopilot,
        DataRefId::HsiDotsCopilot,
        DataRefId::OverrideWheelSteer,
        DataRefId::Com1Power,
        DataRefId::Com2Power,
        DataRefId::ThrottleRatio,
    ];
    let read = [
        DataRefId::GpuAvailable,
        DataRefId::HsiSelector,
        DataRefId::HsiSelector2,
        DataRefId::HsiObsPilot,
        DataRefId::HsiDotsPilot,
        DataRefId::HydraulicPressureGreen,
        DataRefId::BusVolts,
        DataRefId::Gps1Power,
        DataRefId::Gps2Power,
        DataRefId::DesiredCom1Power,
        DataRefId::DesiredCom2Power,
    ];
    assert!(written.iter().all(|id| id.writable()));
    assert!(read.iter().all(|id| !id.writable()));
}

#[test]
fn variables_have_their_kinds() {
    assert_eq!(DataRefId::GpuGeneratorVolts.kind(), ValueKind::Float);
    assert_eq!(DataRefId::HydraulicPressureGreen.kind(), ValueKind::Float);
    assert_eq!(DataRefId::HsiDotsCopilot.kind(), ValueKind::Float);
    assert_eq!(DataRefId::BusVolts.kind(), ValueKind::FloatArray);
    assert_eq!(DataRefId::ThrottleRatio.kind(), ValueKind::FloatArray);
    assert_eq!(DataRefId::GpuAvailable.kind(), ValueKind::Int);
    assert_eq!(DataRefId::Com2Power.kind(), ValueKind::Int);
    assert_eq!(DataRefId::HsiSelector.kind(), ValueKind::Int);
}

#[test]
fn components_resolve_their_variables_in_order() {
    assert_eq!(
        (0..3).map(GeneratorVolts::handle).collect::<Vec<_>>(),
        vec![DataRefId::GpuGeneratorVolts, DataRefId::OverrideGpuVolts, DataRefId::GpuAvailable]
    );
    assert_eq!(
        (0..6).map(CopilotHSI::handle).collect::<Vec<_>>(),
        vec![
            DataRefId::HsiSelector,
            DataRefId::HsiSelector2,
            DataRefId::HsiObsPilot,
            DataRefId::HsiObsCopilot,
            DataRefId::HsiDotsPilot,
            DataRefId::HsiDotsCopilot,
        ]
    );
    assert_eq!(
        (0..2).map(NosewheelSteering::handle).collect::<Vec<_>>(),
        vec![DataRefId::HydraulicPressureGreen, DataRefId::OverrideWheelSteer]
    );
    assert_eq!(
        (0..7).map(Radio::handle).collect::<Vec<_>>(),
        vec![
            DataRefId::BusVolts,
            DataRefId::Gps1Power,
            DataRefId::Gps2Power,
            DataRefId::Com1Power,
            DataRefId::Com2Power,
            DataRefId::DesiredCom1Power,
            DataRefId::DesiredCom2Power,
        ]
    );
    assert_eq!(ThrottleLevers::handle(0), DataRefId::ThrottleRatio);
}

#[test]
fn actions_name_their_variable() {
    assert_eq!(Action::Find(DataRefId::BusVolts).target(), Some(DataRefId::BusVolts));
    assert_eq!(Action::ReadInt(DataRefId::Com1Power).target(), Some(DataRefId::Com1Power));
    assert_eq!(Action::WriteInt(DataRefId::Com2Power, 1).target(), Some(DataRefId::Com2Power));
    assert_eq!(Action::ReadToggle.target(), None);
    assert_eq!(Action::AlmostZero(reading(0.0)).target(), None);
    assert_eq!(Action::AlmostEqual(reading(0.0), reading(1.0)).target(), None);
}
