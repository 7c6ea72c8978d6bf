//! The simulator variables that the corrections read and write.

use vstd::prelude::*;

verus! {

/// What a simulator variable holds.
#[derive(Clone, Copy, PartialEq, Eq, Structural, Debug)]
pub enum ValueKind {
    /// One integer.
    Int,
    /// One single-precision value.
    Float,
    /// An array of single-precision values.
    FloatArray,
}

/// A simulator variable known to this add-on.
#[derive(Clone, Copy, PartialEq, Eq, Structural, Hash, Debug)]
pub enum DataRefId {
    GpuGeneratorVolts,
    OverrideGpuVolts,
    GpuAvailable,
    HsiSelector,
    HsiSelector2,
    HsiObsPilot,
    HsiObsCopilot,
    HsiDotsPilot,
    HsiDotsCopilot,
    HydraulicPressureGreen,
    OverrideWheelSteer,
    BusVolts,
    Gps1Power,
    Gps2Power,
    Com1Power,
    Com2Power,
    DesiredCom1Power,
    DesiredCom2Power,
    ThrottleRatio,
}

impl DataRefId {
    /// The name under which the simulator publishes the variable.
    pub open spec fn spec_name(self) -> Seq<char> {
        match self {
            DataRefId::GpuGeneratorVolts => "sim/cockpit2/electrical/GPU_generator_volts"@,
            DataRefId::OverrideGpuVolts => "sim/operation/override/override_GPU_volts"@,
            DataRefId::GpuAvailable => "thranda/electrical/ExtPwrGPUAvailable"@,
            DataRefId::HsiSelector => "sim/cockpit/switches/HSI_selector"@,
            DataRefId::HsiSelector2 => "sim/cockpit/switches/HSI_selector2"@,
            DataRefId::HsiObsPilot => "sim/cockpit2/radios/actuators/hsi_obs_deg_mag_pilot"@,
            DataRefId::HsiObsCopilot => "sim/cockpit2/radios/actuators/hsi_obs_deg_mag_copilot"@,
            DataRefId::HsiDotsPilot => "thranda/anim/hsiHdefDotsPilot"@,
            DataRefId::HsiDotsCopilot => "thranda/anim/hsiHdefDotsCoPilot"@,
            DataRefId::HydraulicPressureGreen => "sim/cockpit2/hydraulics/indicators/hydraulic_pressure_2"@,
            DataRefId::OverrideWheelSteer => "sim/operation/override/override_wheel_steer"@,
            DataRefId::BusVolts => "sim/cockpit2/electrical/bus_volts"@,
            DataRefId::Gps1Power => "sim/cockpit2/radios/actuators/gps_power"@,
            DataRefId::Gps2Power => "sim/cockpit2/radios/actuators/gps2_power"@,
            DataRefId::Com1Power => "sim/cockpit2/radios/actuators/com1_power"@,
            DataRefId::Com2Power => "sim/cockpit2/radios/actuators/com2_power"@,
            DataRefId::DesiredCom1Power => "thranda/generic/com1/genCom1Pwr"@,
            DataRefId::DesiredCom2Power => "thranda/generic/com1/genCom2Pwr"@,
            DataRefId::ThrottleRatio => "sim/cockpit2/engine/actuators/throttle_ratio"@,
        }
    }

    /// Whether the add-on writes the variable, so that it has to be resolved for
    /// writing.
    pub open spec fn spec_writable(self) -> bool {
        match self {
            DataRefId::GpuGeneratorVolts
            | DataRefId::OverrideGpuVolts
            | DataRefId::HsiObsCopilot
            | DataRefId::HsiDotsCopilot
            | DataRefId::OverrideWheelSteer
            | DataRefId::Com1Power
            | DataRefId::Com2Power
            | DataRefId::ThrottleRatio => true,
            _ => false,
        }
    }

    /// What the variable holds.
    pub open spec fn spec_kind(self) -> ValueKind {
        match self {
            DataRefId::GpuGeneratorVolts
            | DataRefId::HsiObsPilot
            | DataRefId::HsiObsCopilot
            | DataRefId::HsiDotsPilot
            | DataRefId::HsiDotsCopilot
            | DataRefId::HydraulicPressureGreen => ValueKind::Float,
            DataRefId::BusVolts | DataRefId::ThrottleRatio => ValueKind::FloatArray,
            _ => ValueKind::Int,
        }
    }

    /// The name under which the simulator publishes the variable.
    pub fn name(self) -> (r: &'static str)
        ensures
            r@ == self.spec_name(),
    {
        match self {
            DataRefId::GpuGeneratorVolts => "sim/cockpit2/electrical/GPU_generator_volts",
            DataRefId::OverrideGpuVolts => "sim/operation/override/override_GPU_volts",
            DataRefId::GpuAvailable => "thranda/electrical/ExtPwrGPUAvailable",
            DataRefId::HsiSelector => "sim/cockpit/switches/HSI_selector",
            DataRefId::HsiSelector2 => "sim/cockpit/switches/HSI_selector2",
            DataRefId::HsiObsPilot => "sim/cockpit2/radios/actuators/hsi_obs_deg_mag_pilot",
            DataRefId::HsiObsCopilot => "sim/cockpit2/radios/actuators/hsi_obs_deg_mag_copilot",
            DataRefId::HsiDotsPilot => "thranda/anim/hsiHdefDotsPilot",
            DataRefId::HsiDotsCopilot => "thranda/anim/hsiHdefDotsCoPilot",
            DataRefId::HydraulicPressureGreen => "sim/cockpit2/hydraulics/indicators/hydraulic_pressure_2",
            DataRefId::OverrideWheelSteer => "sim/operation/override/override_wheel_steer",
            DataRefId::BusVolts => "sim/cockpit2/electrical/bus_volts",
            DataRefId::Gps1Power => "sim/cockpit2/radios/actuators/gps_power",
            DataRefId::Gps2Power => "sim/cockpit2/radios/actuators/gps2_power",
            DataRefId::Com1Power => "sim/cockpit2/radios/actuators/com1_power",
            DataRefId::Com2Power => "sim/cockpit2/radios/actuators/com2_power",
            DataRefId::DesiredCom1Power => "thranda/generic/com1/genCom1Pwr",
            DataRefId::DesiredCom2Power => "thranda/generic/com1/genCom2Pwr",
            DataRefId::ThrottleRatio => "sim/cockpit2/engine/actuators/throttle_ratio",
        }
    }

    /// Whether the variable has to be resolved for writing.
    pub fn writable(self) -> (r: bool)
        ensures
            r == self.spec_writable(),
    {
        match self {
            DataRefId::GpuGeneratorVolts
            | DataRefId::OverrideGpuVolts
            | DataRefId::HsiObsCopilot
            | DataRefId::HsiDotsCopilot
            | DataRefId::OverrideWheelSteer
            | DataRefId::Com1Power
            | DataRefId::Com2Power
            | DataRefId::ThrottleRatio => true,
            _ => false,
        }
    }

    /// What the variable holds.
    pub fn kind(self) -> (r: ValueKind)
        ensures
            r == self.spec_kind(),
    {
        match self {
            DataRefId::GpuGeneratorVolts
            | DataRefId::HsiObsPilot
            | DataRefId::HsiObsCopilot
            | DataRefId::HsiDotsPilot
            | DataRefId::HsiDotsCopilot
            | DataRefId::HydraulicPressureGreen => ValueKind::Float,
            DataRefId::BusVolts | DataRefId::ThrottleRatio => ValueKind::FloatArray,
            _ => ValueKind::Int,
        }
    }
}

} // verus!
