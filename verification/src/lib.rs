//! Decision core of a flight-simulator add-on that corrects a handful of aircraft
//! state variables once per simulation frame.
//!
//! The crate performs no input or output. Every correction component is a small
//! state machine: it is handed an [`Event`] and answers with the next [`Action`]
//! that the host adapter has to carry out against the simulator. Floating-point
//! readings travel as IEEE-754 bit patterns, see [`Single`].
//!
//! - [`protocol`], [`dataref`], [`single`], [`toggle`]: what is exchanged with
//!   the host adapter.
//! - [`component`]: what the components have in common, and the laws of their
//!   life cycle.
//! - [`gpu`], [`hsi`], [`nosewheel_steering`], [`radio`], [`throttle_levers`]:
//!   the five corrections.
//! - [`handler`]: the driver that runs them frame by frame.
//! - [`frame`], [`driver`]: what the single steps add up to over a whole frame.
//! - [`plugin`]: the conditions for starting up.

pub mod component;
pub mod dataref;
pub mod driver;
pub mod frame;
pub mod gpu;
pub mod handler;
pub mod hsi;
pub mod nosewheel_steering;
pub mod plugin;
pub mod protocol;
pub mod radio;
pub mod single;
pub mod throttle_levers;
pub mod toggle;

pub use component::PluginComponent;
pub use dataref::DataRefId;
pub use gpu::GeneratorVolts;
pub use handler::FlightLoopHandler;
pub use handler::FrameStep;
pub use handler::SyncThrottlesMenuHandler;
pub use hsi::CopilotHSI;
pub use nosewheel_steering::NosewheelSteering;
pub use plugin::PluginError;
pub use protocol::Action;
pub use protocol::Event;
pub use radio::Radio;
pub use single::Single;
pub use throttle_levers::ThrottleLevers;
pub use toggle::SyncThrottles;
