//! The per-frame driver, and the handler of the menu's check box.
//!
//! Once per frame the driver lets every component run, one after the other in a
//! fixed order, and then tells the host whether it is still waiting for some
//! component to become initialized. The host adapter runs a frame like this:
//!
//! ```text
//! let mut event = Event::Begin;
//! let end = loop {
//!     match handler.flight_loop(event) {
//!         FrameStep::Perform(action) => event = host.perform(action),
//!         end => break end,
//!     }
//! };
//! ```

use crate::component::PluginComponent;
use crate::gpu::GeneratorVolts;
use crate::hsi::CopilotHSI;
use crate::nosewheel_steering::NosewheelSteering;
use crate::protocol::Action;
use crate::protocol::Event;
use crate::radio::Radio;
use crate::throttle_levers::ThrottleLevers;
use crate::toggle::SyncThrottles;
use vstd::prelude::*;

verus! {

/// Number of components that the driver runs.
pub const COMPONENTS: usize = 5;

/// What the driver tells the host adapter.
#[derive(Clone, Copy, PartialEq, Eq, Structural, Debug)]
pub enum FrameStep {
    /// Carry out the action and report its outcome.
    Perform(Action),
    /// The frame is over, and some component is not initialized yet.
    Waiting,
    /// The frame is over, and every component is initialized.
    Settled,
}

/// Runs the correction components, frame by frame.
#[derive(Clone, Copy, PartialEq, Eq, Structural, Debug)]
pub struct FlightLoopHandler {
    pub generator_volts: GeneratorVolts,
    pub copilot_hsi: CopilotHSI,
    pub nosewheel_steering: NosewheelSteering,
    pub radio: Radio,
    pub throttle_levers: ThrottleLevers,
    /// Place of the component that is running; `COMPONENTS` or more between
    /// frames.
    pub current: usize,
}

impl FlightLoopHandler {
    /// Whether every component is initialized.
    pub open spec fn all_initialized(self) -> bool {
        &&& self.generator_volts.initialized()
        &&& self.copilot_hsi.initialized()
        &&& self.nosewheel_steering.initialized()
        &&& self.radio.initialized()
        &&& self.throttle_levers.initialized()
    }

    /// What the host is told at the end of a frame.
    pub open spec fn verdict(self) -> FrameStep {
        if self.all_initialized() {
            FrameStep::Settled
        } else {
            FrameStep::Waiting
        }
    }

    /// The driver with another component running.
    pub open spec fn at(self, current: usize) -> Self {
        FlightLoopHandler { current, ..self }
    }

    /// One step of the running component.
    pub open spec fn forward(self, event: Event) -> (Self, Option<Action>) {
        if self.current == 0 {
            let (component, action) = self.generator_volts.step(event);
            (FlightLoopHandler { generator_volts: component, ..self }, action)
        } else if self.current == 1 {
            let (component, action) = self.copilot_hsi.step(event);
            (FlightLoopHandler { copilot_hsi: component, ..self }, action)
        } else if self.current == 2 {
            let (component, action) = self.nosewheel_steering.step(event);
            (FlightLoopHandler { nosewheel_steering: component, ..self }, action)
        } else if self.current == 3 {
            let (component, action) = self.radio.step(event);
            (FlightLoopHandler { radio: component, ..self }, action)
        } else {
            let (component, action) = self.throttle_levers.step(event);
            (FlightLoopHandler { throttle_levers: component, ..self }, action)
        }
    }

    /// Hands `event` to the running component. When that component is done for
    /// the frame the next one starts, and after the last one the frame ends.
    pub open spec fn drive(self, event: Event) -> (Self, FrameStep)
        decreases COMPONENTS - self.current,
    {
        if self.current >= COMPONENTS {
            (self, self.verdict())
        } else {
            let (next, action) = self.forward(event);
            match action {
                Some(action) => (next, FrameStep::Perform(action)),
                None => next.at((self.current + 1) as usize).drive(Event::Begin),
            }
        }
    }

    /// The state after `event`, and what the host is told in answer to it. The
    /// start of a frame starts the first component; between frames every other
    /// event only repeats how the last frame ended.
    pub open spec fn step(self, event: Event) -> (Self, FrameStep) {
        if event is Begin {
            self.at(0).drive(event)
        } else {
            self.drive(event)
        }
    }

    /// A driver whose components have resolved nothing yet.
    pub fn new() -> (r: Self)
        ensures
            r == (FlightLoopHandler {
                generator_volts: GeneratorVolts::new_spec(),
                copilot_hsi: CopilotHSI::new_spec(),
                nosewheel_steering: NosewheelSteering::new_spec(),
                radio: Radio::new_spec(),
                throttle_levers: ThrottleLevers::new_spec(),
                current: COMPONENTS,
            }),
            !r.all_initialized(),
    {
        FlightLoopHandler {
            generator_volts: GeneratorVolts::new(),
            copilot_hsi: CopilotHSI::new(),
            nosewheel_steering: NosewheelSteering::new(),
            radio: Radio::new(),
            throttle_levers: ThrottleLevers::new(),
            current: COMPONENTS,
        }
    }

    /// Whether every component is initialized.
    pub fn is_initialized(&self) -> (r: bool)
        ensures
            r == self.all_initialized(),
    {
        self.generator_volts.is_initialized() && self.copilot_hsi.is_initialized()
            && self.nosewheel_steering.is_initialized() && self.radio.is_initialized()
            && self.throttle_levers.is_initialized()
    }

    /// Takes in the start of a frame, or the outcome of the action that was
    /// asked for last, and returns what the host has to do next.
    pub fn flight_loop(&mut self, event: Event) -> (step: FrameStep)
        ensures
            (*final(self), step) == old(self).step(event),
    {
        let mut handed = event;
        if let Event::Begin = &handed {
            self.current = 0;
        }
        while self.current < COMPONENTS
            invariant
                self.drive(handed) == old(self).step(event),
            decreases COMPONENTS - self.current,
        {
            let ghost before = (*self, handed);
            let action = if self.current == 0 {
                self.generator_volts.update(handed)
            } else if self.current == 1 {
                self.copilot_hsi.update(handed)
            } else if self.current == 2 {
                self.nosewheel_steering.update(handed)
            } else if self.current == 3 {
                self.radio.update(handed)
            } else {
                self.throttle_levers.update(handed)
            };
            assert((*self, action) == before.0.forward(before.1));
            match action {
                Some(action) => {
                    return FrameStep::Perform(action);
                },
                None => {
                    self.current = self.current + 1;
                    handed = Event::Begin;
                },
            }
        }
        if self.is_initialized() {
            FrameStep::Settled
        } else {
            FrameStep::Waiting
        }
    }

    /// What one step can change: a component that was initialized stays so, and
    /// the end of a frame is reported as settled exactly when all are.
    pub proof fn lemma_drive(self, event: Event)
        ensures
            self.generator_volts.initialized() ==> self.drive(event).0.generator_volts.initialized(),
            self.copilot_hsi.initialized() ==> self.drive(event).0.copilot_hsi.initialized(),
            self.nosewheel_steering.initialized() ==> self.drive(
                event,
            ).0.nosewheel_steering.initialized(),
            self.radio.initialized() ==> self.drive(event).0.radio.initialized(),
            self.throttle_levers.initialized() ==> self.drive(event).0.throttle_levers.initialized(),
            self.drive(event).1 is Settled ==> self.drive(event).0.all_initialized(),
            self.drive(event).1 is Waiting ==> !self.drive(event).0.all_initialized(),
        decreases COMPONENTS - self.current,
    {
        if self.current < COMPONENTS {
            self.generator_volts.lemma_life_cycle(event);
            self.copilot_hsi.lemma_life_cycle(event);
            self.nosewheel_steering.lemma_life_cycle(event);
            self.radio.lemma_life_cycle(event);
            self.throttle_levers.lemma_life_cycle(event);
            let (next, action) = self.forward(event);
            if action is None {
                next.at((self.current + 1) as usize).lemma_drive(Event::Begin);
            }
        }
    }
}

/// The state of the driver after it has taken in `events`, one after the other.
#[verifier::opaque]
pub open spec fn run_driver(handler: FlightLoopHandler, events: Seq<Event>) -> FlightLoopHandler
    decreases events.len(),
{
    if events.len() == 0 {
        handler
    } else {
        run_driver(handler, events.drop_last()).step(events.last()).0
    }
}

/// What the driver tells the host in answer to the event at `index`.
pub open spec fn told_at(handler: FlightLoopHandler, events: Seq<Event>, index: int) -> FrameStep {
    run_driver(handler, events.take(index)).step(events[index]).1
}

/// Taking in one more event is one more step; before any event the driver is as
/// it was.
pub proof fn lemma_run_driver_extend(handler: FlightLoopHandler, events: Seq<Event>, count: int)
    requires
        0 <= count < events.len(),
    ensures
        run_driver(handler, events.take(0)) == handler,
        run_driver(handler, events.take(count + 1)) == run_driver(handler, events.take(count)).step(
            events[count],
        ).0,
{
    reveal(run_driver);
    assert(events.take(count + 1).drop_last() =~= events.take(count));
}

/// Once every component is initialized, the driver never again reports that it
/// is waiting, whatever it is handed from then on.
pub proof fn law_settled_for_good(handler: FlightLoopHandler, events: Seq<Event>)
    requires
        handler.all_initialized(),
    ensures
        run_driver(handler, events).all_initialized(),
        forall|i: int|
            0 <= i < events.len() ==> !(#[trigger] told_at(handler, events, i) is Waiting),
    decreases events.len(),
{
    reveal(run_driver);
    if events.len() > 0 {
        let shorter = events.drop_last();
        let last = events.len() - 1;
        law_settled_for_good(handler, shorter);
        let before = run_driver(handler, shorter);
        before.lemma_drive(events.last());
        before.at(0).lemma_drive(events.last());
        assert forall|i: int| 0 <= i < events.len() implies !(#[trigger] told_at(handler, events, i)
            is Waiting) by {
            if i < last {
                assert(events.take(i) =~= shorter.take(i));
                assert(told_at(handler, events, i) == told_at(handler, shorter, i));
            } else {
                assert(events.take(i) =~= shorter);
            }
        }
    }
}

/// Receives the state of the menu's check box.
#[derive(Clone, Copy, PartialEq, Eq, Structural, Debug)]
pub struct SyncThrottlesMenuHandler;

impl SyncThrottlesMenuHandler {
    /// The check box was switched: the toggle follows it.
    pub fn item_checked(&mut self, toggle: &mut SyncThrottles, checked: bool)
        ensures
            final(toggle).enabled == checked,
            *final(self) == *old(self),
    {
        toggle.set(checked);
    }
}

} // verus!
