//! Whole frames of the driver, played against a simulator that answers
//! truthfully: the frames of its components, one after the other, and then the
//! report on how things stand.

use crate::component::action_at;
use crate::component::lemma_run_start;
use crate::component::run;
use crate::component::Corrects;
use crate::component::PluginComponent;
use crate::frame::entry;
use crate::frame::first_absent;
use crate::frame::frame;
use crate::frame::is_frame;
use crate::frame::lemma_frame_grows;
use crate::frame::lemma_frame_starts;
use crate::frame::theorem_frame;
use crate::frame::theorem_frame_resolves;
use crate::frame::Snapshot;
use crate::handler::lemma_run_driver_extend;
use crate::handler::run_driver;
use crate::handler::told_at;
use crate::handler::FlightLoopHandler;
use crate::handler::FrameStep;
use crate::handler::COMPONENTS;
use crate::gpu::GeneratorVolts;
use crate::hsi::CopilotHSI;
use crate::nosewheel_steering::NosewheelSteering;
use crate::radio::Radio;
use crate::throttle_levers::ThrottleLevers;
use crate::protocol::Action;
use crate::protocol::Event;
use vstd::prelude::*;

verus! {

/// Whether `events` is the course of one frame of the driver: it starts the
/// frame, and every later event is the true outcome of the action that the
/// driver asked for just before.
#[verifier::opaque]
pub open spec fn is_driver_frame(
    handler: FlightLoopHandler,
    world: Snapshot,
    events: Seq<Event>,
) -> bool {
    &&& events.len() > 0
    &&& events[0] is Begin
    &&& forall|i: int|
        0 <= i < events.len() - 1 ==> (#[trigger] told_at(handler, events, i) matches FrameStep::Perform(
            action,
        ) && world.answers(action, events[i + 1]))
}

/// Whether a frame leaves the component initialized: it is so already, or every
/// variable that it still needs can be resolved.
pub open spec fn resolves<C: PluginComponent>(component: C, world: Snapshot) -> bool {
    first_absent(C::handles(), component.resolved(), world) == C::handles().len()
}

/// The actions of one frame of the driver: those of the frame of each
/// component, in the order in which the driver runs them.
pub open spec fn driver_frame(handler: FlightLoopHandler, world: Snapshot) -> Seq<Action> {
    frame(handler.generator_volts, world) + frame(handler.copilot_hsi, world) + frame(
        handler.nosewheel_steering,
        world,
    ) + frame(handler.radio, world) + frame(handler.throttle_levers, world)
}

/// How one frame of the driver ends: settled if the frame leaves every component
/// initialized, waiting otherwise.
pub open spec fn driver_verdict(handler: FlightLoopHandler, world: Snapshot) -> FrameStep {
    if resolves(handler.generator_volts, world) && resolves(handler.copilot_hsi, world) && resolves(
        handler.nosewheel_steering,
        world,
    ) && resolves(handler.radio, world) && resolves(handler.throttle_levers, world) {
        FrameStep::Settled
    } else {
        FrameStep::Waiting
    }
}

/// What the driver tells the host at `index` of a frame with the given actions
/// and the given end.
pub open spec fn told(script: Seq<Action>, verdict: FrameStep, index: int) -> FrameStep {
    if 0 <= index < script.len() {
        FrameStep::Perform(script[index])
    } else {
        verdict
    }
}

/// A frame of the driver starts with the start of a frame.
proof fn lemma_driver_begins(handler: FlightLoopHandler, world: Snapshot, events: Seq<Event>)
    requires
        is_driver_frame(handler, world, events),
    ensures
        events.len() > 0,
        events[0] is Begin,
        run_driver(handler, events.take(0)) == handler,
{
    reveal(is_driver_frame);
    lemma_run_driver_extend(handler, events, 0);
}

/// The state of the driver after `event`, and what the host is told in answer to
/// it.
#[verifier::opaque]
spec fn stepped(handler: FlightLoopHandler, event: Event) -> (FlightLoopHandler, FrameStep) {
    handler.step(event)
}

/// The state of the driver after the component that is running has been handed
/// the start of a frame, and what the host is told in answer to it.
#[verifier::opaque]
spec fn begun(handler: FlightLoopHandler) -> (FlightLoopHandler, FrameStep) {
    handler.drive(Event::Begin)
}

/// One step of a frame of the driver: the event at `at` takes the driver one
/// step further. If the frame goes on after it, the step has asked for an
/// action, and the next event is the true outcome of that action, which is
/// never the start of a frame.
proof fn lemma_driver_advance(
    handler: FlightLoopHandler,
    world: Snapshot,
    events: Seq<Event>,
    at: int,
)
    requires
        is_driver_frame(handler, world, events),
        0 <= at < events.len(),
    ensures
        run_driver(handler, events.take(at + 1)) == stepped(
            run_driver(handler, events.take(at)),
            events[at],
        ).0,
        at + 1 < events.len() ==> {
            &&& stepped(run_driver(handler, events.take(at)), events[at]).1 matches FrameStep::Perform(
                action,
            )
            &&& world.answers(action, events[at + 1])
            &&& !(events[at + 1] is Begin)
        },
{
    reveal(is_driver_frame);
    reveal(stepped);
    lemma_run_driver_extend(handler, events, at);
    if at + 1 < events.len() {
        assert(told_at(handler, events, at) matches FrameStep::Perform(action) && world.answers(
            action,
            events[at + 1],
        ));
    }
}

/// Whether `get` and `put` read and replace the component that the driver runs
/// at `place`.
spec fn is_slot<C: PluginComponent>(
    place: usize,
    get: spec_fn(FlightLoopHandler) -> C,
    put: spec_fn(FlightLoopHandler, C) -> FlightLoopHandler,
) -> bool {
    &&& place < COMPONENTS
    &&& forall|handler: FlightLoopHandler, component: C| #[trigger]
        get(put(handler, component)) == component
    &&& forall|handler: FlightLoopHandler, component: C|
        (#[trigger] put(handler, component)).current == handler.current
    &&& forall|handler: FlightLoopHandler, first: C, second: C| #[trigger]
        put(put(handler, first), second) == put(handler, second)
    &&& forall|handler: FlightLoopHandler, event: Event|
        handler.current == place ==> #[trigger] handler.forward(event) == (
            put(handler, get(handler).step(event).0),
            get(handler).step(event).1,
        )
}

/// What becomes of an event that is handed to the component at `place`: the
/// component takes a step; its action is passed on to the host, and if it has
/// none, the next component starts its frame.
spec fn handed<C: PluginComponent>(
    handler: FlightLoopHandler,
    event: Event,
    place: usize,
    get: spec_fn(FlightLoopHandler) -> C,
    put: spec_fn(FlightLoopHandler, C) -> FlightLoopHandler,
) -> (FlightLoopHandler, FrameStep) {
    let (component, action) = get(handler).step(event);
    match action {
        Some(action) => (put(handler, component), FrameStep::Perform(action)),
        None => begun(put(handler, component).at((place + 1) as usize)),
    }
}

/// Every event goes to the component that is running.
proof fn lemma_slot_step<C: PluginComponent>(
    handler: FlightLoopHandler,
    event: Event,
    place: usize,
    get: spec_fn(FlightLoopHandler) -> C,
    put: spec_fn(FlightLoopHandler, C) -> FlightLoopHandler,
)
    requires
        is_slot(place, get, put),
        handler.current == place,
    ensures
        begun(handler) == handed(handler, Event::Begin, place, get, put),
        !(event is Begin) ==> stepped(handler, event) == handed(handler, event, place, get, put),
{
    reveal(stepped);
    reveal(begun);
    assert(handler.forward(event) == (
        put(handler, get(handler).step(event).0),
        get(handler).step(event).1,
    ));
    assert(handler.forward(Event::Begin) == (
        put(handler, get(handler).step(Event::Begin).0),
        get(handler).step(Event::Begin).1,
    ));
}

/// The start of a frame goes to the first component, and after the last
/// component the frame ends with the report on how things stand.
proof fn lemma_driver_ends_of_frame(handler: FlightLoopHandler, event: Event)
    ensures
        event is Begin ==> stepped(handler, event) == begun(handler.at(0)),
        handler.current >= COMPONENTS ==> begun(handler) == (handler, handler.verdict()),
{
    reveal(stepped);
    reveal(begun);
}

/// The events that a component is handed while the driver takes in the events
/// from place `at` to place `at + count`: the start of a frame in place of the
/// first, and the others as they are.
spec fn local_events(events: Seq<Event>, at: int, count: int) -> Seq<Event> {
    seq![Event::Begin] + events.subrange(at + 1, at + count + 1)
}

/// While a component runs, the driver hands its actions on. The component
/// starts its frame at place `at`. With the event `count` places further on it
/// has been through a frame of its own, and the driver asks for the action that
/// stands at `count` in that frame.
proof fn lemma_segment<C: Corrects>(
    handler: FlightLoopHandler,
    world: Snapshot,
    events: Seq<Event>,
    place: usize,
    get: spec_fn(FlightLoopHandler) -> C,
    put: spec_fn(FlightLoopHandler, C) -> FlightLoopHandler,
    at: int,
    entered: FlightLoopHandler,
    count: int,
)
    requires
        is_driver_frame(handler, world, events),
        is_slot(place, get, put),
        entered.current == place,
        0 <= at < events.len(),
        stepped(run_driver(handler, events.take(at)), events[at]) == begun(entered),
        0 <= count < frame(get(entered), world).len(),
        at + count < events.len(),
    ensures
        is_frame(get(entered), world, local_events(events, at, count)),
        stepped(run_driver(handler, events.take(at + count)), events[at + count]) == (
            put(entered, run(get(entered), local_events(events, at, count))),
            FrameStep::Perform(frame(get(entered), world)[count]),
        ),
    decreases count,
{
    let component = get(entered);
    let script = frame(component, world);
    let local = local_events(events, at, count);
    if count == 0 {
        assert(local =~= seq![Event::Begin]);
        lemma_frame_starts(component, world);
        theorem_frame(component, world, local);
        assert(action_at(component, local, 0) == entry(script, 0));
        lemma_run_start(component, local);
        crate::component::lemma_run_extend(component, local, 0);
        assert(local.take(1) =~= local);
        lemma_slot_step(entered, Event::Begin, place, get, put);
    } else {
        lemma_segment(handler, world, events, place, get, put, at, entered, count - 1);
        let shorter = local_events(events, at, count - 1);
        let before = put(entered, run(component, shorter));
        let event = events[at + count];
        lemma_driver_advance(handler, world, events, at + count - 1);
        theorem_frame(component, world, shorter);
        assert(action_at(component, shorter, count - 1) == entry(script, count - 1));
        lemma_frame_grows(component, world, shorter, event);
        assert(local =~= shorter.push(event));
        theorem_frame(component, world, local);
        assert(action_at(component, local, count) == entry(script, count));
        crate::component::lemma_run_extend(component, local, count);
        assert(local.take(count + 1) =~= local);
        lemma_slot_step(before, event, place, get, put);
    }
}

/// When a component is done, the next one starts. A component that started its
/// frame at place `at` has been through the whole of it with the event that
/// stands as many places further on as the frame has actions; in answer to
/// that event the driver moves on and starts the frame of the next component.
proof fn lemma_segment_ends<C: Corrects>(
    handler: FlightLoopHandler,
    world: Snapshot,
    events: Seq<Event>,
    place: usize,
    get: spec_fn(FlightLoopHandler) -> C,
    put: spec_fn(FlightLoopHandler, C) -> FlightLoopHandler,
    at: int,
    entered: FlightLoopHandler,
)
    requires
        is_driver_frame(handler, world, events),
        is_slot(place, get, put),
        entered.current == place,
        0 <= at < events.len(),
        stepped(run_driver(handler, events.take(at)), events[at]) == begun(entered),
        at + frame(get(entered), world).len() < events.len(),
    ensures
        ({
            let component = get(entered);
            let end = at + frame(component, world).len();
            let after = run(component, local_events(events, at, end - at));
            &&& after.initialized() <==> first_absent(C::handles(), component.resolved(), world)
                == C::handles().len()
            &&& stepped(run_driver(handler, events.take(end)), events[end]) == begun(
                put(entered, after).at((place + 1) as usize),
            )
        }),
{
    let component = get(entered);
    let script = frame(component, world);
    let count = script.len() as int;
    let local = local_events(events, at, count);
    let event = events[at + count];
    // Every frame has an action to start with.
    assert(count > 0) by {
        lemma_frame_starts(component, world);
        theorem_frame(component, world, seq![Event::Begin]);
        lemma_run_start(component, seq![Event::Begin]);
        component.lemma_life_cycle(Event::Begin);
        assert(action_at(component, seq![Event::Begin], 0) == entry(script, 0));
    }
    lemma_segment(handler, world, events, place, get, put, at, entered, count - 1);
    let shorter = local_events(events, at, count - 1);
    let before = put(entered, run(component, shorter));
    lemma_driver_advance(handler, world, events, at + count - 1);
    theorem_frame(component, world, shorter);
    assert(action_at(component, shorter, count - 1) == entry(script, count - 1));
    lemma_frame_grows(component, world, shorter, event);
    assert(local =~= shorter.push(event));
    theorem_frame(component, world, local);
    assert(action_at(component, local, count) == entry(script, count));
    crate::component::lemma_run_extend(component, local, count);
    assert(local.take(count + 1) =~= local);
    theorem_frame_resolves(component, world, local);
    lemma_slot_step(before, event, place, get, put);
}

/// While a component runs, the driver asks for the actions of its frame, one
/// after the other.
proof fn lemma_segment_told<C: Corrects>(
    handler: FlightLoopHandler,
    world: Snapshot,
    events: Seq<Event>,
    place: usize,
    get: spec_fn(FlightLoopHandler) -> C,
    put: spec_fn(FlightLoopHandler, C) -> FlightLoopHandler,
    at: int,
    entered: FlightLoopHandler,
)
    requires
        is_driver_frame(handler, world, events),
        is_slot(place, get, put),
        entered.current == place,
        0 <= at < events.len(),
        stepped(run_driver(handler, events.take(at)), events[at]) == begun(entered),
    ensures
        forall|i: int|
            at <= i < events.len() && i < at + frame(get(entered), world).len() ==> #[trigger] told_at(
                handler,
                events,
                i,
            ) == FrameStep::Perform(frame(get(entered), world)[i - at]),
{
    assert forall|i: int|
        at <= i < events.len() && i < at + frame(get(entered), world).len() implies #[trigger] told_at(
        handler,
        events,
        i,
    ) == FrameStep::Perform(frame(get(entered), world)[i - at]) by {
        lemma_segment(handler, world, events, place, get, put, at, entered, i - at);
        reveal(stepped);
    }
}

/// Where the frame of each component stands within the frame of the driver.
spec fn frame_start(handler: FlightLoopHandler, world: Snapshot, place: int) -> int {
    let after0 = frame(handler.generator_volts, world).len() as int;
    let after1 = after0 + frame(handler.copilot_hsi, world).len();
    let after2 = after1 + frame(handler.nosewheel_steering, world).len();
    let after3 = after2 + frame(handler.radio, world).len();
    let after4 = after3 + frame(handler.throttle_levers, world).len();
    if place <= 0 {
        0
    } else if place == 1 {
        after0
    } else if place == 2 {
        after1
    } else if place == 3 {
        after2
    } else if place == 4 {
        after3
    } else {
        after4
    }
}

/// The frame of the driver is made of the frames of its components.
proof fn lemma_driver_frame_parts(handler: FlightLoopHandler, world: Snapshot)
    ensures
        driver_frame(handler, world).len() == frame_start(handler, world, 5),
        forall|i: int|
            0 <= i < frame_start(handler, world, 1) ==> #[trigger] driver_frame(handler, world)[i]
                == frame(handler.generator_volts, world)[i],
        forall|i: int|
            frame_start(handler, world, 1) <= i < frame_start(handler, world, 2) ==> #[trigger] driver_frame(
                handler,
                world,
            )[i] == frame(handler.copilot_hsi, world)[i - frame_start(handler, world, 1)],
        forall|i: int|
            frame_start(handler, world, 2) <= i < frame_start(handler, world, 3) ==> #[trigger] driver_frame(
                handler,
                world,
            )[i] == frame(handler.nosewheel_steering, world)[i - frame_start(handler, world, 2)],
        forall|i: int|
            frame_start(handler, world, 3) <= i < frame_start(handler, world, 4) ==> #[trigger] driver_frame(
                handler,
                world,
            )[i] == frame(handler.radio, world)[i - frame_start(handler, world, 3)],
        forall|i: int|
            frame_start(handler, world, 4) <= i < frame_start(handler, world, 5) ==> #[trigger] driver_frame(
                handler,
                world,
            )[i] == frame(handler.throttle_levers, world)[i - frame_start(handler, world, 4)],
{
}

/// Whether `entered` is the driver as it stands when the component at `place`
/// starts its frame: that component and those after it are as they were when
/// the frame of the driver started, and those before it have been through
/// their frames.
spec fn entering(
    handler: FlightLoopHandler,
    world: Snapshot,
    entered: FlightLoopHandler,
    place: int,
) -> bool {
    &&& entered.current == place
    &&& if place <= 0 {
        entered.generator_volts == handler.generator_volts
    } else {
        entered.generator_volts.initialized() <==> resolves(handler.generator_volts, world)
    }
    &&& if place <= 1 {
        entered.copilot_hsi == handler.copilot_hsi
    } else {
        entered.copilot_hsi.initialized() <==> resolves(handler.copilot_hsi, world)
    }
    &&& if place <= 2 {
        entered.nosewheel_steering == handler.nosewheel_steering
    } else {
        entered.nosewheel_steering.initialized() <==> resolves(handler.nosewheel_steering, world)
    }
    &&& if place <= 3 {
        entered.radio == handler.radio
    } else {
        entered.radio.initialized() <==> resolves(handler.radio, world)
    }
    &&& if place <= 4 {
        entered.throttle_levers == handler.throttle_levers
    } else {
        entered.throttle_levers.initialized() <==> resolves(handler.throttle_levers, world)
    }
}

/// Whether the driver, from the event at `from` on, tells the host what
/// `driver_frame` and `driver_verdict` say, and is over after that.
spec fn told_from(
    handler: FlightLoopHandler,
    world: Snapshot,
    events: Seq<Event>,
    from: int,
) -> bool {
    &&& forall|i: int|
        from <= i < events.len() ==> #[trigger] told_at(handler, events, i) == told(
            driver_frame(handler, world),
            driver_verdict(handler, world),
            i,
        )
    &&& events.len() <= driver_frame(handler, world).len() + 1
}

/// After the last component the frame ends.
proof fn lemma_driver_ends(
    handler: FlightLoopHandler,
    world: Snapshot,
    events: Seq<Event>,
    entered: FlightLoopHandler,
)
    requires
        is_driver_frame(handler, world, events),
        entering(handler, world, entered, 5),
        frame_start(handler, world, 5) < events.len(),
        stepped(
            run_driver(handler, events.take(frame_start(handler, world, 5))),
            events[frame_start(handler, world, 5)],
        ) == begun(entered),
    ensures
        told_from(handler, world, events, frame_start(handler, world, 5)),
{
    let end = frame_start(handler, world, 5);
    lemma_driver_frame_parts(handler, world);
    lemma_driver_advance(handler, world, events, end);
    lemma_driver_ends_of_frame(entered, Event::Begin);
    assert(told_at(handler, events, end) == stepped(
        run_driver(handler, events.take(end)),
        events[end],
    ).1) by {
        reveal(stepped);
    }
}

/// The last component runs, and the frame ends.
proof fn lemma_driver_from_4(
    handler: FlightLoopHandler,
    world: Snapshot,
    events: Seq<Event>,
    entered: FlightLoopHandler,
)
    requires
        is_driver_frame(handler, world, events),
        entering(handler, world, entered, 4),
        frame_start(handler, world, 4) < events.len(),
        stepped(
            run_driver(handler, events.take(frame_start(handler, world, 4))),
            events[frame_start(handler, world, 4)],
        ) == begun(entered),
    ensures
        told_from(handler, world, events, frame_start(handler, world, 4)),
{
    let get = |h: FlightLoopHandler| h.throttle_levers;
    let put = |h: FlightLoopHandler, c: ThrottleLevers| FlightLoopHandler { throttle_levers: c, ..h };
    let at = frame_start(handler, world, 4);
    let end = frame_start(handler, world, 5);
    assert(is_slot(4, get, put));
    lemma_driver_frame_parts(handler, world);
    lemma_segment_told(handler, world, events, 4, get, put, at, entered);
    if events.len() > end {
        lemma_segment_ends(handler, world, events, 4, get, put, at, entered);
        let after = run(get(entered), local_events(events, at, end - at));
        lemma_driver_ends(handler, world, events, put(entered, after).at(5));
    }
}

/// The fourth component runs, then the rest.
proof fn lemma_driver_from_3(
    handler: FlightLoopHandler,
    world: Snapshot,
    events: Seq<Event>,
    entered: FlightLoopHandler,
)
    requires
        is_driver_frame(handler, world, events),
        entering(handler, world, entered, 3),
        frame_start(handler, world, 3) < events.len(),
        stepped(
            run_driver(handler, events.take(frame_start(handler, world, 3))),
            events[frame_start(handler, world, 3)],
        ) == begun(entered),
    ensures
        told_from(handler, world, events, frame_start(handler, world, 3)),
{
    let get = |h: FlightLoopHandler| h.radio;
    let put = |h: FlightLoopHandler, c: Radio| FlightLoopHandler { radio: c, ..h };
    let at = frame_start(handler, world, 3);
    let end = frame_start(handler, world, 4);
    assert(is_slot(3, get, put));
    lemma_driver_frame_parts(handler, world);
    lemma_segment_told(handler, world, events, 3, get, put, at, entered);
    if events.len() > end {
        lemma_segment_ends(handler, world, events, 3, get, put, at, entered);
        let after = run(get(entered), local_events(events, at, end - at));
        lemma_driver_from_4(handler, world, events, put(entered, after).at(4));
    }
}

/// The third component runs, then the rest.
proof fn lemma_driver_from_2(
    handler: FlightLoopHandler,
    world: Snapshot,
    events: Seq<Event>,
    entered: FlightLoopHandler,
)
    requires
        is_driver_frame(handler, world, events),
        entering(handler, world, entered, 2),
        frame_start(handler, world, 2) < events.len(),
        stepped(
            run_driver(handler, events.take(frame_start(handler, world, 2))),
            events[frame_start(handler, world, 2)],
        ) == begun(entered),
    ensures
        told_from(handler, world, events, frame_start(handler, world, 2)),
{
    let get = |h: FlightLoopHandler| h.nosewheel_steering;
    let put = |h: FlightLoopHandler, c: NosewheelSteering|
        FlightLoopHandler { nosewheel_steering: c, ..h };
    let at = frame_start(handler, world, 2);
    let end = frame_start(handler, world, 3);
    assert(is_slot(2, get, put));
    lemma_driver_frame_parts(handler, world);
    lemma_segment_told(handler, world, events, 2, get, put, at, entered);
    if events.len() > end {
        lemma_segment_ends(handler, world, events, 2, get, put, at, entered);
        let after = run(get(entered), local_events(events, at, end - at));
        lemma_driver_from_3(handler, world, events, put(entered, after).at(3));
    }
}

/// The second component runs, then the rest.
proof fn lemma_driver_from_1(
    handler: FlightLoopHandler,
    world: Snapshot,
    events: Seq<Event>,
    entered: FlightLoopHandler,
)
    requires
        is_driver_frame(handler, world, events),
        entering(handler, world, entered, 1),
        frame_start(handler, world, 1) < events.len(),
        stepped(
            run_driver(handler, events.take(frame_start(handler, world, 1))),
            events[frame_start(handler, world, 1)],
        ) == begun(entered),
    ensures
        told_from(handler, world, events, frame_start(handler, world, 1)),
{
    let get = |h: FlightLoopHandler| h.copilot_hsi;
    let put = |h: FlightLoopHandler, c: CopilotHSI| FlightLoopHandler { copilot_hsi: c, ..h };
    let at = frame_start(handler, world, 1);
    let end = frame_start(handler, world, 2);
    assert(is_slot(1, get, put));
    lemma_driver_frame_parts(handler, world);
    lemma_segment_told(handler, world, events, 1, get, put, at, entered);
    if events.len() > end {
        lemma_segment_ends(handler, world, events, 1, get, put, at, entered);
        let after = run(get(entered), local_events(events, at, end - at));
        lemma_driver_from_2(handler, world, events, put(entered, after).at(2));
    }
}

/// Every frame of the driver, from every state, asks for the actions of
/// `driver_frame`, one per event and in order, then ends as `driver_verdict`
/// says, and is over.
pub proof fn theorem_driver_frame(handler: FlightLoopHandler, world: Snapshot, events: Seq<Event>)
    requires
        is_driver_frame(handler, world, events),
    ensures
        forall|i: int|
            0 <= i < events.len() ==> #[trigger] told_at(handler, events, i) == told(
                driver_frame(handler, world),
                driver_verdict(handler, world),
                i,
            ),
        events.len() <= driver_frame(handler, world).len() + 1,
{
    let get = |h: FlightLoopHandler| h.generator_volts;
    let put = |h: FlightLoopHandler, c: GeneratorVolts| FlightLoopHandler { generator_volts: c, ..h };
    let entered = handler.at(0);
    let end = frame_start(handler, world, 1);
    assert(is_slot(0, get, put));
    lemma_driver_begins(handler, world, events);
    lemma_driver_ends_of_frame(handler, events[0]);
    lemma_driver_frame_parts(handler, world);
    lemma_segment_told(handler, world, events, 0, get, put, 0, entered);
    if events.len() > end {
        lemma_segment_ends(handler, world, events, 0, get, put, 0, entered);
        let after = run(get(entered), local_events(events, 0, end));
        lemma_driver_from_1(handler, world, events, put(entered, after).at(1));
    }
}

} // verus!
