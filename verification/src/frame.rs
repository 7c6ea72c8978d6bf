//! Whole frames, played against a simulator that answers truthfully.
//!
//! The components are written as single steps. What a step-by-step run adds up to
//! is stated here: for every state of the simulator, the exact sequence of
//! actions that a component asks for over one frame.

use crate::component::action_at;
use crate::component::law_initialized_for_good;
use crate::component::lemma_run_extend;
use crate::component::lemma_run_split;
use crate::component::lemma_run_start;
use crate::component::run;
use crate::component::Corrects;
use crate::component::PluginComponent;
use crate::dataref::DataRefId;
use crate::protocol::Action;
use crate::protocol::Event;
use crate::single::Single;
use vstd::prelude::*;

verus! {

/// What the simulator and its surroundings answer while a frame runs: the same
/// for every variable whenever it is asked for within the frame.
pub struct Snapshot {
    /// The variables that can be resolved.
    pub present: Set<DataRefId>,
    /// The value of each integer variable.
    pub ints: Map<DataRefId, i32>,
    /// The value of each single-precision variable.
    pub floats: Map<DataRefId, Single>,
    /// The elements of each array variable.
    pub arrays: Map<DataRefId, Seq<Single>>,
    /// What a non-blocking read of the throttle toggle gives.
    pub toggle: Option<bool>,
    /// The relative tolerance comparison.
    pub almost_equal: spec_fn(Single, Single) -> bool,
    /// The absolute tolerance comparison with zero.
    pub almost_zero: spec_fn(Single) -> bool,
}

impl Snapshot {
    /// What reading up to `count` leading elements of an array variable gives.
    pub open spec fn leading(self, id: DataRefId, count: usize) -> Seq<Single> {
        if count <= self.arrays[id].len() {
            self.arrays[id].take(count as int)
        } else {
            self.arrays[id]
        }
    }

    /// The outcome of a tolerance comparison.
    pub open spec fn near(self, comparison: Action) -> bool {
        match comparison {
            Action::AlmostEqual(left, right) => (self.almost_equal)(left, right),
            Action::AlmostZero(subject) => (self.almost_zero)(subject),
            _ => false,
        }
    }

    /// Whether `event` is the true outcome of `action`.
    pub open spec fn answers(self, action: Action, event: Event) -> bool {
        match action {
            Action::Find(id) => if self.present.contains(id) {
                event is Found
            } else {
                event is Missing
            },
            Action::ReadInt(id) => event == Event::Int(self.ints[id]),
            Action::ReadFloat(id) => event == Event::Float(self.floats[id]),
            Action::ReadFloats(id, count) => event matches Event::Floats(elements) && elements@
                == self.leading(id, count),
            Action::ReadToggle => event == Event::Toggle(self.toggle),
            Action::AlmostEqual(_, _) | Action::AlmostZero(_) => event == Event::Verdict(
                self.near(action),
            ),
            Action::WriteInt(_, _) | Action::WriteFloat(_, _) | Action::WriteFloats(_, _) => event
                is Written,
        }
    }
}

/// Whether `events` is the course of one frame of `component`: it starts the
/// frame, and every later event is the true outcome of the action that the
/// component asked for just before.
#[verifier::opaque]
pub open spec fn is_frame<C: PluginComponent>(
    component: C,
    world: Snapshot,
    events: Seq<Event>,
) -> bool {
    &&& events.len() > 0
    &&& events[0] is Begin
    &&& forall|i: int|
        0 <= i < events.len() - 1 ==> (#[trigger] action_at(component, events, i) matches Some(
            action,
        ) && world.answers(action, events[i + 1]))
}

/// A tolerance comparison, followed by the write if it finds the value away from
/// its target.
pub open spec fn compare_and_write(
    world: Snapshot,
    comparison: Action,
    write: Action,
) -> Seq<Action> {
    if world.near(comparison) {
        seq![comparison]
    } else {
        seq![comparison, write]
    }
}

/// The write of an integer variable, if there is a value to write.
pub open spec fn write_int(id: DataRefId, value: Option<i32>) -> Seq<Action> {
    match value {
        Some(value) => seq![Action::WriteInt(id, value)],
        None => Seq::empty(),
    }
}

/// The action at `index` of a script, or `None` past its end.
pub open spec fn entry(script: Seq<Action>, index: int) -> Option<Action> {
    if 0 <= index < script.len() {
        Some(script[index])
    } else {
        None
    }
}

/// Whether `component`, taking in `events`, asks for the actions of `script`,
/// one per event and in order, and for nothing more once the script is over.
pub open spec fn follows<C: PluginComponent>(
    component: C,
    events: Seq<Event>,
    script: Seq<Action>,
) -> bool {
    forall|i: int|
        0 <= i < events.len() ==> #[trigger] action_at(component, events, i) == entry(script, i)
}

/// A frame starts with the start of a frame.
pub proof fn lemma_frame_begins<C: PluginComponent>(
    component: C,
    world: Snapshot,
    events: Seq<Event>,
)
    requires
        is_frame(component, world, events),
    ensures
        events.len() > 0,
        events[0] is Begin,
        run(component, events.take(0)) == component,
{
    reveal(is_frame);
    lemma_run_start(component, events);
}

/// The start of a frame alone is a frame.
pub proof fn lemma_frame_starts<C: PluginComponent>(component: C, world: Snapshot)
    ensures
        is_frame(component, world, seq![Event::Begin]),
{
    reveal(is_frame);
}

/// A frame goes on with the true outcome of the action asked for last.
pub proof fn lemma_frame_grows<C: PluginComponent>(
    component: C,
    world: Snapshot,
    events: Seq<Event>,
    next: Event,
)
    requires
        is_frame(component, world, events),
        action_at(component, events, events.len() - 1) matches Some(action) && world.answers(
            action,
            next,
        ),
    ensures
        is_frame(component, world, events.push(next)),
        run(component, events.push(next).take(events.len() as int)) == run(component, events),
{
    reveal(is_frame);
    let longer = events.push(next);
    assert(longer.take(events.len() as int) =~= events);
    assert forall|i: int| 0 <= i < longer.len() - 1 implies (#[trigger] action_at(component, longer, i)
        matches Some(action) && world.answers(action, longer[i + 1])) by {
        assert(longer.take(i) =~= events.take(i));
        assert(action_at(component, longer, i) == action_at(component, events, i));
    }
}

/// One step of a frame: the event at `at` takes the component one step further.
/// If the frame goes on after it, the step has asked for an action, and the next
/// event is the true outcome of that action.
pub proof fn lemma_advance<C: PluginComponent>(
    component: C,
    world: Snapshot,
    events: Seq<Event>,
    at: int,
)
    requires
        is_frame(component, world, events),
        0 <= at < events.len(),
    ensures
        run(component, events.take(at + 1)) == run(component, events.take(at)).step(events[at]).0,
        at + 1 < events.len() ==> (action_at(component, events, at) matches Some(action)
            && world.answers(action, events[at + 1])),
{
    reveal(is_frame);
    lemma_run_extend(component, events, at);
}

/// The place of the first variable, from `from` on, that cannot be resolved; the
/// number of variables if all of them can.
pub open spec fn first_absent(handles: Seq<DataRefId>, from: nat, world: Snapshot) -> nat
    decreases handles.len() - from,
{
    if from >= handles.len() {
        handles.len()
    } else if world.present.contains(handles[from as int]) {
        first_absent(handles, from + 1, world)
    } else {
        from
    }
}

/// The lookups of one frame of a component that has `resolved` of its variables
/// resolved: one for each unresolved variable, in order, up to and including the
/// first that cannot be resolved.
pub open spec fn lookups(handles: Seq<DataRefId>, resolved: nat, world: Snapshot) -> Seq<Action> {
    let stop = first_absent(handles, resolved, world);
    let count = if stop < handles.len() {
        stop + 1 - resolved
    } else {
        handles.len() - resolved
    };
    Seq::new(count as nat, |i: int| Action::Find(handles[resolved + i]))
}

/// Every variable between `from` and the first absent one can be resolved, and
/// the first absent one, if there is one, cannot.
pub proof fn lemma_first_absent(handles: Seq<DataRefId>, from: nat, world: Snapshot)
    requires
        from <= handles.len(),
    ensures
        from <= first_absent(handles, from, world) <= handles.len(),
        forall|j: int|
            from <= j < first_absent(handles, from, world) ==> world.present.contains(
                #[trigger] handles[j],
            ),
        first_absent(handles, from, world) < handles.len() ==> !world.present.contains(
            handles[first_absent(handles, from, world) as int],
        ),
    decreases handles.len() - from,
{
    if from < handles.len() && world.present.contains(handles[from as int]) {
        lemma_first_absent(handles, from + 1, world);
    }
}

/// As long as the lookups succeed, a component that is not initialized asks for
/// its unresolved variables one after the other: after the start of the frame
/// and `found` successful lookups it waits for the outcome of the next.
pub proof fn lemma_lookups<C: Corrects>(
    component: C,
    world: Snapshot,
    events: Seq<Event>,
    found: int,
)
    requires
        !component.initialized(),
        is_frame(component, world, events),
        0 <= found < events.len(),
        component.resolved() + found < C::handles().len(),
        forall|j: int|
            component.resolved() <= j < component.resolved() + found ==> world.present.contains(
                #[trigger] C::handles()[j],
            ),
    ensures
        run(component, events.take(found + 1)) == component.resolving(
            (component.resolved() + found) as nat,
        ),
        forall|i: int|
            0 <= i <= found ==> #[trigger] action_at(component, events, i) == Some(
                Action::Find(C::handles()[component.resolved() + i]),
            ),
    decreases found,
{
    let start = component.resolved() as int;
    component.lemma_life_cycle(Event::Begin);
    if found == 0 {
        lemma_frame_begins(component, world, events);
        lemma_advance(component, world, events, 0);
        component.lemma_resolution(events[0], start as nat, world);
    } else {
        let before = found - 1;
        lemma_lookups(component, world, events, before);
        let waiting = component.resolving((start + before) as nat);
        assert(action_at(component, events, before) == Some(
            Action::Find(C::handles()[start + before]),
        ));
        lemma_advance(component, world, events, before);
        assert(world.present.contains(C::handles()[start + before]));
        lemma_advance(component, world, events, found);
        component.lemma_resolution(events[found], (start + before) as nat, world);
    }
}

/// A frame in which a lookup fails consists of lookups alone: the component
/// asks for its unresolved variables up to the one that cannot be resolved, and
/// then is done.
pub proof fn lemma_lookup_fails<C: Corrects>(component: C, world: Snapshot, events: Seq<Event>)
    requires
        !component.initialized(),
        is_frame(component, world, events),
        first_absent(C::handles(), component.resolved(), world) < C::handles().len(),
    ensures
        follows(component, events, lookups(C::handles(), component.resolved(), world)),
{
    let start = component.resolved() as int;
    let stop = first_absent(C::handles(), start as nat, world) as int;
    let script = lookups(C::handles(), start as nat, world);
    let last = stop - start;
    component.lemma_life_cycle(Event::Begin);
    lemma_first_absent(C::handles(), start as nat, world);
    lemma_frame_begins(component, world, events);
    if events.len() > last {
        lemma_lookups(component, world, events, last);
        if events.len() > last + 1 {
            let waiting = component.resolving((start + last) as nat);
            assert(action_at(component, events, last) == Some(
                Action::Find(C::handles()[start + last]),
            ));
            lemma_advance(component, world, events, last);
            assert(events[last + 1] is Missing);
            lemma_advance(component, world, events, last + 1);
            waiting.lemma_life_cycle(events[last + 1]);
            assert(action_at(component, events, last + 1) is None);
            assert(events.len() <= last + 2);
        }
    } else {
        lemma_lookups(component, world, events, events.len() - 1);
    }
    assert forall|i: int| 0 <= i < events.len() implies #[trigger] action_at(component, events, i)
        == entry(script, i) by {
        if i <= last {
            assert(script[i] == Action::Find(C::handles()[start + i]));
        }
    }
}

/// The whole of one frame. An initialized component applies its correction. One
/// that is not looks up what it still needs and stops at the first lookup that
/// fails; if none fails, it arms itself and applies the correction in the same
/// frame.
pub open spec fn frame<C: Corrects>(component: C, world: Snapshot) -> Seq<Action> {
    if component.initialized() {
        component.correction(world)
    } else if first_absent(C::handles(), component.resolved(), world) < C::handles().len() {
        lookups(C::handles(), component.resolved(), world)
    } else {
        lookups(C::handles(), component.resolved(), world) + (C::arming() + component.correction(
            world,
        ))
    }
}

/// Every frame of every component, from every state, runs as `frame` says.
pub proof fn theorem_frame<C: Corrects>(component: C, world: Snapshot, events: Seq<Event>)
    requires
        is_frame(component, world, events),
    ensures
        follows(component, events, frame(component, world)),
{
    let handles = C::handles();
    let start = component.resolved() as int;
    component.lemma_life_cycle(Event::Begin);
    lemma_frame_begins(component, world, events);
    if component.initialized() {
        component.lemma_correction(world, events, 0);
    } else if first_absent(handles, start as nat, world) < handles.len() {
        lemma_lookup_fails(component, world, events);
    } else {
        let looked = lookups(handles, start as nat, world);
        let count = handles.len() - start;
        let rest = C::arming() + component.correction(world);
        lemma_first_absent(handles, start as nat, world);
        if events.len() > count {
            lemma_lookups(component, world, events, count - 1);
            assert(action_at(component, events, count - 1) == Some(
                Action::Find(handles[start + count - 1]),
            ));
            lemma_advance(component, world, events, count - 1);
            assert(events[count] is Found);
            component.lemma_resolution(events[count], (handles.len() - 1) as nat, world);
            component.resolving((handles.len() - 1) as nat).lemma_life_cycle(events[count]);
            component.lemma_correction(world, events, count);
        } else {
            lemma_lookups(component, world, events, events.len() - 1);
        }
        assert forall|i: int| 0 <= i < events.len() implies #[trigger] action_at(component, events, i)
            == entry(looked + rest, i) by {
            if i < count {
                assert((looked + rest)[i] == looked[i]);
            } else {
                assert(entry(looked + rest, i) == entry(rest, i - count));
            }
        }
    }
}

/// No frame goes on past its script: once the component has asked for the last
/// action and has had its outcome, it is done.
pub proof fn theorem_frame_ends<C: Corrects>(component: C, world: Snapshot, events: Seq<Event>)
    requires
        is_frame(component, world, events),
    ensures
        events.len() <= frame(component, world).len() + 1,
{
    let script = frame(component, world);
    theorem_frame(component, world, events);
    if events.len() > script.len() + 1 {
        let past = script.len() as int;
        assert(action_at(component, events, past) == entry(script, past));
        lemma_advance(component, world, events, past);
    }
}

/// Where a frame leaves the resolution. After a frame that has run to its end,
/// the variables resolved are those up to the first that cannot be resolved:
/// all of them, and the component initialized, if every one can.
pub proof fn theorem_frame_resolves<C: Corrects>(component: C, world: Snapshot, events: Seq<Event>)
    requires
        is_frame(component, world, events),
        events.len() == frame(component, world).len() + 1,
    ensures
        run(component, events).resolved() == first_absent(C::handles(), component.resolved(), world),
        run(component, events).initialized() <==> first_absent(
            C::handles(),
            component.resolved(),
            world,
        ) == C::handles().len(),
{
    let handles = C::handles();
    let start = component.resolved() as int;
    let n = events.len() as int;
    let after = run(component, events);
    component.lemma_life_cycle(Event::Begin);
    after.lemma_life_cycle(Event::Begin);
    lemma_first_absent(handles, start as nat, world);
    lemma_frame_begins(component, world, events);
    if component.initialized() {
        law_initialized_for_good(component, events);
    } else if first_absent(handles, start as nat, world) < handles.len() {
        let last = first_absent(handles, start as nat, world) - start;
        let waiting = component.resolving((start + last) as nat);
        lemma_lookups(component, world, events, last);
        assert(action_at(component, events, last) == Some(Action::Find(handles[start + last])));
        lemma_advance(component, world, events, last);
        lemma_advance(component, world, events, last + 1);
        component.lemma_resolution(events[last + 1], (start + last) as nat, world);
        waiting.lemma_life_cycle(events[last + 1]);
        assert(events.take(n) =~= events);
    } else {
        let count = handles.len() - start;
        let waiting = component.resolving((handles.len() - 1) as nat);
        lemma_lookups(component, world, events, count - 1);
        assert(action_at(component, events, count - 1) == Some(
            Action::Find(handles[start + count - 1]),
        ));
        lemma_advance(component, world, events, count - 1);
        lemma_advance(component, world, events, count);
        component.lemma_resolution(events[count], (handles.len() - 1) as nat, world);
        lemma_run_split(component, events, count + 1);
        law_initialized_for_good(run(component, events.take(count + 1)), events.skip(count + 1));
    }
}

} // verus!
