//! What every correction component has in common.
//!
//! A component needs a fixed list of simulator variables. It resolves them in
//! order, one lookup at a time, and gives up for the frame at the first lookup
//! that fails; what was resolved stays resolved. Once the last one is resolved
//! the component is initialized for good and applies its correction rule in
//! every frame, the frame of the last lookup included.

use crate::dataref::DataRefId;
use crate::frame::entry;
use crate::frame::is_frame;
use crate::frame::Snapshot;
use crate::protocol::Action;
use crate::protocol::Event;
use vstd::prelude::*;

verus! {

/// A correction component, as a state machine that the host adapter drives.
pub trait PluginComponent: Sized {
    /// The variables that the component needs, in the order in which it resolves
    /// them.
    spec fn handles() -> Seq<DataRefId>;

    /// How many of them, counted from the first, are resolved.
    spec fn resolved(&self) -> nat;

    /// Whether every variable is resolved.
    spec fn initialized(&self) -> bool;

    /// The state after `event`, and the action asked for in answer to it.
    spec fn step(self, event: Event) -> (Self, Option<Action>);

    /// Whether every variable is resolved, so that the correction rule runs.
    fn is_initialized(&self) -> (r: bool)
        ensures
            r == self.initialized(),
    ;

    /// Takes in the outcome of the previous action (or the start of a frame) and
    /// returns the next action, or `None` when the component is done for this
    /// frame.
    fn update(&mut self, event: Event) -> (action: Option<Action>)
        ensures
            (*final(self), action) == old(self).step(event),
    ;

    /// The rules of the life cycle, which hold of every step from every state.
    proof fn lemma_life_cycle(self, event: Event)
        ensures
            self.resolved() <= Self::handles().len(),
            self.initialized() <==> self.resolved() == Self::handles().len(),
            // Resolution only ever advances, by one variable per successful lookup.
            self.resolved() <= self.step(event).0.resolved() <= self.resolved() + 1,
            self.step(event).0.resolved() != self.resolved() ==> event is Found,
            // The start of a frame always asks for something.
            event is Begin ==> self.step(event).1 is Some,
            // A failed lookup ends the frame.
            event is Missing ==> self.step(event).1 is None,
            // A lookup is for the first variable that is still unresolved.
            self.step(event).1 matches Some(Action::Find(id)) ==> {
                &&& self.step(event).0.resolved() < Self::handles().len()
                &&& id == Self::handles()[self.step(event).0.resolved() as int]
            },
            // Everything else waits for initialization, and touches only the
            // component's own variables.
            self.step(event).1 matches Some(action) ==> {
                &&& !(action is Find) ==> self.step(event).0.initialized()
                &&& action.uses_handle() ==> {
                    &&& action.spec_target() is Some
                    &&& Self::handles().contains(action.spec_target()->0)
                }
            },
            // A value found within tolerance of its target is left alone.
            event == Event::Verdict(true) ==> !(self.step(event).1 matches Some(action)
                && action.is_write()),
    ;

}

/// The state of `component` after it has taken in `events`, one after the other.
#[verifier::opaque]
pub open spec fn run<C: PluginComponent>(component: C, events: Seq<Event>) -> C
    decreases events.len(),
{
    if events.len() == 0 {
        component
    } else {
        run(component, events.drop_last()).step(events.last()).0
    }
}

/// The action that `component` asks for in answer to the event at `index`.
pub open spec fn action_at<C: PluginComponent>(component: C, events: Seq<Event>, index: int) -> Option<
    Action,
> {
    run(component, events.take(index)).step(events[index]).1
}

/// Taking in one more event is one more step.
pub proof fn lemma_run_extend<C: PluginComponent>(component: C, events: Seq<Event>, count: int)
    requires
        0 <= count < events.len(),
    ensures
        run(component, events.take(count + 1)) == run(component, events.take(count)).step(
            events[count],
        ).0,
{
    reveal(run);
    assert(events.take(count + 1).drop_last() =~= events.take(count));
}

/// Taking in a sequence of events is taking in its first part and then the rest.
pub proof fn lemma_run_split<C: PluginComponent>(component: C, events: Seq<Event>, count: int)
    requires
        0 <= count <= events.len(),
    ensures
        run(component, events) == run(run(component, events.take(count)), events.skip(count)),
    decreases events.len(),
{
    reveal(run);
    if count == events.len() {
        assert(events.take(count) =~= events);
        assert(events.skip(count) =~= Seq::empty());
    } else {
        lemma_run_split(component, events.drop_last(), count);
        assert(events.drop_last().take(count) =~= events.take(count));
        assert(events.drop_last().skip(count) =~= events.skip(count).drop_last());
    }
}

/// Before any event the component is as it was.
pub proof fn lemma_run_start<C: PluginComponent>(component: C, events: Seq<Event>)
    ensures
        run(component, events.take(0)) == component,
{
    reveal(run);
}

/// Initialization is permanent: whatever is reported afterwards, an initialized
/// component stays initialized.
pub proof fn law_initialized_for_good<C: PluginComponent>(component: C, events: Seq<Event>)
    requires
        component.initialized(),
    ensures
        run(component, events).initialized(),
    decreases events.len(),
{
    reveal(run);
    if events.len() > 0 {
        let before = run(component, events.drop_last());
        law_initialized_for_good(component, events.drop_last());
        before.lemma_life_cycle(events.last());
        before.step(events.last()).0.lemma_life_cycle(Event::Begin);
    }
}

/// The number of resolved variables never goes down.
pub proof fn law_resolution_only_advances<C: PluginComponent>(component: C, events: Seq<Event>)
    ensures
        component.resolved() <= run(component, events).resolved(),
    decreases events.len(),
{
    reveal(run);
    if events.len() > 0 {
        law_resolution_only_advances(component, events.drop_last());
        run(component, events.drop_last()).lemma_life_cycle(events.last());
    }
}

/// While no lookup succeeds, a component that is not initialized stays so, and
/// neither reads nor writes any simulator variable.
pub proof fn law_unresolved_stays_silent<C: PluginComponent>(component: C, events: Seq<Event>)
    requires
        !component.initialized(),
        forall|i: int| 0 <= i < events.len() ==> !(#[trigger] events[i] is Found),
    ensures
        !run(component, events).initialized(),
        run(component, events).resolved() == component.resolved(),
        forall|i: int|
            0 <= i < events.len() ==> !(#[trigger] action_at(component, events, i) matches Some(
                action,
            ) && action.uses_handle()),
    decreases events.len(),
{
    reveal(run);
    component.lemma_life_cycle(Event::Begin);
    if events.len() > 0 {
        let shorter = events.drop_last();
        let last = events.len() - 1;
        law_unresolved_stays_silent(component, shorter);
        let before = run(component, shorter);
        before.lemma_life_cycle(events.last());
        before.step(events.last()).0.lemma_life_cycle(Event::Begin);
        assert forall|i: int| 0 <= i < events.len() implies !(#[trigger] action_at(
            component,
            events,
            i,
        ) matches Some(action) && action.uses_handle()) by {
            if i < last {
                assert(events.take(i) =~= shorter.take(i));
                assert(action_at(component, events, i) == action_at(component, shorter, i));
            } else {
                assert(events.take(i) =~= shorter);
            }
        }
    }
}

/// A tolerance comparison that finds the value near its target is never
/// answered with a write.
pub proof fn law_near_target_is_left_alone<C: PluginComponent>(component: C)
    ensures
        !(component.step(Event::Verdict(true)).1 matches Some(action) && action.is_write()),
{
    component.lemma_life_cycle(Event::Verdict(true));
}

/// What a component does over a whole frame, and the proof that its steps add up
/// to it.
pub trait Corrects: PluginComponent {
    /// The component as it waits for the outcome of a lookup, with the given
    /// number of variables resolved.
    spec fn resolving(self, resolved: nat) -> Self;

    /// What the component does once, right after its last variable is resolved.
    spec fn arming() -> Seq<Action>;

    /// The actions by which an initialized component corrects the simulator in
    /// one frame, given what the simulator holds.
    spec fn correction(self, world: Snapshot) -> Seq<Action>;

    /// How resolution proceeds: the start of a frame asks for the first
    /// unresolved variable, and every lookup that succeeds short of the last
    /// asks for the next.
    proof fn lemma_resolution(self, event: Event, resolved: nat, world: Snapshot)
        ensures
            self.resolving(resolved).resolving(resolved) == self.resolving(resolved),
            !self.initialized() && event is Begin ==> self.step(event) == (
                self.resolving(self.resolved()),
                Some(Action::Find(Self::handles()[self.resolved() as int])),
            ),
            resolved < Self::handles().len() ==> self.resolving(resolved).resolved() == resolved,
            resolved + 1 < Self::handles().len() && event is Found ==> self.resolving(resolved).step(
                event,
            ) == (
                self.resolving(resolved + 1),
                Some(Action::Find(Self::handles()[resolved as int + 1])),
            ),
            // The last lookup that succeeds initializes the component.
            resolved + 1 == Self::handles().len() && event is Found ==> self.resolving(
                resolved,
            ).step(event).0.initialized(),
            // Looking things up leaves alone what the correction goes by.
            self.resolving(resolved).correction(world) == self.correction(world),
    ;

    /// How a frame goes on once nothing is left to look up. The event at `base`
    /// is either the start of a frame, handed to an initialized component, or
    /// the success of the last lookup. From there on the component asks for the
    /// actions of the correction, after those of arming in the second case, and
    /// then is done.
    proof fn lemma_correction(self, world: Snapshot, events: Seq<Event>, base: int)
        requires
            is_frame(self, world, events),
            0 <= base < events.len(),
            ({
                let before = run(self, events.take(base));
                ||| before.initialized() && events[base] is Begin
                ||| before == before.resolving((Self::handles().len() - 1) as nat) && events[base]
                    is Found
            }),
        ensures
            ({
                let before = run(self, events.take(base));
                let script = if before.initialized() {
                    before.correction(world)
                } else {
                    Self::arming() + before.correction(world)
                };
                forall|i: int|
                    base <= i < events.len() ==> #[trigger] action_at(self, events, i) == entry(
                        script,
                        i - base,
                    )
            }),
    ;
}

} // verus!
