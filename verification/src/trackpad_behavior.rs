//! The frame dispatcher: classifies each incoming event as a frame
//! boundary, a button change, or an axis update, and routes it into the
//! trackpad state. On a frame boundary the injected action receives the
//! completed snapshot.

use vstd::prelude::*;

use crate::trackpad::TouchLimits;
use crate::trackpad::TrackedTouchState;
use crate::trackpad::TrackpadAction;
use crate::trackpad::TrackpadActor;
use crate::trackpad::TrackpadDefinition;
use crate::trackpad::TrackpadState;
use crate::trackpad::TouchTable;

verus! {

/// Physical-button codes carried by key events.
#[derive(Clone, Copy, Debug, PartialEq, Eq, Structural)]
pub enum ButtonCode {
    Touch,
    Left,
    Right,
    Middle,
    Other,
}

/// Axis codes carried by absolute-axis events.
#[derive(Clone, Copy, Debug, PartialEq, Eq, Structural)]
pub enum AxisCode {
    X,
    Y,
    Pressure,
    SlotPositionX,
    SlotPositionY,
    SlotSelect,
    SlotTrackingId,
    Other,
}

/// One event of the input stream, already classified by kind.
#[derive(Clone, Copy, Debug, PartialEq, Eq, Structural)]
pub enum TrackpadEvent {
    Sync,
    Button(ButtonCode, i32),
    Axis(AxisCode, i32),
    Other,
}

/// Anything that consumes raw events one at a time.
pub trait Notifiable<T> {
    fn notify(&mut self, event: T);
}

/// A touch record after one axis update has been applied to it.
pub open spec fn record_after_axis(rec: TrackedTouchState, code: AxisCode, value: i32) -> TrackedTouchState {
    match code {
        AxisCode::X | AxisCode::SlotPositionX => TrackedTouchState { x: value, y: rec.y, p: rec.p },
        AxisCode::Y | AxisCode::SlotPositionY => TrackedTouchState { x: rec.x, y: value, p: rec.p },
        AxisCode::Pressure => TrackedTouchState { x: rec.x, y: rec.y, p: value },
        _ => rec,
    }
}

/// A touch record after one event of any kind: only axis events touch it.
pub open spec fn record_after_event(rec: TrackedTouchState, event: TrackpadEvent) -> TrackedTouchState {
    match event {
        TrackpadEvent::Axis(code, value) => record_after_axis(rec, code, value),
        _ => rec,
    }
}

/// The slot cursor after one axis event: only a nonnegative slot-select
/// value moves it.
pub open spec fn slot_after_axis(slot: i32, code: AxisCode, value: i32) -> i32 {
    if code == AxisCode::SlotSelect && value >= 0 {
        value
    } else {
        slot
    }
}

/// The record an axis update starts from: the one tracked in the slot,
/// or a zero-valued record for a slot not yet tracked.
pub open spec fn stored_or_fresh(touches: Map<i32, TrackedTouchState>, slot: i32) -> TrackedTouchState {
    if touches.contains_key(slot) {
        touches[slot]
    } else {
        TrackedTouchState { x: 0, y: 0, p: 0 }
    }
}

/// The touch table after one axis event. Position and pressure updates
/// apply to the current slot, creating its record when absent, and are
/// dropped when no slot is current. A negative slot-select or
/// tracking-id value removes the current slot's record.
pub open spec fn touches_after_axis(
    slot: i32,
    touches: Map<i32, TrackedTouchState>,
    code: AxisCode,
    value: i32,
) -> Map<i32, TrackedTouchState> {
    match code {
        AxisCode::X | AxisCode::Y | AxisCode::Pressure | AxisCode::SlotPositionX
            | AxisCode::SlotPositionY => if slot >= 0 {
            touches.insert(slot, record_after_axis(stored_or_fresh(touches, slot), code, value))
        } else {
            touches
        },
        AxisCode::SlotSelect | AxisCode::SlotTrackingId => if value < 0 && slot >= 0 {
            touches.remove(slot)
        } else {
            touches
        },
        AxisCode::Other => touches,
    }
}

/// Full state transition for one axis event.
pub open spec fn axis_transition(pre: TrackpadState, post: TrackpadState, code: AxisCode, value: i32) -> bool {
    &&& post.left == pre.left
    &&& post.right == pre.right
    &&& post.middle == pre.middle
    &&& post.touching == pre.touching
    &&& post.touch_limits == pre.touch_limits
    &&& post.slot == slot_after_axis(pre.slot, code, value)
    &&& post.touches@ == touches_after_axis(pre.slot, pre.touches@, code, value)
}

/// Full state transition for one button event: the named boolean takes
/// `value != 0`, everything else is untouched.
pub open spec fn button_transition(pre: TrackpadState, post: TrackpadState, code: ButtonCode, value: i32) -> bool {
    &&& post.touching == (if code == ButtonCode::Touch { value != 0 } else { pre.touching })
    &&& post.left == (if code == ButtonCode::Left { value != 0 } else { pre.left })
    &&& post.right == (if code == ButtonCode::Right { value != 0 } else { pre.right })
    &&& post.middle == (if code == ButtonCode::Middle { value != 0 } else { pre.middle })
    &&& post.slot == pre.slot
    &&& post.touches == pre.touches
    &&& post.touch_limits == pre.touch_limits
}

/// Transition of a whole definition under one event: the device metadata
/// never changes, and the state moves as the event kind dictates. Frame
/// boundaries are handled by the actor, not here, so they leave the
/// state untouched.
pub open spec fn definition_transition(pre: TrackpadDefinition, post: TrackpadDefinition, event: TrackpadEvent) -> bool {
    &&& post.name == pre.name
    &&& post.log_path == pre.log_path
    &&& post.phy_path == pre.phy_path
    &&& post.slotable == pre.slotable
    &&& post.touchable == pre.touchable
    &&& post.pressurable == pre.pressurable
    &&& match event {
        TrackpadEvent::Button(code, value) => button_transition(pre.state, post.state, code, value),
        TrackpadEvent::Axis(code, value) => axis_transition(pre.state, post.state, code, value),
        TrackpadEvent::Sync | TrackpadEvent::Other => post.state == pre.state,
    }
}

impl Notifiable<TrackpadEvent> for TrackedTouchState {
    fn notify(&mut self, event: TrackpadEvent)
        ensures
            *final(self) == record_after_event(*old(self), event),
    {
        match event {
            TrackpadEvent::Axis(code, value) => match code {
                AxisCode::X | AxisCode::SlotPositionX => self.x = value,
                AxisCode::Y | AxisCode::SlotPositionY => self.y = value,
                AxisCode::Pressure => self.p = value,
                _ => {},
            },
            _ => {},
        }
    }
}

impl Notifiable<TrackpadEvent> for TrackpadDefinition {
    fn notify(&mut self, event: TrackpadEvent)
        ensures
            definition_transition(*old(self), *final(self), event),
    {
        match event {
            TrackpadEvent::Button(code, value) => match code {
                ButtonCode::Touch => self.state.touching = value != 0,
                ButtonCode::Left => self.state.left = value != 0,
                ButtonCode::Right => self.state.right = value != 0,
                ButtonCode::Middle => self.state.middle = value != 0,
                ButtonCode::Other => {},
            },
            TrackpadEvent::Axis(code, value) => match code {
                AxisCode::X | AxisCode::Y | AxisCode::Pressure | AxisCode::SlotPositionX
                    | AxisCode::SlotPositionY => {
                    if self.state.slot >= 0 {
                        let mut rec = match self.state.touches.get(self.state.slot) {
                            Some(r) => r,
                            None => TrackedTouchState::new(0, 0, 0),
                        };
                        rec.notify(event);
                        self.state.touches.insert(self.state.slot, rec);
                    }
                },
                AxisCode::SlotSelect => {
                    if value < 0 {
                        if self.state.slot >= 0 {
                            self.state.touches.remove(self.state.slot);
                        }
                    } else {
                        self.state.slot = value;
                    }
                },
                AxisCode::SlotTrackingId => {
                    if value < 0 && self.state.slot >= 0 {
                        self.state.touches.remove(self.state.slot);
                    }
                },
                AxisCode::Other => {},
            },
            _ => {},
        }
    }
}

impl<A: TrackpadAction> Notifiable<TrackpadEvent> for TrackpadActor<A> {
    fn notify(&mut self, event: TrackpadEvent)
        ensures
            event == TrackpadEvent::Sync ==> final(self).definition == old(self).definition,
            event != TrackpadEvent::Sync ==> definition_transition(
                old(self).definition,
                final(self).definition,
                event,
            ),
    {
        match event {
            TrackpadEvent::Sync => {
                self.action.act(&self.definition);
            },
            _ => {
                self.definition.notify(event);
            },
        }
    }
}

/// Build a freshly initialized actor from the device metadata acquired
/// at startup: all buttons released, no touches, and the slot cursor
/// parked at -1 for a slot-capable device, pinned to 0 otherwise so that
/// single-touch streams without slot events still track their finger.
pub fn initialize_trackpad<A: TrackpadAction>(
    name: String,
    log_path: String,
    phy_path: String,
    slotable: bool,
    touchable: bool,
    pressurable: bool,
    limits: TouchLimits,
    action: A,
) -> (t: TrackpadActor<A>)
    ensures
        t.definition.name == name,
        t.definition.log_path == log_path,
        t.definition.phy_path == phy_path,
        t.definition.slotable == slotable,
        t.definition.touchable == touchable,
        t.definition.pressurable == pressurable,
        t.definition.state.left == false,
        t.definition.state.right == false,
        t.definition.state.middle == false,
        t.definition.state.touching == false,
        t.definition.state.slot == (if slotable { -1i32 } else { 0i32 }),
        t.definition.state.touches@ == Map::<i32, TrackedTouchState>::empty(),
        t.definition.state.touch_limits == limits,
        t.action == action,
{
    let slot: i32 = if slotable { -1 } else { 0 };
    let state = TrackpadState::new(false, false, false, false, slot, TouchTable::new(), limits);
    let definition = TrackpadDefinition::new(
        name,
        log_path,
        phy_path,
        slotable,
        touchable,
        pressurable,
        state,
    );
    TrackpadActor::new(definition, action)
}

/// Law: an axis event only ever touches the current slot's record; any
/// other slot keeps both its presence in the table and its value.
pub proof fn lemma_slot_isolation(
    slot: i32,
    touches: Map<i32, TrackedTouchState>,
    code: AxisCode,
    value: i32,
    other: i32,
)
    requires
        other != slot,
    ensures
        touches_after_axis(slot, touches, code, value).contains_key(other)
            == touches.contains_key(other),
        touches.contains_key(other) ==> touches_after_axis(slot, touches, code, value)[other]
            == touches[other],
{
}

/// The slot cursor after a whole run of axis events.
pub open spec fn slot_after_axis_events(slot: i32, events: Seq<(AxisCode, i32)>) -> i32
    decreases events.len(),
{
    if events.len() == 0 {
        slot
    } else {
        slot_after_axis(
            slot_after_axis_events(slot, events.drop_last()),
            events.last().0,
            events.last().1,
        )
    }
}

/// The touch table after a whole run of axis events.
pub open spec fn touches_after_axis_events(
    slot: i32,
    touches: Map<i32, TrackedTouchState>,
    events: Seq<(AxisCode, i32)>,
) -> Map<i32, TrackedTouchState>
    decreases events.len(),
{
    if events.len() == 0 {
        touches
    } else {
        touches_after_axis(
            slot_after_axis_events(slot, events.drop_last()),
            touches_after_axis_events(slot, touches, events.drop_last()),
            events.last().0,
            events.last().1,
        )
    }
}

/// Law: over any interleaving of axis events, a slot that is never
/// selected keeps its record untouched; events attributed to other
/// slots never mutate it.
pub proof fn lemma_slot_isolation_stream(
    slot: i32,
    touches: Map<i32, TrackedTouchState>,
    events: Seq<(AxisCode, i32)>,
    k: i32,
)
    requires
        slot != k,
        forall|i: int|
            0 <= i < events.len() ==> !((#[trigger] events[i]).0 == AxisCode::SlotSelect
                && events[i].1 == k),
    ensures
        slot_after_axis_events(slot, events) != k,
        touches_after_axis_events(slot, touches, events).contains_key(k) == touches.contains_key(
            k,
        ),
        touches.contains_key(k) ==> touches_after_axis_events(slot, touches, events)[k]
            == touches[k],
    decreases events.len(),
{
    if events.len() > 0 {
        assert forall|i: int| 0 <= i < events.drop_last().len() implies !((#[trigger] events
            .drop_last()[i]).0 == AxisCode::SlotSelect && events.drop_last()[i].1 == k) by {
            assert(events.drop_last()[i] == events[i]);
        }
        lemma_slot_isolation_stream(slot, touches, events.drop_last(), k);
        let pre_slot = slot_after_axis_events(slot, events.drop_last());
        let pre_touches = touches_after_axis_events(slot, touches, events.drop_last());
        assert(events[events.len() - 1] == events.last());
        lemma_slot_isolation(pre_slot, pre_touches, events.last().0, events.last().1, k);
    }
}

/// Law: a tracking-id event with a negative value while a slot is
/// current removes that slot's record from the table.
pub proof fn lemma_lift_removes_record(slot: i32, touches: Map<i32, TrackedTouchState>, value: i32)
    requires
        value < 0,
        slot >= 0,
    ensures
        !touches_after_axis(slot, touches, AxisCode::SlotTrackingId, value).contains_key(slot),
        touches_after_axis(slot, touches, AxisCode::SlotTrackingId, value) == touches.remove(slot),
{
}

} // verus!
