use trackpad_pointer::trackpad::{TouchLimits, TouchTable, TrackedTouchState, TrackpadDefinition, TrackpadState, TrackpadAction, TrackpadActor};
use trackpad_pointer::trackpad_behavior::{initialize_trackpad, AxisCode, ButtonCode, Notifiable, TrackpadEvent};

fn limits_100() -> TouchLimits {
    TouchLimits::new(0, 100, 0, 100, 0, 100)
}

fn fresh_definition(slotable: bool) -> TrackpadDefinition {
    let slot = if slotable { -1 } else { 0 };
    let state = TrackpadState::new(false, false, false, false, slot, TouchTable::new(), limits_100());
    TrackpadDefinition::new(
        "pad".to_string(),
        "/dev/input/by-path/pad".to_string(),
        "phys0".to_string(),
        slotable,
        true,
        true,
        state,
    )
}

#[test]
fn table_insert_get_remove() {
    let mut table = TouchTable::new();
    assert_eq!(table.get(0), None);
    table.insert(0, TrackedTouchState::new(1, 2, 3));
    table.insert(4, TrackedTouchState::new(9, 9, 9));
    assert_eq!(table.get(0), Some(TrackedTouchState::new(1, 2, 3)));
    assert_eq!(table.get(4), Some(TrackedTouchState::new(9, 9, 9)));
    table.insert(0, TrackedTouchState::new(7, 8, 9));
    assert_eq!(table.get(0), Some(TrackedTouchState::new(7, 8, 9)));
    table.remove(0);
    assert_eq!(table.get(0), None);
    assert_eq!(table.get(4), Some(TrackedTouchState::new(9, 9, 9)));
    table.remove(11);
    assert_eq!(table.get(4), Some(TrackedTouchState::new(9, 9, 9)));
}

#[test]
fn axis_updates_build_record() {
    let mut def = fresh_definition(true);
    def.notify(TrackpadEvent::Axis(AxisCode::SlotSelect, 3));
    assert_eq!(def.state.slot, 3);
    def.notify(TrackpadEvent::Axis(AxisCode::SlotPositionX, 10));
    def.notify(TrackpadEvent::Axis(AxisCode::SlotPositionY, 20));
    def.notify(TrackpadEvent::Axis(AxisCode::Pressure, 30));
    assert_eq!(def.state.touches.get(3), Some(TrackedTouchState::new(10, 20, 30)));
}

#[test]
fn single_touch_device_uses_slot_zero() {
    let mut def = fresh_definition(false);
    def.notify(TrackpadEvent::Axis(AxisCode::X, 42));
    def.notify(TrackpadEvent::Axis(AxisCode::Y, 17));
    assert_eq!(def.state.touches.get(0), Some(TrackedTouchState::new(42, 17, 0)));
}

#[test]
fn axis_dropped_without_current_slot() {
    let mut def = fresh_definition(true);
    assert_eq!(def.state.slot, -1);
    def.notify(TrackpadEvent::Axis(AxisCode::X, 42));
    assert_eq!(def.state.touches.get(-1), None);
    assert_eq!(def.state.touches.get(0), None);
}

#[test]
fn slot_isolation_between_two_slots() {
    let mut def = fresh_definition(true);
    def.notify(TrackpadEvent::Axis(AxisCode::SlotSelect, 0));
    def.notify(TrackpadEvent::Axis(AxisCode::SlotPositionX, 10));
    def.notify(TrackpadEvent::Axis(AxisCode::SlotSelect, 1));
    def.notify(TrackpadEvent::Axis(AxisCode::SlotPositionX, 90));
    def.notify(TrackpadEvent::Axis(AxisCode::Pressure, 55));
    assert_eq!(def.state.touches.get(0), Some(TrackedTouchState::new(10, 0, 0)));
    assert_eq!(def.state.touches.get(1), Some(TrackedTouchState::new(90, 0, 55)));
}

#[test]
fn slot_select_negative_removes_current_slot() {
    let mut def = fresh_definition(true);
    def.notify(TrackpadEvent::Axis(AxisCode::SlotSelect, 0));
    def.notify(TrackpadEvent::Axis(AxisCode::SlotPositionX, 10));
    assert!(def.state.touches.get(0).is_some());
    def.notify(TrackpadEvent::Axis(AxisCode::SlotSelect, -1));
    assert_eq!(def.state.touches.get(0), None);
    assert_eq!(def.state.slot, 0);
}

#[test]
fn tracking_id_negative_lifts_finger() {
    let mut def = fresh_definition(true);
    def.notify(TrackpadEvent::Axis(AxisCode::SlotSelect, 2));
    def.notify(TrackpadEvent::Axis(AxisCode::Pressure, 60));
    assert!(def.state.touches.get(2).is_some());
    def.notify(TrackpadEvent::Axis(AxisCode::SlotTrackingId, -1));
    assert_eq!(def.state.touches.get(2), None);
}

#[test]
fn button_events_set_booleans() {
    let mut def = fresh_definition(true);
    def.notify(TrackpadEvent::Button(ButtonCode::Left, 1));
    def.notify(TrackpadEvent::Button(ButtonCode::Right, 2));
    def.notify(TrackpadEvent::Button(ButtonCode::Middle, 1));
    def.notify(TrackpadEvent::Button(ButtonCode::Touch, 1));
    assert!(def.state.left && def.state.right && def.state.middle && def.state.touching);
    def.notify(TrackpadEvent::Button(ButtonCode::Left, 0));
    def.notify(TrackpadEvent::Button(ButtonCode::Touch, 0));
    assert!(!def.state.left && def.state.right && def.state.middle && !def.state.touching);
    def.notify(TrackpadEvent::Button(ButtonCode::Other, 1));
    assert!(!def.state.left && def.state.right && def.state.middle && !def.state.touching);
}

#[test]
fn unknown_axis_ignored() {
    let mut def = fresh_definition(true);
    def.notify(TrackpadEvent::Axis(AxisCode::SlotSelect, 0));
    def.notify(TrackpadEvent::Axis(AxisCode::Other, 123));
    assert_eq!(def.state.touches.get(0), None);
    assert_eq!(def.state.slot, 0);
}

#[test]
fn initialize_trackpad_pins_slot() {
    let slotable = initialize_trackpad(
        "pad".to_string(),
        "/dev/input/event7".to_string(),
        "phys".to_string(),
        true,
        true,
        true,
        limits_100(),
        trackpad_pointer::trackpad::TrackpadNullAction {},
    );
    assert_eq!(slotable.definition.state.slot, -1);
    assert!(!slotable.definition.state.left);
    let single = initialize_trackpad(
        "pad".to_string(),
        "/dev/input/event7".to_string(),
        "phys".to_string(),
        false,
        false,
        false,
        limits_100(),
        trackpad_pointer::trackpad::TrackpadNullAction {},
    );
    assert_eq!(single.definition.state.slot, 0);
    assert_eq!(single.definition.name, "pad".to_string());
}

#[test]
fn default_actor_is_idle() {
    let actor: TrackpadActor<trackpad_pointer::trackpad::TrackpadNullAction> = Default::default();
    assert_eq!(actor.definition.state.slot, 0);
    assert_eq!(actor.definition.name, String::new());
    assert!(!actor.definition.slotable);
    assert!(!actor.definition.state.left);
    assert_eq!(actor.definition.state.touches.get(0), None);
    assert_eq!(TrackedTouchState::default(), TrackedTouchState::new(0, 0, 0));
    assert_eq!(TouchLimits::default(), TouchLimits::new(0, 0, 0, 0, 0, 0));
}

struct CountingAction {
    frames: usize,
    last_left: bool,
}

impl TrackpadAction for CountingAction {
    fn act(&mut self, definition: &TrackpadDefinition) {
        self.frames += 1;
        self.last_left = definition.state.left;
    }
}

#[test]
fn sync_invokes_action_and_keeps_state() {
    let state = TrackpadState::new(true, false, false, false, -1, TouchTable::new(), limits_100());
    let def = TrackpadDefinition::new(
        "pad".to_string(),
        "log".to_string(),
        "phys".to_string(),
        true,
        true,
        true,
        state,
    );
    let mut actor = TrackpadActor::new(def, CountingAction { frames: 0, last_left: false });
    actor.notify(TrackpadEvent::Sync);
    actor.notify(TrackpadEvent::Sync);
    assert_eq!(actor.action.frames, 2);
    assert!(actor.action.last_left);
    assert!(actor.definition.state.left);
    assert_eq!(actor.definition.state.slot, -1);
}

#[test]
fn non_sync_routed_to_definition() {
    let mut actor = TrackpadActor::new(fresh_definition(true), CountingAction { frames: 0, last_left: false });
    actor.notify(TrackpadEvent::Button(ButtonCode::Left, 1));
    assert_eq!(actor.action.frames, 0);
    assert!(actor.definition.state.left);
    actor.notify(TrackpadEvent::Other);
    assert!(actor.definition.state.left);
}
