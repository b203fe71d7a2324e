use polako::filter::{active_filter, bypass_filter_system, FilterCommand, PointerFilter};
use polako::pointer::{
    pointer_input_system, ActivePointerFilter, HoverNode, PointerFrame, PointerInput,
    PointerInputData, PointerSystemState,
};

type Pos = (f32, f32);

fn node(entity: u64, filter: Option<ActivePointerFilter>) -> HoverNode {
    HoverNode { entity, filter }
}

fn frame(clicked: bool, released: bool, moved: bool, drag_elapsed: bool, hovered: Vec<HoverNode>) -> PointerFrame {
    PointerFrame { clicked, released, moved, drag_elapsed, hovered }
}

fn kind(d: &PointerInputData) -> &'static str {
    match d {
        PointerInputData::Up => "up",
        PointerInputData::Down => "down",
        PointerInputData::Motion => "motion",
        PointerInputData::DragStart => "drag_start",
        PointerInputData::Drag => "drag",
        PointerInputData::DragStop => "drag_stop",
        PointerInputData::Hover => "hover",
        PointerInputData::Focus => "focus",
    }
}

fn kinds(events: &[PointerInput<Pos>]) -> Vec<(u64, &'static str)> {
    events.iter().map(|e| (e.entity, kind(&e.data))).collect()
}

const P: Pos = (10.0, 20.0);

#[test]
fn press_reaches_filtered_nodes_up_to_the_first_block() {
    let mut state = PointerSystemState::default();
    let hovered = vec![
        node(1, Some(ActivePointerFilter::Pass)),
        node(2, None),
        node(3, Some(ActivePointerFilter::Block)),
        node(4, Some(ActivePointerFilter::Pass)),
    ];
    let events = pointer_input_system(&mut state, &frame(true, false, false, false, hovered), Some(P));
    assert_eq!(kinds(&events), vec![(1, "down"), (3, "down")]);
    assert!(events.iter().all(|e| e.position() == P));
    assert_eq!(state.pressed_entities(), vec![1, 3]);
    assert!(!state.dragging());
}

#[test]
fn press_then_release_sends_down_then_up_and_resets() {
    let mut state = PointerSystemState::default();
    let hovered = vec![node(7, Some(ActivePointerFilter::Pass))];
    let down = pointer_input_system(&mut state, &frame(true, false, false, false, hovered.clone()), Some(P));
    assert_eq!(kinds(&down), vec![(7, "down")]);
    assert_eq!(state.pressed_entities(), vec![7]);
    let up = pointer_input_system(&mut state, &frame(false, true, false, false, hovered), Some(P));
    assert_eq!(kinds(&up), vec![(7, "up")]);
    assert_eq!(state.pressed_entities(), Vec::<u64>::new());
    assert!(!state.dragging());
}

#[test]
fn no_cursor_no_events_and_release_keeps_state() {
    let mut state = PointerSystemState::default();
    let hovered = vec![node(7, Some(ActivePointerFilter::Pass)), node(8, Some(ActivePointerFilter::Pass))];
    let events = pointer_input_system::<Pos>(&mut state, &frame(true, false, true, false, hovered.clone()), None);
    assert!(events.is_empty());
    assert_eq!(state.pressed_entities(), vec![7, 8]);
    // A release seen without a cursor position takes the reached entities
    // out but does not reset the rest.
    let events = pointer_input_system::<Pos>(&mut state, &frame(false, true, false, false, vec![hovered[0]]), None);
    assert!(events.is_empty());
    assert_eq!(state.pressed_entities(), vec![8]);
}

#[test]
fn motion_without_press() {
    let mut state = PointerSystemState::default();
    let hovered = vec![node(1, Some(ActivePointerFilter::Pass)), node(2, Some(ActivePointerFilter::Pass))];
    let events = pointer_input_system(&mut state, &frame(false, false, true, false, hovered), Some(P));
    assert_eq!(kinds(&events), vec![(1, "motion"), (2, "motion")]);
}

#[test]
fn nodes_without_filter_get_nothing() {
    let mut state = PointerSystemState::default();
    let hovered = vec![node(1, None), node(2, None)];
    let events = pointer_input_system(&mut state, &frame(true, false, true, false, hovered), Some(P));
    assert!(events.is_empty());
    assert!(state.pressed_entities().is_empty());
}

#[test]
fn drag_starts_after_the_delay_then_drags_then_stops() {
    let mut state = PointerSystemState::default();
    let h = vec![node(5, Some(ActivePointerFilter::Block)), node(6, Some(ActivePointerFilter::Pass))];
    let events = pointer_input_system(&mut state, &frame(true, false, false, false, h.clone()), Some(P));
    assert_eq!(kinds(&events), vec![(5, "down")]);
    // Delay not yet over: motion only.
    let events = pointer_input_system(&mut state, &frame(false, false, true, false, h.clone()), Some(P));
    assert_eq!(kinds(&events), vec![(5, "motion")]);
    assert!(!state.dragging());
    // Delay over: the drag starts from the pressed entity, and the moving
    // pointer drags.
    let events = pointer_input_system(&mut state, &frame(false, false, true, true, h.clone()), Some(P));
    assert_eq!(kinds(&events), vec![(5, "drag_start"), (5, "drag")]);
    assert!(state.dragging());
    // A drag starts once per press.
    let events = pointer_input_system(&mut state, &frame(false, false, true, true, h.clone()), Some(P));
    assert_eq!(kinds(&events), vec![(5, "drag")]);
    // Release: drag stop to the reached node, then up; everything resets.
    let events = pointer_input_system(&mut state, &frame(false, true, true, true, h), Some(P));
    assert_eq!(kinds(&events), vec![(5, "drag_stop"), (5, "up")]);
    assert!(!state.dragging());
    assert!(state.pressed_entities().is_empty());
}

#[test]
fn drag_start_needs_a_pressed_entity() {
    let mut state = PointerSystemState::default();
    let h = vec![node(5, Some(ActivePointerFilter::Pass))];
    let events = pointer_input_system(&mut state, &frame(false, false, true, true, h), Some(P));
    assert_eq!(kinds(&events), vec![(5, "motion")]);
    assert!(!state.dragging());
}

#[test]
fn press_and_release_in_one_frame() {
    let mut state = PointerSystemState::default();
    let h = vec![node(3, Some(ActivePointerFilter::Pass))];
    let events = pointer_input_system(&mut state, &frame(true, true, false, false, h), Some(P));
    assert_eq!(kinds(&events), vec![(3, "down"), (3, "up")]);
    assert!(state.pressed_entities().is_empty());
}

#[test]
fn release_elsewhere_keeps_nothing_pressed() {
    let mut state = PointerSystemState::default();
    let a = vec![node(1, Some(ActivePointerFilter::Pass))];
    let b = vec![node(2, Some(ActivePointerFilter::Pass))];
    pointer_input_system(&mut state, &frame(true, false, false, false, a), Some(P));
    let events = pointer_input_system(&mut state, &frame(false, true, false, false, b), Some(P));
    assert_eq!(kinds(&events), vec![(2, "up")]);
    assert!(state.pressed_entities().is_empty());
}

#[test]
fn event_predicates() {
    let all = [
        PointerInputData::Up,
        PointerInputData::Down,
        PointerInputData::Motion,
        PointerInputData::DragStart,
        PointerInputData::Drag,
        PointerInputData::DragStop,
        PointerInputData::Hover,
        PointerInputData::Focus,
    ];
    for d in all {
        let e = PointerInput { entity: 9, position: P, data: d };
        let flags = [e.up(), e.down(), e.motion(), e.drag_start(), e.drag(), e.drag_stop(), e.hover(), e.focus()];
        assert_eq!(flags.iter().filter(|f| **f).count(), 1);
        assert_eq!(e.position(), P);
    }
    let e = PointerInput { entity: 9, position: P, data: PointerInputData::Hover };
    assert!(e.hover() && !e.focus() && !e.up());
    let e = PointerInput { entity: 9, position: P, data: PointerInputData::DragStop };
    assert!(e.drag_stop() && !e.drag() && !e.drag_start());
}

#[test]
fn filter_settings() {
    let mut f = PointerFilter::default();
    assert!(matches!(f.pointer_filter(), PointerFilter::Default));
    f.set_pointer_filter(PointerFilter::Block);
    assert!(matches!(f.pointer_filter(), PointerFilter::Block));
    assert!(matches!(active_filter(PointerFilter::Pass), Some(ActivePointerFilter::Pass)));
    assert!(matches!(active_filter(PointerFilter::Block), Some(ActivePointerFilter::Block)));
    assert!(active_filter(PointerFilter::Default).is_none());
    assert!(active_filter(PointerFilter::Ignore).is_none());
}

#[test]
fn bypass_filter_commands() {
    let changed = vec![
        (1, PointerFilter::Pass),
        (2, PointerFilter::Ignore),
        (3, PointerFilter::Block),
        (4, PointerFilter::Default),
    ];
    let cmds = bypass_filter_system(&changed);
    assert_eq!(cmds.len(), 4);
    assert!(matches!(cmds[0], FilterCommand::Insert { entity: 1, filter: ActivePointerFilter::Pass }));
    assert!(matches!(cmds[1], FilterCommand::Remove { entity: 2 }));
    assert!(matches!(cmds[2], FilterCommand::Insert { entity: 3, filter: ActivePointerFilter::Block }));
    assert!(matches!(cmds[3], FilterCommand::Remove { entity: 4 }));
}

#[test]
fn nodes_behind_a_block_make_no_difference() {
    let front = vec![node(1, Some(ActivePointerFilter::Pass)), node(2, Some(ActivePointerFilter::Block))];
    let mut full = front.clone();
    full.push(node(3, Some(ActivePointerFilter::Pass)));
    full.push(node(4, Some(ActivePointerFilter::Block)));
    let mut a = PointerSystemState::default();
    let mut b = PointerSystemState::default();
    let ea = pointer_input_system(&mut a, &frame(true, false, true, false, front), Some(P));
    let eb = pointer_input_system(&mut b, &frame(true, false, true, false, full), Some(P));
    assert_eq!(kinds(&ea), kinds(&eb));
    assert_eq!(kinds(&ea), vec![(1, "down"), (2, "down"), (1, "motion"), (2, "motion")]);
    assert_eq!(a.pressed_entities(), b.pressed_entities());
}

#[test]
fn repeated_press_of_the_same_entity() {
    let mut state = PointerSystemState::default();
    let h = vec![node(1, Some(ActivePointerFilter::Pass))];
    pointer_input_system::<Pos>(&mut state, &frame(true, false, false, false, h.clone()), None);
    pointer_input_system::<Pos>(&mut state, &frame(true, false, false, false, h.clone()), None);
    assert_eq!(state.pressed_entities(), vec![1, 1]);
    // Pressed again and released in one frame without a cursor: added at
    // the end, then its first occurrence taken out.
    pointer_input_system::<Pos>(&mut state, &frame(true, true, false, false, h), None);
    assert_eq!(state.pressed_entities(), vec![1, 1]);
}
