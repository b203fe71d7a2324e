//! Pointer events and the per-frame pointer state machine.
use vstd::prelude::*;

verus! {

/// What happened to the pointer over an entity.
#[derive(Clone, Copy, Debug)]
pub enum PointerInputData {
    Up,
    Down,
    Motion,
    DragStart,
    Drag,
    DragStop,
    Hover,
    Focus,
}

/// One pointer event: the entity it is for, the cursor position of the
/// frame it was raised in, and what happened.
pub struct PointerInput<P> {
    pub entity: u64,
    pub position: P,
    pub data: PointerInputData,
}

impl<P: Copy> PointerInput<P> {
    /// The cursor position the event was raised at.
    pub fn position(&self) -> (p: P)
        ensures
            p == self.position,
    {
        self.position
    }

    pub fn up(&self) -> (r: bool)
        ensures
            r == (self.data is Up),
    {
        match self.data {
            PointerInputData::Up => true,
            _ => false,
        }
    }

    pub fn down(&self) -> (r: bool)
        ensures
            r == (self.data is Down),
    {
        match self.data {
            PointerInputData::Down => true,
            _ => false,
        }
    }

    pub fn motion(&self) -> (r: bool)
        ensures
            r == (self.data is Motion),
    {
        match self.data {
            PointerInputData::Motion => true,
            _ => false,
        }
    }

    pub fn hover(&self) -> (r: bool)
        ensures
            r == (self.data is Hover),
    {
        match self.data {
            PointerInputData::Hover => true,
            _ => false,
        }
    }

    pub fn focus(&self) -> (r: bool)
        ensures
            r == (self.data is Focus),
    {
        match self.data {
            PointerInputData::Focus => true,
            _ => false,
        }
    }

    pub fn drag_start(&self) -> (r: bool)
        ensures
            r == (self.data is DragStart),
    {
        match self.data {
            PointerInputData::DragStart => true,
            _ => false,
        }
    }

    pub fn drag(&self) -> (r: bool)
        ensures
            r == (self.data is Drag),
    {
        matches!(self.data, PointerInputData::Drag)
    }

    pub fn drag_stop(&self) -> (r: bool)
        ensures
            r == (self.data is DragStop),
    {
        matches!(self.data, PointerInputData::DragStop)
    }
}

/// The filter that is in force on a node: a node without one is passed
/// over by the pointer; `Block` stops the pointer at that node.
#[derive(Clone, Copy, Debug)]
pub enum ActivePointerFilter {
    Pass,
    Block,
}

/// A node under the cursor, as the UI stack lists it, with the filter in
/// force on it.
#[derive(Clone, Copy, Debug)]
pub struct HoverNode {
    pub entity: u64,
    pub filter: Option<ActivePointerFilter>,
}

/// What the pointer did in one frame, and the nodes under the cursor,
/// closest first.
pub struct PointerFrame {
    /// The primary button (or a touch) went down this frame.
    pub clicked: bool,
    /// The primary button (or a touch) went up this frame.
    pub released: bool,
    /// The cursor moved since the previous frame.
    pub moved: bool,
    /// The drag delay after the last press has run out.
    pub drag_elapsed: bool,
    /// The nodes under the cursor, closest first.
    pub hovered: Vec<HoverNode>,
}

/// The pointer's memory from one frame to the next.
pub struct PointerSystemState {
    pressed_entities: Vec<u64>,
    dragging_from: Vec<u64>,
    dragging: bool,
}

/// The abstract state: the entities pressed and not yet released, in the
/// order they were pressed; the entities a drag started from; whether a
/// drag is in progress.
pub struct PointerStateView {
    pub pressed: Seq<u64>,
    pub dragging_from: Seq<u64>,
    pub dragging: bool,
}

impl View for PointerSystemState {
    type V = PointerStateView;

    closed spec fn view(&self) -> PointerStateView {
        PointerStateView {
            pressed: self.pressed_entities@,
            dragging_from: self.dragging_from@,
            dragging: self.dragging,
        }
    }
}

impl Default for PointerSystemState {
    fn default() -> (s: Self)
        ensures
            s@ == (PointerStateView { pressed: seq![], dragging_from: seq![], dragging: false }),
    {
        PointerSystemState { pressed_entities: Vec::new(), dragging_from: Vec::new(), dragging: false }
    }
}

impl PointerSystemState {
    /// The entities pressed and not yet released, in press order.
    pub fn pressed_entities(&self) -> (r: Vec<u64>)
        ensures
            r@ == self@.pressed,
    {
        copy_ids(&self.pressed_entities)
    }

    /// Whether a drag is in progress.
    pub fn dragging(&self) -> (r: bool)
        ensures
            r == self@.dragging,
    {
        self.dragging
    }
}

/// The entities that the pointer reaches, closest first: each node with a
/// filter, up to and including the first node whose filter blocks.
pub open spec fn reached(nodes: Seq<HoverNode>) -> Seq<u64>
    decreases nodes.len(),
{
    if nodes.len() == 0 {
        seq![]
    } else {
        match nodes[0].filter {
            None => reached(nodes.drop_first()),
            Some(ActivePointerFilter::Pass) => seq![nodes[0].entity] + reached(nodes.drop_first()),
            Some(ActivePointerFilter::Block) => seq![nodes[0].entity],
        }
    }
}

/// `s` without its first occurrence of `e` (unchanged if `e` does not occur).
pub open spec fn remove_first(s: Seq<u64>, e: u64) -> Seq<u64>
    decreases s.len(),
{
    if s.len() == 0 {
        s
    } else if s[0] == e {
        s.drop_first()
    } else {
        seq![s[0]] + remove_first(s.drop_first(), e)
    }
}

/// The pressed list after the pointer reaches `e`: a press adds it at the
/// end, then a release takes out its first occurrence.
pub open spec fn press_one(pressed: Seq<u64>, e: u64, clicked: bool, released: bool) -> Seq<u64> {
    let p = if clicked { pressed.push(e) } else { pressed };
    if released { remove_first(p, e) } else { p }
}

/// The pressed list after the pointer reaches each of `es` in turn.
pub open spec fn press_all(pressed: Seq<u64>, es: Seq<u64>, clicked: bool, released: bool) -> Seq<u64>
    decreases es.len(),
{
    if es.len() == 0 {
        pressed
    } else {
        press_one(press_all(pressed, es.drop_last(), clicked, released), es.last(), clicked, released)
    }
}

/// Each of `es`, paired with `d`.
pub open spec fn tagged(es: Seq<u64>, d: PointerInputData) -> Seq<(u64, PointerInputData)> {
    es.map_values(|e: u64| (e, d))
}

/// The entity and the kind of each event.
pub open spec fn event_kinds<P>(events: Seq<PointerInput<P>>) -> Seq<(u64, PointerInputData)> {
    events.map_values(|ev: PointerInput<P>| (ev.entity, ev.data))
}

/// Whether this frame turns the current press into a drag.
pub open spec fn starts_drag(s: PointerStateView, drag_elapsed: bool) -> bool {
    !s.dragging && s.pressed.len() > 0 && drag_elapsed
}

/// Whether a drag is in progress once this frame has been seen.
pub open spec fn dragging_now(s: PointerStateView, drag_elapsed: bool) -> bool {
    s.dragging || starts_drag(s, drag_elapsed)
}

/// The events of one frame, in the order they are sent: downs, motions,
/// drag starts, drags (only where no drag stop is sent), drag stops, ups.
pub open spec fn frame_events(
    s: PointerStateView,
    clicked: bool,
    released: bool,
    moved: bool,
    drag_elapsed: bool,
    hovered: Seq<HoverNode>,
) -> Seq<(u64, PointerInputData)> {
    let hit = reached(hovered);
    let dragging = dragging_now(s, drag_elapsed);
    let down = if clicked { hit } else { seq![] };
    let motion = if moved && !dragging { hit } else { seq![] };
    let drag_start = if starts_drag(s, drag_elapsed) { s.pressed } else { seq![] };
    let drag = if moved && dragging { hit } else { seq![] };
    let drag_stop = if dragging && released { s.dragging_from + hit } else { seq![] };
    let up = if released { hit } else { seq![] };
    tagged(down, PointerInputData::Down) + tagged(motion, PointerInputData::Motion) + tagged(
        drag_start,
        PointerInputData::DragStart,
    ) + (if drag_stop.len() == 0 { tagged(drag, PointerInputData::Drag) } else { seq![] })
        + tagged(drag_stop, PointerInputData::DragStop) + tagged(up, PointerInputData::Up)
}

/// The state after one frame. Without a cursor position no event is sent
/// and a release does not reset the state; with one, a release clears the
/// pressed entities, the drag sources and the drag.
pub open spec fn next_state(
    s: PointerStateView,
    clicked: bool,
    released: bool,
    drag_elapsed: bool,
    hovered: Seq<HoverNode>,
    cursor_present: bool,
) -> PointerStateView {
    if cursor_present && released {
        PointerStateView { pressed: seq![], dragging_from: seq![], dragging: false }
    } else {
        PointerStateView {
            pressed: press_all(s.pressed, reached(hovered), clicked, released),
            dragging_from: s.dragging_from,
            dragging: dragging_now(s, drag_elapsed),
        }
    }
}

/// The events sent in one frame: none without a cursor position.
pub open spec fn sent_events(
    s: PointerStateView,
    clicked: bool,
    released: bool,
    moved: bool,
    drag_elapsed: bool,
    hovered: Seq<HoverNode>,
    cursor_present: bool,
) -> Seq<(u64, PointerInputData)> {
    if cursor_present {
        frame_events(s, clicked, released, moved, drag_elapsed, hovered)
    } else {
        seq![]
    }
}

proof fn lemma_remove_first_at(s: Seq<u64>, e: u64, j: int)
    requires
        0 <= j < s.len(),
        s[j] == e,
        forall|k: int| 0 <= k < j ==> s[k] != e,
    ensures
        remove_first(s, e) == s.remove(j),
    decreases s.len(),
{
    if j == 0 {
        assert(s.drop_first() =~= s.remove(0));
    } else {
        assert(s[0] != e);
        lemma_remove_first_at(s.drop_first(), e, j - 1);
        assert(seq![s[0]] + s.drop_first().remove(j - 1) =~= s.remove(j));
    }
}

proof fn lemma_remove_first_absent(s: Seq<u64>, e: u64)
    requires
        forall|k: int| 0 <= k < s.len() ==> s[k] != e,
    ensures
        remove_first(s, e) == s,
    decreases s.len(),
{
    if s.len() > 0 {
        assert(s[0] != e);
        lemma_remove_first_absent(s.drop_first(), e);
        assert(seq![s[0]] + s.drop_first() =~= s);
    }
}

/// A copy of a list of entities.
fn copy_ids(v: &Vec<u64>) -> (r: Vec<u64>)
    ensures
        r@ == v@,
{
    let mut r: Vec<u64> = Vec::new();
    let mut i: usize = 0;
    while i < v.len()
        invariant
            i <= v.len(),
            r@ == v@.take(i as int),
        decreases v.len() - i,
    {
        r.push(v[i]);
        i += 1;
        assert(r@ =~= v@.take(i as int));
    }
    assert(v@.take(v.len() as int) =~= v@);
    r
}

/// Takes the first occurrence of `e` out of `v`.
fn remove_first_entity(v: &mut Vec<u64>, e: u64)
    ensures
        final(v)@ == remove_first(old(v)@, e),
{
    let ghost v0 = v@;
    let mut j: usize = 0;
    while j < v.len()
        invariant
            j <= v.len(),
            v@ == v0,
            v0 == old(v)@,
            forall|k: int| 0 <= k < j ==> v@[k] != e,
        decreases v.len() - j,
    {
        if v[j] == e {
            proof {
                lemma_remove_first_at(v@, e, j as int);
            }
            v.remove(j);
            return;
        }
        j += 1;
    }
    proof {
        lemma_remove_first_absent(v@, e);
    }
}

/// The entities the pointer reaches among `nodes`, closest first.
fn reached_entities(nodes: &Vec<HoverNode>) -> (hit: Vec<u64>)
    ensures
        hit@ == reached(nodes@),
{
    let mut hit: Vec<u64> = Vec::new();
    let mut i: usize = 0;
    assert(nodes@.skip(0) =~= nodes@);
    assert(hit@ + reached(nodes@) =~= reached(nodes@));
    while i < nodes.len()
        invariant
            i <= nodes.len(),
            hit@ + reached(nodes@.skip(i as int)) == reached(nodes@),
        decreases nodes.len() - i,
    {
        let node = nodes[i];
        let ghost rest = nodes@.skip(i as int);
        assert(rest[0] == node);
        assert(rest.drop_first() =~= nodes@.skip(i as int + 1));
        match node.filter {
            None => {},
            Some(ActivePointerFilter::Pass) => {
                let ghost before = hit@;
                hit.push(node.entity);
                assert(before + (seq![node.entity] + reached(rest.drop_first())) =~= hit@ + reached(
                    rest.drop_first(),
                ));
            },
            Some(ActivePointerFilter::Block) => {
                hit.push(node.entity);
                return hit;
            },
        }
        i += 1;
    }
    assert(hit@ + reached(nodes@.skip(i as int)) =~= hit@);
    hit
}

/// Sends one event of kind `d` at `pos` for each of `es`.
fn emit<P: Copy>(events: &mut Vec<PointerInput<P>>, es: &Vec<u64>, pos: P, d: PointerInputData)
    ensures
        event_kinds(final(events)@) == event_kinds(old(events)@) + tagged(es@, d),
        final(events)@.len() == old(events)@.len() + es@.len(),
        forall|i: int|
            0 <= i < old(events)@.len() ==> #[trigger] final(events)@[i] == old(events)@[i],
        forall|i: int|
            old(events)@.len() <= i < final(events)@.len() ==> (#[trigger] final(events)@[i]).position
                == pos,
{
    let ghost e0 = events@;
    let mut i: usize = 0;
    while i < es.len()
        invariant
            i <= es.len(),
            events@.len() == e0.len() + i,
            e0 == old(events)@,
            forall|k: int| 0 <= k < e0.len() ==> #[trigger] events@[k] == e0[k],
            forall|k: int| e0.len() <= k < events@.len() ==> (#[trigger] events@[k]).position == pos,
            event_kinds(events@) == event_kinds(e0) + tagged(es@.take(i as int), d),
        decreases es.len() - i,
    {
        let ghost before = events@;
        events.push(PointerInput { entity: es[i], position: pos, data: d });
        assert(event_kinds(events@) =~= event_kinds(before).push((es@[i as int], d)));
        assert(tagged(es@.take(i as int + 1), d) =~= tagged(es@.take(i as int), d).push(
            (es@[i as int], d),
        ));
        i += 1;
    }
    assert(es@.take(es.len() as int) =~= es@);
}

/// Runs the pointer for one frame: decides which entities the pointer
/// reaches, updates the pressed entities and the drag, and returns the
/// events to send, each at the cursor position `cursor`. Without a cursor
/// position no event is returned.
pub fn pointer_input_system<P: Copy>(
    state: &mut PointerSystemState,
    frame: &PointerFrame,
    cursor: Option<P>,
) -> (events: Vec<PointerInput<P>>)
    ensures
        final(state)@ == next_state(
            old(state)@,
            frame.clicked,
            frame.released,
            frame.drag_elapsed,
            frame.hovered@,
            cursor is Some,
        ),
        event_kinds(events@) == sent_events(
            old(state)@,
            frame.clicked,
            frame.released,
            frame.moved,
            frame.drag_elapsed,
            frame.hovered@,
            cursor is Some,
        ),
        forall|i: int| 0 <= i < events@.len() ==> Some((#[trigger] events@[i]).position) == cursor,
        events@.len() == sent_events(
            old(state)@,
            frame.clicked,
            frame.released,
            frame.moved,
            frame.drag_elapsed,
            frame.hovered@,
            cursor is Some,
        ).len(),
        forall|i: int|
            0 <= i < events@.len() ==> ((#[trigger] events@[i]).entity, events@[i].data) == sent_events(
                old(state)@,
                frame.clicked,
                frame.released,
                frame.moved,
                frame.drag_elapsed,
                frame.hovered@,
                cursor is Some,
            )[i],
{
    let ghost s0 = state@;
    let clicked = frame.clicked;
    let released = frame.released;
    let start_drag = !state.dragging && state.pressed_entities.len() > 0 && frame.drag_elapsed;
    let drag_start_entities = if start_drag {
        copy_ids(&state.pressed_entities)
    } else {
        Vec::new()
    };
    if start_drag {
        state.dragging = true;
    }
    let dragging = state.dragging;
    let send_drag_stop = dragging && released;

    let hit = reached_entities(&frame.hovered);

    let mut drag_stop_entities: Vec<u64> = if send_drag_stop {
        copy_ids(&state.dragging_from)
    } else {
        Vec::new()
    };
    if send_drag_stop {
        let mut k: usize = 0;
        while k < hit.len()
            invariant
                k <= hit.len(),
                drag_stop_entities@ == s0.dragging_from + hit@.take(k as int),
            decreases hit.len() - k,
        {
            drag_stop_entities.push(hit[k]);
            k += 1;
            assert(s0.dragging_from + hit@.take(k as int) =~= drag_stop_entities@);
        }
        assert(hit@.take(hit.len() as int) =~= hit@);
    }

    let mut k: usize = 0;
    while k < hit.len()
        invariant
            k <= hit.len(),
            state.pressed_entities@ == press_all(s0.pressed, hit@.take(k as int), clicked, released),
            state.dragging_from@ == s0.dragging_from,
            state.dragging == dragging,
        decreases hit.len() - k,
    {
        let e = hit[k];
        if clicked {
            state.pressed_entities.push(e);
        }
        if released {
            remove_first_entity(&mut state.pressed_entities, e);
        }
        proof {
            assert(hit@.take(k as int + 1).drop_last() =~= hit@.take(k as int));
        }
        k += 1;
    }
    assert(hit@.take(hit.len() as int) =~= hit@);

    let mut events: Vec<PointerInput<P>> = Vec::new();
    let pos = match cursor {
        Some(p) => p,
        None => {
            assert(event_kinds(events@) =~= seq![]);
            return events;
        },
    };

    let empty: Vec<u64> = Vec::new();
    emit(&mut events, if clicked { &hit } else { &empty }, pos, PointerInputData::Down);
    emit(
        &mut events,
        if frame.moved && !dragging { &hit } else { &empty },
        pos,
        PointerInputData::Motion,
    );
    emit(&mut events, &drag_start_entities, pos, PointerInputData::DragStart);
    if drag_stop_entities.len() == 0 {
        emit(
            &mut events,
            if frame.moved && dragging { &hit } else { &empty },
            pos,
            PointerInputData::Drag,
        );
    }
    emit(&mut events, &drag_stop_entities, pos, PointerInputData::DragStop);
    emit(&mut events, if released { &hit } else { &empty }, pos, PointerInputData::Up);

    if released {
        state.pressed_entities.clear();
        state.dragging_from.clear();
        state.dragging = false;
    }
    assert(event_kinds(events@) =~= sent_events(
        s0,
        clicked,
        released,
        frame.moved,
        frame.drag_elapsed,
        frame.hovered@,
        true,
    ));
    assert(forall|i: int| 0 <= i < events@.len() ==> #[trigger] event_kinds(events@)[i] == (events@[i].entity, events@[i].data));
    events
}

/// Without a cursor position a frame sends no event.
pub proof fn law_no_cursor_no_events(
    s: PointerStateView,
    clicked: bool,
    released: bool,
    moved: bool,
    drag_elapsed: bool,
    hovered: Seq<HoverNode>,
)
    ensures
        sent_events(s, clicked, released, moved, drag_elapsed, hovered, false) == Seq::<
            (u64, PointerInputData),
        >::empty(),
{
}

/// A release seen with a cursor position ends the interaction: nothing
/// stays pressed, no drag goes on, no drag source is kept.
pub proof fn law_release_resets(
    s: PointerStateView,
    clicked: bool,
    drag_elapsed: bool,
    hovered: Seq<HoverNode>,
)
    ensures
        next_state(s, clicked, true, drag_elapsed, hovered, true) == (PointerStateView {
            pressed: seq![],
            dragging_from: seq![],
            dragging: false,
        }),
{
}

proof fn lemma_press_all_click(p: Seq<u64>, es: Seq<u64>)
    ensures
        press_all(p, es, true, false) == p + es,
    decreases es.len(),
{
    if es.len() > 0 {
        lemma_press_all_click(p, es.drop_last());
        assert((p + es.drop_last()).push(es.last()) =~= p + es);
    }
}

/// A press without a release adds every entity the pointer reaches to the
/// pressed entities, closest first, after those already pressed.
pub proof fn law_press_adds_reached(
    s: PointerStateView,
    drag_elapsed: bool,
    hovered: Seq<HoverNode>,
    cursor_present: bool,
)
    ensures
        next_state(s, true, false, drag_elapsed, hovered, cursor_present).pressed == s.pressed
            + reached(hovered),
{
    lemma_press_all_click(s.pressed, reached(hovered));
}

/// Whether some node of `hovered` stands for `e` and has a filter in force.
pub open spec fn has_filtered_node(hovered: Seq<HoverNode>, e: u64) -> bool {
    exists|j: int| 0 <= j < hovered.len() && hovered[j].entity == e && (#[trigger] hovered[j]).filter is Some
}

/// The pointer reaches only nodes that have a filter in force.
pub proof fn law_reached_have_filters(hovered: Seq<HoverNode>)
    ensures
        forall|k: int|
            0 <= k < reached(hovered).len() ==> has_filtered_node(hovered, #[trigger] reached(hovered)[k]),
    decreases hovered.len(),
{
    if hovered.len() > 0 {
        let rest = hovered.drop_first();
        law_reached_have_filters(rest);
        assert forall|k: int| 0 <= k < reached(hovered).len() implies has_filtered_node(
            hovered,
            #[trigger] reached(hovered)[k],
        ) by {
            let e = reached(hovered)[k];
            match hovered[0].filter {
                None => {
                    assert(has_filtered_node(rest, reached(rest)[k]));
                    let j = choose|j: int|
                        0 <= j < rest.len() && rest[j].entity == e && (#[trigger] rest[j]).filter is Some;
                    assert(hovered[j + 1] == rest[j]);
                },
                Some(ActivePointerFilter::Pass) => {
                    if k == 0 {
                        assert(hovered[0].entity == e);
                    } else {
                        assert(e == reached(rest)[k - 1]);
                        assert(has_filtered_node(rest, reached(rest)[k - 1]));
                        let j = choose|j: int|
                            0 <= j < rest.len() && rest[j].entity == e && (#[trigger] rest[j]).filter is Some;
                        assert(hovered[j + 1] == rest[j]);
                    }
                },
                Some(ActivePointerFilter::Block) => {
                    assert(hovered[0].entity == e);
                },
            }
        }
    }
}

/// The pointer stops at the first node that blocks: the nodes behind it
/// make no difference.
pub proof fn law_block_stops_pointer(hovered: Seq<HoverNode>, j: int)
    requires
        0 <= j < hovered.len(),
        hovered[j].filter == Some(ActivePointerFilter::Block),
    ensures
        reached(hovered) == reached(hovered.take(j + 1)),
    decreases j,
{
    let short = hovered.take(j + 1);
    assert(short[0] == hovered[0]);
    if j > 0 {
        law_block_stops_pointer(hovered.drop_first(), j - 1);
        assert(short.drop_first() =~= hovered.drop_first().take(j));
    }
}

/// Presses, releases, motions and drags go only to entities the pointer
/// reaches; downs only in a frame with a press, ups only in a frame with
/// a release.
pub proof fn law_events_follow_the_pointer(
    s: PointerStateView,
    clicked: bool,
    released: bool,
    moved: bool,
    drag_elapsed: bool,
    hovered: Seq<HoverNode>,
    cursor_present: bool,
)
    ensures
        ({
            let ev = sent_events(s, clicked, released, moved, drag_elapsed, hovered, cursor_present);
            forall|i: int|
                0 <= i < ev.len() ==> {
                    &&& ((#[trigger] ev[i]).1 is Down || ev[i].1 is Up || ev[i].1 is Motion
                        || ev[i].1 is Drag) ==> reached(hovered).contains(ev[i].0)
                    &&& ev[i].1 is Down ==> clicked
                    &&& ev[i].1 is Up ==> released
                }
        }),
{
    let ev = sent_events(s, clicked, released, moved, drag_elapsed, hovered, cursor_present);
    let hit = reached(hovered);
    assert forall|i: int| 0 <= i < ev.len() implies {
        &&& ((#[trigger] ev[i]).1 is Down || ev[i].1 is Up || ev[i].1 is Motion || ev[i].1 is Drag)
            ==> hit.contains(ev[i].0)
        &&& ev[i].1 is Down ==> clicked
        &&& ev[i].1 is Up ==> released
    } by {
        let dragging = dragging_now(s, drag_elapsed);
        let down = if clicked { hit } else { seq![] };
        let motion = if moved && !dragging { hit } else { seq![] };
        let drag_start = if starts_drag(s, drag_elapsed) { s.pressed } else { seq![] };
        let drag = if moved && dragging { hit } else { seq![] };
        let drag_stop = if dragging && released { s.dragging_from + hit } else { seq![] };
        let up = if released { hit } else { seq![] };
        let a = tagged(down, PointerInputData::Down);
        let b = tagged(motion, PointerInputData::Motion);
        let c = tagged(drag_start, PointerInputData::DragStart);
        let d = if drag_stop.len() == 0 { tagged(drag, PointerInputData::Drag) } else { seq![] };
        let e = tagged(drag_stop, PointerInputData::DragStop);
        let f = tagged(up, PointerInputData::Up);
        assert(ev == a + b + c + d + e + f);
        let n1 = a.len();
        let n2 = n1 + b.len();
        let n3 = n2 + c.len();
        let n4 = n3 + d.len();
        let n5 = n4 + e.len();
        if i < n1 {
            assert(ev[i] == a[i]);
            assert(hit[i] == ev[i].0);
        } else if i < n2 {
            assert(ev[i] == b[i - n1]);
            assert(hit[i - n1] == ev[i].0);
        } else if i < n3 {
            assert(ev[i] == c[i - n2]);
        } else if i < n4 {
            assert(ev[i] == d[i - n3]);
            assert(hit[i - n3] == ev[i].0);
        } else if i < n5 {
            assert(ev[i] == e[i - n4]);
        } else {
            assert(ev[i] == f[i - n5]);
            assert(hit[i - n5] == ev[i].0);
        }
    }
}

/// A drag starts at most once per press: while a drag goes on, no frame
/// sends a drag start.
pub proof fn law_drag_starts_once(
    s: PointerStateView,
    clicked: bool,
    released: bool,
    moved: bool,
    drag_elapsed: bool,
    hovered: Seq<HoverNode>,
    cursor_present: bool,
)
    requires
        s.dragging,
    ensures
        ({
            let ev = sent_events(s, clicked, released, moved, drag_elapsed, hovered, cursor_present);
            forall|i: int| 0 <= i < ev.len() ==> !((#[trigger] ev[i]).1 is DragStart)
        }),
{
    let ev = sent_events(s, clicked, released, moved, drag_elapsed, hovered, cursor_present);
    let hit = reached(hovered);
    if cursor_present {
        let down = if clicked { hit } else { seq![] };
        let drag = if moved { hit } else { seq![] };
        let drag_stop = if released { s.dragging_from + hit } else { seq![] };
        let up = if released { hit } else { seq![] };
        let a = tagged(down, PointerInputData::Down);
        let b = tagged(seq![], PointerInputData::Motion);
        let c = tagged(seq![], PointerInputData::DragStart);
        let d = if drag_stop.len() == 0 { tagged(drag, PointerInputData::Drag) } else { seq![] };
        let e = tagged(drag_stop, PointerInputData::DragStop);
        let f = tagged(up, PointerInputData::Up);
        assert(ev =~= a + d + e + f);
        assert forall|i: int| 0 <= i < ev.len() implies !((#[trigger] ev[i]).1 is DragStart) by {
            let n1 = a.len();
            let n2 = n1 + d.len();
            let n3 = n2 + e.len();
            if i < n1 {
                assert(ev[i] == a[i]);
            } else if i < n2 {
                assert(ev[i] == d[i - n1]);
            } else if i < n3 {
                assert(ev[i] == e[i - n2]);
            } else {
                assert(ev[i] == f[i - n3]);
            }
        }
    }
}

/// A frame sends motions or drags, never both.
pub proof fn law_motion_or_drag(
    s: PointerStateView,
    clicked: bool,
    released: bool,
    moved: bool,
    drag_elapsed: bool,
    hovered: Seq<HoverNode>,
    cursor_present: bool,
)
    ensures
        ({
            let ev = sent_events(s, clicked, released, moved, drag_elapsed, hovered, cursor_present);
            !((exists|i: int| 0 <= i < ev.len() && (#[trigger] ev[i]).1 is Motion) && (exists|j: int|
                0 <= j < ev.len() && (#[trigger] ev[j]).1 is Drag))
        }),
{
    let ev = sent_events(s, clicked, released, moved, drag_elapsed, hovered, cursor_present);
    let hit = reached(hovered);
    if cursor_present {
        let dragging = dragging_now(s, drag_elapsed);
        let down = if clicked { hit } else { seq![] };
        let motion = if moved && !dragging { hit } else { seq![] };
        let drag_start = if starts_drag(s, drag_elapsed) { s.pressed } else { seq![] };
        let drag = if moved && dragging { hit } else { seq![] };
        let drag_stop = if dragging && released { s.dragging_from + hit } else { seq![] };
        let up = if released { hit } else { seq![] };
        let a = tagged(down, PointerInputData::Down);
        let b = tagged(motion, PointerInputData::Motion);
        let c = tagged(drag_start, PointerInputData::DragStart);
        let d = if drag_stop.len() == 0 { tagged(drag, PointerInputData::Drag) } else { seq![] };
        let e = tagged(drag_stop, PointerInputData::DragStop);
        let f = tagged(up, PointerInputData::Up);
        assert(ev == a + b + c + d + e + f);
        let n1 = a.len();
        let n2 = n1 + b.len();
        let n3 = n2 + c.len();
        let n4 = n3 + d.len();
        let n5 = n4 + e.len();
        assert forall|i: int| 0 <= i < ev.len() && (#[trigger] ev[i]).1 is Motion implies !dragging by {
            if i < n1 {
                assert(ev[i] == a[i]);
            } else if i < n2 {
                assert(ev[i] == b[i - n1]);
            } else if i < n3 {
                assert(ev[i] == c[i - n2]);
            } else if i < n4 {
                assert(ev[i] == d[i - n3]);
            } else if i < n5 {
                assert(ev[i] == e[i - n4]);
            } else {
                assert(ev[i] == f[i - n5]);
            }
        }
        assert forall|i: int| 0 <= i < ev.len() && (#[trigger] ev[i]).1 is Drag implies dragging by {
            if i < n1 {
                assert(ev[i] == a[i]);
            } else if i < n2 {
                assert(ev[i] == b[i - n1]);
            } else if i < n3 {
                assert(ev[i] == c[i - n2]);
            } else if i < n4 {
                assert(ev[i] == d[i - n3]);
            } else if i < n5 {
                assert(ev[i] == e[i - n4]);
            } else {
                assert(ev[i] == f[i - n5]);
            }
        }
    }
}

/// No frame adds a drag source: a state without drag sources keeps none.
pub proof fn law_no_drag_sources(
    s: PointerStateView,
    clicked: bool,
    released: bool,
    drag_elapsed: bool,
    hovered: Seq<HoverNode>,
    cursor_present: bool,
)
    requires
        s.dragging_from.len() == 0,
    ensures
        next_state(s, clicked, released, drag_elapsed, hovered, cursor_present).dragging_from.len()
            == 0,
{
}

/// The entities of the events of kind `d`, in the order they are sent.
pub open spec fn of_kind(ev: Seq<(u64, PointerInputData)>, d: PointerInputData) -> Seq<u64>
    decreases ev.len(),
{
    if ev.len() == 0 {
        seq![]
    } else {
        let r = of_kind(ev.drop_last(), d);
        if ev.last().1 == d {
            r.push(ev.last().0)
        } else {
            r
        }
    }
}

proof fn lemma_of_kind_add(a: Seq<(u64, PointerInputData)>, b: Seq<(u64, PointerInputData)>, d: PointerInputData)
    ensures
        of_kind(a + b, d) == of_kind(a, d) + of_kind(b, d),
    decreases b.len(),
{
    if b.len() == 0 {
        assert(a + b =~= a);
        assert(of_kind(a, d) + of_kind(b, d) =~= of_kind(a, d));
    } else {
        lemma_of_kind_add(a, b.drop_last(), d);
        assert((a + b).drop_last() =~= a + b.drop_last());
        assert((a + b).last() == b.last());
        assert((of_kind(a, d) + of_kind(b.drop_last(), d)).push(b.last().0) =~= of_kind(a, d) + of_kind(
            b.drop_last(),
            d,
        ).push(b.last().0));
    }
}

proof fn lemma_of_kind_tagged(es: Seq<u64>, d2: PointerInputData, d: PointerInputData)
    ensures
        of_kind(tagged(es, d2), d) == (if d2 == d { es } else { seq![] }),
    decreases es.len(),
{
    if es.len() == 0 {
        assert(tagged(es, d2) =~= seq![]);
    } else {
        lemma_of_kind_tagged(es.drop_last(), d2, d);
        assert(tagged(es, d2).drop_last() =~= tagged(es.drop_last(), d2));
        assert(es.drop_last().push(es.last()) =~= es);
    }
}

proof fn lemma_of_kind_empty(d: PointerInputData)
    ensures
        of_kind(Seq::<(u64, PointerInputData)>::empty(), d) == Seq::<u64>::empty(),
{
}

/// The events of kind `k` of a frame, part by part.
proof fn lemma_frame_of_kind(
    s: PointerStateView,
    clicked: bool,
    released: bool,
    moved: bool,
    drag_elapsed: bool,
    hovered: Seq<HoverNode>,
    k: PointerInputData,
)
    ensures
        ({
            let hit = reached(hovered);
            let dragging = dragging_now(s, drag_elapsed);
            let down = if clicked { hit } else { seq![] };
            let motion = if moved && !dragging { hit } else { seq![] };
            let drag_start = if starts_drag(s, drag_elapsed) { s.pressed } else { seq![] };
            let drag = if moved && dragging { hit } else { seq![] };
            let drag_stop = if dragging && released { s.dragging_from + hit } else { seq![] };
            let up = if released { hit } else { seq![] };
            of_kind(frame_events(s, clicked, released, moved, drag_elapsed, hovered), k) == (if k
                == PointerInputData::Down { down } else { seq![] }) + (if k == PointerInputData::Motion {
                motion
            } else { seq![] }) + (if k == PointerInputData::DragStart { drag_start } else { seq![] })
                + (if k == PointerInputData::Drag && drag_stop.len() == 0 { drag } else { seq![] })
                + (if k == PointerInputData::DragStop { drag_stop } else { seq![] }) + (if k
                == PointerInputData::Up { up } else { seq![] })
        }),
{
    let hit = reached(hovered);
    let dragging = dragging_now(s, drag_elapsed);
    let down = if clicked { hit } else { seq![] };
    let motion = if moved && !dragging { hit } else { seq![] };
    let drag_start = if starts_drag(s, drag_elapsed) { s.pressed } else { seq![] };
    let drag = if moved && dragging { hit } else { seq![] };
    let drag_stop = if dragging && released { s.dragging_from + hit } else { seq![] };
    let up = if released { hit } else { seq![] };
    let a = tagged(down, PointerInputData::Down);
    let b = tagged(motion, PointerInputData::Motion);
    let c = tagged(drag_start, PointerInputData::DragStart);
    let d = if drag_stop.len() == 0 { tagged(drag, PointerInputData::Drag) } else { seq![] };
    let e = tagged(drag_stop, PointerInputData::DragStop);
    let f = tagged(up, PointerInputData::Up);
    lemma_of_kind_add(a, b, k);
    lemma_of_kind_add(a + b, c, k);
    lemma_of_kind_add(a + b + c, d, k);
    lemma_of_kind_add(a + b + c + d, e, k);
    lemma_of_kind_add(a + b + c + d + e, f, k);
    lemma_of_kind_tagged(down, PointerInputData::Down, k);
    lemma_of_kind_tagged(motion, PointerInputData::Motion, k);
    lemma_of_kind_tagged(drag_start, PointerInputData::DragStart, k);
    lemma_of_kind_tagged(drag, PointerInputData::Drag, k);
    lemma_of_kind_tagged(drag_stop, PointerInputData::DragStop, k);
    lemma_of_kind_tagged(up, PointerInputData::Up, k);
    lemma_of_kind_empty(k);
}

/// A press sends a down to every entity the pointer reaches, closest
/// first, and a release an up to every one of them; a frame without a
/// press sends no down, one without a release no up.
pub proof fn law_press_and_release_reach_every_node(
    s: PointerStateView,
    clicked: bool,
    released: bool,
    moved: bool,
    drag_elapsed: bool,
    hovered: Seq<HoverNode>,
)
    ensures
        of_kind(
            sent_events(s, clicked, released, moved, drag_elapsed, hovered, true),
            PointerInputData::Down,
        ) == (if clicked { reached(hovered) } else { seq![] }),
        of_kind(
            sent_events(s, clicked, released, moved, drag_elapsed, hovered, true),
            PointerInputData::Up,
        ) == (if released { reached(hovered) } else { seq![] }),
{
    lemma_frame_of_kind(s, clicked, released, moved, drag_elapsed, hovered, PointerInputData::Down);
    lemma_frame_of_kind(s, clicked, released, moved, drag_elapsed, hovered, PointerInputData::Up);
    let hit = reached(hovered);
    let e: Seq<u64> = seq![];
    assert((if clicked { hit } else { e }) + e + e + e + e + e =~= (if clicked { hit } else { e }));
    assert(e + e + e + e + e + (if released { hit } else { e }) =~= (if released { hit } else { e }));
}

/// A drag starts from the entities that were pressed: in a frame where
/// nothing was dragging, something was pressed and the drag delay has run
/// out, the drag starts go exactly to the entities pressed before the
/// frame, in press order, whatever is under the cursor now; in any other
/// frame no drag start is sent.
pub proof fn law_drag_starts_from_pressed(
    s: PointerStateView,
    clicked: bool,
    released: bool,
    moved: bool,
    drag_elapsed: bool,
    hovered: Seq<HoverNode>,
)
    ensures
        of_kind(
            sent_events(s, clicked, released, moved, drag_elapsed, hovered, true),
            PointerInputData::DragStart,
        ) == (if !s.dragging && s.pressed.len() > 0 && drag_elapsed { s.pressed } else { seq![] }),
{
    lemma_frame_of_kind(s, clicked, released, moved, drag_elapsed, hovered, PointerInputData::DragStart);
    let e: Seq<u64> = seq![];
    let x = if !s.dragging && s.pressed.len() > 0 && drag_elapsed { s.pressed } else { e };
    assert(e + e + x + e + e + e =~= x);
}

/// A release ends a drag in progress (or one starting in that frame): the
/// drag sources and every entity the pointer reaches get a drag stop,
/// whether or not the pointer moved.
pub proof fn law_release_stops_drag(
    s: PointerStateView,
    clicked: bool,
    moved: bool,
    drag_elapsed: bool,
    hovered: Seq<HoverNode>,
)
    requires
        s.dragging || (s.pressed.len() > 0 && drag_elapsed),
    ensures
        of_kind(
            sent_events(s, clicked, true, moved, drag_elapsed, hovered, true),
            PointerInputData::DragStop,
        ) == s.dragging_from + reached(hovered),
{
    lemma_frame_of_kind(s, clicked, true, moved, drag_elapsed, hovered, PointerInputData::DragStop);
    let e: Seq<u64> = seq![];
    let x = s.dragging_from + reached(hovered);
    assert(e + e + e + e + x + e =~= x);
}

proof fn lemma_press_all_idle(p: Seq<u64>, es: Seq<u64>)
    ensures
        press_all(p, es, false, false) == p,
    decreases es.len(),
{
    if es.len() > 0 {
        lemma_press_all_idle(p, es.drop_last());
    }
}

/// A frame without a press and without a release leaves the pressed
/// entities as they were, wherever the cursor is.
pub proof fn law_pressed_kept_between_press_and_release(
    s: PointerStateView,
    drag_elapsed: bool,
    hovered: Seq<HoverNode>,
    cursor_present: bool,
)
    ensures
        next_state(s, false, false, drag_elapsed, hovered, cursor_present).pressed == s.pressed,
{
    lemma_press_all_idle(s.pressed, reached(hovered));
}

/// Nodes without a filter in force are transparent to the pointer: taking
/// them out of the hovered list changes nothing it reaches.
pub proof fn law_filterless_nodes_transparent(hovered: Seq<HoverNode>)
    ensures
        reached(hovered) == reached(hovered.filter(|n: HoverNode| n.filter is Some)),
    decreases hovered.len(),
{
    let p = |n: HoverNode| n.filter is Some;
    if hovered.len() == 0 {
        reveal(Seq::filter);
        assert(hovered.filter(p) =~= hovered);
    } else {
        let rest = hovered.drop_first();
        law_filterless_nodes_transparent(rest);
        assert(hovered =~= seq![hovered[0]] + rest);
        rest.lemma_filter_prepend(hovered[0], p);
        let f = hovered.filter(p);
        if hovered[0].filter is Some {
            assert(f == seq![hovered[0]] + rest.filter(p));
            assert(f[0] == hovered[0]);
            assert(f.drop_first() =~= rest.filter(p));
        } else {
            assert(f =~= rest.filter(p));
        }
    }
}

/// Where every node lets the pointer pass, the pointer reaches them all,
/// closest first.
pub proof fn law_passing_nodes_all_reached(hovered: Seq<HoverNode>)
    requires
        forall|i: int| 0 <= i < hovered.len() ==> #[trigger] hovered[i].filter == Some(
            ActivePointerFilter::Pass,
        ),
    ensures
        reached(hovered) == hovered.map_values(|n: HoverNode| n.entity),
    decreases hovered.len(),
{
    if hovered.len() > 0 {
        let rest = hovered.drop_first();
        assert forall|i: int| 0 <= i < rest.len() implies #[trigger] rest[i].filter == Some(
            ActivePointerFilter::Pass,
        ) by {
            assert(rest[i] == hovered[i + 1]);
        }
        law_passing_nodes_all_reached(rest);
        assert(hovered[0].filter == Some(ActivePointerFilter::Pass));
        assert(seq![hovered[0].entity] + rest.map_values(|n: HoverNode| n.entity) =~= hovered.map_values(
            |n: HoverNode| n.entity,
        ));
    } else {
        assert(hovered.map_values(|n: HoverNode| n.entity) =~= seq![]);
    }
}

/// Motions go to the reached entities when the pointer moved and no drag
/// is on (nor starting); drags go to them when it moved during a drag
/// that the frame does not end; a release during a drag sends a drag stop
/// to the drag sources and then the reached entities. Hover and focus
/// events are never sent.
pub proof fn law_motion_drag_and_stop(
    s: PointerStateView,
    clicked: bool,
    released: bool,
    moved: bool,
    drag_elapsed: bool,
    hovered: Seq<HoverNode>,
)
    ensures
        ({
            let ev = sent_events(s, clicked, released, moved, drag_elapsed, hovered, true);
            let dragging = s.dragging || (s.pressed.len() > 0 && drag_elapsed);
            &&& of_kind(ev, PointerInputData::Motion) == (if moved && !dragging {
                reached(hovered)
            } else {
                seq![]
            })
            &&& of_kind(ev, PointerInputData::Drag) == (if moved && dragging && !released {
                reached(hovered)
            } else {
                seq![]
            })
            &&& of_kind(ev, PointerInputData::DragStop) == (if released && dragging {
                s.dragging_from + reached(hovered)
            } else {
                seq![]
            })
            &&& of_kind(ev, PointerInputData::Hover) == Seq::<u64>::empty()
            &&& of_kind(ev, PointerInputData::Focus) == Seq::<u64>::empty()
        }),
{
    let hit = reached(hovered);
    let dragging = s.dragging || (s.pressed.len() > 0 && drag_elapsed);
    let e: Seq<u64> = seq![];
    lemma_frame_of_kind(s, clicked, released, moved, drag_elapsed, hovered, PointerInputData::Motion);
    let mo = if moved && !dragging { hit } else { e };
    assert(e + mo + e + e + e + e =~= mo);
    lemma_frame_of_kind(s, clicked, released, moved, drag_elapsed, hovered, PointerInputData::Drag);
    let drag_stop = if dragging && released { s.dragging_from + hit } else { e };
    let dr = if moved && dragging { hit } else { e };
    let dr2 = if drag_stop.len() == 0 { dr } else { e };
    assert(e + e + e + dr2 + e + e =~= dr2);
    if released && dragging && drag_stop.len() == 0 {
        assert(hit.len() == 0);
        assert(dr =~= e);
    }
    lemma_frame_of_kind(s, clicked, released, moved, drag_elapsed, hovered, PointerInputData::DragStop);
    assert(e + e + e + e + drag_stop + e =~= drag_stop);
    lemma_frame_of_kind(s, clicked, released, moved, drag_elapsed, hovered, PointerInputData::Hover);
    assert(e + e + e + e + e + e =~= e);
    lemma_frame_of_kind(s, clicked, released, moved, drag_elapsed, hovered, PointerInputData::Focus);
}

/// A drag is on after a frame when one was on or the frame starts one,
/// unless a release with a cursor position ends it; the drag sources are
/// kept until such a release clears them.
pub proof fn law_drag_state_after_frame(
    s: PointerStateView,
    clicked: bool,
    released: bool,
    drag_elapsed: bool,
    hovered: Seq<HoverNode>,
    cursor_present: bool,
)
    ensures
        ({
            let n = next_state(s, clicked, released, drag_elapsed, hovered, cursor_present);
            &&& n.dragging == (if cursor_present && released {
                false
            } else {
                s.dragging || (s.pressed.len() > 0 && drag_elapsed)
            })
            &&& n.dragging_from == (if cursor_present && released {
                Seq::<u64>::empty()
            } else {
                s.dragging_from
            })
        }),
{
}

/// The place of a kind of event in the order a frame sends them.
pub open spec fn kind_rank(d: PointerInputData) -> int {
    match d {
        PointerInputData::Down => 0,
        PointerInputData::Motion => 1,
        PointerInputData::DragStart => 2,
        PointerInputData::Drag => 3,
        PointerInputData::DragStop => 4,
        PointerInputData::Up => 5,
        PointerInputData::Hover => 6,
        PointerInputData::Focus => 7,
    }
}

proof fn lemma_tagged_rank(es: Seq<u64>, d: PointerInputData)
    ensures
        forall|i: int| 0 <= i < es.len() ==> #[trigger] tagged(es, d)[i] == (es[i], d),
        tagged(es, d).len() == es.len(),
{
}

/// A frame sends its events grouped by kind, in this order: downs,
/// motions, drag starts, drags, drag stops, ups.
pub proof fn law_events_in_kind_order(
    s: PointerStateView,
    clicked: bool,
    released: bool,
    moved: bool,
    drag_elapsed: bool,
    hovered: Seq<HoverNode>,
    cursor_present: bool,
)
    ensures
        ({
            let ev = sent_events(s, clicked, released, moved, drag_elapsed, hovered, cursor_present);
            forall|i: int, j: int|
                0 <= i < j < ev.len() ==> kind_rank((#[trigger] ev[i]).1) <= kind_rank(
                    (#[trigger] ev[j]).1,
                )
        }),
{
    let ev = sent_events(s, clicked, released, moved, drag_elapsed, hovered, cursor_present);
    if cursor_present {
        let hit = reached(hovered);
        let dragging = dragging_now(s, drag_elapsed);
        let down = if clicked { hit } else { seq![] };
        let motion = if moved && !dragging { hit } else { seq![] };
        let drag_start = if starts_drag(s, drag_elapsed) { s.pressed } else { seq![] };
        let drag = if moved && dragging { hit } else { seq![] };
        let drag_stop = if dragging && released { s.dragging_from + hit } else { seq![] };
        let up = if released { hit } else { seq![] };
        let a = tagged(down, PointerInputData::Down);
        let b = tagged(motion, PointerInputData::Motion);
        let c = tagged(drag_start, PointerInputData::DragStart);
        let d = if drag_stop.len() == 0 { tagged(drag, PointerInputData::Drag) } else { seq![] };
        let e = tagged(drag_stop, PointerInputData::DragStop);
        let f = tagged(up, PointerInputData::Up);
        lemma_tagged_rank(down, PointerInputData::Down);
        lemma_tagged_rank(motion, PointerInputData::Motion);
        lemma_tagged_rank(drag_start, PointerInputData::DragStart);
        lemma_tagged_rank(drag, PointerInputData::Drag);
        lemma_tagged_rank(drag_stop, PointerInputData::DragStop);
        lemma_tagged_rank(up, PointerInputData::Up);
        assert(ev == a + b + c + d + e + f);
        let n1 = a.len();
        let n2 = n1 + b.len();
        let n3 = n2 + c.len();
        let n4 = n3 + d.len();
        let n5 = n4 + e.len();
        assert forall|i: int| 0 <= i < ev.len() implies kind_rank((#[trigger] ev[i]).1) == (if i
            < n1 {
            0int
        } else if i < n2 {
            1int
        } else if i < n3 {
            2int
        } else if i < n4 {
            3int
        } else if i < n5 {
            4int
        } else {
            5int
        }) by {
            if i < n1 {
                assert(ev[i] == a[i]);
            } else if i < n2 {
                assert(ev[i] == b[i - n1]);
            } else if i < n3 {
                assert(ev[i] == c[i - n2]);
            } else if i < n4 {
                assert(ev[i] == d[i - n3]);
            } else if i < n5 {
                assert(ev[i] == e[i - n4]);
            } else {
                assert(ev[i] == f[i - n5]);
            }
        }
    }
}

proof fn lemma_remove_first_multiset(s: Seq<u64>, e: u64)
    ensures
        remove_first(s, e).to_multiset() =~= s.to_multiset().remove(e),
    decreases s.len(),
{
    broadcast use vstd::seq_lib::group_to_multiset_ensures;
    broadcast use vstd::multiset::group_multiset_axioms;

    if s.len() == 0 {
        assert(s.to_multiset().count(e) == 0);
    } else if s[0] == e {
        assert(s.drop_first() =~= s.remove(0));
    } else {
        let rest = s.drop_first();
        lemma_remove_first_multiset(rest, e);
        let r = remove_first(rest, e);
        let t = seq![s[0]] + r;
        assert(t == remove_first(s, e));
        assert(s.remove(0) =~= rest);
        assert(t.remove(0) =~= r);
        assert(s.to_multiset().count(s[0]) > 0) by {
            assert(s.contains(s[0]));
        }
        assert(t.to_multiset().count(s[0]) > 0) by {
            assert(t[0] == s[0]);
            assert(t.contains(s[0]));
        }
        assert(s.to_multiset() =~= rest.to_multiset().insert(s[0]));
        assert(t.to_multiset() =~= r.to_multiset().insert(s[0]));
    }
}

proof fn lemma_press_all_release_multiset(p: Seq<u64>, es: Seq<u64>)
    ensures
        press_all(p, es, false, true).to_multiset() =~= p.to_multiset().sub(es.to_multiset()),
    decreases es.len(),
{
    broadcast use vstd::seq_lib::group_to_multiset_ensures;
    broadcast use vstd::multiset::group_multiset_axioms;

    if es.len() == 0 {
        assert(es.to_multiset() =~= vstd::multiset::Multiset::<u64>::empty());
    } else {
        let dl = es.drop_last();
        lemma_press_all_release_multiset(p, dl);
        lemma_remove_first_multiset(press_all(p, dl, false, true), es.last());
        assert(dl.push(es.last()) =~= es);
    }
}

proof fn lemma_press_all_tap_multiset(p: Seq<u64>, es: Seq<u64>)
    ensures
        press_all(p, es, true, true).to_multiset() =~= p.to_multiset(),
    decreases es.len(),
{
    broadcast use vstd::seq_lib::group_to_multiset_ensures;
    broadcast use vstd::multiset::group_multiset_axioms;

    if es.len() > 0 {
        let dl = es.drop_last();
        lemma_press_all_tap_multiset(p, dl);
        let q = press_all(p, dl, true, true);
        lemma_remove_first_multiset(q.push(es.last()), es.last());
    }
}

/// Seen without a cursor position (so that nothing resets), a release
/// takes each reached entity out of the pressed entities once, as far as
/// it is there; a press and a release in the same frame leave the pressed
/// entities, counted with repetition, as they were.
pub proof fn law_release_unpresses_reached(
    s: PointerStateView,
    clicked: bool,
    drag_elapsed: bool,
    hovered: Seq<HoverNode>,
)
    ensures
        !clicked ==> next_state(s, clicked, true, drag_elapsed, hovered, false).pressed.to_multiset()
            == s.pressed.to_multiset().sub(reached(hovered).to_multiset()),
        clicked ==> next_state(s, clicked, true, drag_elapsed, hovered, false).pressed.to_multiset()
            == s.pressed.to_multiset(),
{
    if clicked {
        lemma_press_all_tap_multiset(s.pressed, reached(hovered));
    } else {
        lemma_press_all_release_multiset(s.pressed, reached(hovered));
    }
}

/// Where no node blocks, the pointer reaches every node that has a filter
/// in force, closest first.
pub proof fn law_without_block_all_filtered_reached(hovered: Seq<HoverNode>)
    requires
        forall|i: int| 0 <= i < hovered.len() ==> #[trigger] hovered[i].filter != Some(
            ActivePointerFilter::Block,
        ),
    ensures
        reached(hovered) == hovered.filter(|n: HoverNode| n.filter is Some).map_values(
            |n: HoverNode| n.entity,
        ),
    decreases hovered.len(),
{
    let p = |n: HoverNode| n.filter is Some;
    let en = |n: HoverNode| n.entity;
    if hovered.len() == 0 {
        reveal(Seq::filter);
        assert(hovered.filter(p).map_values(en) =~= seq![]);
    } else {
        let rest = hovered.drop_first();
        assert forall|i: int| 0 <= i < rest.len() implies #[trigger] rest[i].filter != Some(
            ActivePointerFilter::Block,
        ) by {
            assert(rest[i] == hovered[i + 1]);
        }
        law_without_block_all_filtered_reached(rest);
        assert(hovered =~= seq![hovered[0]] + rest);
        rest.lemma_filter_prepend(hovered[0], p);
        assert(hovered[0].filter != Some(ActivePointerFilter::Block));
        if hovered[0].filter is Some {
            assert(hovered.filter(p).map_values(en) =~= seq![hovered[0].entity] + rest.filter(
                p,
            ).map_values(en));
        } else {
            assert(hovered.filter(p) =~= rest.filter(p));
        }
    }
}

/// The first node that blocks is reached, last: the pointer reaches the
/// nodes in front of it that have a filter in force, closest first, and
/// then the blocking node itself.
pub proof fn law_first_block_reached(hovered: Seq<HoverNode>, j: int)
    requires
        0 <= j < hovered.len(),
        hovered[j].filter == Some(ActivePointerFilter::Block),
        forall|i: int| 0 <= i < j ==> #[trigger] hovered[i].filter != Some(ActivePointerFilter::Block),
    ensures
        reached(hovered) == hovered.take(j).filter(|n: HoverNode| n.filter is Some).map_values(
            |n: HoverNode| n.entity,
        ).push(hovered[j].entity),
    decreases j,
{
    let p = |n: HoverNode| n.filter is Some;
    let en = |n: HoverNode| n.entity;
    if j == 0 {
        reveal(Seq::filter);
        assert(hovered.take(0).filter(p) =~= seq![]);
        assert(hovered.take(0).filter(p).map_values(en).push(hovered[0].entity) =~= seq![
            hovered[0].entity,
        ]);
    } else {
        let rest = hovered.drop_first();
        assert forall|i: int| 0 <= i < j - 1 implies #[trigger] rest[i].filter != Some(
            ActivePointerFilter::Block,
        ) by {
            assert(rest[i] == hovered[i + 1]);
        }
        assert(rest[j - 1] == hovered[j]);
        law_first_block_reached(rest, j - 1);
        assert(hovered.take(j) =~= seq![hovered[0]] + rest.take(j - 1));
        rest.take(j - 1).lemma_filter_prepend(hovered[0], p);
        assert(hovered[0].filter != Some(ActivePointerFilter::Block));
        if hovered[0].filter is Some {
            assert(hovered.take(j).filter(p).map_values(en).push(hovered[j].entity) =~= seq![
                hovered[0].entity,
            ] + rest.take(j - 1).filter(p).map_values(en).push(hovered[j].entity));
        } else {
            assert(hovered.take(j).filter(p) =~= rest.take(j - 1).filter(p));
        }
    }
}

} // verus!
