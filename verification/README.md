# polako

Pointer input and widget state for a retained UI, verified with Verus.

- `src/pointer.rs`: pointer events and the per-frame pointer state machine
  (which nodes a press, release or movement reaches, when a press becomes a
  drag, which events are sent), with the laws it keeps.
- `src/filter.rs`: pointer filter settings and the filter put in force.
- `src/text.rs`: the string properties of texts and names.
- `src/widgets.rs`: widget markers, div content, the camera a body uses.
- `app/`: the bevy side: plugins, components, events, and the systems that
  read the world (cameras, windows, UI stack, clock) and apply what the
  library decides. Positions, colours and the drag clock are `f32` and stay
  there.
