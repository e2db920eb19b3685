# samvival

The widget tree of the arx GUI and parts of the samvival game's rules, written in
Verus: every function in `src/` carries a contract that Verus proves.

- `src/widgets.rs`: widget identifiers, borders, alignment, sizing and
  positioning rules, which events a widget consumes, callback references, and
  the widget itself with its builders.
- `src/events.rs`: user-interface events, their type flags, widget states.
- `src/gui.rs`: the tree: registering, updating and removing widgets, marking
  widgets for a new layout, routing an event and walking it up the tree, focus,
  per-widget event records, listener queues, hovering, and the laws that relate
  these operations.
- `src/compound.rs`: buttons, lists and tab widgets: what their callbacks
  decide, how a list adds and drops rows, how a tab widget takes new titles.
- `src/item.rs`, `src/skill.rs`, `src/attributes.rs`: item worth, skills,
  attribute kinds and how attribute amounts combine.
- `src/tactics.rs`: character selection, battle outcome, harvesting choices and
  reach, hex distances, what a click in move-and-attack mode leads to, and how
  computer players pick their target.
- `src/taxonomy.rs`: kinds of things and which is a special case of which.

`app/` holds what runs around the library: the registry of callback closures,
the loop that drives the library's event-handling steps, and the floating-point
screen units. `tests/` exercises the library on concrete values.
