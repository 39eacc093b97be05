# rift

The presentation core of the Rift window manager: the command palette, the
border round the focused window, the menu bar, and the committed desktop
snapshots from which they draw.

- `src/` is the library. Every decision is a function on plain values with a
  contract, proved with Verus.
  - `model/` holds the palette's ranking and navigation, the committed states,
    and what they are made of.
  - `actor/` holds the decisions of the actors. Each takes an event and gives the
    effects that follow.
  - `ui/` holds the decisions of the surfaces: the run of operations on a
    border's surface, and the palette's panel.
- `tests/` runs the library on examples.
- `app/` is ordinary Rust around it: channels, timers, WindowServer calls, AppKit,
  and the measures that are computed in floating point. It performs the effects
  and hands the outcomes back.

Coordinates are held by the bit patterns of their doubles: the library compares
them and passes them on, and computes with whole points alone.
