# wayland-agent

Drives keyboard and pointer, captures the screen and looks at windows on a
GNOME/Wayland session, from a shell without a display.  One daemon owns the
portal session; every other command is a client that sends it one request over a
unix socket.

- `src/` is the library, verified with Verus.  It holds every decision: what a
  request does step by step, how keys and buttons are named, where a point of the
  screen falls, how frames are converted, how windows are matched and selected,
  how the elements of a window are walked through and shown, and when the session
  is replaced or ends.
- `app/` is the program around it: command line, socket, portal, D-Bus, PipeWire,
  JSON, and the arithmetic on floating-point coordinates.
- `tests/` runs the library.

Requests are carried out by machines (`Job`, `Query`, `Walk`, `Watch`): each says
what has to be done next and is told what came of it, so that what it does is a
function of what it is told.  Floating-point coordinates appear in the library as
`Coord`, which holds what the rules read of one.  What std and the `image` crate
do for the library is declared in items marked `Trusted:`.
