# idlescreen

The verified core of the IdleScreen screensaver stack, written in Verus.

`src/` holds the logic with its contracts and proofs:

- names and paths: shared-memory and socket names (`path_safety`, `shm`),
  saver names and plugin resolution (`launcher`, `resolve`, `discovery`);
- the daemon's control-peer policy (`auth`) and its handshake with a
  screensaver runner (`handshake`);
- pixels: nearest-neighbour stretching (`stretch`), readback and channel
  swaps (`pixels`), the glyph atlas (`atlas`), overlay geometry and buffers
  (`overlay`), and the presenter's session bookkeeping (`session`);
- the command lines: argument parsing (`cli`), the interactive panel's
  answers (`interactive`), status and config reports (`status`), the router
  (`router`, `catalog`);
- the settings applet as a state machine (`applet`);
- palettes, themes, captions, monitor bounds, settings and the seeded
  generator used by screensavers (`palette`, `theme`, `caption`, `monitor`,
  `settings`, `rng`), and the plugin interface (`saver`);
- `laws` states the properties that span several of these.

`app/` is the `idlescreen` router program around the library: it runs
package managers and component binaries, reads the environment and the
file system, maps shared memory, and does the floating-point colour work.

`tests/` exercises the library on concrete values.
