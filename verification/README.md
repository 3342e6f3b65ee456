# buddhabrot

A Buddhabrot renderer. The library (`src/`, verified with Verus) holds the
integer core:

- `rng`: the MT19937 Mersenne Twister that draws sample points, specified
  word for word (seeding, regeneration, tempering);
- `slate`: the canvas of 16-bit hit counters, its running maximum, the
  scaling of counters to grey levels and their big-endian byte layout;
- `batch`, `trace`: batches of points with their hits, and orbits bounded in
  length with their status;
- `point_renderer`: what each rendering style records for a finished orbit;
- `drum`: the lane scheduling of the eight-lane checker;
- `points_finder`: the random and scan finders as state machines;
- `complex_literal`, `view`: the syntax of complex numbers on the command
  line and the integer geometry of the view.

The program (`app/`) does the floating-point iteration, the threads, the
command line and the PNG file, calling the library for every decision.
