# matrix_rain

A "digital rain" screen effect built on Bevy. The decisions of the effect live
in the verified library under `src/`:

- `letter`: the glyph alphabet (`0`-`9`, `a`-`x`, `A`-`Y`) and the random glyph draw;
- `strip`: how a falling strip grows letter by letter, stops and is cleaned up;
- `window`: which windows Escape closes;
- `post`: which camera views get a post-processing pipeline and when the
  render node rebuilds its bind group.

`app/` is the Bevy program around it: systems, components, colours, timers and
the floating-point motion and fading, which call into the library for each
decision.
