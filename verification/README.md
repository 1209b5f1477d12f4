# Keyboard Hero

A library for a piano-learning game in the style of a falling-note waterfall:
songs play, the player plays along, and everything that is counted, judged,
engraved or recorded on the way is written in Verus, with contracts that Verus
proves.

## What is in it

- Songs: `midi_file`, `smf`, `song`, `midi_player`, `tracks`, `preview`
- Playing along: `play_along`, `playing`, `scene`, `keyboard`
- The arcade layer: `effects`, `results`, `chance`, `hud`, `sfx`
- Staff notation: `engrave`, `score`, `sheet`
- Free play: `freeplay`, `recorder`, `take`, `microphone`, `ring`, `sample`
- The spectrum analyser's tap: `spectrum`
- The menu: `menu`, `favourites`, `names`
- Shared: `arith`, `order`, `text`

Times are nanoseconds, given in by the caller. Audio samples and places on screen
that the library only carries along are the bit patterns of 32-bit floats. Shares
and lengths that it computes with are exact integers or fractions.

## Layout

- `src/` is the verified library. What must hold of several functions together is
  stated as a proof function whose name begins with `law_`.
- `tests/` runs the library on concrete values.
- `app/` is ordinary Rust around it: files and dialogs, window events, the menu, and what is
  drawn or computed in floating point.

## What is trusted

Three calls leave the library: reading and writing MIDI files with midly, in
`smf`, and lower-casing a name with the standard library, in `names`.
