# Prvw

The logic of the Prvw image viewer, verified with Verus.

- `src/color`: camera profiles (parsing DCP files, reading the profile inside a DNG, finding the
  one for a camera), ICC conversion and display profiles, and the index arithmetic of the pixel
  passes.
- `src/browser`: browse mode, which is a folder tree, a thumbnail grid and a status bar. Everything
  is a state machine from what a window or a worker reports to what it's asked to do.
- `src/clipboard.rs`, `src/chrome.rs`, `src/paths.rs`, `src/commands.rs`: what goes on the Windows
  clipboard, what colour a window paints, how paths compare, and which command is which action.
- `src/text.rs`, `src/bytes.rs`: text and little-endian numbers.
- `app`: floating-point pixel passes, files, displays and windows. It calls the library and isn't
  verified.

The functions' contracts are stated over mathematical models. What holds across functions stands at
the end of each file as a public proof function.

Outside calls are wrapped, and each wrapper says what's believed of it: `moxcms` parses and converts
ICC profiles, `zstd` decompresses the bundled profiles, `lensfun` finds lenses, and a few text
functions come from `std`.
