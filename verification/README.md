# chip8_core

A CHIP-8 interpreter core whose behaviour is specified and proved with Verus.

- `src/model.rs`: the abstract machine (`EmuState`) and what every
  instruction, a fetch-execute cycle and a timer tick do to it.
- `src/emu.rs`, `src/ops.rs`, `src/draw.rs`: the executable machine `Emu`,
  each operation proved against the model.
- `src/error.rs`: errors and their descriptions.
- `src/host.rs`: keypad layout, input events, pacing of cycles and timer
  ticks, and the squares to fill when rendering.
- `src/laws.rs`: properties spanning several instructions.
- `src/rng.rs`: the random byte of `CXNN`, drawn from the `rand` crate.
- `app/main.rs`: an SDL2 window that runs a ROM.
