# handheld

Verified building blocks of three handheld consoles: the hardware around their processors, each block
stated in contracts and proved with Verus.

- `src/gba`: the timers, the video timing and the wait states.
- `src/gbc`: the tile attributes, the palette RAM, the VRAM DMA and the choice of machine that a
  cartridge header makes.
- `src/nds`: the system calls, the interrupt, DMA and inter-processor hardware, the sound channels, the
  firmware flash and the serial bus, the game card, the two 2D engines, the 3D core and the dumps.
- `src/state.rs`: the byte stream that every block saves to and loads from.
- `tests`: what each block does on concrete values.
- `app`: the edge to a frontend that wants floating-point audio.

Functions named `law_*` state what holds across calls: that what was saved comes back, that a queue is
first in, first out, that a cut polygon lies inside the frustum.
