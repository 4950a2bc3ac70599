# rusty_boy

A Game Boy / Game Boy Color emulator core whose behaviour is stated in Verus contracts and
proved.

- `src/` is the verified library: the CPU (instruction decoding and execution, interrupts,
  the HALT bug, OAM DMA and HDMA), the memory map, the cartridge bank controllers
  (ROM only, MBC1, MBC3 with its clock, MBC5), the scanline PPU, the timer, the joypad
  and serial registers, loading a ROM image and running a frame. Each machine step has
  a spec function, and the executable code is proved to follow it exactly; failures that
  have no defined behaviour (an opcode that is not implemented, a palette read past its
  64 bytes) come back as `EmulationError` values.
- `tests/` exercises the library on concrete values.
- `app/` is the desktop front end (eframe/egui window, file dialogs, keyboard) and the
  save states: the machine is copied field by field into types that serde writes with
  bincode. The cartridge controllers hand out and take back their state through
  `to_parts` / `from_parts`, and a restored machine runs only when `Cpu::is_well_formed`
  accepts it.

Controls: WASD to move, K for A, J for B, U for select, I for start, Shift for double
speed, Space to pause, Ctrl-O to open a ROM, Ctrl-S to save the state (File menu: Save
State and Load State).
