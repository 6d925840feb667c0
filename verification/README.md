# apple2_core

The core of an Apple II / II+ emulator, written in Verus: every function of
the library is verified against its contract, except a few small trusted
wrappers whose contracts are believed: gzip decoding (through flate2) and
reading the system clock (for the flashing-text phase).

- `cpu`, `instructions`: the NMOS 6502 (documented and undocumented opcodes,
  decimal mode, the KIL jam), stepped over any `memory::Memory` bus whose
  reads and writes are specified as a state machine.
- `memory`: the Apple II memory map with its soft switches, language card,
  keyboard, speaker, game port and floating bus; `machine` ties the CPU to it
  and counts cycles.
- `disk2`, `nibble`, `roundtrip`: the Disk II controller with its bit-level
  sequencer, GCR nibblizing of DOS 3.3 images and reading them back, with the
  proof that reading back a nibblized image gives the image.
- `video`: text, lo-res and hi-res frames, each pixel specified.
- `host`, `disasm`, `probe`: what the desktop front end and the debugging
  tools decide (key codes, joystick, pasted text, disk image files, a small
  disassembler, screen dumps, typed key strings, a joystick calibration
  schedule, track patching).

`app/` is the desktop program around the library (window, audio, files,
configuration); `tests/` runs the library.
