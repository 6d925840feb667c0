//! Core of an Apple II / II+ emulator: a 6502 CPU with the NMOS undocumented
//! opcodes, the Apple II memory map with its soft switches and language card,
//! a Disk II controller with a bit-level read sequencer, GCR track encoding,
//! and frame rendering for the text, lo-res and hi-res video modes.
pub mod cpu;
pub mod memory;
pub mod instructions;
pub mod nibble;
pub mod roundtrip;
pub mod disk2;
pub mod machine;
pub mod video;
pub mod host;
pub mod disasm;
pub mod probe;

use vstd::prelude::*;
pub use vstd::view::View;

verus! {

} // verus!
