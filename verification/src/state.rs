//! The mathematical model of the machine: every contract of the virtual
//! machine speaks about values of `State`, the view of `Chip8`.

use crate::font::font_data;
use vstd::prelude::*;

verus! {

/// What the machine reports when it cannot run or accept an input. The first
/// four mark malformed programs; the last two reject bad host input.
#[derive(Clone, Copy, Debug, PartialEq, Eq)]
pub enum Fault {
    /// A byte pattern that matches no instruction of the set.
    UnknownOpcode,
    /// A return with nothing on the call stack.
    StackUnderflow,
    /// The program counter does not point at two bytes of memory.
    PcOutOfBounds,
    /// An access through the index register past the end of memory.
    MemOutOfBounds,
    /// A key index at or above 16.
    KeyOutOfRange,
    /// A program image too long for the memory behind the load address.
    ProgramTooLarge,
}

/// The abstract machine state: memory, program counter, call stack, index
/// register, the sixteen 8-bit registers V0-VF, the two countdown timers, the
/// sixteen key states, the wait-for-key flag with its target register, and
/// the framebuffer pixels.
#[verifier::ext_equal]
pub struct State {
    pub mem: Seq<u8>,
    pub pc: u16,
    pub stack: Seq<u16>,
    pub reg_i: u16,
    pub v: Seq<u8>,
    pub delay: u8,
    pub sound: u8,
    pub keys: Seq<bool>,
    pub paused: bool,
    pub wait_reg: u8,
    pub fb: Seq<bool>,
}

impl State {
    /// Shape of a well-formed machine: 4096 memory bytes, 16 registers, 16
    /// keys, 2048 pixels, and a wait target that names a register.
    pub open spec fn wf(self) -> bool {
        &&& self.mem.len() == 4096
        &&& self.v.len() == 16
        &&& self.keys.len() == 16
        &&& self.fb.len() == 2048
        &&& self.wait_reg < 16
    }
}

/// The state of a freshly built machine: everything zeroed and off, except
/// the glyph table in low memory.
pub open spec fn initial_state() -> State {
    State {
        mem: Seq::new(4096, |j: int| if 0 <= j < 80 { font_data()[j] } else { 0u8 }),
        pc: 0u16,
        stack: Seq::empty(),
        reg_i: 0u16,
        v: Seq::new(16, |j: int| 0u8),
        delay: 0u8,
        sound: 0u8,
        keys: Seq::new(16, |j: int| false),
        paused: false,
        wait_reg: 0u8,
        fb: Seq::new(2048, |j: int| false),
    }
}

/// Memory after a program image is copied in at 0x200.
pub open spec fn loaded_mem(mem: Seq<u8>, data: Seq<u8>) -> Seq<u8> {
    Seq::new(mem.len(), |j: int| if 0x200 <= j < 0x200 + data.len() { data[j - 0x200] } else { mem[j] })
}

/// The 16-bit big-endian opcode under the program counter.
pub open spec fn fetch_op(s: State) -> u16 {
    (s.mem[s.pc as int] * 256 + s.mem[s.pc as int + 1]) as u16
}

} // verus!
