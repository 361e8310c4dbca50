//! The mathematical state of a CHIP-8 machine.
//!
//! Every executable operation of the machine is specified as a function on
//! this state, so the whole instruction set has a single ghost-level model.

use vstd::prelude::*;

verus! {

/// The architectural state of the machine, as contracts speak of it:
/// 4096 bytes of memory, sixteen 8-bit registers, a sixteen-slot return
/// stack, the 16-bit address register and program counter, two timers, the
/// sixteen-key input latch, the 32-row framebuffer (64 pixels per row, one
/// bit each), and the wait-for-key latch.
#[verifier::ext_equal]
pub struct Chip8View {
    /// The memory address register.
    pub i: u16,
    /// The 4096 bytes of addressable memory.
    pub mem: Seq<u8>,
    /// The sixteen return-address slots.
    pub stack: Seq<u16>,
    /// The sixteen general-purpose registers; register 15 doubles as the
    /// carry/borrow/collision flag.
    pub v: Seq<u8>,
    /// The program counter.
    pub pc: u16,
    /// The stack pointer: the number of occupied stack slots.
    pub sp: u8,
    /// The delay timer.
    pub dt: u8,
    /// The sound timer.
    pub st: u8,
    /// The sixteen key states.
    pub input: Seq<bool>,
    /// The framebuffer: bit `x` of row `y` is the pixel in screen column
    /// `63 - x` of screen row `y`.
    pub display: Seq<u64>,
    /// Whether execution is suspended until a key press.
    pub wait: bool,
    /// The register that a resolving key press is written to.
    pub store_input_at: u8,
}

impl Chip8View {
    /// Well-formedness: every array has its architectural size, the stack
    /// pointer stays within the sixteen slots, and the wait target names a
    /// register.
    pub open spec fn wf(self) -> bool {
        &&& self.mem.len() == 4096
        &&& self.stack.len() == 16
        &&& self.v.len() == 16
        &&& self.input.len() == 16
        &&& self.display.len() == 32
        &&& self.sp <= 16
        &&& self.store_input_at < 16
    }
}

/// The sixteen five-byte font glyphs for the hexadecimal digits, installed
/// at addresses 0x000..0x050 by `init`.
pub open spec fn font_seq() -> Seq<u8> {
    seq![
        0xF0u8, 0x90, 0x90, 0x90, 0xF0, // 0
        0x20, 0x60, 0x20, 0x20, 0x70, // 1
        0xF0, 0x10, 0xF0, 0x80, 0xF0, // 2
        0xF0, 0x10, 0xF0, 0x10, 0xF0, // 3
        0x90, 0x90, 0xF0, 0x10, 0x10, // 4
        0xF0, 0x80, 0xF0, 0x10, 0xF0, // 5
        0xF0, 0x80, 0xF0, 0x90, 0xF0, // 6
        0xF0, 0x10, 0x20, 0x40, 0x40, // 7
        0xF0, 0x90, 0xF0, 0x90, 0xF0, // 8
        0xF0, 0x90, 0xF0, 0x10, 0xF0, // 9
        0xF0, 0x90, 0xF0, 0x90, 0x90, // A
        0xE0, 0x90, 0xE0, 0x90, 0xE0, // B
        0xF0, 0x80, 0x80, 0x80, 0xF0, // C
        0xE0, 0x90, 0x90, 0x90, 0xE0, // D
        0xF0, 0x80, 0xF0, 0x80, 0xF0, // E
        0xF0, 0x80, 0xF0, 0x80, 0x80, // F
    ]
}

/// The state of a freshly created machine: everything zeroed, except the
/// program counter, which starts at the program load address 0x200.
pub open spec fn fresh_state() -> Chip8View {
    Chip8View {
        i: 0,
        mem: Seq::new(4096, |k: int| 0u8),
        stack: Seq::new(16, |k: int| 0u16),
        v: Seq::new(16, |k: int| 0u8),
        pc: 0x200,
        sp: 0,
        dt: 0,
        st: 0,
        input: Seq::new(16, |k: int| false),
        display: Seq::new(32, |k: int| 0u64),
        wait: false,
        store_input_at: 0,
    }
}

} // verus!
