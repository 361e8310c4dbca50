//! The executable machine and its instruction handlers.
//!
//! Each handler's contract is one transition function from [`crate::semantics`]:
//! the state after the call is exactly the specified successor of the state
//! before it.

use vstd::prelude::*;

use crate::semantics::{
    draw_erases, draw_rows, mem_with_regs, regs_from_mem, spec_add_registers,
    spec_add_to_register, spec_and_with_register, spec_bcd, spec_call, spec_clear_screen,
    spec_copy_to_register, spec_cycle, spec_execute, spec_i_plus_reg, spec_init, spec_jump,
    spec_load, spec_opcode, spec_or_with_register, spec_random, spec_read_to_regs, spec_return,
    spec_set_dt, spec_set_i, spec_set_i_digit_sprite, spec_set_reg_to_dt, spec_set_register,
    spec_set_st, spec_shift_left, spec_shift_right, spec_skip_if, spec_skip_if_not_pressed,
    spec_skip_if_pressed, spec_skip_if_reg_equals_byte, spec_skip_if_reg_equals_reg,
    spec_skip_if_reg_not_equals_byte, spec_skip_if_reg_not_equals_reg, spec_store_regs_through,
    spec_sub, spec_sub_reverse, spec_tick, spec_update_display, spec_update_input,
    spec_update_input_upto, spec_wait_for_input, spec_xor_with_register, sprite_mask, wrap16,
};
use crate::state::Chip8View;
use crate::state::font_seq;
use crate::state::fresh_state;

use rand::Rng;

verus! {

/// Declares rand's thread-local generator handle so a machine can hold one.
#[verifier::external_type_specification]
#[verifier::external_body]
pub struct ExThreadRng(rand::rngs::ThreadRng);

/// Relies on rand::thread_rng: returns a handle to the calling thread's
/// generator. Nothing is assumed of it.
#[verifier::external_body]
fn fresh_rng() -> rand::rngs::ThreadRng {
    rand::thread_rng()
}

/// Relies on rand::Rng::gen: draws one uniformly distributed byte from the
/// generator. Nothing is assumed of the value, so callers hold for every
/// possible byte.
#[verifier::external_body]
fn random_byte(rng: &mut rand::rngs::ThreadRng) -> u8 {
    rng.gen::<u8>()
}

/// The CHIP-8 machine. The fields are the architectural state, mirrored
/// one to one by the ghost [`Chip8View`]; the random source rides along as
/// an opaque handle.
#[allow(non_snake_case)]
pub struct Chip8 {
    /// Memory address register.
    pub I: u16,
    /// The 4096 bytes of RAM.
    pub M: Vec<u8>,
    /// The sixteen-slot return stack.
    pub S: Vec<u16>,
    /// The sixteen general-purpose registers.
    pub V: Vec<u8>,
    /// Program counter.
    pub pc: u16,
    /// Stack pointer.
    pub sp: u8,
    /// Delay timer.
    pub dt: u8,
    /// Sound timer.
    pub st: u8,
    /// The sixteen key states.
    pub input: Vec<bool>,
    /// The framebuffer: 32 rows of 64 packed pixel bits.
    pub display: Vec<u64>,
    /// Whether the machine is halted waiting for a key press.
    pub wait: bool,
    /// The register a resolving key press is stored to.
    pub store_input_at: u8,
    /// The machine's handle to the random source.
    pub rng: rand::rngs::ThreadRng,
}

impl View for Chip8 {
    type V = Chip8View;

    open spec fn view(&self) -> Chip8View {
        Chip8View {
            i: self.I,
            mem: self.M@,
            stack: self.S@,
            v: self.V@,
            pc: self.pc,
            sp: self.sp,
            dt: self.dt,
            st: self.st,
            input: self.input@,
            display: self.display@,
            wait: self.wait,
            store_input_at: self.store_input_at,
        }
    }
}

/// A vector of `n` copies of `value`.
fn filled<T: Copy>(n: usize, value: T) -> (r: Vec<T>)
    ensures
        r@.len() == n,
        forall|k: int| 0 <= k < n ==> r@[k] == value,
{
    let mut r: Vec<T> = Vec::new();
    while r.len() < n
        invariant
            r@.len() <= n,
            forall|k: int| 0 <= k < r@.len() ==> r@[k] == value,
        decreases n - r@.len(),
    {
        r.push(value);
    }
    r
}

/// The sixteen five-byte font glyphs, as a vector.
fn font_sprites() -> (r: Vec<u8>)
    ensures
        r@ == font_seq(),
        r@.len() == 80,
{
    let mut f: Vec<u8> = Vec::new();
    f.push(0xF0); f.push(0x90); f.push(0x90); f.push(0x90); f.push(0xF0);  // 0
    f.push(0x20); f.push(0x60); f.push(0x20); f.push(0x20); f.push(0x70);  // 1
    f.push(0xF0); f.push(0x10); f.push(0xF0); f.push(0x80); f.push(0xF0);  // 2
    f.push(0xF0); f.push(0x10); f.push(0xF0); f.push(0x10); f.push(0xF0);  // 3
    f.push(0x90); f.push(0x90); f.push(0xF0); f.push(0x10); f.push(0x10);  // 4
    f.push(0xF0); f.push(0x80); f.push(0xF0); f.push(0x10); f.push(0xF0);  // 5
    f.push(0xF0); f.push(0x80); f.push(0xF0); f.push(0x90); f.push(0xF0);  // 6
    f.push(0xF0); f.push(0x10); f.push(0x20); f.push(0x40); f.push(0x40);  // 7
    f.push(0xF0); f.push(0x90); f.push(0xF0); f.push(0x90); f.push(0xF0);  // 8
    f.push(0xF0); f.push(0x90); f.push(0xF0); f.push(0x10); f.push(0xF0);  // 9
    f.push(0xF0); f.push(0x90); f.push(0xF0); f.push(0x90); f.push(0x90);  // A
    f.push(0xE0); f.push(0x90); f.push(0xE0); f.push(0x90); f.push(0xE0);  // B
    f.push(0xF0); f.push(0x80); f.push(0x80); f.push(0x80); f.push(0xF0);  // C
    f.push(0xE0); f.push(0x90); f.push(0x90); f.push(0x90); f.push(0xE0);  // D
    f.push(0xF0); f.push(0x80); f.push(0xF0); f.push(0x80); f.push(0xF0);  // E
    f.push(0xF0); f.push(0x80); f.push(0xF0); f.push(0x80); f.push(0x80);  // F
    proof {
        assert(f@ =~= font_seq());
    }
    f
}

/// The program counter moves `k` bytes, wrapping in 16 bits.
fn pc_bump(pc: u16, k: u16) -> (r: u16)
    ensures
        r == wrap16(pc + k),
{
    (((pc as u32) + (k as u32)) % 0x10000) as u16
}

impl Chip8 {
    /// Jump: pc becomes `loc`.
    pub fn jump(&mut self, loc: u16)
        ensures
            final(self)@ == spec_jump(old(self)@, loc),
    {
        self.pc = loc;
    }

    /// Call: push the return address (unless the stack is full) and jump.
    pub fn call(&mut self, loc: u16)
        requires
            old(self)@.wf(),
        ensures
            final(self)@.wf(),
            final(self)@ == spec_call(old(self)@, loc),
    {
        if self.sp < 16 {
            let ret = pc_bump(self.pc, 2);
            self.S[self.sp as usize] = ret;
            self.sp = self.sp + 1;
        }
        self.pc = loc;
    }

    /// Return from subroutine: pop into pc and clear the slot; a no-op on
    /// an empty stack.
    pub fn return_from_sub(&mut self)
        requires
            old(self)@.wf(),
        ensures
            final(self)@.wf(),
            final(self)@ == spec_return(old(self)@),
    {
        if self.sp > 0 {
            self.sp = self.sp - 1;
            self.pc = self.S[self.sp as usize];
            self.S[self.sp as usize] = 0;
        }
    }

    /// The skip primitive: pc moves 4 bytes when the condition holds, else 2.
    fn skip_if(&mut self, condition: bool)
        ensures
            final(self)@ == spec_skip_if(old(self)@, condition),
    {
        if condition {
            self.pc = pc_bump(self.pc, 4);
        } else {
            self.pc = pc_bump(self.pc, 2);
        }
    }

    /// Skip when Vx equals the immediate byte.
    pub fn skip_if_reg_equals_byte(&mut self, x: u8, byte: u8)
        requires
            old(self)@.wf(),
            x < 16,
        ensures
            final(self)@.wf(),
            final(self)@ == spec_skip_if_reg_equals_byte(old(self)@, x, byte),
    {
        let c = self.V[x as usize] == byte;
        self.skip_if(c);
    }

    /// Skip when Vx differs from the immediate byte.
    pub fn skip_if_reg_not_equals_byte(&mut self, x: u8, byte: u8)
        requires
            old(self)@.wf(),
            x < 16,
        ensures
            final(self)@.wf(),
            final(self)@ == spec_skip_if_reg_not_equals_byte(old(self)@, x, byte),
    {
        let c = self.V[x as usize] != byte;
        self.skip_if(c);
    }

    /// Skip when Vx equals Vy.
    pub fn skip_if_reg_equals_reg(&mut self, x: u8, y: u8)
        requires
            old(self)@.wf(),
            x < 16,
            y < 16,
        ensures
            final(self)@.wf(),
            final(self)@ == spec_skip_if_reg_equals_reg(old(self)@, x, y),
    {
        let c = self.V[x as usize] == self.V[y as usize];
        self.skip_if(c);
    }

    /// Skip when Vx differs from Vy.
    pub fn skip_if_reg_not_equals_reg(&mut self, x: u8, y: u8)
        requires
            old(self)@.wf(),
            x < 16,
            y < 16,
        ensures
            final(self)@.wf(),
            final(self)@ == spec_skip_if_reg_not_equals_reg(old(self)@, x, y),
    {
        let c = self.V[x as usize] != self.V[y as usize];
        self.skip_if(c);
    }

    /// Vx becomes the immediate byte.
    pub fn set_register(&mut self, x: u8, byte: u8)
        requires
            old(self)@.wf(),
            x < 16,
        ensures
            final(self)@.wf(),
            final(self)@ == spec_set_register(old(self)@, x, byte),
    {
        self.V[x as usize] = byte;
        self.pc = pc_bump(self.pc, 2);
    }

    /// Vx grows by the immediate byte, wrapping, with no flag.
    pub fn add_to_register(&mut self, x: u8, byte: u8)
        requires
            old(self)@.wf(),
            x < 16,
        ensures
            final(self)@.wf(),
            final(self)@ == spec_add_to_register(old(self)@, x, byte),
    {
        let sum = self.V[x as usize] as u16 + byte as u16;
        self.V[x as usize] = (sum % 256) as u8;
        self.pc = pc_bump(self.pc, 2);
    }

    /// Vx becomes Vy.
    pub fn copy_to_register(&mut self, x: u8, y: u8)
        requires
            old(self)@.wf(),
            x < 16,
            y < 16,
        ensures
            final(self)@.wf(),
            final(self)@ == spec_copy_to_register(old(self)@, x, y),
    {
        let vy = self.V[y as usize];
        self.V[x as usize] = vy;
        self.pc = pc_bump(self.pc, 2);
    }

    /// Vx becomes Vx OR Vy.
    pub fn or_with_register(&mut self, x: u8, y: u8)
        requires
            old(self)@.wf(),
            x < 16,
            y < 16,
        ensures
            final(self)@.wf(),
            final(self)@ == spec_or_with_register(old(self)@, x, y),
    {
        let r = self.V[x as usize] | self.V[y as usize];
        self.V[x as usize] = r;
        self.pc = pc_bump(self.pc, 2);
    }

    /// Vx becomes Vx AND Vy.
    pub fn and_with_register(&mut self, x: u8, y: u8)
        requires
            old(self)@.wf(),
            x < 16,
            y < 16,
        ensures
            final(self)@.wf(),
            final(self)@ == spec_and_with_register(old(self)@, x, y),
    {
        let r = self.V[x as usize] & self.V[y as usize];
        self.V[x as usize] = r;
        self.pc = pc_bump(self.pc, 2);
    }

    /// Vx becomes Vx XOR Vy.
    pub fn xor_with_register(&mut self, x: u8, y: u8)
        requires
            old(self)@.wf(),
            x < 16,
            y < 16,
        ensures
            final(self)@.wf(),
            final(self)@ == spec_xor_with_register(old(self)@, x, y),
    {
        let r = self.V[x as usize] ^ self.V[y as usize];
        self.V[x as usize] = r;
        self.pc = pc_bump(self.pc, 2);
    }

    /// Vx becomes (Vx + Vy) mod 256; on carry the flag register is set to 1,
    /// without carry it keeps its value.
    pub fn add_registers(&mut self, x: u8, y: u8)
        requires
            old(self)@.wf(),
            x < 16,
            y < 16,
        ensures
            final(self)@.wf(),
            final(self)@ == spec_add_registers(old(self)@, x, y),
    {
        let sum = self.V[x as usize] as u16 + self.V[y as usize] as u16;
        if sum > 255 {
            self.V[15] = 1;
        }
        self.V[x as usize] = (sum % 256) as u8;
        self.pc = pc_bump(self.pc, 2);
    }

    /// The flag register becomes 1 exactly when Vx > Vy, then Vx becomes
    /// (Vx - Vy) mod 256.
    pub fn sub(&mut self, x: u8, y: u8)
        requires
            old(self)@.wf(),
            x < 16,
            y < 16,
        ensures
            final(self)@.wf(),
            final(self)@ == spec_sub(old(self)@, x, y),
    {
        let vx = self.V[x as usize];
        let vy = self.V[y as usize];
        self.V[15] = if vx > vy { 1 } else { 0 };
        let diff = (vx as u16 + 256 - vy as u16) % 256;
        self.V[x as usize] = diff as u8;
        self.pc = pc_bump(self.pc, 2);
    }

    /// The flag register becomes 1 exactly when Vy > Vx, then Vx becomes
    /// (Vy - Vx) mod 256.
    pub fn sub_reverse(&mut self, x: u8, y: u8)
        requires
            old(self)@.wf(),
            x < 16,
            y < 16,
        ensures
            final(self)@.wf(),
            final(self)@ == spec_sub_reverse(old(self)@, x, y),
    {
        let vx = self.V[x as usize];
        let vy = self.V[y as usize];
        self.V[15] = if vy > vx { 1 } else { 0 };
        let diff = (vy as u16 + 256 - vx as u16) % 256;
        self.V[x as usize] = diff as u8;
        self.pc = pc_bump(self.pc, 2);
    }

    /// The flag register takes Vx's least significant bit, then Vx is
    /// shifted right once.
    pub fn shift_right(&mut self, x: u8)
        requires
            old(self)@.wf(),
            x < 16,
        ensures
            final(self)@.wf(),
            final(self)@ == spec_shift_right(old(self)@, x),
    {
        let vx = self.V[x as usize];
        self.V[15] = vx & 0x01;
        self.V[x as usize] = vx >> 1u8;
        self.pc = pc_bump(self.pc, 2);
    }

    /// The flag register takes `Vx & 0x8`, then Vx is shifted left once,
    /// the top bit lost.
    pub fn shift_left(&mut self, x: u8)
        requires
            old(self)@.wf(),
            x < 16,
        ensures
            final(self)@.wf(),
            final(self)@ == spec_shift_left(old(self)@, x),
    {
        let vx = self.V[x as usize];
        self.V[15] = vx & 0x8;
        self.V[x as usize] = vx << 1u8;
        self.pc = pc_bump(self.pc, 2);
    }

    /// Vx becomes a random byte masked with the immediate: the transition
    /// holds for some drawn byte `r`, about whose value nothing is known.
    pub fn random(&mut self, x: u8, byte: u8)
        requires
            old(self)@.wf(),
            x < 16,
        ensures
            final(self)@.wf(),
            exists|r: u8| final(self)@ == spec_random(old(self)@, x, byte, r),
    {
        let drawn = random_byte(&mut self.rng);
        self.V[x as usize] = drawn & byte;
        self.pc = pc_bump(self.pc, 2);
        proof {
            assert(self@ == spec_random(old(self)@, x, byte, drawn));
        }
    }

    /// I becomes the immediate address.
    pub fn set_i(&mut self, addr: u16)
        ensures
            final(self)@ == spec_set_i(old(self)@, addr),
    {
        self.I = addr;
        self.pc = pc_bump(self.pc, 2);
    }

    /// I grows by Vx, wrapping in 16 bits.
    pub fn i_plus_reg(&mut self, x: u8)
        requires
            old(self)@.wf(),
            x < 16,
        ensures
            final(self)@.wf(),
            final(self)@ == spec_i_plus_reg(old(self)@, x),
    {
        let vx = self.V[x as usize];
        self.I = pc_bump(self.I, vx as u16);
        self.pc = pc_bump(self.pc, 2);
    }

    /// I points at the font glyph for the digit Vx.
    pub fn set_i_digit_sprite(&mut self, x: u8)
        requires
            old(self)@.wf(),
            x < 16,
        ensures
            final(self)@.wf(),
            final(self)@ == spec_set_i_digit_sprite(old(self)@, x),
    {
        let vx = self.V[x as usize];
        self.I = vx as u16 * 5;
        self.pc = pc_bump(self.pc, 2);
    }

    /// The delay timer becomes Vx.
    pub fn set_dt(&mut self, x: u8)
        requires
            old(self)@.wf(),
            x < 16,
        ensures
            final(self)@.wf(),
            final(self)@ == spec_set_dt(old(self)@, x),
    {
        self.dt = self.V[x as usize];
        self.pc = pc_bump(self.pc, 2);
    }

    /// The sound timer becomes Vx.
    pub fn set_st(&mut self, x: u8)
        requires
            old(self)@.wf(),
            x < 16,
        ensures
            final(self)@.wf(),
            final(self)@ == spec_set_st(old(self)@, x),
    {
        self.st = self.V[x as usize];
        self.pc = pc_bump(self.pc, 2);
    }

    /// Vx becomes the delay timer's value.
    pub fn set_reg_to_dt(&mut self, x: u8)
        requires
            old(self)@.wf(),
            x < 16,
        ensures
            final(self)@.wf(),
            final(self)@ == spec_set_reg_to_dt(old(self)@, x),
    {
        let t = self.dt;
        self.V[x as usize] = t;
        self.pc = pc_bump(self.pc, 2);
    }

    /// Skip when the key named by Vx (modulo 16) is down.
    pub fn skip_if_pressed(&mut self, x: u8)
        requires
            old(self)@.wf(),
            x < 16,
        ensures
            final(self)@.wf(),
            final(self)@ == spec_skip_if_pressed(old(self)@, x),
    {
        let key = (self.V[x as usize] % 16) as usize;
        let c = self.input[key];
        self.skip_if(c);
    }

    /// Skip when the key named by Vx (modulo 16) is up.
    pub fn skip_if_not_pressed(&mut self, x: u8)
        requires
            old(self)@.wf(),
            x < 16,
        ensures
            final(self)@.wf(),
            final(self)@ == spec_skip_if_not_pressed(old(self)@, x),
    {
        let key = (self.V[x as usize] % 16) as usize;
        let c = !self.input[key];
        self.skip_if(c);
    }

    /// Suspend execution until a key press, to be stored in Vx.
    pub fn wait_for_input(&mut self, x: u8)
        requires
            old(self)@.wf(),
            x < 16,
        ensures
            final(self)@.wf(),
            final(self)@ == spec_wait_for_input(old(self)@, x),
    {
        self.wait = true;
        self.store_input_at = x;
        self.pc = pc_bump(self.pc, 2);
    }

    /// The decimal digits of Vx land at addresses I, I+1, I+2 (modulo the
    /// memory size).
    pub fn bcd(&mut self, x: u8)
        requires
            old(self)@.wf(),
            x < 16,
        ensures
            final(self)@.wf(),
            final(self)@ == spec_bcd(old(self)@, x),
    {
        let digit = self.V[x as usize];
        let base = (self.I % 4096) as usize;
        self.M[base] = digit / 100;
        self.M[(base + 1) % 4096] = (digit / 10) % 10;
        self.M[(base + 2) % 4096] = digit % 10;
        self.pc = pc_bump(self.pc, 2);
    }

    /// Registers 0..=x go to memory at addresses I, I+1, ... (modulo the
    /// memory size); I itself is untouched.
    #[verifier::loop_isolation(false)]
    pub fn store_regs_through(&mut self, x: u8)
        requires
            old(self)@.wf(),
            x < 16,
        ensures
            final(self)@.wf(),
            final(self)@ == spec_store_regs_through(old(self)@, x),
    {
        let base = (self.I % 4096) as usize;
        let mut r: usize = 0;
        while r < x as usize + 1
            invariant
                r <= x as usize + 1,
                self@.mem.len() == 4096,
                self@.mem == mem_with_regs(old(self)@.mem, old(self)@.v, base as int, r as nat),
                (Chip8View { mem: old(self)@.mem, ..self@ }) == old(self)@,
            decreases x as usize + 1 - r,
        {
            let val = self.V[r];
            self.M[(base + r) % 4096] = val;
            r = r + 1;
        }
        self.pc = pc_bump(self.pc, 2);
    }

    /// Registers 0..=x are loaded from memory at addresses I, I+1, ...
    /// (modulo the memory size).
    #[verifier::loop_isolation(false)]
    pub fn read_to_regs(&mut self, x: u8)
        requires
            old(self)@.wf(),
            x < 16,
        ensures
            final(self)@.wf(),
            final(self)@ == spec_read_to_regs(old(self)@, x),
    {
        let base = (self.I % 4096) as usize;
        let mut r: usize = 0;
        while r < x as usize + 1
            invariant
                r <= x as usize + 1,
                self@.v.len() == 16,
                self@.v == regs_from_mem(old(self)@.v, old(self)@.mem, base as int, r as nat),
                (Chip8View { v: old(self)@.v, ..self@ }) == old(self)@,
            decreases x as usize + 1 - r,
        {
            let val = self.M[(base + r) % 4096];
            self.V[r] = val;
            r = r + 1;
        }
        self.pc = pc_bump(self.pc, 2);
    }

    /// Copy a program into memory at address 0x200 onward.
    #[verifier::loop_isolation(false)]
    pub fn load(&mut self, program: &[u8])
        requires
            old(self)@.wf(),
            program@.len() <= 3584,
        ensures
            final(self)@.wf(),
            final(self)@ == spec_load(old(self)@, program@),
    {
        let mut idx: usize = 0;
        while idx < program.len()
            invariant
                idx <= program@.len(),
                self@.mem.len() == 4096,
                forall|k: int| 0 <= k < idx ==> self@.mem[0x200 + k] == program@[k],
                forall|k: int|
                    0 <= k < 4096 && !(0x200 <= k < 0x200 + idx) ==> self@.mem[k] == old(
                        self,
                    )@.mem[k],
                (Chip8View { mem: old(self)@.mem, ..self@ }) == old(self)@,
            decreases program@.len() - idx,
        {
            let b = program[idx];
            self.M[0x200 + idx] = b;
            idx = idx + 1;
        }
        proof {
            assert(self@.mem =~= spec_load(old(self)@, program@).mem);
            assert(self@ =~= spec_load(old(self)@, program@));
        }
    }

    /// Install the font glyphs at addresses 0x000..0x050 and take a fresh
    /// handle to the random source.
    #[verifier::loop_isolation(false)]
    pub fn init(&mut self)
        requires
            old(self)@.wf(),
        ensures
            final(self)@.wf(),
            final(self)@ == spec_init(old(self)@),
    {
        let font = font_sprites();
        let mut k: usize = 0;
        while k < 80
            invariant
                k <= 80,
                font@ == font_seq(),
                self@.mem.len() == 4096,
                forall|j: int| 0 <= j < k ==> self@.mem[j] == font_seq()[j],
                forall|j: int| k <= j < 4096 ==> self@.mem[j] == old(self)@.mem[j],
                (Chip8View { mem: old(self)@.mem, ..self@ }) == old(self)@,
            decreases 80 - k,
        {
            let b = font[k];
            self.M[k] = b;
            k = k + 1;
        }
        self.rng = fresh_rng();
        proof {
            assert(self@.mem =~= spec_init(old(self)@).mem);
            assert(self@ =~= spec_init(old(self)@));
        }
    }

    /// Reconcile the key latch with a full sixteen-key snapshot: changed
    /// keys are written through, and a rising edge met while waiting stores
    /// the key index in the target register and ends the wait.
    #[verifier::loop_isolation(false)]
    pub fn update_input(&mut self, new_input: [bool; 16])
        requires
            old(self)@.wf(),
        ensures
            final(self)@.wf(),
            final(self)@ == spec_update_input(old(self)@, new_input@),
    {
        let mut key: usize = 0;
        while key < 16
            invariant
                key <= 16,
                self@.wf(),
                self@ == spec_update_input_upto(old(self)@, new_input@, key as nat),
            decreases 16 - key,
        {
            if self.input[key] != new_input[key] {
                self.input[key] = new_input[key];
                if new_input[key] && self.wait {
                    self.V[self.store_input_at as usize] = key as u8;
                    self.store_input_at = 0;
                    self.wait = false;
                }
            }
            key = key + 1;
        }
    }

    /// Draw the n-byte sprite at memory address I at screen position
    /// (Vx, Vy): each sprite row is XORed into its display row, columns
    /// wrapping at 64 and rows at 32, and the flag register reports whether
    /// any lit pixel was erased.
    #[verifier::loop_isolation(false)]
    pub fn update_display(&mut self, x: u8, y: u8, n: u8)
        requires
            old(self)@.wf(),
            x < 16,
            y < 16,
        ensures
            final(self)@.wf(),
            final(self)@ == spec_update_display(old(self)@, x, y, n),
    {
        let vx = self.V[x as usize] % 64;
        let vy = self.V[y as usize];
        let base = (self.I % 4096) as usize;
        let mut erased = false;
        let mut index: u8 = 0;
        while index < n
            invariant
                index <= n,
                vx < 64,
                base < 4096,
                self@.display.len() == 32,
                self@.mem.len() == 4096,
                self@.display == draw_rows(
                    old(self)@.display,
                    old(self)@.mem,
                    base as int,
                    vx,
                    vy,
                    index as nat,
                ),
                erased == draw_erases(
                    old(self)@.display,
                    old(self)@.mem,
                    base as int,
                    vx,
                    vy,
                    index as nat,
                ),
                (Chip8View { display: old(self)@.display, ..self@ }) == old(self)@,
            decreases n - index,
        {
            let byte = self.M[(base + index as usize) % 4096];
            let yoff = ((vy as usize) + (index as usize)) % 32;
            let row = self.display[yoff];
            let mask: u64;
            if vx + 8 > 64 {
                let overflow = vx + 8 - 64;
                mask = ((byte as u64) << ((64 - overflow) as u64)) | ((byte >> overflow) as u64);
            } else {
                mask = (byte as u64) << ((56 - vx) as u64);
            }
            proof {
                assert(mask == sprite_mask(byte, vx));
            }
            if !erased && (row & mask > 0) {
                erased = true;
            }
            self.display[yoff] = row ^ mask;
            index = index + 1;
        }
        let flag: u8 = if erased {
            1
        } else {
            0
        };
        self.V[15] = flag;
        self.pc = pc_bump(self.pc, 2);
    }

    /// One machine cycle: nothing while waiting for a key; otherwise fetch
    /// and execute the opcode at the program counter, then tick the timers.
    /// The state after the call is `spec_cycle` of the state before it, for
    /// some byte `r` from the random source; every instruction but Cxkk
    /// ignores `r`.
    pub fn cycle(&mut self)
        requires
            old(self)@.wf(),
        ensures
            final(self)@.wf(),
            exists|r: u8| final(self)@ == spec_cycle(old(self)@, r),
            old(self)@.wait || spec_opcode(old(self)@) / 4096 != 0xC ==> final(self)@
                == spec_cycle(old(self)@, 0),
    {
        if self.wait {
            proof {
                assert(self@ == spec_cycle(old(self)@, 0));
                assert(exists|r: u8| self@ == spec_cycle(old(self)@, r));
            }
            return;
        }
        let p = (self.pc % 4096) as usize;
        let q = (p + 1) % 4096;
        let opcode: u16 = (self.M[p] as u16) * 256 + (self.M[q] as u16);
        proof {
            vstd::arithmetic::div_mod::lemma_add_mod_noop(self.pc as int, 1, 4096);
            assert(opcode == spec_opcode(old(self)@));
        }
        let g = opcode / 4096;
        let x = ((opcode / 256) % 16) as u8;
        let y = ((opcode / 16) % 16) as u8;
        let kk = (opcode % 256) as u8;
        let nnn = opcode % 4096;
        let nib = (opcode % 16) as u8;
        if g == 0x0 {
            if kk == 0xE0 {
                self.clear_screen();
            } else if kk == 0xEE {
                self.return_from_sub();
            }
        } else if g == 0x1 {
            self.jump(nnn);
        } else if g == 0x2 {
            self.call(nnn);
        } else if g == 0x3 {
            self.skip_if_reg_equals_byte(x, kk);
        } else if g == 0x4 {
            self.skip_if_reg_not_equals_byte(x, kk);
        } else if g == 0x5 {
            self.skip_if_reg_equals_reg(x, y);
        } else if g == 0x6 {
            self.set_register(x, kk);
        } else if g == 0x7 {
            self.add_to_register(x, kk);
        } else if g == 0x8 {
            if nib == 0x0 {
                self.copy_to_register(x, y);
            } else if nib == 0x1 {
                self.or_with_register(x, y);
            } else if nib == 0x2 {
                self.and_with_register(x, y);
            } else if nib == 0x3 {
                self.xor_with_register(x, y);
            } else if nib == 0x4 {
                self.add_registers(x, y);
            } else if nib == 0x5 {
                self.sub(x, y);
            } else if nib == 0x6 {
                self.shift_right(x);
            } else if nib == 0x7 {
                self.sub_reverse(x, y);
            } else if nib == 0xE {
                self.shift_left(x);
            }
        } else if g == 0x9 {
            self.skip_if_reg_not_equals_reg(x, y);
        } else if g == 0xA {
            self.set_i(nnn);
        } else if g == 0xB {
            let v0 = self.V[0];
            self.jump(nnn + v0 as u16);
        } else if g == 0xC {
            self.random(x, kk);
        } else if g == 0xD {
            self.update_display(x, y, nib);
        } else if g == 0xE {
            if kk == 0x9E {
                self.skip_if_pressed(x);
            } else if kk == 0xA1 {
                self.skip_if_not_pressed(x);
            }
        } else if g == 0xF {
            if kk == 0x07 {
                self.set_reg_to_dt(x);
            } else if kk == 0x0A {
                self.wait_for_input(x);
            } else if kk == 0x15 {
                self.set_dt(x);
            } else if kk == 0x18 {
                self.set_st(x);
            } else if kk == 0x1E {
                self.i_plus_reg(x);
            } else if kk == 0x29 {
                self.set_i_digit_sprite(x);
            } else if kk == 0x33 {
                self.bcd(x);
            } else if kk == 0x55 {
                self.store_regs_through(x);
            } else if kk == 0x65 {
                self.read_to_regs(x);
            }
        }
        let ghost mid = self@;
        if self.dt > 0 {
            self.dt = self.dt - 1;
        }
        if self.st > 0 {
            if self.st == 1 {
                // The sound timer's trip from 1 to 0 is the beep trigger;
                // the core exposes no audio, so nothing happens here.
            }
            self.st = self.st - 1;
        }
        proof {
            assert(self@ =~= spec_tick(mid));
            if opcode / 4096 == 0xC {
                let rw = choose|rr: u8| mid == spec_random(old(self)@, x, kk, rr);
                assert(mid == spec_execute(old(self)@, rw));
                assert(self@ == spec_cycle(old(self)@, rw));
                assert(exists|rr: u8| self@ == spec_cycle(old(self)@, rr));
            } else {
                assert(mid == spec_execute(old(self)@, 0));
                assert(self@ == spec_cycle(old(self)@, 0));
                assert(exists|rr: u8| self@ == spec_cycle(old(self)@, rr));
            }
        }
    }

    /// Every pixel goes dark.
    pub fn clear_screen(&mut self)
        requires
            old(self)@.wf(),
        ensures
            final(self)@.wf(),
            final(self)@ == spec_clear_screen(old(self)@),
    {
        self.display = filled(32, 0u64);
        self.pc = pc_bump(self.pc, 2);
        proof {
            assert(self@.display =~= spec_clear_screen(old(self)@).display);
        }
    }
}

/// A fresh machine: everything zeroed, pc at 0x200, with a handle to the
/// thread's random source.
pub fn new_chip8() -> (r: Chip8)
    ensures
        r@ == fresh_state(),
        r@.wf(),
{
    let r = Chip8 {
        I: 0,
        M: filled(4096, 0u8),
        S: filled(16, 0u16),
        V: filled(16, 0u8),
        pc: 0x200,
        sp: 0,
        dt: 0,
        st: 0,
        input: filled(16, false),
        display: filled(32, 0u64),
        wait: false,
        store_input_at: 0,
        rng: fresh_rng(),
    };
    proof {
        assert(r@ =~= fresh_state());
    }
    r
}

} // verus!
