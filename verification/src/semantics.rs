//! The instruction-set semantics: one specification function per operation
//! of the machine, each mapping a `Chip8View` to the state after the
//! operation. The executable methods of `Chip8` promise exactly these
//! transitions.
//!
//! Deviations from a bare historical interpreter, chosen so that every
//! operation is total and panic-free:
//! - program-counter and address-register arithmetic wraps modulo 2^16;
//! - every address into memory is taken modulo 4096;
//! - a sprite's column is taken modulo 64 and a key index modulo 16
//!   (the screen is toroidal and there are sixteen keys);
//! - a call with all sixteen stack slots occupied jumps without pushing.

use vstd::prelude::*;

use crate::state::Chip8View;
use crate::state::font_seq;

verus! {

/// 16-bit wraparound arithmetic.
pub open spec fn wrap16(a: int) -> u16 {
    (a % 0x10000) as u16
}

/// The state with the program counter moved `k` bytes forward, wrapping.
pub open spec fn advanced(m: Chip8View, k: int) -> Chip8View {
    Chip8View { pc: wrap16(m.pc + k), ..m }
}

// ---------------------------------------------------------------------------
// Control flow
// ---------------------------------------------------------------------------

/// Opcode 1nnn / Bnnn: an unconditional jump.
pub open spec fn spec_jump(m: Chip8View, loc: u16) -> Chip8View {
    Chip8View { pc: loc, ..m }
}

/// Opcode 2nnn: push the return address and jump. With all sixteen slots
/// occupied the push is dropped and only the jump happens.
pub open spec fn spec_call(m: Chip8View, loc: u16) -> Chip8View {
    if m.sp < 16 {
        Chip8View {
            stack: m.stack.update(m.sp as int, wrap16(m.pc + 2)),
            sp: (m.sp + 1) as u8,
            pc: loc,
            ..m
        }
    } else {
        Chip8View { pc: loc, ..m }
    }
}

/// Opcode 00EE: pop the return address into the program counter and clear
/// the freed slot; with an empty stack the operation does nothing.
pub open spec fn spec_return(m: Chip8View) -> Chip8View {
    if m.sp > 0 {
        Chip8View {
            sp: (m.sp - 1) as u8,
            pc: m.stack[m.sp - 1],
            stack: m.stack.update(m.sp - 1, 0u16),
            ..m
        }
    } else {
        m
    }
}

/// The conditional-skip primitive: the program counter moves four bytes
/// when the condition holds, else two.
pub open spec fn spec_skip_if(m: Chip8View, condition: bool) -> Chip8View {
    advanced(m, if condition { 4 } else { 2 })
}

/// Opcode 3xkk.
pub open spec fn spec_skip_if_reg_equals_byte(m: Chip8View, x: u8, byte: u8) -> Chip8View {
    spec_skip_if(m, m.v[x as int] == byte)
}

/// Opcode 4xkk.
pub open spec fn spec_skip_if_reg_not_equals_byte(m: Chip8View, x: u8, byte: u8) -> Chip8View {
    spec_skip_if(m, m.v[x as int] != byte)
}

/// Opcode 5xy0.
pub open spec fn spec_skip_if_reg_equals_reg(m: Chip8View, x: u8, y: u8) -> Chip8View {
    spec_skip_if(m, m.v[x as int] == m.v[y as int])
}

/// Opcode 9xy0.
pub open spec fn spec_skip_if_reg_not_equals_reg(m: Chip8View, x: u8, y: u8) -> Chip8View {
    spec_skip_if(m, m.v[x as int] != m.v[y as int])
}

// ---------------------------------------------------------------------------
// Register arithmetic and logic
// ---------------------------------------------------------------------------

/// Opcode 6xkk.
pub open spec fn spec_set_register(m: Chip8View, x: u8, byte: u8) -> Chip8View {
    advanced(Chip8View { v: m.v.update(x as int, byte), ..m }, 2)
}

/// Opcode 7xkk: wrapping addition of an immediate, no flag.
pub open spec fn spec_add_to_register(m: Chip8View, x: u8, byte: u8) -> Chip8View {
    advanced(Chip8View { v: m.v.update(x as int, ((m.v[x as int] + byte) % 256) as u8), ..m }, 2)
}

/// Opcode 8xy0.
pub open spec fn spec_copy_to_register(m: Chip8View, x: u8, y: u8) -> Chip8View {
    advanced(Chip8View { v: m.v.update(x as int, m.v[y as int]), ..m }, 2)
}

/// Opcode 8xy1.
pub open spec fn spec_or_with_register(m: Chip8View, x: u8, y: u8) -> Chip8View {
    advanced(Chip8View { v: m.v.update(x as int, m.v[x as int] | m.v[y as int]), ..m }, 2)
}

/// Opcode 8xy2.
pub open spec fn spec_and_with_register(m: Chip8View, x: u8, y: u8) -> Chip8View {
    advanced(Chip8View { v: m.v.update(x as int, m.v[x as int] & m.v[y as int]), ..m }, 2)
}

/// Opcode 8xy3.
pub open spec fn spec_xor_with_register(m: Chip8View, x: u8, y: u8) -> Chip8View {
    advanced(Chip8View { v: m.v.update(x as int, m.v[x as int] ^ m.v[y as int]), ..m }, 2)
}

/// Opcode 8xy4: Vx becomes (Vx + Vy) mod 256. On carry the flag register
/// is set to 1 first; without carry it is left as it was. Writing Vx comes
/// second, so with x = 15 the sum wins over the flag.
pub open spec fn spec_add_registers(m: Chip8View, x: u8, y: u8) -> Chip8View {
    let sum = m.v[x as int] + m.v[y as int];
    let flagged = if sum > 255 { m.v.update(15, 1u8) } else { m.v };
    advanced(Chip8View { v: flagged.update(x as int, (sum % 256) as u8), ..m }, 2)
}

/// Opcode 8xy5: the flag register becomes 1 exactly when Vx > Vy (no
/// borrow), then Vx becomes (Vx - Vy) mod 256.
pub open spec fn spec_sub(m: Chip8View, x: u8, y: u8) -> Chip8View {
    let vx = m.v[x as int];
    let vy = m.v[y as int];
    let flag: u8 = if vx > vy { 1 } else { 0 };
    advanced(
        Chip8View { v: m.v.update(15, flag).update(x as int, ((vx - vy) % 256) as u8), ..m },
        2,
    )
}

/// Opcode 8xy7: the flag register becomes 1 exactly when Vy > Vx, then Vx
/// becomes (Vy - Vx) mod 256.
pub open spec fn spec_sub_reverse(m: Chip8View, x: u8, y: u8) -> Chip8View {
    let vx = m.v[x as int];
    let vy = m.v[y as int];
    let flag: u8 = if vy > vx { 1 } else { 0 };
    advanced(
        Chip8View { v: m.v.update(15, flag).update(x as int, ((vy - vx) % 256) as u8), ..m },
        2,
    )
}

/// Opcode 8xy6: the flag register takes the bit shifted out (the least
/// significant bit of Vx), then Vx is shifted right once.
pub open spec fn spec_shift_right(m: Chip8View, x: u8) -> Chip8View {
    let vx = m.v[x as int];
    advanced(Chip8View { v: m.v.update(15, vx & 0x01).update(x as int, vx >> 1u8), ..m }, 2)
}

/// Opcode 8xyE: the flag register takes `Vx & 0x8` (bit 3, not the top
/// bit), then Vx is shifted left once, the top bit lost.
pub open spec fn spec_shift_left(m: Chip8View, x: u8) -> Chip8View {
    let vx = m.v[x as int];
    advanced(Chip8View { v: m.v.update(15, vx & 0x8).update(x as int, vx << 1u8), ..m }, 2)
}

/// Opcode Cxkk: Vx becomes a byte drawn from the random source, masked
/// with the immediate. The drawn byte `r` is a parameter: the executable
/// method promises this transition for some `r`.
pub open spec fn spec_random(m: Chip8View, x: u8, byte: u8, r: u8) -> Chip8View {
    advanced(Chip8View { v: m.v.update(x as int, r & byte), ..m }, 2)
}

// ---------------------------------------------------------------------------
// The address register and memory block transfers
// ---------------------------------------------------------------------------

/// Opcode Annn.
pub open spec fn spec_set_i(m: Chip8View, addr: u16) -> Chip8View {
    advanced(Chip8View { i: addr, ..m }, 2)
}

/// Opcode Fx1E: I grows by Vx, wrapping in 16 bits.
pub open spec fn spec_i_plus_reg(m: Chip8View, x: u8) -> Chip8View {
    advanced(Chip8View { i: wrap16(m.i + m.v[x as int]), ..m }, 2)
}

/// Opcode Fx29: I points at the five-byte font glyph for digit Vx.
pub open spec fn spec_set_i_digit_sprite(m: Chip8View, x: u8) -> Chip8View {
    advanced(Chip8View { i: (m.v[x as int] * 5) as u16, ..m }, 2)
}

/// Opcode Fx33: the decimal digits of Vx land at addresses I, I+1, I+2
/// (each taken modulo the memory size).
pub open spec fn spec_bcd(m: Chip8View, x: u8) -> Chip8View {
    let base = (m.i as int) % 4096;
    let d = m.v[x as int];
    advanced(
        Chip8View {
            mem: m.mem.update(base, (d / 100) as u8).update((base + 1) % 4096, ((d / 10) % 10) as u8).update(
                (base + 2) % 4096,
                (d % 10) as u8,
            ),
            ..m
        },
        2,
    )
}

/// Memory after registers 0..k are copied to addresses base, base+1, ...
/// (each modulo the memory size).
pub open spec fn mem_with_regs(mem: Seq<u8>, v: Seq<u8>, base: int, k: nat) -> Seq<u8>
    decreases k,
{
    if k == 0 {
        mem
    } else {
        mem_with_regs(mem, v, base, (k - 1) as nat).update((base + k - 1) % 4096, v[k - 1])
    }
}

/// Opcode Fx55: registers 0..=x go to memory at I; I itself is untouched.
pub open spec fn spec_store_regs_through(m: Chip8View, x: u8) -> Chip8View {
    advanced(
        Chip8View { mem: mem_with_regs(m.mem, m.v, (m.i as int) % 4096, (x + 1) as nat), ..m },
        2,
    )
}

/// Registers after slots 0..k are loaded from addresses base, base+1, ...
/// (each modulo the memory size).
pub open spec fn regs_from_mem(v: Seq<u8>, mem: Seq<u8>, base: int, k: nat) -> Seq<u8>
    decreases k,
{
    if k == 0 {
        v
    } else {
        regs_from_mem(v, mem, base, (k - 1) as nat).update(k - 1, mem[(base + k - 1) % 4096])
    }
}

/// Opcode Fx65: registers 0..=x are loaded from memory at I.
pub open spec fn spec_read_to_regs(m: Chip8View, x: u8) -> Chip8View {
    advanced(
        Chip8View { v: regs_from_mem(m.v, m.mem, (m.i as int) % 4096, (x + 1) as nat), ..m },
        2,
    )
}

// ---------------------------------------------------------------------------
// The display
// ---------------------------------------------------------------------------

/// The 64-bit row mask a sprite byte contributes at column `vx`: the byte
/// sits with its top bit at bit 63-vx, and a byte that would run past the
/// right edge wraps around to the left edge of the same row.
pub open spec fn sprite_mask(byte: u8, vx: u8) -> u64
    recommends
        vx < 64,
{
    if vx > 56 {
        let overflow = (vx + 8 - 64) as u8;
        (((byte as u64) << ((64 - overflow) as u64)) | ((byte >> overflow) as u64))
    } else {
        (byte as u64) << ((56 - vx) as u64)
    }
}

/// The display row sprite row `t` lands on when the sprite starts at
/// screen row `vy`: rows wrap at 32.
pub open spec fn target_row(vy: u8, t: int) -> int {
    (vy + t) % 32
}

/// Sprite row `t` of a sprite whose bytes start at `base`: the byte at
/// base + t, modulo the memory size.
pub open spec fn sprite_byte(mem: Seq<u8>, base: int, t: int) -> u8 {
    mem[(base + t) % 4096]
}

/// The framebuffer after the first `k` sprite rows are XOR-composited:
/// sprite row j (the byte at base+j, modulo the memory size) lands on
/// display row (vy + j) mod 32.
pub open spec fn draw_rows(d: Seq<u64>, mem: Seq<u8>, base: int, vx: u8, vy: u8, k: nat) -> Seq<u64>
    decreases k,
{
    if k == 0 {
        d
    } else {
        let prev = draw_rows(d, mem, base, vx, vy, (k - 1) as nat);
        let row = target_row(vy, k - 1);
        let mask = sprite_mask(sprite_byte(mem, base, k - 1), vx);
        prev.update(row, prev[row] ^ mask)
    }
}

/// Whether compositing the first `k` sprite rows erases some lit pixel:
/// true as soon as one mask overlaps a bit already set in its target row.
pub open spec fn draw_erases(d: Seq<u64>, mem: Seq<u8>, base: int, vx: u8, vy: u8, k: nat) -> bool
    decreases k,
{
    if k == 0 {
        false
    } else {
        let prev = draw_rows(d, mem, base, vx, vy, (k - 1) as nat);
        let row = target_row(vy, k - 1);
        let mask = sprite_mask(sprite_byte(mem, base, k - 1), vx);
        draw_erases(d, mem, base, vx, vy, (k - 1) as nat) || (prev[row] & mask != 0)
    }
}

/// Opcode Dxyn: draw the n-byte sprite at memory address I at screen
/// position (Vx, Vy); the flag register reports whether any pixel was
/// erased.
pub open spec fn spec_update_display(m: Chip8View, x: u8, y: u8, n: u8) -> Chip8View {
    let vx = (m.v[x as int] % 64) as u8;
    let vy = m.v[y as int];
    let base = (m.i as int) % 4096;
    let flag: u8 = if draw_erases(m.display, m.mem, base, vx, vy, n as nat) {
        1
    } else {
        0
    };
    advanced(
        Chip8View {
            display: draw_rows(m.display, m.mem, base, vx, vy, n as nat),
            v: m.v.update(15, flag),
            ..m
        },
        2,
    )
}

/// Opcode 00E0: every pixel goes dark.
pub open spec fn spec_clear_screen(m: Chip8View) -> Chip8View {
    advanced(Chip8View { display: Seq::new(32, |k: int| 0u64), ..m }, 2)
}

// ---------------------------------------------------------------------------
// Input and timers
// ---------------------------------------------------------------------------

/// Opcode Ex9E: skip when the key named by Vx (modulo 16) is down.
pub open spec fn spec_skip_if_pressed(m: Chip8View, x: u8) -> Chip8View {
    spec_skip_if(m, m.input[(m.v[x as int] % 16) as int])
}

/// Opcode ExA1: skip when the key named by Vx (modulo 16) is up.
pub open spec fn spec_skip_if_not_pressed(m: Chip8View, x: u8) -> Chip8View {
    spec_skip_if(m, !m.input[(m.v[x as int] % 16) as int])
}

/// Opcode Fx0A: suspend execution until a key press, which will land in Vx.
pub open spec fn spec_wait_for_input(m: Chip8View, x: u8) -> Chip8View {
    advanced(Chip8View { wait: true, store_input_at: x, ..m }, 2)
}

/// Opcode Fx15.
pub open spec fn spec_set_dt(m: Chip8View, x: u8) -> Chip8View {
    advanced(Chip8View { dt: m.v[x as int], ..m }, 2)
}

/// Opcode Fx18.
pub open spec fn spec_set_st(m: Chip8View, x: u8) -> Chip8View {
    advanced(Chip8View { st: m.v[x as int], ..m }, 2)
}

/// Opcode Fx07.
pub open spec fn spec_set_reg_to_dt(m: Chip8View, x: u8) -> Chip8View {
    advanced(Chip8View { v: m.v.update(x as int, m.dt), ..m }, 2)
}

/// The latch after the keys below `k` have been reconciled with the new
/// snapshot, in increasing order: a changed key is written through, and a
/// rising edge met while waiting stores the key index in the target
/// register, clears the target and ends the wait.
pub open spec fn spec_update_input_upto(m: Chip8View, new: Seq<bool>, k: nat) -> Chip8View
    decreases k,
{
    if k == 0 {
        m
    } else {
        let p = spec_update_input_upto(m, new, (k - 1) as nat);
        let j = k - 1;
        if p.input[j] != new[j] {
            let q = Chip8View { input: p.input.update(j, new[j]), ..p };
            if new[j] && q.wait {
                Chip8View {
                    v: q.v.update(q.store_input_at as int, j as u8),
                    store_input_at: 0,
                    wait: false,
                    ..q
                }
            } else {
                q
            }
        } else {
            p
        }
    }
}

/// A full sixteen-key snapshot replaces the latch; the first rising edge
/// (in key order) met while waiting resolves the wait.
pub open spec fn spec_update_input(m: Chip8View, new: Seq<bool>) -> Chip8View {
    spec_update_input_upto(m, new, 16)
}

/// One timer tick: each timer counts down while above zero.
pub open spec fn spec_tick(m: Chip8View) -> Chip8View {
    Chip8View {
        dt: if m.dt > 0 { (m.dt - 1) as u8 } else { 0 },
        st: if m.st > 0 { (m.st - 1) as u8 } else { 0 },
        ..m
    }
}

// ---------------------------------------------------------------------------
// Fetch, decode, one whole cycle
// ---------------------------------------------------------------------------

/// The two bytes at the program counter read big-endian, addresses taken
/// modulo the memory size.
pub open spec fn spec_opcode(m: Chip8View) -> int {
    m.mem[(m.pc as int) % 4096] * 256 + m.mem[((m.pc as int) + 1) % 4096]
}

/// Decode and execute one opcode. `r` is the byte the random source hands
/// a Cxkk instruction; every other instruction ignores it. An opcode no
/// arm recognises leaves the state as it is (the program counter stalls).
pub open spec fn spec_execute(m: Chip8View, r: u8) -> Chip8View {
    let op = spec_opcode(m);
    let g = op / 4096;
    let x = ((op / 256) % 16) as u8;
    let y = ((op / 16) % 16) as u8;
    let kk = (op % 256) as u8;
    let nnn = (op % 4096) as u16;
    let n = (op % 16) as u8;
    if g == 0x0 {
        if kk == 0xE0 {
            spec_clear_screen(m)
        } else if kk == 0xEE {
            spec_return(m)
        } else {
            m
        }
    } else if g == 0x1 {
        spec_jump(m, nnn)
    } else if g == 0x2 {
        spec_call(m, nnn)
    } else if g == 0x3 {
        spec_skip_if_reg_equals_byte(m, x, kk)
    } else if g == 0x4 {
        spec_skip_if_reg_not_equals_byte(m, x, kk)
    } else if g == 0x5 {
        spec_skip_if_reg_equals_reg(m, x, y)
    } else if g == 0x6 {
        spec_set_register(m, x, kk)
    } else if g == 0x7 {
        spec_add_to_register(m, x, kk)
    } else if g == 0x8 {
        if n == 0x0 {
            spec_copy_to_register(m, x, y)
        } else if n == 0x1 {
            spec_or_with_register(m, x, y)
        } else if n == 0x2 {
            spec_and_with_register(m, x, y)
        } else if n == 0x3 {
            spec_xor_with_register(m, x, y)
        } else if n == 0x4 {
            spec_add_registers(m, x, y)
        } else if n == 0x5 {
            spec_sub(m, x, y)
        } else if n == 0x6 {
            spec_shift_right(m, x)
        } else if n == 0x7 {
            spec_sub_reverse(m, x, y)
        } else if n == 0xE {
            spec_shift_left(m, x)
        } else {
            m
        }
    } else if g == 0x9 {
        spec_skip_if_reg_not_equals_reg(m, x, y)
    } else if g == 0xA {
        spec_set_i(m, nnn)
    } else if g == 0xB {
        spec_jump(m, (nnn + m.v[0]) as u16)
    } else if g == 0xC {
        spec_random(m, x, kk, r)
    } else if g == 0xD {
        spec_update_display(m, x, y, n)
    } else if g == 0xE {
        if kk == 0x9E {
            spec_skip_if_pressed(m, x)
        } else if kk == 0xA1 {
            spec_skip_if_not_pressed(m, x)
        } else {
            m
        }
    } else if g == 0xF {
        if kk == 0x07 {
            spec_set_reg_to_dt(m, x)
        } else if kk == 0x0A {
            spec_wait_for_input(m, x)
        } else if kk == 0x15 {
            spec_set_dt(m, x)
        } else if kk == 0x18 {
            spec_set_st(m, x)
        } else if kk == 0x1E {
            spec_i_plus_reg(m, x)
        } else if kk == 0x29 {
            spec_set_i_digit_sprite(m, x)
        } else if kk == 0x33 {
            spec_bcd(m, x)
        } else if kk == 0x55 {
            spec_store_regs_through(m, x)
        } else if kk == 0x65 {
            spec_read_to_regs(m, x)
        } else {
            m
        }
    } else {
        m
    }
}

/// One whole machine cycle: nothing while waiting for a key; otherwise one
/// instruction followed by one timer tick.
pub open spec fn spec_cycle(m: Chip8View, r: u8) -> Chip8View {
    if m.wait {
        m
    } else {
        spec_tick(spec_execute(m, r))
    }
}

// ---------------------------------------------------------------------------
// Whole-machine setup
// ---------------------------------------------------------------------------

/// `init`: the font glyphs land at addresses 0x000..0x050; everything else
/// is untouched.
pub open spec fn spec_init(m: Chip8View) -> Chip8View {
    Chip8View {
        mem: Seq::new(4096, |k: int| if k < 80 { font_seq()[k] } else { m.mem[k] }),
        ..m
    }
}

/// `load`: the program bytes land at addresses 0x200 onward; everything
/// else is untouched.
pub open spec fn spec_load(m: Chip8View, program: Seq<u8>) -> Chip8View {
    Chip8View {
        mem: Seq::new(
            4096,
            |k: int| if 0x200 <= k < 0x200 + program.len() {
                program[k - 0x200]
            } else {
                m.mem[k]
            },
        ),
        ..m
    }
}

} // verus!
