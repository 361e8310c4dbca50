//! Proved properties of the instruction set, stated over the transition
//! functions that the executable methods promise.

use vstd::prelude::*;

use crate::semantics::{
    draw_erases, draw_rows, spec_add_registers, spec_call, spec_clear_screen, spec_return,
    spec_sub, spec_update_display, spec_update_input, spec_update_input_upto, sprite_byte,
    sprite_mask, target_row, wrap16,
};
use crate::state::Chip8View;

verus! {

// ---------------------------------------------------------------------------
// Register arithmetic
// ---------------------------------------------------------------------------

/// `add_registers` leaves Vx holding (Vx + Vy) mod 256, for every pair of
/// registers.
pub proof fn lemma_add_registers_wraps(m: Chip8View, x: u8, y: u8)
    requires
        m.wf(),
        x < 16,
        y < 16,
    ensures
        spec_add_registers(m, x, y).v[x as int] == (m.v[x as int] + m.v[y as int]) % 256,
{
}

/// `add_registers` leaves the flag register at 1 exactly when Vx + Vy
/// overflows a byte. This needs the flag clear beforehand (a non-carrying
/// add leaves the flag as it was) and x other than 15 (writing the sum to
/// V15 overwrites the flag).
pub proof fn lemma_add_registers_carry_flag(m: Chip8View, x: u8, y: u8)
    requires
        m.wf(),
        x < 16,
        y < 16,
        x != 15,
        m.v[15] == 0,
    ensures
        spec_add_registers(m, x, y).v[15] == 1 <==> m.v[x as int] + m.v[y as int] > 255,
{
}

/// `sub` leaves Vx holding (Vx - Vy) mod 256, for every pair of registers.
pub proof fn lemma_sub_wraps(m: Chip8View, x: u8, y: u8)
    requires
        m.wf(),
        x < 16,
        y < 16,
    ensures
        spec_sub(m, x, y).v[x as int] == (m.v[x as int] - m.v[y as int]) % 256,
{
}

/// `sub` leaves the flag register at 1 exactly when Vx > Vy, for x other
/// than 15 (writing the difference to V15 overwrites the flag).
pub proof fn lemma_sub_borrow_flag(m: Chip8View, x: u8, y: u8)
    requires
        m.wf(),
        x < 16,
        y < 16,
        x != 15,
    ensures
        spec_sub(m, x, y).v[15] == 1 <==> m.v[x as int] > m.v[y as int],
{
}

// ---------------------------------------------------------------------------
// Call and return
// ---------------------------------------------------------------------------

/// A call followed by a return restores the machine's control state: from
/// pc = P with a free stack slot, `call(addr)` then `return_from_sub`
/// leaves pc = P + 2 (wrapping), the stack pointer as it was, and the slot
/// used by the call cleared.
pub proof fn lemma_call_then_return(m: Chip8View, addr: u16)
    requires
        m.wf(),
        m.sp < 16,
    ensures
        spec_return(spec_call(m, addr)).pc == wrap16(m.pc + 2),
        spec_return(spec_call(m, addr)).sp == m.sp,
        spec_return(spec_call(m, addr)).stack == m.stack.update(m.sp as int, 0u16),
{
}

// ---------------------------------------------------------------------------
// The display
// ---------------------------------------------------------------------------

/// Two display rows hit by different rows of one sprite are different rows
/// of the framebuffer, as long as the sprite is at most 32 rows tall.
proof fn lemma_sprite_rows_distinct(vy: u8, a: int, b: int)
    requires
        0 <= a < b,
        b - a < 32,
    ensures
        target_row(vy, a) != target_row(vy, b),
{
    let p = vy + a;
    let q = vy + b;
    if p % 32 == q % 32 {
        vstd::arithmetic::div_mod::lemma_fundamental_div_mod(p, 32);
        vstd::arithmetic::div_mod::lemma_fundamental_div_mod(q, 32);
        assert(q - p == 32 * (q / 32) - 32 * (p / 32));
        assert(false);
    }
}

/// Compositing preserves the framebuffer's height.
proof fn lemma_draw_rows_len(d: Seq<u64>, mem: Seq<u8>, base: int, vx: u8, vy: u8, k: nat)
    requires
        d.len() == 32,
    ensures
        draw_rows(d, mem, base, vx, vy, k).len() == 32,
    decreases k,
{
    if k > 0 {
        lemma_draw_rows_len(d, mem, base, vx, vy, (k - 1) as nat);
    }
}

/// A row no sprite row lands on keeps its pixels.
proof fn lemma_draw_rows_untouched(
    d: Seq<u64>,
    mem: Seq<u8>,
    base: int,
    vx: u8,
    vy: u8,
    k: nat,
    r: int,
)
    requires
        d.len() == 32,
        k <= 32,
        0 <= r < 32,
        forall|t: int| 0 <= t < k ==> r != #[trigger] target_row(vy, t),
    ensures
        draw_rows(d, mem, base, vx, vy, k)[r] == d[r],
    decreases k,
{
    if k > 0 {
        lemma_draw_rows_untouched(d, mem, base, vx, vy, (k - 1) as nat, r);
        lemma_draw_rows_len(d, mem, base, vx, vy, (k - 1) as nat);
    }
}

/// The row sprite row `t` lands on ends as its old pixels XOR the sprite
/// row's mask (each of the at most 32 sprite rows lands on its own row).
proof fn lemma_draw_rows_hit(
    d: Seq<u64>,
    mem: Seq<u8>,
    base: int,
    vx: u8,
    vy: u8,
    k: nat,
    t: int,
)
    requires
        d.len() == 32,
        k <= 32,
        0 <= t < k,
    ensures
        draw_rows(d, mem, base, vx, vy, k)[target_row(vy, t)] == d[target_row(vy, t)]
            ^ sprite_mask(sprite_byte(mem, base, t), vx),
    decreases k,
{
    lemma_draw_rows_len(d, mem, base, vx, vy, (k - 1) as nat);
    if t == k - 1 {
        assert forall|s: int| 0 <= s < k - 1 implies target_row(vy, t) != #[trigger] target_row(
            vy,
            s,
        ) by {
            lemma_sprite_rows_distinct(vy, s, t);
        }
        lemma_draw_rows_untouched(d, mem, base, vx, vy, (k - 1) as nat, target_row(vy, t));
    } else {
        lemma_draw_rows_hit(d, mem, base, vx, vy, (k - 1) as nat, t);
        lemma_sprite_rows_distinct(vy, t, k - 1);
    }
}

/// On an all-dark framebuffer no draw of at most 32 rows erases anything.
proof fn lemma_draw_erases_blank(d: Seq<u64>, mem: Seq<u8>, base: int, vx: u8, vy: u8, k: nat)
    requires
        d.len() == 32,
        forall|r: int| 0 <= r < 32 ==> d[r] == 0,
        k <= 32,
    ensures
        !draw_erases(d, mem, base, vx, vy, k),
    decreases k,
{
    if k > 0 {
        lemma_draw_erases_blank(d, mem, base, vx, vy, (k - 1) as nat);
        let r = target_row(vy, k - 1);
        assert forall|s: int| 0 <= s < k - 1 implies r != #[trigger] target_row(vy, s) by {
            lemma_sprite_rows_distinct(vy, s, k - 1);
        }
        lemma_draw_rows_untouched(d, mem, base, vx, vy, (k - 1) as nat, r);
        let mask = sprite_mask(sprite_byte(mem, base, k - 1), vx);
        assert(0u64 & mask == 0) by (bit_vector);
    }
}

/// After `clear_screen`, a draw of any sprite of at most 32 rows reports
/// no collision: the flag register comes out 0.
pub proof fn lemma_draw_after_clear_no_collision(m: Chip8View, x: u8, y: u8, n: u8)
    requires
        m.wf(),
        x < 16,
        y < 16,
        n <= 32,
    ensures
        spec_update_display(spec_clear_screen(m), x, y, n).v[15] == 0,
{
    let c = spec_clear_screen(m);
    lemma_draw_erases_blank(
        c.display,
        c.mem,
        (c.i as int) % 4096,
        (c.v[x as int] % 64) as u8,
        c.v[y as int],
        n as nat,
    );
}

/// XOR compositing is self-inverse: drawing the same sprite twice at the
/// same place restores every pixel, from any starting framebuffer.
pub proof fn lemma_draw_twice_restores(
    d: Seq<u64>,
    mem: Seq<u8>,
    base: int,
    vx: u8,
    vy: u8,
    n: u8,
)
    requires
        d.len() == 32,
        n <= 32,
    ensures
        draw_rows(draw_rows(d, mem, base, vx, vy, n as nat), mem, base, vx, vy, n as nat) == d,
{
    let d1 = draw_rows(d, mem, base, vx, vy, n as nat);
    let d2 = draw_rows(d1, mem, base, vx, vy, n as nat);
    lemma_draw_rows_len(d, mem, base, vx, vy, n as nat);
    lemma_draw_rows_len(d1, mem, base, vx, vy, n as nat);
    assert forall|r: int| 0 <= r < 32 implies d2[r] == d[r] by {
        if exists|t: int| 0 <= t < n && r == #[trigger] target_row(vy, t) {
            let t = choose|t: int| 0 <= t < n && r == #[trigger] target_row(vy, t);
            lemma_draw_rows_hit(d, mem, base, vx, vy, n as nat, t);
            lemma_draw_rows_hit(d1, mem, base, vx, vy, n as nat, t);
            let a = d[r];
            let mk = sprite_mask(sprite_byte(mem, base, t), vx);
            assert((a ^ mk) ^ mk == a) by (bit_vector);
        } else {
            lemma_draw_rows_untouched(d, mem, base, vx, vy, n as nat, r);
            lemma_draw_rows_untouched(d1, mem, base, vx, vy, n as nat, r);
        }
    }
    assert(d2 =~= d);
}

/// A sprite byte's mask keeps all eight of its bits, whether or not the
/// byte wraps around the right edge: the mask is zero only for the zero
/// byte.
proof fn lemma_sprite_mask_nonzero(byte: u8, vx: u8)
    requires
        vx < 64,
        byte != 0,
    ensures
        sprite_mask(byte, vx) != 0,
{
    if vx > 56 {
        let ov = (vx + 8 - 64) as u8;
        assert((((byte as u64) << ((64 - ov) as u64)) | ((byte >> ov) as u64)) != 0)
            by (bit_vector)
            requires
                byte != 0,
                1 <= ov < 8,
        ;
    } else {
        assert(((byte as u64) << ((56 - vx) as u64)) != 0) by (bit_vector)
            requires
                byte != 0,
                vx <= 56,
        ;
    }
}

/// Once a draw has erased a pixel it stays reported for the rest of the
/// sprite.
proof fn lemma_draw_erases_monotonic(
    d: Seq<u64>,
    mem: Seq<u8>,
    base: int,
    vx: u8,
    vy: u8,
    k1: nat,
    k2: nat,
)
    requires
        k1 <= k2,
        draw_erases(d, mem, base, vx, vy, k1),
    ensures
        draw_erases(d, mem, base, vx, vy, k2),
    decreases k2,
{
    if k2 > k1 {
        lemma_draw_erases_monotonic(d, mem, base, vx, vy, k1, (k2 - 1) as nat);
    }
}

/// Drawing a sprite twice at the same place on a cleared screen toggles
/// every pixel back off, and the second draw reports a collision as long
/// as some sprite byte is not zero. (x and y must name registers other
/// than the flag register, which the first draw writes.)
pub proof fn lemma_redraw_toggles_and_collides(m: Chip8View, x: u8, y: u8, n: u8)
    requires
        m.wf(),
        x < 16,
        y < 16,
        x != 15,
        y != 15,
        n <= 32,
        exists|t: int| 0 <= t < n && #[trigger] sprite_byte(m.mem, (m.i as int) % 4096, t) != 0,
    ensures
        spec_update_display(spec_update_display(spec_clear_screen(m), x, y, n), x, y, n).display
            == spec_clear_screen(m).display,
        spec_update_display(spec_update_display(spec_clear_screen(m), x, y, n), x, y, n).v[15]
            == 1,
{
    let c = spec_clear_screen(m);
    let base = (c.i as int) % 4096;
    let vx = (c.v[x as int] % 64) as u8;
    let vy = c.v[y as int];
    lemma_draw_twice_restores(c.display, c.mem, base, vx, vy, n);
    let t = choose|t: int| 0 <= t < n && #[trigger] sprite_byte(m.mem, base, t) != 0;
    let mk = sprite_mask(sprite_byte(c.mem, base, t), vx);
    let d1 = draw_rows(c.display, c.mem, base, vx, vy, n as nat);
    lemma_draw_rows_len(c.display, c.mem, base, vx, vy, n as nat);
    // Sprite row t of the second draw lands on a row holding exactly its
    // own mask, so it erases those pixels.
    lemma_draw_rows_hit(c.display, c.mem, base, vx, vy, n as nat, t);
    let r = target_row(vy, t);
    assert(d1[r] == mk) by {
        assert(0u64 ^ mk == mk) by (bit_vector);
    }
    assert forall|s: int| 0 <= s < t implies r != #[trigger] target_row(vy, s) by {
        lemma_sprite_rows_distinct(vy, s, t);
    }
    lemma_draw_rows_untouched(d1, c.mem, base, vx, vy, t as nat, r);
    lemma_sprite_mask_nonzero(sprite_byte(c.mem, base, t), vx);
    assert(mk & mk == mk) by (bit_vector);
    assert(draw_erases(d1, c.mem, base, vx, vy, (t + 1) as nat));
    lemma_draw_erases_monotonic(d1, c.mem, base, vx, vy, (t + 1) as nat, n as nat);
}

// ---------------------------------------------------------------------------
// Input and the wait state
// ---------------------------------------------------------------------------

/// Reconciling keys below `k`, none of which shows a rising edge, leaves
/// everything but the latch alone; the latch takes the new values below
/// `k`.
proof fn lemma_no_edge_prefix(m: Chip8View, new: Seq<bool>, k: nat)
    requires
        m.wf(),
        new.len() == 16,
        m.wait,
        k <= 16,
        forall|j: int| 0 <= j < k ==> !(new[j] && !m.input[j]),
    ensures
        spec_update_input_upto(m, new, k).wait,
        spec_update_input_upto(m, new, k).v == m.v,
        spec_update_input_upto(m, new, k).store_input_at == m.store_input_at,
        spec_update_input_upto(m, new, k).input.len() == 16,
        forall|i: int|
            0 <= i < 16 ==> spec_update_input_upto(m, new, k).input[i] == if i < k {
                new[i]
            } else {
                m.input[i]
            },
    decreases k,
{
    if k > 0 {
        lemma_no_edge_prefix(m, new, (k - 1) as nat);
    }
}

/// Once the wait has been resolved, reconciling further keys only updates
/// the latch: the registers, the target and the wait flag stay put.
proof fn lemma_wait_stays_resolved(m: Chip8View, new: Seq<bool>, k0: nat, k: nat)
    requires
        k0 <= k,
        !spec_update_input_upto(m, new, k0).wait,
    ensures
        !spec_update_input_upto(m, new, k).wait,
        spec_update_input_upto(m, new, k).v == spec_update_input_upto(m, new, k0).v,
        spec_update_input_upto(m, new, k).store_input_at == spec_update_input_upto(
            m,
            new,
            k0,
        ).store_input_at,
    decreases k,
{
    if k > k0 {
        lemma_wait_stays_resolved(m, new, k0, (k - 1) as nat);
    }
}

/// While the machine waits for a key, the first rising edge — key `k`
/// pressed now but not before, no lower key newly pressed — resolves the
/// wait: the key's index lands in the target register, the target is
/// cleared and the wait ends.
pub proof fn lemma_rising_edge_resolves_wait(m: Chip8View, new: Seq<bool>, k: int)
    requires
        m.wf(),
        new.len() == 16,
        m.wait,
        0 <= k < 16,
        !m.input[k],
        new[k],
        forall|j: int| 0 <= j < k ==> !(new[j] && !m.input[j]),
    ensures
        !spec_update_input(m, new).wait,
        spec_update_input(m, new).store_input_at == 0,
        spec_update_input(m, new).v[m.store_input_at as int] == k as u8,
{
    lemma_no_edge_prefix(m, new, k as nat);
    assert(spec_update_input_upto(m, new, (k + 1) as nat).v == m.v.update(
        m.store_input_at as int,
        k as u8,
    ));
    lemma_wait_stays_resolved(m, new, (k + 1) as nat, 16);
}

/// After one reconciliation the latch equals the snapshot below `k`.
proof fn lemma_upto_latch(m: Chip8View, new: Seq<bool>, k: nat)
    requires
        m.wf(),
        new.len() == 16,
        k <= 16,
    ensures
        spec_update_input_upto(m, new, k).input.len() == 16,
        forall|i: int|
            0 <= i < 16 ==> spec_update_input_upto(m, new, k).input[i] == if i < k {
                new[i]
            } else {
                m.input[i]
            },
    decreases k,
{
    if k > 0 {
        lemma_upto_latch(m, new, (k - 1) as nat);
    }
}

/// Reconciling a snapshot that already equals the latch changes nothing.
proof fn lemma_upto_no_change(m: Chip8View, new: Seq<bool>, k: nat)
    requires
        m.input.len() == 16,
        new.len() == 16,
        k <= 16,
        forall|i: int| 0 <= i < 16 ==> m.input[i] == new[i],
    ensures
        spec_update_input_upto(m, new, k) == m,
    decreases k,
{
    if k > 0 {
        lemma_upto_no_change(m, new, (k - 1) as nat);
    }
}

/// A held key does not trigger twice: handing the machine the same
/// snapshot again changes nothing, so each rising edge resolves a wait at
/// most once.
pub proof fn lemma_update_input_idempotent(m: Chip8View, new: Seq<bool>)
    requires
        m.wf(),
        new.len() == 16,
    ensures
        spec_update_input(spec_update_input(m, new), new) == spec_update_input(m, new),
{
    lemma_upto_latch(m, new, 16);
    let m1 = spec_update_input(m, new);
    lemma_upto_no_change(m1, new, 16);
}

} // verus!
