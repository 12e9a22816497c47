//! Laws of the instruction set that reach across the contracts: stated over
//! the same spec functions that the executable functions are proved against.

use vstd::prelude::*;
use vstd::arithmetic::div_mod::lemma_fundamental_div_mod_converse;
use crate::cpu::spec_tick_timers;
use crate::cpu::spec_cycle;
use crate::cpu::spec_fetch_op;
use crate::instruction::spec_decode;
use crate::cpu::Chip8Error;
use crate::cpu::CpuV;
use crate::instruction::draw_tgt;
use crate::instruction::lemma_mod_cancel_add;
use crate::instruction::spec_alu_add;
use crate::instruction::spec_alu_sub;
use crate::instruction::spec_draw_collision;
use crate::instruction::spec_draw_hit;
use crate::instruction::spec_draw_vram;
use crate::instruction::spec_step;
use crate::instruction::sprite_bit;
use crate::instruction::Instruction;

verus! {

/// XOR-ing the same value twice restores a byte.
proof fn lemma_xor_involution(c: u8, v: u8)
    ensures
        (c ^ v) ^ v == c,
{
    assert((c ^ v) ^ v == c) by (bit_vector);
}

/// On binary cells, XOR with a set bit flips the cell.
proof fn lemma_xor_flip(c: u8)
    requires
        c <= 1,
    ensures
        (c ^ 1) == 1 <==> c == 0,
        (c ^ 1) == 0 <==> c == 1,
{
    assert((c <= 1) ==> (((c ^ 1) == 1 <==> c == 0) && ((c ^ 1) == 0 <==> c == 1)))
        by (bit_vector);
}

/// For every state and register pair, the add instruction leaves
/// `(Vx + Vy) mod 256` in `Vx` and raises `VF` exactly when the true sum
/// exceeds 255. The flag write comes second, so when `x` is the flag
/// register itself only the flag survives.
pub proof fn lemma_add_law(s: CpuV, x: usize, y: usize, rnd: u8)
    requires
        s.wf(),
        x < 16,
        y < 16,
    ensures
        spec_step(s, Instruction::Add { x, y }, rnd) == Ok::<CpuV, Chip8Error>(
            spec_alu_add(s, x, y),
        ),
        spec_alu_add(s, x, y).regs[15] == (if s.regs[x as int] + s.regs[y as int] > 255 {
            1u8
        } else {
            0u8
        }),
        x != 15 ==> spec_alu_add(s, x, y).regs[x as int] == ((s.regs[x as int] + s.regs[y as int])
            % 256) as u8,
{
}

/// For every state and register pair, the subtract instruction leaves
/// `(Vx - Vy) mod 256` in `Vx` and raises `VF` exactly when `Vx >= Vy`
/// before the subtraction (no borrow). The flag write comes second, so when
/// `x` is the flag register itself only the flag survives.
pub proof fn lemma_sub_law(s: CpuV, x: usize, y: usize, rnd: u8)
    requires
        s.wf(),
        x < 16,
        y < 16,
    ensures
        spec_step(s, Instruction::Sub { x, y }, rnd) == Ok::<CpuV, Chip8Error>(
            spec_alu_sub(s, x, y),
        ),
        spec_alu_sub(s, x, y).regs[15] == (if s.regs[x as int] >= s.regs[y as int] {
            1u8
        } else {
            0u8
        }),
        x != 15 ==> spec_alu_sub(s, x, y).regs[x as int] == ((s.regs[x as int] - s.regs[y as int])
            % 256) as u8,
{
}

/// Where a sprite cell lands and what it does there: the cell for row `r`,
/// bit `b` is inside the framebuffer, and a draw XOR-s exactly that sprite
/// bit into it.
pub proof fn lemma_draw_cell(
    vram: Seq<u8>,
    ram: Seq<u8>,
    i: usize,
    vx: u8,
    vy: u8,
    n: usize,
    r: int,
    b: int,
)
    requires
        vram.len() == 2048,
        0 <= r < n,
        n <= 32,
        0 <= b < 8,
    ensures
        0 <= draw_tgt(vx, vy, r, b) < 2048,
        spec_draw_vram(vram, ram, i, vx, vy, n)[draw_tgt(vx, vy, r, b)] == (vram[draw_tgt(
            vx,
            vy,
            r,
            b,
        )] ^ sprite_bit(ram, i, r, b)),
{
    let rowv = (vy + r) % 32;
    let col = (vx + b) % 64;
    let p = draw_tgt(vx, vy, r, b);
    lemma_fundamental_div_mod_converse(p, 64, rowv, col);
    lemma_mod_cancel_add(vy as int, r, 32);
    lemma_mod_cancel_add(vx as int, b, 64);
}

/// Draw idempotence: drawing the identical sprite at the identical position
/// twice in succession restores every cell (XOR is self-inverse), and the
/// second draw collides exactly where a sprite bit lands on a cell the
/// first draw turned on — that is, where the original cell was off.
pub proof fn lemma_draw_idempotent(
    vram: Seq<u8>,
    ram: Seq<u8>,
    i: usize,
    vx: u8,
    vy: u8,
    n: usize,
)
    requires
        vram.len() == 2048,
        forall|p: int| 0 <= p < 2048 ==> #[trigger] vram[p] <= 1,
        n < 16,
    ensures
        spec_draw_vram(spec_draw_vram(vram, ram, i, vx, vy, n), ram, i, vx, vy, n) == vram,
        spec_draw_collision(spec_draw_vram(vram, ram, i, vx, vy, n), ram, i, vx, vy, n) <==> (
        exists|r: int, b: int|
            0 <= r < n && 0 <= b < 8 && #[trigger] sprite_bit(ram, i, r, b) == 1 && vram[
                #[trigger] draw_tgt(vx, vy, r, b)
            ] == 0),
{
    let mid = spec_draw_vram(vram, ram, i, vx, vy, n);
    assert forall|p: int| 0 <= p < 2048 implies #[trigger] spec_draw_vram(
        mid,
        ram,
        i,
        vx,
        vy,
        n,
    )[p] == vram[p] by {
        let rr = (p / 64 - vy) % 32;
        let bb = (p % 64 - vx) % 64;
        lemma_xor_involution(vram[p], sprite_bit(ram, i, rr, bb));
    }
    assert(spec_draw_vram(mid, ram, i, vx, vy, n) =~= vram);
    if spec_draw_collision(mid, ram, i, vx, vy, n) {
        let (rr, bb) = choose|rr: int, bb: int|
            0 <= rr && 0 <= bb < 8 && (rr < n as int || (rr == n as int && bb < 0)) && #[trigger] mid[
                draw_tgt(vx, vy, rr, bb)
            ] == 1 && #[trigger] sprite_bit(ram, i, rr, bb) == 1;
        lemma_draw_cell(vram, ram, i, vx, vy, n, rr, bb);
        lemma_xor_flip(vram[draw_tgt(vx, vy, rr, bb)]);
        assert(sprite_bit(ram, i, rr, bb) == 1 && vram[draw_tgt(vx, vy, rr, bb)] == 0);
    }
    if exists|r: int, b: int|
        0 <= r < n && 0 <= b < 8 && #[trigger] sprite_bit(ram, i, r, b) == 1 && vram[#[trigger] draw_tgt(
            vx,
            vy,
            r,
            b,
        )] == 0 {
        let (rr, bb) = choose|rr: int, bb: int|
            0 <= rr < n && 0 <= bb < 8 && #[trigger] sprite_bit(ram, i, rr, bb) == 1 && vram[
                #[trigger] draw_tgt(vx, vy, rr, bb)
            ] == 0;
        lemma_draw_cell(vram, ram, i, vx, vy, n, rr, bb);
        lemma_xor_flip(vram[draw_tgt(vx, vy, rr, bb)]);
        assert(mid[draw_tgt(vx, vy, rr, bb)] == 1 && sprite_bit(ram, i, rr, bb) == 1);
        assert(spec_draw_hit(mid, ram, i, vx, vy, n as int, 0));
    }
}

/// Timer cadence, the gating half: within 16 ms of the last tick the timer
/// stage of a cycle changes nothing, however often it is called — calling
/// faster than 60 Hz does not drain the timers.
pub proof fn lemma_timer_gate(s: CpuV, now_ms: u64)
    requires
        now_ms - s.timer_mark <= 16,
    ensures
        spec_tick_timers(s, now_ms) == s,
{
}

/// Timer cadence, the ticking half: once more than 16 ms have passed, each
/// nonzero timer loses exactly one and the tick time is remembered, so the
/// next tick is again gated.
pub proof fn lemma_timer_tick(s: CpuV, now_ms: u64)
    requires
        now_ms - s.timer_mark > 16,
    ensures
        spec_tick_timers(s, now_ms).delay_timer == (if s.delay_timer > 0 {
            (s.delay_timer - 1) as u8
        } else {
            0u8
        }),
        spec_tick_timers(s, now_ms).sound_timer == (if s.sound_timer > 0 {
            (s.sound_timer - 1) as u8
        } else {
            0u8
        }),
        spec_tick_timers(s, now_ms).timer_mark == now_ms,
{
}

/// Every instruction but the random one ignores the random byte: executing
/// anything else is deterministic in the machine state alone.
pub proof fn lemma_step_rnd_irrelevant(s: CpuV, instr: Instruction, r1: u8, r2: u8)
    requires
        !(instr matches Instruction::Random { .. }),
    ensures
        spec_step(s, instr, r1) == spec_step(s, instr, r2),
{
}

/// Apart from the byte the random instruction consumes, a cycle is a
/// function of the machine state, the keypad snapshot and the clock alone:
/// whenever the fetched opcode does not decode to the random instruction,
/// any two random bytes give the same cycle.
pub proof fn lemma_cycle_rnd_irrelevant(pre: CpuV, keypad: Seq<bool>, now_ms: u64, r1: u8, r2: u8)
    requires
        !(spec_decode(spec_fetch_op(CpuV { keypad: keypad, vram_flag: false, ..pre }))
            matches Some(Instruction::Random { .. })),
    ensures
        spec_cycle(pre, keypad, now_ms, r1) == spec_cycle(pre, keypad, now_ms, r2),
{
    let s0 = CpuV { keypad: keypad, vram_flag: false, ..pre };
    if !pre.await_keypad {
        let op = spec_fetch_op(s0);
        let s1 = CpuV { pc: ((s0.pc + 2) % 4096) as usize, ..s0 };
        match spec_decode(op) {
            Some(instr) => {
                lemma_step_rnd_irrelevant(s1, instr, r1, r2);
            },
            None => {},
        }
    }
}

} // verus!
