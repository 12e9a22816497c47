//! Instruction decoding and execution.
//!
//! [`Instruction`] is the decoded form of a 16-bit opcode: a tagged variant
//! carrying the operands that the opcode's nibbles encode. [`Instruction::decode`]
//! maps an opcode to its variant (or reports a decode failure), and
//! [`Instruction::execute`] applies one decoded instruction to the machine
//! state. The effect of every instruction is specified by [`spec_step`].

use vstd::prelude::*;
use vstd::arithmetic::div_mod::lemma_fundamental_div_mod;
use vstd::arithmetic::div_mod::lemma_fundamental_div_mod_converse;
use vstd::arithmetic::div_mod::lemma_mod_multiples_vanish;
use vstd::arithmetic::div_mod::lemma_small_mod;
use crate::cpu::Chip8Error;
use crate::cpu::CpuV;
use crate::cpu::CPU;
use crate::cpu::RAM_SIZE;
use crate::cpu::STACK_DEPTH;
use crate::cpu::VRAM_SIZE;

verus! {

/// A decoded instruction. Operand conventions follow the opcode layout:
/// `nnn` is the low 12 bits, `kk` the low byte, `x` and `y` the second and
/// third nibbles (register indices), `n` the low nibble (sprite height).
#[derive(Clone, Copy, Debug, PartialEq, Eq, Structural)]
pub enum Instruction {
    /// `00E0`: clear the framebuffer.
    Cls,
    /// `00EE`: return from a subroutine.
    Ret,
    /// `1nnn`: jump to `nnn`.
    Jump { nnn: usize },
    /// `2nnn`: call the subroutine at `nnn`.
    Call { nnn: usize },
    /// `3xkk`: skip the next opcode if `Vx == kk`.
    SkipEqImm { x: usize, kk: u8 },
    /// `4xkk`: skip the next opcode if `Vx != kk`.
    SkipNeImm { x: usize, kk: u8 },
    /// `5xy0`: skip the next opcode if `Vx == Vy`.
    SkipEqReg { x: usize, y: usize },
    /// `6xkk`: `Vx <- kk`.
    LoadImm { x: usize, kk: u8 },
    /// `7xkk`: `Vx <- Vx + kk` truncated to 8 bits, no flag effect.
    AddImm { x: usize, kk: u8 },
    /// `8xy0`: `Vx <- Vy`.
    Mov { x: usize, y: usize },
    /// `8xy1`: `Vx <- Vx | Vy`.
    Or { x: usize, y: usize },
    /// `8xy2`: `Vx <- Vx & Vy`.
    And { x: usize, y: usize },
    /// `8xy3`: `Vx <- Vx ^ Vy`.
    Xor { x: usize, y: usize },
    /// `8xy4`: `Vx <- (Vx + Vy) mod 256`, then `VF <- 1` iff the true sum
    /// exceeds 255.
    Add { x: usize, y: usize },
    /// `8xy5`: `Vx <- (Vx - Vy) mod 256`, then `VF <- 1` iff `Vx >= Vy`
    /// before the subtraction.
    Sub { x: usize, y: usize },
    /// `8xy6`: `VF <- Vx & 1`, then `Vx <- Vx >> 1`.
    Shr { x: usize },
    /// `8xy7`: `Vx <- (Vy - Vx) mod 256`, then `VF <- 1` iff `Vy >= Vx`
    /// before the subtraction.
    SubInv { x: usize, y: usize },
    /// `8xyE`: `VF <- Vx >> 7`, then `Vx <- Vx << 1` truncated to 8 bits.
    Shl { x: usize },
    /// `9xy0`: skip the next opcode if `Vx != Vy`.
    SkipNeReg { x: usize, y: usize },
    /// `Annn`: `I <- nnn`.
    SetIndex { nnn: usize },
    /// `Bnnn`: jump to `V0 + nnn`, wrapping around memory.
    JumpOffset { nnn: usize },
    /// `Cxkk`: `Vx <- (random byte) & kk`.
    Random { x: usize, kk: u8 },
    /// `Dxyn`: XOR-draw the `n`-row sprite at memory address `I` to position
    /// `(Vx, Vy)`, wrapping on both axes; `VF <- 1` iff a pixel was erased.
    Draw { x: usize, y: usize, n: usize },
    /// `Ex9E`: skip the next opcode if the key selected by `Vx` is pressed.
    SkipKeyPressed { x: usize },
    /// `ExA1`: skip the next opcode if the key selected by `Vx` is released.
    SkipKeyReleased { x: usize },
    /// `Fx07`: `Vx <- delay timer`.
    GetDelay { x: usize },
    /// `Fx0A`: park the machine until a key is pressed; the key index will
    /// land in `Vx`.
    AwaitKey { x: usize },
    /// `Fx15`: `delay timer <- Vx`.
    SetDelay { x: usize },
    /// `Fx18`: `sound timer <- Vx`.
    SetSound { x: usize },
    /// `Fx1E`: `I <- (I + Vx) mod 4096`, `VF <- 1` iff the unmasked sum
    /// exceeds 4095.
    AddIndex { x: usize },
    /// `Fx29`: `I <- Vx * 5`, the address of the font glyph for digit `Vx`.
    LoadSprite { x: usize },
    /// `Fx33`: write the decimal digits of `Vx` to memory at `I`, `I+1`,
    /// `I+2`.
    Bcd { x: usize },
    /// `Fx55`: copy `V0..=Vx` into memory starting at `I`.
    RegDump { x: usize },
    /// `Fx65`: copy memory starting at `I` into `V0..=Vx`.
    RegLoad { x: usize },
}

impl Instruction {
    /// Operands are in range: register indices below 16, addresses below
    /// 4096, sprite heights below 16. Every decoded instruction satisfies
    /// this.
    pub open spec fn wf(self) -> bool {
        match self {
            Instruction::Cls => true,
            Instruction::Ret => true,
            Instruction::Jump { nnn } => nnn < 4096,
            Instruction::Call { nnn } => nnn < 4096,
            Instruction::SkipEqImm { x, kk } => x < 16,
            Instruction::SkipNeImm { x, kk } => x < 16,
            Instruction::SkipEqReg { x, y } => x < 16 && y < 16,
            Instruction::LoadImm { x, kk } => x < 16,
            Instruction::AddImm { x, kk } => x < 16,
            Instruction::Mov { x, y } => x < 16 && y < 16,
            Instruction::Or { x, y } => x < 16 && y < 16,
            Instruction::And { x, y } => x < 16 && y < 16,
            Instruction::Xor { x, y } => x < 16 && y < 16,
            Instruction::Add { x, y } => x < 16 && y < 16,
            Instruction::Sub { x, y } => x < 16 && y < 16,
            Instruction::Shr { x } => x < 16,
            Instruction::SubInv { x, y } => x < 16 && y < 16,
            Instruction::Shl { x } => x < 16,
            Instruction::SkipNeReg { x, y } => x < 16 && y < 16,
            Instruction::SetIndex { nnn } => nnn < 4096,
            Instruction::JumpOffset { nnn } => nnn < 4096,
            Instruction::Random { x, kk } => x < 16,
            Instruction::Draw { x, y, n } => x < 16 && y < 16 && n < 16,
            Instruction::SkipKeyPressed { x } => x < 16,
            Instruction::SkipKeyReleased { x } => x < 16,
            Instruction::GetDelay { x } => x < 16,
            Instruction::AwaitKey { x } => x < 16,
            Instruction::SetDelay { x } => x < 16,
            Instruction::SetSound { x } => x < 16,
            Instruction::AddIndex { x } => x < 16,
            Instruction::LoadSprite { x } => x < 16,
            Instruction::Bcd { x } => x < 16,
            Instruction::RegDump { x } => x < 16,
            Instruction::RegLoad { x } => x < 16,
        }
    }
}

/// The decode table: which instruction, if any, a 16-bit opcode denotes.
/// The high nibble selects the family; for families with sub-variants the
/// remaining nibbles disambiguate. Anything else is a decode failure.
pub open spec fn spec_decode(op: u16) -> Option<Instruction> {
    let a = (op >> 12) & 0xF;
    let x = ((op >> 8) & 0xF) as usize;
    let y = ((op >> 4) & 0xF) as usize;
    let d = op & 0xF;
    let nnn = (op & 0xFFF) as usize;
    let kk = (op & 0xFF) as u8;
    let n = (op & 0xF) as usize;
    if op == 0x00E0 {
        Some(Instruction::Cls)
    } else if op == 0x00EE {
        Some(Instruction::Ret)
    } else if a == 0x1 {
        Some(Instruction::Jump { nnn })
    } else if a == 0x2 {
        Some(Instruction::Call { nnn })
    } else if a == 0x3 {
        Some(Instruction::SkipEqImm { x, kk })
    } else if a == 0x4 {
        Some(Instruction::SkipNeImm { x, kk })
    } else if a == 0x5 && d == 0x0 {
        Some(Instruction::SkipEqReg { x, y })
    } else if a == 0x6 {
        Some(Instruction::LoadImm { x, kk })
    } else if a == 0x7 {
        Some(Instruction::AddImm { x, kk })
    } else if a == 0x8 && d == 0x0 {
        Some(Instruction::Mov { x, y })
    } else if a == 0x8 && d == 0x1 {
        Some(Instruction::Or { x, y })
    } else if a == 0x8 && d == 0x2 {
        Some(Instruction::And { x, y })
    } else if a == 0x8 && d == 0x3 {
        Some(Instruction::Xor { x, y })
    } else if a == 0x8 && d == 0x4 {
        Some(Instruction::Add { x, y })
    } else if a == 0x8 && d == 0x5 {
        Some(Instruction::Sub { x, y })
    } else if a == 0x8 && d == 0x6 {
        Some(Instruction::Shr { x })
    } else if a == 0x8 && d == 0x7 {
        Some(Instruction::SubInv { x, y })
    } else if a == 0x8 && d == 0xE {
        Some(Instruction::Shl { x })
    } else if a == 0x9 && d == 0x0 {
        Some(Instruction::SkipNeReg { x, y })
    } else if a == 0xA {
        Some(Instruction::SetIndex { nnn })
    } else if a == 0xB {
        Some(Instruction::JumpOffset { nnn })
    } else if a == 0xC {
        Some(Instruction::Random { x, kk })
    } else if a == 0xD {
        Some(Instruction::Draw { x, y, n })
    } else if a == 0xE && kk == 0x9E {
        Some(Instruction::SkipKeyPressed { x })
    } else if a == 0xE && kk == 0xA1 {
        Some(Instruction::SkipKeyReleased { x })
    } else if a == 0xF && kk == 0x07 {
        Some(Instruction::GetDelay { x })
    } else if a == 0xF && kk == 0x0A {
        Some(Instruction::AwaitKey { x })
    } else if a == 0xF && kk == 0x15 {
        Some(Instruction::SetDelay { x })
    } else if a == 0xF && kk == 0x18 {
        Some(Instruction::SetSound { x })
    } else if a == 0xF && kk == 0x1E {
        Some(Instruction::AddIndex { x })
    } else if a == 0xF && kk == 0x29 {
        Some(Instruction::LoadSprite { x })
    } else if a == 0xF && kk == 0x33 {
        Some(Instruction::Bcd { x })
    } else if a == 0xF && kk == 0x55 {
        Some(Instruction::RegDump { x })
    } else if a == 0xF && kk == 0x65 {
        Some(Instruction::RegLoad { x })
    } else {
        None
    }
}

/// The operand fields carved out of an opcode are in range.
pub proof fn lemma_decode_wf(op: u16)
    ensures
        spec_decode(op) matches Some(instr) ==> instr.wf(),
{
    assert(((op >> 8) & 0xF) < 16 && ((op >> 4) & 0xF) < 16 && (op & 0xFFF) < 4096 && (op & 0xF)
        < 16) by (bit_vector);
}

impl Instruction {
    /// Decode a 16-bit opcode, or report that it matches no instruction.
    pub fn decode(op_code: u16) -> (r: Option<Instruction>)
        ensures
            r == spec_decode(op_code),
            r matches Some(instr) ==> instr.wf(),
    {
        proof {
            lemma_decode_wf(op_code);
        }
        let a = (op_code >> 12) & 0xF;
        let x = ((op_code >> 8) & 0xF) as usize;
        let y = ((op_code >> 4) & 0xF) as usize;
        let d = op_code & 0xF;
        let nnn = (op_code & 0xFFF) as usize;
        let kk = (op_code & 0xFF) as u8;
        let n = (op_code & 0xF) as usize;
        if op_code == 0x00E0 {
            Some(Instruction::Cls)
        } else if op_code == 0x00EE {
            Some(Instruction::Ret)
        } else if a == 0x1 {
            Some(Instruction::Jump { nnn })
        } else if a == 0x2 {
            Some(Instruction::Call { nnn })
        } else if a == 0x3 {
            Some(Instruction::SkipEqImm { x, kk })
        } else if a == 0x4 {
            Some(Instruction::SkipNeImm { x, kk })
        } else if a == 0x5 && d == 0x0 {
            Some(Instruction::SkipEqReg { x, y })
        } else if a == 0x6 {
            Some(Instruction::LoadImm { x, kk })
        } else if a == 0x7 {
            Some(Instruction::AddImm { x, kk })
        } else if a == 0x8 && d == 0x0 {
            Some(Instruction::Mov { x, y })
        } else if a == 0x8 && d == 0x1 {
            Some(Instruction::Or { x, y })
        } else if a == 0x8 && d == 0x2 {
            Some(Instruction::And { x, y })
        } else if a == 0x8 && d == 0x3 {
            Some(Instruction::Xor { x, y })
        } else if a == 0x8 && d == 0x4 {
            Some(Instruction::Add { x, y })
        } else if a == 0x8 && d == 0x5 {
            Some(Instruction::Sub { x, y })
        } else if a == 0x8 && d == 0x6 {
            Some(Instruction::Shr { x })
        } else if a == 0x8 && d == 0x7 {
            Some(Instruction::SubInv { x, y })
        } else if a == 0x8 && d == 0xE {
            Some(Instruction::Shl { x })
        } else if a == 0x9 && d == 0x0 {
            Some(Instruction::SkipNeReg { x, y })
        } else if a == 0xA {
            Some(Instruction::SetIndex { nnn })
        } else if a == 0xB {
            Some(Instruction::JumpOffset { nnn })
        } else if a == 0xC {
            Some(Instruction::Random { x, kk })
        } else if a == 0xD {
            Some(Instruction::Draw { x, y, n })
        } else if a == 0xE && kk == 0x9E {
            Some(Instruction::SkipKeyPressed { x })
        } else if a == 0xE && kk == 0xA1 {
            Some(Instruction::SkipKeyReleased { x })
        } else if a == 0xF && kk == 0x07 {
            Some(Instruction::GetDelay { x })
        } else if a == 0xF && kk == 0x0A {
            Some(Instruction::AwaitKey { x })
        } else if a == 0xF && kk == 0x15 {
            Some(Instruction::SetDelay { x })
        } else if a == 0xF && kk == 0x18 {
            Some(Instruction::SetSound { x })
        } else if a == 0xF && kk == 0x1E {
            Some(Instruction::AddIndex { x })
        } else if a == 0xF && kk == 0x29 {
            Some(Instruction::LoadSprite { x })
        } else if a == 0xF && kk == 0x33 {
            Some(Instruction::Bcd { x })
        } else if a == 0xF && kk == 0x55 {
            Some(Instruction::RegDump { x })
        } else if a == 0xF && kk == 0x65 {
            Some(Instruction::RegLoad { x })
        } else {
            None
        }
    }
}


/// The framebuffer cleared and the dirty flag raised.
pub open spec fn spec_cls(s: CpuV) -> CpuV {
    CpuV { vram: Seq::new(2048, |p: int| 0u8), vram_flag: true, ..s }
}

/// Return: pop the stack into the program counter, or fail on an empty
/// stack, leaving the state untouched.
pub open spec fn spec_ret(s: CpuV) -> Result<CpuV, Chip8Error> {
    if s.sp == 0 {
        Err(Chip8Error::StackUnderflow)
    } else {
        Ok(CpuV { sp: (s.sp - 1) as usize, pc: s.stack[s.sp - 1], ..s })
    }
}

pub open spec fn spec_jump(s: CpuV, nnn: usize) -> CpuV {
    CpuV { pc: nnn, ..s }
}

/// Call: push the program counter, or fail on a full stack, leaving the
/// state untouched.
pub open spec fn spec_call(s: CpuV, nnn: usize) -> Result<CpuV, Chip8Error> {
    if s.sp >= 16 {
        Err(Chip8Error::StackOverflow)
    } else {
        Ok(CpuV {
            stack: s.stack.update(s.sp as int, s.pc),
            sp: (s.sp + 1) as usize,
            pc: nnn,
            ..s
        })
    }
}

/// The program counter skipped over one opcode when `cond` holds, wrapping
/// around memory.
pub open spec fn spec_skip_if(s: CpuV, cond: bool) -> CpuV {
    if cond {
        CpuV { pc: ((s.pc + 2) % 4096) as usize, ..s }
    } else {
        s
    }
}

pub open spec fn spec_load_imm(s: CpuV, x: usize, kk: u8) -> CpuV {
    CpuV { regs: s.regs.update(x as int, kk), ..s }
}

pub open spec fn spec_add_imm(s: CpuV, x: usize, kk: u8) -> CpuV {
    CpuV { regs: s.regs.update(x as int, ((s.regs[x as int] + kk) % 256) as u8), ..s }
}

pub open spec fn spec_mov(s: CpuV, x: usize, y: usize) -> CpuV {
    CpuV { regs: s.regs.update(x as int, s.regs[y as int]), ..s }
}

pub open spec fn spec_or(s: CpuV, x: usize, y: usize) -> CpuV {
    CpuV { regs: s.regs.update(x as int, s.regs[x as int] | s.regs[y as int]), ..s }
}

pub open spec fn spec_and(s: CpuV, x: usize, y: usize) -> CpuV {
    CpuV { regs: s.regs.update(x as int, s.regs[x as int] & s.regs[y as int]), ..s }
}

pub open spec fn spec_xor(s: CpuV, x: usize, y: usize) -> CpuV {
    CpuV { regs: s.regs.update(x as int, s.regs[x as int] ^ s.regs[y as int]), ..s }
}

/// `8xy4`: the sum truncated into `Vx`, then the carry into `VF`. When `x`
/// is 15 the flag write is the one that survives.
pub open spec fn spec_alu_add(s: CpuV, x: usize, y: usize) -> CpuV {
    let sum = s.regs[x as int] + s.regs[y as int];
    CpuV {
        regs: s.regs.update(x as int, (sum % 256) as u8).update(
            15,
            if sum > 255 {
                1u8
            } else {
                0u8
            },
        ),
        ..s
    }
}

/// `8xy5`: the difference modulo 256 into `Vx`, then the no-borrow flag
/// (`Vx >= Vy` before the subtraction) into `VF`.
pub open spec fn spec_alu_sub(s: CpuV, x: usize, y: usize) -> CpuV {
    let vx = s.regs[x as int];
    let vy = s.regs[y as int];
    CpuV {
        regs: s.regs.update(x as int, ((vx - vy) % 256) as u8).update(
            15,
            if vx >= vy {
                1u8
            } else {
                0u8
            },
        ),
        ..s
    }
}

/// `8xy7`: like `8xy5` with the operands swapped: `Vy - Vx` into `Vx`.
pub open spec fn spec_alu_subn(s: CpuV, x: usize, y: usize) -> CpuV {
    let vx = s.regs[x as int];
    let vy = s.regs[y as int];
    CpuV {
        regs: s.regs.update(x as int, ((vy - vx) % 256) as u8).update(
            15,
            if vy >= vx {
                1u8
            } else {
                0u8
            },
        ),
        ..s
    }
}

/// `8xy6`: the dropped bit into `VF` first, then the shift; when `x` is 15
/// the shift reads the freshly written flag.
pub open spec fn spec_shr(s: CpuV, x: usize) -> CpuV {
    let r1 = s.regs.update(15, s.regs[x as int] & 1);
    CpuV { regs: r1.update(x as int, r1[x as int] >> 1), ..s }
}

/// `8xyE`: the dropped bit into `VF` first, then the shift; when `x` is 15
/// the shift reads the freshly written flag.
pub open spec fn spec_shl(s: CpuV, x: usize) -> CpuV {
    let r1 = s.regs.update(15, s.regs[x as int] >> 7);
    CpuV { regs: r1.update(x as int, r1[x as int] << 1), ..s }
}

pub open spec fn spec_set_index(s: CpuV, nnn: usize) -> CpuV {
    CpuV { i: nnn, ..s }
}

pub open spec fn spec_jump_offset(s: CpuV, nnn: usize) -> CpuV {
    CpuV { pc: ((s.regs[0] + nnn) % 4096) as usize, ..s }
}

pub open spec fn spec_random(s: CpuV, x: usize, kk: u8, rnd: u8) -> CpuV {
    CpuV { regs: s.regs.update(x as int, rnd & kk), ..s }
}

/// The keypad slot selected by `Vx`: only the low nibble of the register
/// picks a key.
pub open spec fn spec_key_selected(s: CpuV, x: usize) -> bool {
    s.keypad[(s.regs[x as int] & 0xF) as int]
}

pub open spec fn spec_get_delay(s: CpuV, x: usize) -> CpuV {
    CpuV { regs: s.regs.update(x as int, s.delay_timer), ..s }
}

/// `Fx0A`: park the machine; the next cycles resolve the wait.
pub open spec fn spec_await_key(s: CpuV, x: usize) -> CpuV {
    CpuV { await_keypad: true, keypad_dst: x, ..s }
}

pub open spec fn spec_set_delay(s: CpuV, x: usize) -> CpuV {
    CpuV { delay_timer: s.regs[x as int], ..s }
}

pub open spec fn spec_set_sound(s: CpuV, x: usize) -> CpuV {
    CpuV { sound_timer: s.regs[x as int], ..s }
}

/// `Fx1E`: the index register summed with `Vx` and wrapped around memory,
/// with `VF` flagging a sum past the last address.
pub open spec fn spec_add_index(s: CpuV, x: usize) -> CpuV {
    let sum = s.i + s.regs[x as int];
    CpuV {
        i: (sum % 4096) as usize,
        regs: s.regs.update(
            15,
            if sum > 4095 {
                1u8
            } else {
                0u8
            },
        ),
        ..s
    }
}

pub open spec fn spec_load_sprite(s: CpuV, x: usize) -> CpuV {
    CpuV { i: (s.regs[x as int] * 5) as usize, ..s }
}

/// `Fx33`: the decimal digits of `Vx` behind the index register, wrapping
/// around memory.
pub open spec fn spec_bcd(s: CpuV, x: usize) -> CpuV {
    let vx = s.regs[x as int];
    CpuV {
        ram: s.ram.update(s.i as int, (vx / 100) as u8).update(
            (s.i + 1) % 4096,
            ((vx % 100) / 10) as u8,
        ).update((s.i + 2) % 4096, (vx % 10) as u8),
        ..s
    }
}

/// `Fx55`: registers 0 through `x` laid out in memory behind the index
/// register, wrapping around memory; the rest of memory untouched.
pub open spec fn spec_reg_dump(s: CpuV, x: usize) -> CpuV {
    CpuV {
        ram: Seq::new(
            4096,
            |a: int|
                {
                    let j = (a - s.i) % 4096;
                    if j <= x {
                        s.regs[j]
                    } else {
                        s.ram[a]
                    }
                },
        ),
        ..s
    }
}

/// `Fx65`: registers 0 through `x` filled from memory behind the index
/// register, wrapping around memory; the higher registers untouched.
pub open spec fn spec_reg_load(s: CpuV, x: usize) -> CpuV {
    CpuV {
        regs: Seq::new(
            16,
            |j: int|
                if j <= x {
                    s.ram[(s.i + j) % 4096]
                } else {
                    s.regs[j]
                },
        ),
        ..s
    }
}

/// Bit `b` (0 = leftmost) of sprite row `r`, read from memory at `i + r`,
/// wrapping around memory.
pub open spec fn sprite_bit(ram: Seq<u8>, i: usize, r: int, b: int) -> u8 {
    (ram[(i + r) % 4096] >> ((7 - b) as u8)) & 1
}

/// The framebuffer cell hit by sprite row `r`, bit `b`, for a sprite drawn
/// at `(vx, vy)`: both axes wrap.
pub open spec fn draw_tgt(vx: u8, vy: u8, r: int, b: int) -> int {
    64 * ((vy + r) % 32) + (vx + b) % 64
}

/// The framebuffer after the sprite cells drawn so far: all bits of every
/// row before `r`, and the first `b` bits of row `r`. A cell tells which
/// sprite cell hit it (if any) by inverting the wrap.
pub open spec fn spec_draw_vram_upto(
    vram: Seq<u8>,
    ram: Seq<u8>,
    i: usize,
    vx: u8,
    vy: u8,
    r: int,
    b: int,
) -> Seq<u8> {
    Seq::new(
        2048,
        |p: int|
            {
                let rr = (p / 64 - vy) % 32;
                let bb = (p % 64 - vx) % 64;
                if (rr < r && bb < 8) || (rr == r && bb < b) {
                    vram[p] ^ sprite_bit(ram, i, rr, bb)
                } else {
                    vram[p]
                }
            },
    )
}

/// The framebuffer after a whole `n`-row sprite draw.
pub open spec fn spec_draw_vram(
    vram: Seq<u8>,
    ram: Seq<u8>,
    i: usize,
    vx: u8,
    vy: u8,
    n: usize,
) -> Seq<u8> {
    spec_draw_vram_upto(vram, ram, i, vx, vy, n as int, 0)
}

/// Whether any sprite cell drawn so far erased a lit pixel.
pub open spec fn spec_draw_hit(
    vram: Seq<u8>,
    ram: Seq<u8>,
    i: usize,
    vx: u8,
    vy: u8,
    r: int,
    b: int,
) -> bool {
    exists|rr: int, bb: int|
        0 <= rr && 0 <= bb < 8 && (rr < r || (rr == r && bb < b))
            && #[trigger] vram[draw_tgt(vx, vy, rr, bb)] == 1 && #[trigger] sprite_bit(
            ram,
            i,
            rr,
            bb,
        ) == 1
}

/// Whether a whole `n`-row sprite draw erased any lit pixel: the collision
/// that `Dxyn` reports in `VF`.
pub open spec fn spec_draw_collision(
    vram: Seq<u8>,
    ram: Seq<u8>,
    i: usize,
    vx: u8,
    vy: u8,
    n: usize,
) -> bool {
    spec_draw_hit(vram, ram, i, vx, vy, n as int, 0)
}

/// `Dxyn` as a whole: the framebuffer XOR-ed with the sprite, `VF` set to
/// the collision bit, the dirty flag raised.
pub open spec fn spec_draw(s: CpuV, x: usize, y: usize, n: usize) -> CpuV {
    let vx = s.regs[x as int];
    let vy = s.regs[y as int];
    CpuV {
        vram: spec_draw_vram(s.vram, s.ram, s.i, vx, vy, n),
        regs: s.regs.update(
            15,
            if spec_draw_collision(s.vram, s.ram, s.i, vx, vy, n) {
                1u8
            } else {
                0u8
            },
        ),
        vram_flag: true,
        ..s
    }
}

/// What one decoded instruction does to the machine state. The stack
/// operations are the only ones that can fail; on failure the state is left
/// untouched.
pub open spec fn spec_step(pre: CpuV, instr: Instruction, rnd: u8) -> Result<CpuV, Chip8Error> {
    match instr {
        Instruction::Cls => Ok(spec_cls(pre)),
        Instruction::Ret => spec_ret(pre),
        Instruction::Jump { nnn } => Ok(spec_jump(pre, nnn)),
        Instruction::Call { nnn } => spec_call(pre, nnn),
        Instruction::SkipEqImm { x, kk } => Ok(spec_skip_if(pre, pre.regs[x as int] == kk)),
        Instruction::SkipNeImm { x, kk } => Ok(spec_skip_if(pre, pre.regs[x as int] != kk)),
        Instruction::SkipEqReg { x, y } => Ok(
            spec_skip_if(pre, pre.regs[x as int] == pre.regs[y as int]),
        ),
        Instruction::LoadImm { x, kk } => Ok(spec_load_imm(pre, x, kk)),
        Instruction::AddImm { x, kk } => Ok(spec_add_imm(pre, x, kk)),
        Instruction::Mov { x, y } => Ok(spec_mov(pre, x, y)),
        Instruction::Or { x, y } => Ok(spec_or(pre, x, y)),
        Instruction::And { x, y } => Ok(spec_and(pre, x, y)),
        Instruction::Xor { x, y } => Ok(spec_xor(pre, x, y)),
        Instruction::Add { x, y } => Ok(spec_alu_add(pre, x, y)),
        Instruction::Sub { x, y } => Ok(spec_alu_sub(pre, x, y)),
        Instruction::Shr { x } => Ok(spec_shr(pre, x)),
        Instruction::SubInv { x, y } => Ok(spec_alu_subn(pre, x, y)),
        Instruction::Shl { x } => Ok(spec_shl(pre, x)),
        Instruction::SkipNeReg { x, y } => Ok(
            spec_skip_if(pre, pre.regs[x as int] != pre.regs[y as int]),
        ),
        Instruction::SetIndex { nnn } => Ok(spec_set_index(pre, nnn)),
        Instruction::JumpOffset { nnn } => Ok(spec_jump_offset(pre, nnn)),
        Instruction::Random { x, kk } => Ok(spec_random(pre, x, kk, rnd)),
        Instruction::Draw { x, y, n } => Ok(spec_draw(pre, x, y, n)),
        Instruction::SkipKeyPressed { x } => Ok(spec_skip_if(pre, spec_key_selected(pre, x))),
        Instruction::SkipKeyReleased { x } => Ok(spec_skip_if(pre, !spec_key_selected(pre, x))),
        Instruction::GetDelay { x } => Ok(spec_get_delay(pre, x)),
        Instruction::AwaitKey { x } => Ok(spec_await_key(pre, x)),
        Instruction::SetDelay { x } => Ok(spec_set_delay(pre, x)),
        Instruction::SetSound { x } => Ok(spec_set_sound(pre, x)),
        Instruction::AddIndex { x } => Ok(spec_add_index(pre, x)),
        Instruction::LoadSprite { x } => Ok(spec_load_sprite(pre, x)),
        Instruction::Bcd { x } => Ok(spec_bcd(pre, x)),
        Instruction::RegDump { x } => Ok(spec_reg_dump(pre, x)),
        Instruction::RegLoad { x } => Ok(spec_reg_load(pre, x)),
    }
}


/// Stepping `r` forward from `c` and wrapping keeps the offset: the cell a
/// sprite row or bit lands in points back at that row or bit.
pub proof fn lemma_mod_cancel_add(c: int, r: int, m: int)
    requires
        m > 0,
        0 <= r < m,
    ensures
        ((c + r) % m - c) % m == r,
{
    let q = (c + r) / m;
    lemma_fundamental_div_mod(c + r, m);
    assert((c + r) % m - c == m * (-q) + r) by (nonlinear_arith)
        requires
            c + r == m * q + (c + r) % m,
    ;
    lemma_mod_multiples_vanish(-q, r, m);
    lemma_small_mod(r as nat, m as nat);
}

/// The converse direction: a cell whose wrapped offset from `c` is `t`
/// is reached by stepping `t` forward from `c` and wrapping.
pub proof fn lemma_mod_cancel_sub(c: int, a: int, m: int)
    requires
        m > 0,
        0 <= a < m,
    ensures
        (c + ((a - c) % m)) % m == a,
{
    let q = (a - c) / m;
    lemma_fundamental_div_mod(a - c, m);
    assert(c + ((a - c) % m) == m * (-q) + a) by (nonlinear_arith)
        requires
            a - c == m * q + (a - c) % m,
    ;
    lemma_mod_multiples_vanish(-q, a, m);
    lemma_small_mod(a as nat, m as nat);
}

/// XOR on binary cells: the result is binary, and it is zero exactly when
/// the operands agree.
proof fn lemma_xor_bit(c: u8, v: u8)
    requires
        c <= 1,
        v <= 1,
    ensures
        (c ^ v) <= 1,
        ((c ^ v) == 0) <==> (c == v),
{
    assert((c ^ v) <= 1 && (((c ^ v) == 0) <==> (c == v))) by (bit_vector)
        requires
            c <= 1 && v <= 1,
    ;
}

/// Extending the drawn region by one sprite cell extends the collision
/// account by exactly that cell.
proof fn lemma_hit_extend(
    vram: Seq<u8>,
    ram: Seq<u8>,
    i: usize,
    vx: u8,
    vy: u8,
    r: int,
    b: int,
)
    requires
        0 <= r,
        0 <= b < 8,
    ensures
        spec_draw_hit(vram, ram, i, vx, vy, r, b + 1) <==> (spec_draw_hit(
            vram,
            ram,
            i,
            vx,
            vy,
            r,
            b,
        ) || (vram[draw_tgt(vx, vy, r, b)] == 1 && sprite_bit(ram, i, r, b) == 1)),
{
    if spec_draw_hit(vram, ram, i, vx, vy, r, b + 1) {
        let (rr, bb) = choose|rr: int, bb: int|
            0 <= rr && 0 <= bb < 8 && (rr < r || (rr == r && bb < b + 1)) && #[trigger] vram[
                draw_tgt(vx, vy, rr, bb)
            ] == 1 && #[trigger] sprite_bit(ram, i, rr, bb) == 1;
        if rr == r && bb == b {
            assert(vram[draw_tgt(vx, vy, r, b)] == 1 && sprite_bit(ram, i, r, b) == 1);
        } else {
            assert(rr < r || (rr == r && bb < b));
            assert(spec_draw_hit(vram, ram, i, vx, vy, r, b));
        }
    }
    if spec_draw_hit(vram, ram, i, vx, vy, r, b) {
        let (rr, bb) = choose|rr: int, bb: int|
            0 <= rr && 0 <= bb < 8 && (rr < r || (rr == r && bb < b)) && #[trigger] vram[
                draw_tgt(vx, vy, rr, bb)
            ] == 1 && #[trigger] sprite_bit(ram, i, rr, bb) == 1;
        assert(spec_draw_hit(vram, ram, i, vx, vy, r, b + 1));
    }
    if vram[draw_tgt(vx, vy, r, b)] == 1 && sprite_bit(ram, i, r, b) == 1 {
        assert(spec_draw_hit(vram, ram, i, vx, vy, r, b + 1));
    }
}

/// A fully drawn row accounts for the same collisions as the start of the
/// next row.
proof fn lemma_hit_row_roll(vram: Seq<u8>, ram: Seq<u8>, i: usize, vx: u8, vy: u8, r: int)
    requires
        0 <= r,
    ensures
        spec_draw_hit(vram, ram, i, vx, vy, r, 8) <==> spec_draw_hit(
            vram,
            ram,
            i,
            vx,
            vy,
            r + 1,
            0,
        ),
{
    if spec_draw_hit(vram, ram, i, vx, vy, r, 8) {
        let (rr, bb) = choose|rr: int, bb: int|
            0 <= rr && 0 <= bb < 8 && (rr < r || (rr == r && bb < 8)) && #[trigger] vram[
                draw_tgt(vx, vy, rr, bb)
            ] == 1 && #[trigger] sprite_bit(ram, i, rr, bb) == 1;
        assert(spec_draw_hit(vram, ram, i, vx, vy, r + 1, 0));
    }
    if spec_draw_hit(vram, ram, i, vx, vy, r + 1, 0) {
        let (rr, bb) = choose|rr: int, bb: int|
            0 <= rr && 0 <= bb < 8 && (rr < r + 1 || (rr == r + 1 && bb < 0)) && #[trigger] vram[
                draw_tgt(vx, vy, rr, bb)
            ] == 1 && #[trigger] sprite_bit(ram, i, rr, bb) == 1;
        assert(spec_draw_hit(vram, ram, i, vx, vy, r, 8));
    }
}

impl Instruction {
    /// `00E0`: zero every framebuffer cell and raise the dirty flag.
    fn cls(cpu: &mut CPU)
        requires
            old(cpu)@.wf(),
        ensures
            final(cpu)@.wf(),
            final(cpu)@ == spec_cls(old(cpu)@),
    {
        let mut p: usize = 0;
        while p < VRAM_SIZE
            invariant
                p <= 2048,
                old(cpu)@.wf(),
                cpu@.vram.len() == 2048,
                cpu@ == (CpuV { vram: cpu@.vram, ..old(cpu)@ }),
                forall|q: int| 0 <= q < p ==> #[trigger] cpu@.vram[q] == 0,
            decreases 2048 - p,
        {
            cpu.vram.set(p, 0);
            p = p + 1;
        }
        cpu.vram_flag = true;
        proof {
            assert(cpu@.vram =~= spec_cls(old(cpu)@).vram);
            assert(cpu@ =~= spec_cls(old(cpu)@));
        }
    }

    /// `00EE`: pop the return address, or fail loudly on an empty stack.
    fn ret(cpu: &mut CPU) -> (r: Result<(), Chip8Error>)
        requires
            old(cpu)@.wf(),
        ensures
            final(cpu)@.wf(),
            match spec_ret(old(cpu)@) {
                Ok(post) => r is Ok && final(cpu)@ == post,
                Err(e) => r == Err::<(), Chip8Error>(e) && final(cpu)@ == old(cpu)@,
            },
    {
        if cpu.sp == 0 {
            return Err(Chip8Error::StackUnderflow);
        }
        cpu.sp = cpu.sp - 1;
        cpu.pc = cpu.stack[cpu.sp];
        Ok(())
    }

    /// `1nnn`.
    fn jump(cpu: &mut CPU, nnn: usize)
        requires
            old(cpu)@.wf(),
            nnn < 4096,
        ensures
            final(cpu)@.wf(),
            final(cpu)@ == spec_jump(old(cpu)@, nnn),
    {
        cpu.pc = nnn;
    }

    /// `2nnn`: push the program counter, or fail loudly on a full stack.
    fn call(cpu: &mut CPU, nnn: usize) -> (r: Result<(), Chip8Error>)
        requires
            old(cpu)@.wf(),
            nnn < 4096,
        ensures
            final(cpu)@.wf(),
            match spec_call(old(cpu)@, nnn) {
                Ok(post) => r is Ok && final(cpu)@ == post,
                Err(e) => r == Err::<(), Chip8Error>(e) && final(cpu)@ == old(cpu)@,
            },
    {
        if cpu.sp >= STACK_DEPTH {
            return Err(Chip8Error::StackOverflow);
        }
        cpu.stack.set(cpu.sp, cpu.pc);
        cpu.sp = cpu.sp + 1;
        cpu.pc = nnn;
        Ok(())
    }

    /// `3xkk`.
    fn beq(cpu: &mut CPU, x: usize, kk: u8)
        requires
            old(cpu)@.wf(),
            x < 16,
        ensures
            final(cpu)@.wf(),
            final(cpu)@ == spec_skip_if(old(cpu)@, old(cpu)@.regs[x as int] == kk),
    {
        if cpu.registers[x] == kk {
            cpu.pc = (cpu.pc + 2) % RAM_SIZE;
        }
    }

    /// `4xkk`.
    fn bne(cpu: &mut CPU, x: usize, kk: u8)
        requires
            old(cpu)@.wf(),
            x < 16,
        ensures
            final(cpu)@.wf(),
            final(cpu)@ == spec_skip_if(old(cpu)@, old(cpu)@.regs[x as int] != kk),
    {
        if cpu.registers[x] != kk {
            cpu.pc = (cpu.pc + 2) % RAM_SIZE;
        }
    }

    /// `5xy0`.
    fn beqr(cpu: &mut CPU, x: usize, y: usize)
        requires
            old(cpu)@.wf(),
            x < 16,
            y < 16,
        ensures
            final(cpu)@.wf(),
            final(cpu)@ == spec_skip_if(
                old(cpu)@,
                old(cpu)@.regs[x as int] == old(cpu)@.regs[y as int],
            ),
    {
        if cpu.registers[x] == cpu.registers[y] {
            cpu.pc = (cpu.pc + 2) % RAM_SIZE;
        }
    }

    /// `9xy0`.
    fn bner(cpu: &mut CPU, x: usize, y: usize)
        requires
            old(cpu)@.wf(),
            x < 16,
            y < 16,
        ensures
            final(cpu)@.wf(),
            final(cpu)@ == spec_skip_if(
                old(cpu)@,
                old(cpu)@.regs[x as int] != old(cpu)@.regs[y as int],
            ),
    {
        if cpu.registers[x] != cpu.registers[y] {
            cpu.pc = (cpu.pc + 2) % RAM_SIZE;
        }
    }

    /// `6xkk`.
    fn load_i(cpu: &mut CPU, x: usize, kk: u8)
        requires
            old(cpu)@.wf(),
            x < 16,
        ensures
            final(cpu)@.wf(),
            final(cpu)@ == spec_load_imm(old(cpu)@, x, kk),
    {
        cpu.registers.set(x, kk);
    }

    /// `7xkk`: truncating add, no flag.
    fn add_i(cpu: &mut CPU, x: usize, kk: u8)
        requires
            old(cpu)@.wf(),
            x < 16,
        ensures
            final(cpu)@.wf(),
            final(cpu)@ == spec_add_imm(old(cpu)@, x, kk),
    {
        let sum = cpu.registers[x] as u16 + kk as u16;
        cpu.registers.set(x, (sum % 256) as u8);
    }

    /// `8xy0`.
    fn mov(cpu: &mut CPU, x: usize, y: usize)
        requires
            old(cpu)@.wf(),
            x < 16,
            y < 16,
        ensures
            final(cpu)@.wf(),
            final(cpu)@ == spec_mov(old(cpu)@, x, y),
    {
        let vy = cpu.registers[y];
        cpu.registers.set(x, vy);
    }

    /// `8xy1`.
    fn or(cpu: &mut CPU, x: usize, y: usize)
        requires
            old(cpu)@.wf(),
            x < 16,
            y < 16,
        ensures
            final(cpu)@.wf(),
            final(cpu)@ == spec_or(old(cpu)@, x, y),
    {
        let v = cpu.registers[x] | cpu.registers[y];
        cpu.registers.set(x, v);
    }

    /// `8xy2`.
    fn and(cpu: &mut CPU, x: usize, y: usize)
        requires
            old(cpu)@.wf(),
            x < 16,
            y < 16,
        ensures
            final(cpu)@.wf(),
            final(cpu)@ == spec_and(old(cpu)@, x, y),
    {
        let v = cpu.registers[x] & cpu.registers[y];
        cpu.registers.set(x, v);
    }

    /// `8xy3`.
    fn xor(cpu: &mut CPU, x: usize, y: usize)
        requires
            old(cpu)@.wf(),
            x < 16,
            y < 16,
        ensures
            final(cpu)@.wf(),
            final(cpu)@ == spec_xor(old(cpu)@, x, y),
    {
        let v = cpu.registers[x] ^ cpu.registers[y];
        cpu.registers.set(x, v);
    }

    /// `8xy4`: sum into `Vx`, carry into `VF`.
    fn alu_add(cpu: &mut CPU, x: usize, y: usize)
        requires
            old(cpu)@.wf(),
            x < 16,
            y < 16,
        ensures
            final(cpu)@.wf(),
            final(cpu)@ == spec_alu_add(old(cpu)@, x, y),
    {
        let sum = cpu.registers[x] as u16 + cpu.registers[y] as u16;
        cpu.registers.set(x, (sum % 256) as u8);
        cpu.registers.set(15, if sum > 255 { 1 } else { 0 });
    }

    /// `8xy5`: difference into `Vx`, no-borrow flag into `VF`.
    fn alu_sub(cpu: &mut CPU, x: usize, y: usize)
        requires
            old(cpu)@.wf(),
            x < 16,
            y < 16,
        ensures
            final(cpu)@.wf(),
            final(cpu)@ == spec_alu_sub(old(cpu)@, x, y),
    {
        let vx = cpu.registers[x];
        let vy = cpu.registers[y];
        let d = (vx as u16 + 256) - (vy as u16);
        proof {
            lemma_mod_multiples_vanish(1, vx as int - vy as int, 256);
        }
        cpu.registers.set(x, (d % 256) as u8);
        cpu.registers.set(15, if vx >= vy { 1 } else { 0 });
    }

    /// `8xy7`: like `8xy5` with the operands swapped.
    fn alu_subn(cpu: &mut CPU, x: usize, y: usize)
        requires
            old(cpu)@.wf(),
            x < 16,
            y < 16,
        ensures
            final(cpu)@.wf(),
            final(cpu)@ == spec_alu_subn(old(cpu)@, x, y),
    {
        let vx = cpu.registers[x];
        let vy = cpu.registers[y];
        let d = (vy as u16 + 256) - (vx as u16);
        proof {
            lemma_mod_multiples_vanish(1, vy as int - vx as int, 256);
        }
        cpu.registers.set(x, (d % 256) as u8);
        cpu.registers.set(15, if vy >= vx { 1 } else { 0 });
    }

    /// `8xy6`: flag first, then the shift, exactly in that order.
    fn slr(cpu: &mut CPU, x: usize)
        requires
            old(cpu)@.wf(),
            x < 16,
        ensures
            final(cpu)@.wf(),
            final(cpu)@ == spec_shr(old(cpu)@, x),
    {
        let vf = cpu.registers[x] & 1;
        cpu.registers.set(15, vf);
        let t = cpu.registers[x];
        cpu.registers.set(x, t >> 1u8);
    }

    /// `8xyE`: flag first, then the shift, exactly in that order.
    fn sll(cpu: &mut CPU, x: usize)
        requires
            old(cpu)@.wf(),
            x < 16,
        ensures
            final(cpu)@.wf(),
            final(cpu)@ == spec_shl(old(cpu)@, x),
    {
        let vf = cpu.registers[x] >> 7u8;
        cpu.registers.set(15, vf);
        let t = cpu.registers[x];
        cpu.registers.set(x, t << 1u8);
    }

    /// `Annn`.
    fn set_addr(cpu: &mut CPU, nnn: usize)
        requires
            old(cpu)@.wf(),
            nnn < 4096,
        ensures
            final(cpu)@.wf(),
            final(cpu)@ == spec_set_index(old(cpu)@, nnn),
    {
        cpu.i = nnn;
    }

    /// `Bnnn`.
    fn branch(cpu: &mut CPU, nnn: usize)
        requires
            old(cpu)@.wf(),
            nnn < 4096,
        ensures
            final(cpu)@.wf(),
            final(cpu)@ == spec_jump_offset(old(cpu)@, nnn),
    {
        cpu.pc = (cpu.registers[0] as usize + nnn) % RAM_SIZE;
    }

    /// `Cxkk`: the caller supplies the random byte; the instruction only
    /// masks and stores it.
    fn rand(cpu: &mut CPU, x: usize, kk: u8, rnd: u8)
        requires
            old(cpu)@.wf(),
            x < 16,
        ensures
            final(cpu)@.wf(),
            final(cpu)@ == spec_random(old(cpu)@, x, kk, rnd),
    {
        cpu.registers.set(x, rnd & kk);
    }

    /// `Ex9E`.
    fn key_pressed(cpu: &mut CPU, x: usize)
        requires
            old(cpu)@.wf(),
            x < 16,
        ensures
            final(cpu)@.wf(),
            final(cpu)@ == spec_skip_if(old(cpu)@, spec_key_selected(old(cpu)@, x)),
    {
        let kb = cpu.registers[x];
        proof {
            assert(kb & 0x0F < 16) by (bit_vector);
        }
        let sel = (kb & 0x0F) as usize;
        if cpu.keypad[sel] {
            cpu.pc = (cpu.pc + 2) % RAM_SIZE;
        }
    }

    /// `ExA1`.
    fn key_released(cpu: &mut CPU, x: usize)
        requires
            old(cpu)@.wf(),
            x < 16,
        ensures
            final(cpu)@.wf(),
            final(cpu)@ == spec_skip_if(old(cpu)@, !spec_key_selected(old(cpu)@, x)),
    {
        let kb = cpu.registers[x];
        proof {
            assert(kb & 0x0F < 16) by (bit_vector);
        }
        let sel = (kb & 0x0F) as usize;
        if !cpu.keypad[sel] {
            cpu.pc = (cpu.pc + 2) % RAM_SIZE;
        }
    }

    /// `Fx07`.
    fn get_delay(cpu: &mut CPU, x: usize)
        requires
            old(cpu)@.wf(),
            x < 16,
        ensures
            final(cpu)@.wf(),
            final(cpu)@ == spec_get_delay(old(cpu)@, x),
    {
        let dt = cpu.delay_timer;
        cpu.registers.set(x, dt);
    }

    /// `Fx0A`: park the machine; the cycle engine resolves the wait.
    fn get_key(cpu: &mut CPU, x: usize)
        requires
            old(cpu)@.wf(),
            x < 16,
        ensures
            final(cpu)@.wf(),
            final(cpu)@ == spec_await_key(old(cpu)@, x),
    {
        cpu.keypad_dst = x;
        cpu.await_keypad = true;
    }

    /// `Fx15`.
    fn delay_timer(cpu: &mut CPU, x: usize)
        requires
            old(cpu)@.wf(),
            x < 16,
        ensures
            final(cpu)@.wf(),
            final(cpu)@ == spec_set_delay(old(cpu)@, x),
    {
        cpu.delay_timer = cpu.registers[x];
    }

    /// `Fx18`.
    fn sound_timer(cpu: &mut CPU, x: usize)
        requires
            old(cpu)@.wf(),
            x < 16,
        ensures
            final(cpu)@.wf(),
            final(cpu)@ == spec_set_sound(old(cpu)@, x),
    {
        cpu.sound_timer = cpu.registers[x];
    }

    /// `Fx1E`.
    fn inc_mem(cpu: &mut CPU, x: usize)
        requires
            old(cpu)@.wf(),
            x < 16,
        ensures
            final(cpu)@.wf(),
            final(cpu)@ == spec_add_index(old(cpu)@, x),
    {
        let sum = cpu.i + cpu.registers[x] as usize;
        cpu.registers.set(15, if sum > 0xFFF { 1 } else { 0 });
        cpu.i = sum % RAM_SIZE;
    }

    /// `Fx29`.
    fn load_sprite(cpu: &mut CPU, x: usize)
        requires
            old(cpu)@.wf(),
            x < 16,
        ensures
            final(cpu)@.wf(),
            final(cpu)@ == spec_load_sprite(old(cpu)@, x),
    {
        cpu.i = (cpu.registers[x] as usize) * 5;
    }

    /// `Fx33`.
    fn bcd(cpu: &mut CPU, x: usize)
        requires
            old(cpu)@.wf(),
            x < 16,
        ensures
            final(cpu)@.wf(),
            final(cpu)@ == spec_bcd(old(cpu)@, x),
    {
        let vx = cpu.registers[x];
        let i0 = cpu.i;
        cpu.ram.set(i0, vx / 100);
        cpu.ram.set((i0 + 1) % RAM_SIZE, (vx % 100) / 10);
        cpu.ram.set((i0 + 2) % RAM_SIZE, vx % 10);
    }

    /// `Fx55`: registers 0 through `x` into memory behind `I`.
    fn reg_dump(cpu: &mut CPU, x: usize)
        requires
            old(cpu)@.wf(),
            x < 16,
        ensures
            final(cpu)@.wf(),
            final(cpu)@ == spec_reg_dump(old(cpu)@, x),
    {
        let i0 = cpu.i;
        let mut j: usize = 0;
        while j <= x
            invariant
                old(cpu)@.wf(),
                x < 16,
                j <= x + 1,
                i0 == old(cpu)@.i,
                cpu@.ram.len() == 4096,
                cpu@ == (CpuV { ram: cpu@.ram, ..old(cpu)@ }),
                forall|a: int|
                    0 <= a < 4096 ==> #[trigger] cpu@.ram[a] == (if (a - i0) % 4096 < j {
                        old(cpu)@.regs[(a - i0) % 4096]
                    } else {
                        old(cpu)@.ram[a]
                    }),
            decreases x + 1 - j,
        {
            let addr = (i0 + j) % RAM_SIZE;
            let vj = cpu.registers[j];
            cpu.ram.set(addr, vj);
            proof {
                lemma_mod_cancel_add(i0 as int, j as int, 4096);
                assert forall|a: int| 0 <= a < 4096 implies #[trigger] cpu@.ram[a] == (if (a - i0)
                    % 4096 < j + 1 {
                    old(cpu)@.regs[(a - i0) % 4096]
                } else {
                    old(cpu)@.ram[a]
                }) by {
                    if a != addr && (a - i0) % 4096 == j {
                        lemma_mod_cancel_sub(i0 as int, a, 4096);
                    }
                }
            }
            j = j + 1;
        }
        proof {
            assert(cpu@.ram =~= spec_reg_dump(old(cpu)@, x).ram);
            assert(cpu@ =~= spec_reg_dump(old(cpu)@, x));
        }
    }

    /// `Fx65`: registers 0 through `x` from memory behind `I`.
    fn reg_load(cpu: &mut CPU, x: usize)
        requires
            old(cpu)@.wf(),
            x < 16,
        ensures
            final(cpu)@.wf(),
            final(cpu)@ == spec_reg_load(old(cpu)@, x),
    {
        let i0 = cpu.i;
        let mut j: usize = 0;
        while j <= x
            invariant
                old(cpu)@.wf(),
                x < 16,
                j <= x + 1,
                i0 == old(cpu)@.i,
                cpu@.regs.len() == 16,
                cpu@ == (CpuV { regs: cpu@.regs, ..old(cpu)@ }),
                forall|jj: int|
                    0 <= jj < 16 ==> #[trigger] cpu@.regs[jj] == (if jj < j {
                        old(cpu)@.ram[(i0 + jj) % 4096]
                    } else {
                        old(cpu)@.regs[jj]
                    }),
            decreases x + 1 - j,
        {
            let b = cpu.ram[(i0 + j) % RAM_SIZE];
            cpu.registers.set(j, b);
            j = j + 1;
        }
        proof {
            assert(cpu@.regs =~= spec_reg_load(old(cpu)@, x).regs);
            assert(cpu@ =~= spec_reg_load(old(cpu)@, x));
        }
    }

    /// `Dxyn`: XOR the sprite into the framebuffer, wrapping on both axes,
    /// and collect the collision flag.
    #[verifier::loop_isolation(false)]
    fn draw(cpu: &mut CPU, x: usize, y: usize, n: usize)
        requires
            old(cpu)@.wf(),
            x < 16,
            y < 16,
            n < 16,
        ensures
            final(cpu)@.wf(),
            final(cpu)@ == spec_draw(old(cpu)@, x, y, n),
    {
        let ghost pre = cpu@;
        let vx = cpu.registers[x];
        let vy = cpu.registers[y];
        let i0 = cpu.i;
        let mut hit = false;
        proof {
            assert(cpu@.vram =~= spec_draw_vram_upto(pre.vram, pre.ram, i0, vx, vy, 0, 0));
            if spec_draw_hit(pre.vram, pre.ram, i0, vx, vy, 0, 0) {
                let (rr, bb) = choose|rr: int, bb: int|
                    0 <= rr && 0 <= bb < 8 && (rr < 0 || (rr == 0 && bb < 0)) && #[trigger] pre.vram[
                        draw_tgt(vx, vy, rr, bb)
                    ] == 1 && #[trigger] sprite_bit(pre.ram, i0, rr, bb) == 1;
                assert(false);
            }
        }
        let mut r: usize = 0;
        while r < n
            invariant
                r <= n,
                cpu@.vram.len() == 2048,
                cpu@ == (CpuV { vram: cpu@.vram, ..pre }),
                forall|p: int| 0 <= p < 2048 ==> #[trigger] cpu@.vram[p] <= 1,
                cpu@.vram == spec_draw_vram_upto(pre.vram, pre.ram, i0, vx, vy, r as int, 0),
                hit == spec_draw_hit(pre.vram, pre.ram, i0, vx, vy, r as int, 0),
            decreases n - r,
        {
            let row_byte = cpu.ram[(i0 + r) % RAM_SIZE];
            let rowv = (vy as usize + r) % 32;
            let mut b: usize = 0;
            while b < 8
                invariant
                    b <= 8,
                    r < n,
                    cpu@.vram.len() == 2048,
                    cpu@ == (CpuV { vram: cpu@.vram, ..pre }),
                    forall|p: int| 0 <= p < 2048 ==> #[trigger] cpu@.vram[p] <= 1,
                    cpu@.vram == spec_draw_vram_upto(
                        pre.vram,
                        pre.ram,
                        i0,
                        vx,
                        vy,
                        r as int,
                        b as int,
                    ),
                    hit == spec_draw_hit(pre.vram, pre.ram, i0, vx, vy, r as int, b as int),
                decreases 8 - b,
            {
                let col = (vx as usize + b) % 64;
                let idx = rowv * 64 + col;
                proof {
                    lemma_mod_cancel_add(vy as int, r as int, 32);
                    lemma_mod_cancel_add(vx as int, b as int, 64);
                    lemma_fundamental_div_mod_converse(idx as int, 64, rowv as int, col as int);
                    assert(idx == draw_tgt(vx, vy, r as int, b as int));
                }
                let cur = cpu.vram[idx];
                let sh = (7 - b) as u8;
                let bit = (row_byte >> sh) & 1;
                proof {
                    assert((row_byte >> sh) & 1 <= 1) by (bit_vector);
                    lemma_xor_bit(cur, bit);
                    assert(bit == sprite_bit(pre.ram, i0, r as int, b as int));
                    assert(cur == pre.vram[idx as int]);
                }
                let newp = cur ^ bit;
                cpu.vram.set(idx, newp);
                if cur > 0 && newp == 0 {
                    hit = true;
                }
                proof {
                    lemma_hit_extend(pre.vram, pre.ram, i0, vx, vy, r as int, b as int);
                    assert forall|p: int| 0 <= p < 2048 implies #[trigger] cpu@.vram[p]
                        == spec_draw_vram_upto(
                        pre.vram,
                        pre.ram,
                        i0,
                        vx,
                        vy,
                        r as int,
                        b as int + 1,
                    )[p] by {
                        if p != idx && (p / 64 - vy) % 32 == r as int && (p % 64 - vx) % 64
                            == b as int {
                            lemma_fundamental_div_mod(p, 64);
                            lemma_mod_cancel_sub(vy as int, p / 64, 32);
                            lemma_mod_cancel_sub(vx as int, p % 64, 64);
                        }
                    }
                    assert(cpu@.vram =~= spec_draw_vram_upto(
                        pre.vram,
                        pre.ram,
                        i0,
                        vx,
                        vy,
                        r as int,
                        b as int + 1,
                    ));
                }
                b = b + 1;
            }
            proof {
                assert(spec_draw_vram_upto(pre.vram, pre.ram, i0, vx, vy, r as int, 8)
                    =~= spec_draw_vram_upto(pre.vram, pre.ram, i0, vx, vy, r as int + 1, 0));
                lemma_hit_row_roll(pre.vram, pre.ram, i0, vx, vy, r as int);
            }
            r = r + 1;
        }
        cpu.registers.set(15, if hit { 1 } else { 0 });
        cpu.vram_flag = true;
        proof {
            assert(cpu@ =~= spec_draw(pre, x, y, n));
        }
    }

    /// Apply one decoded instruction to the machine state. The caller
    /// supplies the random byte that a `Cxkk` consumes, so that execution is
    /// specified for every byte the generator may hand back. The stack
    /// operations are the only ones that can fail; on failure the state is
    /// untouched.
    pub fn execute(&self, cpu: &mut CPU, rnd: u8) -> (r: Result<(), Chip8Error>)
        requires
            self.wf(),
            old(cpu)@.wf(),
        ensures
            final(cpu)@.wf(),
            match spec_step(old(cpu)@, *self, rnd) {
                Ok(post) => r is Ok && final(cpu)@ == post,
                Err(e) => r == Err::<(), Chip8Error>(e) && final(cpu)@ == old(cpu)@,
            },
    {
        match *self {
            Instruction::Cls => {
                Instruction::cls(cpu);
                Ok(())
            },
            Instruction::Ret => Instruction::ret(cpu),
            Instruction::Jump { nnn } => {
                Instruction::jump(cpu, nnn);
                Ok(())
            },
            Instruction::Call { nnn } => Instruction::call(cpu, nnn),
            Instruction::SkipEqImm { x, kk } => {
                Instruction::beq(cpu, x, kk);
                Ok(())
            },
            Instruction::SkipNeImm { x, kk } => {
                Instruction::bne(cpu, x, kk);
                Ok(())
            },
            Instruction::SkipEqReg { x, y } => {
                Instruction::beqr(cpu, x, y);
                Ok(())
            },
            Instruction::LoadImm { x, kk } => {
                Instruction::load_i(cpu, x, kk);
                Ok(())
            },
            Instruction::AddImm { x, kk } => {
                Instruction::add_i(cpu, x, kk);
                Ok(())
            },
            Instruction::Mov { x, y } => {
                Instruction::mov(cpu, x, y);
                Ok(())
            },
            Instruction::Or { x, y } => {
                Instruction::or(cpu, x, y);
                Ok(())
            },
            Instruction::And { x, y } => {
                Instruction::and(cpu, x, y);
                Ok(())
            },
            Instruction::Xor { x, y } => {
                Instruction::xor(cpu, x, y);
                Ok(())
            },
            Instruction::Add { x, y } => {
                Instruction::alu_add(cpu, x, y);
                Ok(())
            },
            Instruction::Sub { x, y } => {
                Instruction::alu_sub(cpu, x, y);
                Ok(())
            },
            Instruction::Shr { x } => {
                Instruction::slr(cpu, x);
                Ok(())
            },
            Instruction::SubInv { x, y } => {
                Instruction::alu_subn(cpu, x, y);
                Ok(())
            },
            Instruction::Shl { x } => {
                Instruction::sll(cpu, x);
                Ok(())
            },
            Instruction::SkipNeReg { x, y } => {
                Instruction::bner(cpu, x, y);
                Ok(())
            },
            Instruction::SetIndex { nnn } => {
                Instruction::set_addr(cpu, nnn);
                Ok(())
            },
            Instruction::JumpOffset { nnn } => {
                Instruction::branch(cpu, nnn);
                Ok(())
            },
            Instruction::Random { x, kk } => {
                Instruction::rand(cpu, x, kk, rnd);
                Ok(())
            },
            Instruction::Draw { x, y, n } => {
                Instruction::draw(cpu, x, y, n);
                Ok(())
            },
            Instruction::SkipKeyPressed { x } => {
                Instruction::key_pressed(cpu, x);
                Ok(())
            },
            Instruction::SkipKeyReleased { x } => {
                Instruction::key_released(cpu, x);
                Ok(())
            },
            Instruction::GetDelay { x } => {
                Instruction::get_delay(cpu, x);
                Ok(())
            },
            Instruction::AwaitKey { x } => {
                Instruction::get_key(cpu, x);
                Ok(())
            },
            Instruction::SetDelay { x } => {
                Instruction::delay_timer(cpu, x);
                Ok(())
            },
            Instruction::SetSound { x } => {
                Instruction::sound_timer(cpu, x);
                Ok(())
            },
            Instruction::AddIndex { x } => {
                Instruction::inc_mem(cpu, x);
                Ok(())
            },
            Instruction::LoadSprite { x } => {
                Instruction::load_sprite(cpu, x);
                Ok(())
            },
            Instruction::Bcd { x } => {
                Instruction::bcd(cpu, x);
                Ok(())
            },
            Instruction::RegDump { x } => {
                Instruction::reg_dump(cpu, x);
                Ok(())
            },
            Instruction::RegLoad { x } => {
                Instruction::reg_load(cpu, x);
                Ok(())
            },
        }
    }
}

} // verus!
