//! The CHIP-8 machine state and the cycle engine.
//!
//! [`CPU`] holds every piece of machine state; [`CpuV`] is its mathematical
//! model. One call to [`CPU::emulate_cycle`] performs exactly one step of the
//! machine: it replaces the keypad snapshot, resolves a pending await-keypad,
//! or fetches, decodes and executes one instruction and then gates the two
//! timers against the caller's clock. The whole step is specified by
//! [`spec_cycle`].

use vstd::prelude::*;
use crate::font::font_bytes;
use crate::font::spec_font;
use crate::font::FONT_BYTES;
use crate::instruction::spec_decode;
use crate::instruction::spec_step;
use crate::instruction::Instruction;
use crate::random::random_byte;

verus! {

/// Bytes of addressable memory.
pub const RAM_SIZE: usize = 4096;

/// Framebuffer cells: 64 columns by 32 rows, one byte per pixel.
pub const VRAM_SIZE: usize = 2048;

/// Framebuffer width in pixels.
pub const CHIP8_WIDTH: usize = 64;

/// Framebuffer height in pixels.
pub const CHIP8_HEIGHT: usize = 32;

/// Conventional ROM load offset; the program counter starts here.
pub const CHIP8_START_POINT: usize = 0x200;

/// Depth of the return stack.
pub const STACK_DEPTH: usize = 16;

/// The timers run at 60 Hz: they lose one tick once more than this many
/// milliseconds of the caller's clock have elapsed since the last tick.
pub const TIMER_INTERVAL_MS: u64 = 16;

/// The fatal conditions a cycle can report. None is recoverable: the driver
/// is expected to halt. Stack misuse is surfaced loudly instead of wrapping
/// silently into adjacent state, and an unknown opcode is surfaced instead of
/// being executed as a no-op.
#[derive(Clone, Copy, Debug, PartialEq, Eq, Structural)]
pub enum Chip8Error {
    /// The fetched opcode matches no known instruction pattern.
    UnknownOpcode(u16),
    /// A call was executed with the return stack already full.
    StackOverflow,
    /// A return was executed with the return stack empty.
    StackUnderflow,
    /// A ROM image longer than the memory behind the load offset.
    RomTooLarge,
}

/// What one cycle reports back to the driver: whether the framebuffer was
/// touched this cycle, and whether the tone should be on.
#[derive(Clone, Copy, Debug, PartialEq, Eq, Structural)]
pub struct CpuState {
    pub updated_vram: bool,
    pub beep: bool,
}

/// The mathematical model of the machine state. Every contract in this crate
/// speaks about values of this type.
#[verifier::ext_equal]
pub ghost struct CpuV {
    /// The sixteen general-purpose registers; register 15 doubles as the
    /// carry/borrow/collision flag.
    pub regs: Seq<u8>,
    /// The index register.
    pub i: usize,
    /// The program counter.
    pub pc: usize,
    /// The stack pointer: index of the next free stack slot.
    pub sp: usize,
    /// All 4096 bytes of memory.
    pub ram: Seq<u8>,
    /// The framebuffer, row-major, each cell 0 or 1.
    pub vram: Seq<u8>,
    /// Whether the framebuffer was touched this cycle.
    pub vram_flag: bool,
    /// The sixteen return-address slots.
    pub stack: Seq<usize>,
    /// The most recent keypad snapshot.
    pub keypad: Seq<bool>,
    /// Destination register of a pending await-keypad.
    pub keypad_dst: usize,
    pub delay_timer: u8,
    pub sound_timer: u8,
    /// Whether the machine is parked waiting for a key press.
    pub await_keypad: bool,
    /// Clock reading (in milliseconds) at the last timer tick.
    pub timer_mark: u64,
}

impl CpuV {
    /// Well-formedness: the sizes are fixed, every address-like value is in
    /// range, and the framebuffer is binary. Established at construction and
    /// preserved by every cycle.
    pub open spec fn wf(self) -> bool {
        &&& self.regs.len() == 16
        &&& self.ram.len() == 4096
        &&& self.vram.len() == 2048
        &&& self.stack.len() == 16
        &&& self.keypad.len() == 16
        &&& self.i < 4096
        &&& self.pc < 4096
        &&& self.sp <= 16
        &&& self.keypad_dst < 16
        &&& forall|k: int| 0 <= k < 16 ==> #[trigger] self.stack[k] < 4096
        &&& forall|p: int| 0 <= p < 2048 ==> #[trigger] self.vram[p] <= 1
    }
}

/// The machine: registers, memory, stack, framebuffer, timers, keypad.
pub struct CPU {
    pub registers: Vec<u8>,
    pub i: usize,
    pub pc: usize,
    pub sp: usize,
    pub ram: Vec<u8>,
    pub vram: Vec<u8>,
    pub vram_flag: bool,
    pub stack: Vec<usize>,
    pub keypad: [bool; 16],
    pub keypad_dst: usize,
    pub delay_timer: u8,
    pub sound_timer: u8,
    pub await_keypad: bool,
    pub timer_mark: u64,
}

impl View for CPU {
    type V = CpuV;

    open spec fn view(&self) -> CpuV {
        CpuV {
            regs: self.registers@,
            i: self.i,
            pc: self.pc,
            sp: self.sp,
            ram: self.ram@,
            vram: self.vram@,
            vram_flag: self.vram_flag,
            stack: self.stack@,
            keypad: self.keypad@,
            keypad_dst: self.keypad_dst,
            delay_timer: self.delay_timer,
            sound_timer: self.sound_timer,
            await_keypad: self.await_keypad,
            timer_mark: self.timer_mark,
        }
    }
}

/// The machine state at power-on: everything zeroed, the font in the first
/// 80 bytes of memory, the program counter at the ROM load offset.
pub open spec fn spec_init() -> CpuV {
    CpuV {
        regs: Seq::new(16, |r: int| 0u8),
        i: 0,
        pc: 0x200,
        sp: 0,
        ram: Seq::new(4096, |a: int| if a < 80 { spec_font()[a] } else { 0u8 }),
        vram: Seq::new(2048, |p: int| 0u8),
        vram_flag: false,
        stack: Seq::new(16, |k: int| 0usize),
        keypad: Seq::new(16, |k: int| false),
        keypad_dst: 0,
        delay_timer: 0,
        sound_timer: 0,
        await_keypad: false,
        timer_mark: 0,
    }
}

/// Memory after a ROM load: the image sits at addresses 512 onward, the rest
/// is untouched.
pub open spec fn spec_load_ram(ram: Seq<u8>, data: Seq<u8>) -> Seq<u8> {
    Seq::new(4096, |a: int| if 512 <= a < 512 + data.len() { data[a - 512] } else { ram[a] })
}

/// The 16-bit opcode at the program counter, big-endian, the second byte
/// wrapping around the end of memory.
pub open spec fn spec_fetch_op(s: CpuV) -> u16 {
    ((s.ram[s.pc as int] as u16) << 8) | (s.ram[(s.pc + 1) % 4096] as u16)
}

/// The timer gate: once more than 16 ms of the caller's clock have passed
/// since the last tick, each nonzero timer loses one and the tick time is
/// remembered; otherwise nothing changes.
pub open spec fn spec_tick_timers(s: CpuV, now_ms: u64) -> CpuV {
    if now_ms - s.timer_mark > 16 {
        CpuV {
            delay_timer: if s.delay_timer > 0 { (s.delay_timer - 1) as u8 } else { 0u8 },
            sound_timer: if s.sound_timer > 0 { (s.sound_timer - 1) as u8 } else { 0u8 },
            timer_mark: now_ms,
            ..s
        }
    } else {
        s
    }
}

/// The lowest pressed key at or above index `k`, if any.
pub open spec fn first_pressed_from(keypad: Seq<bool>, k: int) -> Option<int>
    decreases 16 - k,
{
    if k < 0 || k >= 16 {
        None
    } else if keypad[k] {
        Some(k)
    } else {
        first_pressed_from(keypad, k + 1)
    }
}

impl CPU {
    /// Power the machine on: registers and framebuffer zeroed, font loaded,
    /// program counter at the ROM load offset.
    pub fn new() -> (cpu: CPU)
        ensures
            cpu@.wf(),
            cpu@ == spec_init(),
    {
        let mut ram = font_bytes();
        while ram.len() < RAM_SIZE
            invariant
                FONT_BYTES <= ram@.len() <= 4096,
                ram@.subrange(0, 80) == spec_font(),
                forall|a: int| 80 <= a < ram@.len() ==> ram@[a] == 0,
            decreases 4096 - ram@.len(),
        {
            ram.push(0u8);
            proof {
                assert(ram@.subrange(0, 80) =~= spec_font());
            }
        }
        let cpu = CPU {
            registers: vec![0u8; 16],
            i: 0,
            pc: CHIP8_START_POINT,
            sp: 0,
            ram,
            vram: vec![0u8; VRAM_SIZE],
            vram_flag: false,
            stack: vec![0usize; 16],
            keypad: [false; 16],
            keypad_dst: 0,
            delay_timer: 0,
            sound_timer: 0,
            await_keypad: false,
            timer_mark: 0,
        };
        proof {
            assert(cpu@.ram =~= spec_init().ram);
            assert(cpu@ =~= spec_init());
        }
        cpu
    }

    /// Copy a ROM image into memory at the load offset. An image longer than
    /// the memory behind the offset is rejected whole, before any byte of
    /// state changes.
    pub fn load_memory(&mut self, data: &[u8]) -> (r: Result<(), Chip8Error>)
        requires
            old(self)@.wf(),
        ensures
            final(self)@.wf(),
            r is Ok <==> data@.len() <= 4096 - 512,
            r is Ok ==> final(self)@ == (CpuV {
                ram: spec_load_ram(old(self)@.ram, data@),
                ..old(self)@
            }),
            r is Err ==> final(self)@ == old(self)@ && r == Err::<(), Chip8Error>(
                Chip8Error::RomTooLarge,
            ),
    {
        if data.len() > RAM_SIZE - CHIP8_START_POINT {
            return Err(Chip8Error::RomTooLarge);
        }
        let mut j: usize = 0;
        while j < data.len()
            invariant
                j <= data@.len(),
                data@.len() <= 4096 - 512,
                self@.ram.len() == 4096,
                self@ == (CpuV { ram: self@.ram, ..old(self)@ }),
                forall|a: int|
                    0 <= a < 4096 ==> self@.ram[a] == (if 512 <= a < 512 + j {
                        data@[a - 512]
                    } else {
                        old(self)@.ram[a]
                    }),
            decreases data@.len() - j,
        {
            self.ram.set(CHIP8_START_POINT + j, data[j]);
            j = j + 1;
        }
        proof {
            assert(self@.ram =~= spec_load_ram(old(self)@.ram, data@));
            assert(self@ =~= (CpuV { ram: spec_load_ram(old(self)@.ram, data@), ..old(self)@ }));
        }
        Ok(())
    }

    /// Read the two opcode bytes at the program counter and advance it by
    /// two, wrapping around the end of memory.
    fn fetch_instruction(&mut self) -> (op: u16)
        requires
            old(self)@.wf(),
        ensures
            final(self)@.wf(),
            op == spec_fetch_op(old(self)@),
            final(self)@ == (CpuV { pc: ((old(self)@.pc + 2) % 4096) as usize, ..old(self)@ }),
    {
        let hi = self.ram[self.pc];
        let lo = self.ram[(self.pc + 1) % RAM_SIZE];
        self.pc = (self.pc + 2) % RAM_SIZE;
        ((hi as u16) << 8) | (lo as u16)
    }

    /// Apply the timer gate against the caller's clock; see
    /// [`spec_tick_timers`].
    fn tick_timers(&mut self, now_ms: u64)
        requires
            old(self)@.wf(),
        ensures
            final(self)@.wf(),
            final(self)@ == spec_tick_timers(old(self)@, now_ms),
    {
        if now_ms >= self.timer_mark && now_ms - self.timer_mark > TIMER_INTERVAL_MS {
            if self.delay_timer > 0 {
                self.delay_timer = self.delay_timer - 1;
            }
            if self.sound_timer > 0 {
                self.sound_timer = self.sound_timer - 1;
            }
            self.timer_mark = now_ms;
        }
    }
}


/// One whole cycle as a function of the previous state, the keypad snapshot,
/// the caller's clock and the random byte: the post state paired with what
/// the cycle returns. The keypad snapshot always replaces the stored one and
/// the dirty flag always resets. A parked machine resolves the wait (or
/// keeps waiting) and performs no fetch; otherwise one opcode is fetched,
/// decoded and executed, and the timers are gated.
pub open spec fn spec_cycle(pre: CpuV, keypad: Seq<bool>, now_ms: u64, rnd: u8) -> (CpuV, Result<
    CpuState,
    Chip8Error,
>) {
    let s0 = CpuV { keypad: keypad, vram_flag: false, ..pre };
    if pre.await_keypad {
        match first_pressed_from(keypad, 0) {
            Some(k) => {
                let s1 = CpuV {
                    regs: s0.regs.update(s0.keypad_dst as int, k as u8),
                    await_keypad: false,
                    ..s0
                };
                (s1, Ok(CpuState { updated_vram: false, beep: s1.sound_timer > 0 }))
            },
            None => (s0, Ok(CpuState { updated_vram: false, beep: s0.sound_timer > 0 })),
        }
    } else {
        let op = spec_fetch_op(s0);
        let s1 = CpuV { pc: ((s0.pc + 2) % 4096) as usize, ..s0 };
        match spec_decode(op) {
            None => (s1, Err(Chip8Error::UnknownOpcode(op))),
            Some(instr) => match spec_step(s1, instr, rnd) {
                Err(e) => (s1, Err(e)),
                Ok(s2) => {
                    let s3 = spec_tick_timers(s2, now_ms);
                    (s3, Ok(CpuState { updated_vram: s3.vram_flag, beep: s3.sound_timer > 0 }))
                },
            },
        }
    }
}

impl CPU {
    /// Advance the machine by one cycle against the supplied keypad snapshot
    /// and clock reading (milliseconds, monotonic, from any epoch).
    ///
    /// A parked machine scans the snapshot for the lowest pressed key: if
    /// one is found its index lands in the pending register and the machine
    /// resumes fetching on the next call; either way no opcode runs this
    /// cycle. Otherwise one opcode is fetched, decoded and executed, and the
    /// timers tick if more than 16 ms have passed since the last tick. The
    /// random byte consumed by `Cxkk` is the one quantity not determined by
    /// the arguments, so the contract holds for some byte rather than a
    /// known one; everything else about the cycle is pinned down by
    /// [`spec_cycle`].
    pub fn emulate_cycle(&mut self, keypad: [bool; 16], now_ms: u64) -> (r: Result<
        CpuState,
        Chip8Error,
    >)
        requires
            old(self)@.wf(),
        ensures
            final(self)@.wf(),
            exists|rnd: u8|
                #[trigger] spec_cycle(old(self)@, keypad@, now_ms, rnd) == (final(self)@, r),
    {
        self.keypad = keypad;
        self.vram_flag = false;
        let ghost s0 = self@;
        proof {
            assert(s0 =~= (CpuV { keypad: keypad@, vram_flag: false, ..old(self)@ }));
        }
        if self.await_keypad {
            let mut k: usize = 0;
            while k < 16
                invariant
                    k <= 16,
                    self@ == s0,
                    s0.wf(),
                    old(self)@.wf(),
                    old(self)@.await_keypad,
                    s0 == (CpuV { keypad: keypad@, vram_flag: false, ..old(self)@ }),
                    first_pressed_from(keypad@, 0) == first_pressed_from(keypad@, k as int),
                decreases 16 - k,
            {
                if self.keypad[k] {
                    self.registers.set(self.keypad_dst, k as u8);
                    self.await_keypad = false;
                    let beep = self.sound_timer > 0;
                    proof {
                        assert(first_pressed_from(keypad@, k as int) == Some(k as int));
                        assert(self@ =~= (CpuV {
                            regs: s0.regs.update(s0.keypad_dst as int, k as u8),
                            await_keypad: false,
                            ..s0
                        }));
                        assert(spec_cycle(old(self)@, keypad@, now_ms, 0u8) == (
                            self@,
                            Ok::<CpuState, Chip8Error>(
                                CpuState { updated_vram: false, beep: beep },
                            ),
                        ));
                    }
                    return Ok(CpuState { updated_vram: false, beep });
                }
                k = k + 1;
            }
            let beep = self.sound_timer > 0;
            proof {
                assert(first_pressed_from(keypad@, 16) is None);
                assert(spec_cycle(old(self)@, keypad@, now_ms, 0u8) == (
                    self@,
                    Ok::<CpuState, Chip8Error>(CpuState { updated_vram: false, beep: beep }),
                ));
            }
            return Ok(CpuState { updated_vram: false, beep });
        }
        let op = self.fetch_instruction();
        proof {
            assert(self@ =~= (CpuV { pc: ((s0.pc + 2) % 4096) as usize, ..s0 }));
        }
        let ghost s1 = self@;
        match Instruction::decode(op) {
            None => {
                proof {
                    assert(spec_cycle(old(self)@, keypad@, now_ms, 0u8) == (
                        self@,
                        Err::<CpuState, Chip8Error>(Chip8Error::UnknownOpcode(op)),
                    ));
                }
                Err(Chip8Error::UnknownOpcode(op))
            },
            Some(instr) => {
                let rnd = random_byte();
                match instr.execute(self, rnd) {
                    Err(e) => {
                        proof {
                            assert(spec_cycle(old(self)@, keypad@, now_ms, rnd) == (
                                self@,
                                Err::<CpuState, Chip8Error>(e),
                            ));
                        }
                        Err(e)
                    },
                    Ok(_) => {
                        self.tick_timers(now_ms);
                        let st = CpuState {
                            updated_vram: self.vram_flag,
                            beep: self.sound_timer > 0,
                        };
                        proof {
                            assert(spec_cycle(old(self)@, keypad@, now_ms, rnd) == (
                                self@,
                                Ok::<CpuState, Chip8Error>(st),
                            ));
                        }
                        Ok(st)
                    },
                }
            },
        }
    }
}

} // verus!
