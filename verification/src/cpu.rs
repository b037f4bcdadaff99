//! The fetch-decode-execute cycle of the machine.
//!
//! The CPU owns the program counter, index register, call stack, the 16
//! general registers and the wait-for-key state; one call of
//! [`Cpu::execute_instruction`] performs one cycle against the four shared
//! state containers.  The whole effect of a cycle is captured by the
//! relation [`step_holds`] over [`MachineView`] snapshots of the machine.

use rand::Rng;
use vstd::prelude::*;

use crate::display_module::blank_grid;
use crate::display_module::blit_row;
use crate::display_module::row_collision;
use crate::display_module::DisplayModule;
use crate::keyboard_module::KeyboardModule;
use crate::memory::Memory;
use crate::memory::MEM_SIZE;
use crate::timer_module::TimerModule;

verus! {

/// Where execution starts: the first address of the program region.
pub const PC_START: u16 = 0x200;

/// Number of call-stack slots.
pub const STACK_DEPTH: usize = 16;

/// Number of general registers.
pub const NUM_REGS: usize = 16;

/// The address operand of an instruction: its low 12 bits.
pub open spec fn spec_nnn(instr: u16) -> u16 {
    instr & 0x0FFF
}

/// The byte operand of an instruction: its low 8 bits.
pub open spec fn spec_kk(instr: u16) -> u8 {
    (instr & 0x00FF) as u8
}

/// Nibble `k` of an instruction, most significant first (`k` in 0..4).
pub open spec fn spec_nibble(instr: u16, k: int) -> u8 {
    ((instr >> ((12 - 4 * k) as u32)) & 0x000F) as u8
}

/// The 16-bit instruction at `pc`: big-endian, high byte first.
pub open spec fn fetch_instr(mem: Seq<u8>, pc: u16) -> u16 {
    ((mem[pc as int] as u16) << 8) | (mem[pc as int + 1] as u16)
}

/// 8-bit modular addition.
pub open spec fn wrap_add8(a: u8, b: u8) -> u8 {
    ((a + b) % 256) as u8
}

/// 8-bit modular subtraction.
pub open spec fn wrap_sub8(a: u8, b: u8) -> u8 {
    ((a - b + 256) % 256) as u8
}

/// A decoded instruction.  `x` and `y` are register indices taken from
/// the second and third nibble, `kk` the low byte, `nnn` the low 12 bits
/// and `n` the low nibble of the encoding.
#[derive(Clone, Copy, Debug, PartialEq, Eq, Structural)]
pub enum Instr {
    Cls,
    Ret,
    Jp { nnn: u16 },
    Call { nnn: u16 },
    SeImm { x: u8, kk: u8 },
    SneImm { x: u8, kk: u8 },
    SeReg { x: u8, y: u8 },
    LdImm { x: u8, kk: u8 },
    AddImm { x: u8, kk: u8 },
    LdReg { x: u8, y: u8 },
    Or { x: u8, y: u8 },
    And { x: u8, y: u8 },
    Xor { x: u8, y: u8 },
    AddReg { x: u8, y: u8 },
    Sub { x: u8, y: u8 },
    Shr { x: u8 },
    Subn { x: u8, y: u8 },
    Shl { x: u8 },
    SneReg { x: u8, y: u8 },
    LdI { nnn: u16 },
    JpV0 { nnn: u16 },
    Rnd { x: u8, kk: u8 },
    Drw { x: u8, y: u8, n: u8 },
    Skp { x: u8 },
    Sknp { x: u8 },
    LdFromDt { x: u8 },
    LdKey { x: u8 },
    LdToDt { x: u8 },
    LdToSt { x: u8 },
    AddI { x: u8 },
    LdFont { x: u8 },
    Bcd { x: u8 },
    StoreRegs { x: u8 },
    LoadRegs { x: u8 },
    Unsupported,
}

/// Decodes a 16-bit instruction by matching the fixed bit patterns of the
/// instruction set, from the most specific mask to the least.
pub open spec fn decode(instr: u16) -> Instr {
    let x = spec_nibble(instr, 1);
    let y = spec_nibble(instr, 2);
    let n = spec_nibble(instr, 3);
    let kk = spec_kk(instr);
    let nnn = spec_nnn(instr);
    if instr == 0x00E0 {
        Instr::Cls
    } else if instr == 0x00EE {
        Instr::Ret
    } else if instr & 0xF000 == 0x1000 {
        Instr::Jp { nnn }
    } else if instr & 0xF000 == 0x2000 {
        Instr::Call { nnn }
    } else if instr & 0xF000 == 0x3000 {
        Instr::SeImm { x, kk }
    } else if instr & 0xF000 == 0x4000 {
        Instr::SneImm { x, kk }
    } else if instr & 0xF00F == 0x5000 {
        Instr::SeReg { x, y }
    } else if instr & 0xF000 == 0x6000 {
        Instr::LdImm { x, kk }
    } else if instr & 0xF000 == 0x7000 {
        Instr::AddImm { x, kk }
    } else if instr & 0xF00F == 0x8000 {
        Instr::LdReg { x, y }
    } else if instr & 0xF00F == 0x8001 {
        Instr::Or { x, y }
    } else if instr & 0xF00F == 0x8002 {
        Instr::And { x, y }
    } else if instr & 0xF00F == 0x8003 {
        Instr::Xor { x, y }
    } else if instr & 0xF00F == 0x8004 {
        Instr::AddReg { x, y }
    } else if instr & 0xF00F == 0x8005 {
        Instr::Sub { x, y }
    } else if instr & 0xF00F == 0x8006 {
        Instr::Shr { x }
    } else if instr & 0xF00F == 0x8007 {
        Instr::Subn { x, y }
    } else if instr & 0xF00F == 0x800E {
        Instr::Shl { x }
    } else if instr & 0xF00F == 0x9000 {
        Instr::SneReg { x, y }
    } else if instr & 0xF000 == 0xA000 {
        Instr::LdI { nnn }
    } else if instr & 0xF000 == 0xB000 {
        Instr::JpV0 { nnn }
    } else if instr & 0xF000 == 0xC000 {
        Instr::Rnd { x, kk }
    } else if instr & 0xF000 == 0xD000 {
        Instr::Drw { x, y, n }
    } else if instr & 0xF0FF == 0xE09E {
        Instr::Skp { x }
    } else if instr & 0xF0FF == 0xE0A1 {
        Instr::Sknp { x }
    } else if instr & 0xF0FF == 0xF007 {
        Instr::LdFromDt { x }
    } else if instr & 0xF0FF == 0xF00A {
        Instr::LdKey { x }
    } else if instr & 0xF0FF == 0xF015 {
        Instr::LdToDt { x }
    } else if instr & 0xF0FF == 0xF018 {
        Instr::LdToSt { x }
    } else if instr & 0xF0FF == 0xF01E {
        Instr::AddI { x }
    } else if instr & 0xF0FF == 0xF029 {
        Instr::LdFont { x }
    } else if instr & 0xF0FF == 0xF033 {
        Instr::Bcd { x }
    } else if instr & 0xF0FF == 0xF055 {
        Instr::StoreRegs { x }
    } else if instr & 0xF0FF == 0xF065 {
        Instr::LoadRegs { x }
    } else {
        Instr::Unsupported
    }
}

/// What one call of `execute_instruction` reports.
#[derive(Clone, Copy, Debug, PartialEq, Eq, Structural)]
pub enum StepResult {
    /// A defined instruction ran to completion.
    Executed,
    /// The CPU is waiting for a key; nothing was done.
    Waiting,
    /// The fetched bit pattern matches no defined instruction; the program
    /// counter has already advanced past it.
    Unsupported { instr: u16 },
    /// The instruction touched a memory address beyond `0xFFF`.
    MemoryOutOfBounds { addr: u32 },
    /// A skip-on-key instruction named a key code above `0xF`.
    KeyOutOfBounds { key: u8 },
    /// A CALL arrived with the call stack already full.
    StackOverflow,
    /// A RET arrived with the call stack empty.
    StackUnderflow,
}

/// A mathematical snapshot of the whole machine: the CPU's registers, the
/// memory, the display and the timer/keyboard latches.
pub ghost struct MachineView {
    pub pc: u16,
    pub i: u16,
    pub sp: u8,
    pub stack: Seq<u16>,
    pub reg: Seq<u8>,
    pub wait: bool,
    pub key_reg: u8,
    pub mem: Seq<u8>,
    pub grid: Seq<Seq<bool>>,
    pub past: Seq<Seq<Seq<bool>>>,
    pub width: u32,
    pub height: u32,
    pub delay: u8,
    pub sound: u8,
    pub delay_flag: bool,
    pub sound_flag: bool,
    pub keys: Seq<bool>,
}

/// The snapshot of the five components an execution cycle touches.
pub open spec fn snap(
    cpu: Cpu,
    memory: Memory,
    display: DisplayModule,
    timers: TimerModule,
    keyboard: KeyboardModule,
) -> MachineView {
    MachineView {
        pc: cpu.pc,
        i: cpu.i,
        sp: cpu.sp,
        stack: cpu.stack@,
        reg: cpu.reg@,
        wait: cpu.wait,
        key_reg: cpu.key_reg,
        mem: memory.mem@,
        grid: display.grid(),
        past: display.past(),
        width: display.width,
        height: display.height,
        delay: timers.delay_timer,
        sound: timers.sound_timer,
        delay_flag: timers.delay_flag,
        sound_flag: timers.sound_flag,
        keys: keyboard.keys@,
    }
}

/// The display after `rows` consecutive sprite rows are blitted: row `r`
/// is the byte at address `i0 + r`, drawn at `(x, (y + r) mod 256)`.
pub open spec fn draw_rows(
    g: Seq<Seq<bool>>,
    x: u8,
    y: u8,
    mem: Seq<u8>,
    i0: u16,
    rows: int,
    w: int,
    h: int,
) -> Seq<Seq<bool>>
    decreases rows,
{
    if rows <= 0 {
        g
    } else {
        let prev = draw_rows(g, x, y, mem, i0, rows - 1, w, h);
        blit_row(prev, x as int, (y + rows - 1) % 256, mem[i0 + rows - 1], w, h)
    }
}

/// Whether any of the `rows` blits collided: the per-row collision flags
/// are accumulated by logical OR.
pub open spec fn draw_rows_collision(
    g: Seq<Seq<bool>>,
    x: u8,
    y: u8,
    mem: Seq<u8>,
    i0: u16,
    rows: int,
    w: int,
    h: int,
) -> bool
    decreases rows,
{
    if rows <= 0 {
        false
    } else {
        draw_rows_collision(g, x, y, mem, i0, rows - 1, w, h) || row_collision(
            draw_rows(g, x, y, mem, i0, rows - 1, w, h),
            x as int,
            (y + rows - 1) % 256,
            mem[i0 + rows - 1],
            w,
            h,
        )
    }
}

/// The memory after registers `V0..Vx` inclusive are stored from address
/// `i0` on; every other byte keeps its value.
pub open spec fn store_regs_seq(mem: Seq<u8>, reg: Seq<u8>, i0: u16, x: u8) -> Seq<u8> {
    Seq::new(
        mem.len(),
        |a: int|
            if i0 <= a <= i0 + x {
                reg[a - i0]
            } else {
                mem[a]
            },
    )
}

/// The register file after `V0..Vx` inclusive are loaded from address
/// `i0` on; the registers above `Vx` keep their values.
pub open spec fn load_regs_seq(reg: Seq<u8>, mem: Seq<u8>, i0: u16, x: u8) -> Seq<u8> {
    Seq::new(
        reg.len(),
        |j: int|
            if j <= x {
                mem[i0 + j]
            } else {
                reg[j]
            },
    )
}

/// The effect of the decoded instruction `instr` on the machine: `s` is
/// the snapshot right after the fetch (program counter already advanced by
/// two), `post` the snapshot after the cycle, `r` what the cycle reports.
///
/// A fault (stack overflow or underflow, an out-of-range memory address or
/// key code) changes nothing beyond the already-advanced program counter.
/// In the opcodes that write both a result register and the flag register
/// VF, VF is written last, so VF holds the flag even when `x` is `0xF`.
pub open spec fn step_instr(s: MachineView, post: MachineView, instr: u16, r: StepResult) -> bool {
    match decode(instr) {
        Instr::Cls => post == (MachineView {
            grid: blank_grid(s.width as int, s.height as int),
            ..s
        }) && r == StepResult::Executed,
        Instr::Ret => {
            if s.sp == 0 {
                post == s && r == StepResult::StackUnderflow
            } else {
                post == (MachineView { pc: s.stack[s.sp as int], sp: (s.sp - 1) as u8, ..s })
                    && r == StepResult::Executed
            }
        },
        Instr::Jp { nnn } => post == (MachineView { pc: nnn, ..s }) && r == StepResult::Executed,
        Instr::Call { nnn } => {
            if s.sp >= 15 {
                post == s && r == StepResult::StackOverflow
            } else {
                post == (MachineView {
                    pc: nnn,
                    sp: (s.sp + 1) as u8,
                    stack: s.stack.update(s.sp + 1, s.pc),
                    ..s
                }) && r == StepResult::Executed
            }
        },
        Instr::SeImm { x, kk } => post == (MachineView {
            pc: if s.reg[x as int] == kk {
                (s.pc + 2) as u16
            } else {
                s.pc
            },
            ..s
        }) && r == StepResult::Executed,
        Instr::SneImm { x, kk } => post == (MachineView {
            pc: if s.reg[x as int] != kk {
                (s.pc + 2) as u16
            } else {
                s.pc
            },
            ..s
        }) && r == StepResult::Executed,
        Instr::SeReg { x, y } => post == (MachineView {
            pc: if s.reg[x as int] == s.reg[y as int] {
                (s.pc + 2) as u16
            } else {
                s.pc
            },
            ..s
        }) && r == StepResult::Executed,
        Instr::LdImm { x, kk } => post == (MachineView { reg: s.reg.update(x as int, kk), ..s })
            && r == StepResult::Executed,
        Instr::AddImm { x, kk } => post == (MachineView {
            reg: s.reg.update(x as int, wrap_add8(s.reg[x as int], kk)),
            ..s
        }) && r == StepResult::Executed,
        Instr::LdReg { x, y } => post == (MachineView {
            reg: s.reg.update(x as int, s.reg[y as int]),
            ..s
        }) && r == StepResult::Executed,
        Instr::Or { x, y } => post == (MachineView {
            reg: s.reg.update(x as int, s.reg[x as int] | s.reg[y as int]),
            ..s
        }) && r == StepResult::Executed,
        Instr::And { x, y } => post == (MachineView {
            reg: s.reg.update(x as int, s.reg[x as int] & s.reg[y as int]),
            ..s
        }) && r == StepResult::Executed,
        Instr::Xor { x, y } => post == (MachineView {
            reg: s.reg.update(x as int, s.reg[x as int] ^ s.reg[y as int]),
            ..s
        }) && r == StepResult::Executed,
        Instr::AddReg { x, y } => {
            let vx = s.reg[x as int];
            let vy = s.reg[y as int];
            let flag: u8 = if vx + vy > 255 {
                1
            } else {
                0
            };
            post == (MachineView {
                reg: s.reg.update(x as int, wrap_add8(vx, vy)).update(15, flag),
                ..s
            }) && r == StepResult::Executed
        },
        Instr::Sub { x, y } => {
            let vx = s.reg[x as int];
            let vy = s.reg[y as int];
            let flag: u8 = if vx > vy {
                1
            } else {
                0
            };
            post == (MachineView {
                reg: s.reg.update(x as int, wrap_sub8(vx, vy)).update(15, flag),
                ..s
            }) && r == StepResult::Executed
        },
        Instr::Shr { x } => {
            let vx = s.reg[x as int];
            post == (MachineView {
                reg: s.reg.update(x as int, vx >> 1u8).update(15, vx & 1),
                ..s
            }) && r == StepResult::Executed
        },
        Instr::Subn { x, y } => {
            let vx = s.reg[x as int];
            let vy = s.reg[y as int];
            let flag: u8 = if vy > vx {
                1
            } else {
                0
            };
            post == (MachineView {
                reg: s.reg.update(x as int, wrap_sub8(vy, vx)).update(15, flag),
                ..s
            }) && r == StepResult::Executed
        },
        Instr::Shl { x } => {
            let vx = s.reg[x as int];
            post == (MachineView {
                reg: s.reg.update(x as int, vx << 1u8).update(15, (vx >> 7u8) & 1),
                ..s
            }) && r == StepResult::Executed
        },
        Instr::SneReg { x, y } => post == (MachineView {
            pc: if s.reg[x as int] != s.reg[y as int] {
                (s.pc + 2) as u16
            } else {
                s.pc
            },
            ..s
        }) && r == StepResult::Executed,
        Instr::LdI { nnn } => post == (MachineView { i: nnn, ..s }) && r == StepResult::Executed,
        Instr::JpV0 { nnn } => post == (MachineView {
            pc: (s.reg[0] + nnn) as u16,
            ..s
        }) && r == StepResult::Executed,
        Instr::Rnd { x, kk } => (exists|b: u8|
            post == (MachineView { reg: s.reg.update(x as int, #[trigger] (b & kk)), ..s }))
            && r == StepResult::Executed,
        Instr::Drw { x, y, n } => {
            let vx = s.reg[x as int];
            let vy = s.reg[y as int];
            if n > 0 && s.i + n - 1 >= MEM_SIZE {
                post == s && r == (StepResult::MemoryOutOfBounds {
                    addr: (s.i + n - 1) as u32,
                })
            } else {
                let coll = draw_rows_collision(
                    s.grid,
                    vx,
                    vy,
                    s.mem,
                    s.i,
                    n as int,
                    s.width as int,
                    s.height as int,
                );
                post == (MachineView {
                    grid: draw_rows(
                        s.grid,
                        vx,
                        vy,
                        s.mem,
                        s.i,
                        n as int,
                        s.width as int,
                        s.height as int,
                    ),
                    reg: s.reg.update(
                        15,
                        if coll {
                            1u8
                        } else {
                            0u8
                        },
                    ),
                    ..s
                }) && r == StepResult::Executed
            }
        },
        Instr::Skp { x } => {
            let vx = s.reg[x as int];
            if vx >= 16 {
                post == s && r == (StepResult::KeyOutOfBounds { key: vx })
            } else {
                post == (MachineView {
                    pc: if s.keys[vx as int] {
                        (s.pc + 2) as u16
                    } else {
                        s.pc
                    },
                    ..s
                }) && r == StepResult::Executed
            }
        },
        Instr::Sknp { x } => {
            let vx = s.reg[x as int];
            if vx >= 16 {
                post == s && r == (StepResult::KeyOutOfBounds { key: vx })
            } else {
                post == (MachineView {
                    pc: if !s.keys[vx as int] {
                        (s.pc + 2) as u16
                    } else {
                        s.pc
                    },
                    ..s
                }) && r == StepResult::Executed
            }
        },
        Instr::LdFromDt { x } => post == (MachineView {
            reg: s.reg.update(x as int, s.delay),
            ..s
        }) && r == StepResult::Executed,
        Instr::LdKey { x } => post == (MachineView { wait: true, key_reg: x, ..s })
            && r == StepResult::Executed,
        Instr::LdToDt { x } => {
            let vx = s.reg[x as int];
            post == (MachineView {
                delay: vx,
                delay_flag: vx > 0 || s.delay_flag,
                ..s
            }) && r == StepResult::Executed
        },
        Instr::LdToSt { x } => {
            let vx = s.reg[x as int];
            post == (MachineView {
                sound: vx,
                sound_flag: vx > 0 || s.sound_flag,
                ..s
            }) && r == StepResult::Executed
        },
        Instr::AddI { x } => post == (MachineView {
            i: ((s.i + s.reg[x as int]) % 65535) as u16,
            ..s
        }) && r == StepResult::Executed,
        Instr::LdFont { x } => post == (MachineView {
            i: (s.reg[x as int] * 5) as u16,
            ..s
        }) && r == StepResult::Executed,
        Instr::Bcd { x } => {
            let vx = s.reg[x as int];
            if s.i + 2 >= MEM_SIZE {
                post == s && r == (StepResult::MemoryOutOfBounds { addr: (s.i + 2) as u32 })
            } else {
                post == (MachineView {
                    mem: s.mem.update(s.i as int, (vx / 100) as u8).update(
                        s.i + 1,
                        ((vx % 100) / 10) as u8,
                    ).update(s.i + 2, (vx % 10) as u8),
                    ..s
                }) && r == StepResult::Executed
            }
        },
        Instr::StoreRegs { x } => {
            if s.i + x >= MEM_SIZE {
                post == s && r == (StepResult::MemoryOutOfBounds { addr: (s.i + x) as u32 })
            } else {
                post == (MachineView { mem: store_regs_seq(s.mem, s.reg, s.i, x), ..s })
                    && r == StepResult::Executed
            }
        },
        Instr::LoadRegs { x } => {
            if s.i + x >= MEM_SIZE {
                post == s && r == (StepResult::MemoryOutOfBounds { addr: (s.i + x) as u32 })
            } else {
                post == (MachineView { reg: load_regs_seq(s.reg, s.mem, s.i, x), ..s })
                    && r == StepResult::Executed
            }
        },
        Instr::Unsupported => post == s && r == (StepResult::Unsupported { instr }),
    }
}

/// The full contract of one execution cycle, from one machine snapshot to
/// the next.  A waiting CPU does nothing; a program counter too close to
/// the end of memory to hold an instruction is a fault that changes
/// nothing; otherwise the instruction at `pc` is fetched, the program
/// counter advances by two, and the instruction's effect follows
/// [`step_instr`].
pub open spec fn step_holds(pre: MachineView, post: MachineView, r: StepResult) -> bool {
    if pre.wait {
        post == pre && r == StepResult::Waiting
    } else if pre.pc + 1 >= MEM_SIZE {
        post == pre && r == (StepResult::MemoryOutOfBounds { addr: pre.pc as u32 })
    } else {
        step_instr(
            MachineView { pc: (pre.pc + 2) as u16, ..pre },
            post,
            fetch_instr(pre.mem, pre.pc),
            r,
        )
    }
}

/// The CPU: program counter, index register, stack pointer and call
/// stack, the 16 general registers `V0..VF`, and the wait-for-key state.
pub struct Cpu {
    pub pc: u16,
    pub i: u16,
    pub sp: u8,
    pub stack: Vec<u16>,
    pub reg: Vec<u8>,
    pub wait: bool,
    pub key_reg: u8,
}

impl Cpu {
    /// The call stack has 16 slots and the register file 16 registers;
    /// the stack pointer and the awaited-key register index stay in range.
    pub open spec fn wf(&self) -> bool {
        &&& self.stack@.len() == STACK_DEPTH
        &&& self.reg@.len() == NUM_REGS
        &&& self.sp < 16
        &&& self.key_reg < 16
    }

    /// A fresh CPU: execution starts at `0x200` with an empty stack,
    /// zeroed registers and no key wait.
    pub fn new() -> (cpu: Cpu)
        ensures
            cpu.wf(),
            cpu.pc == PC_START,
            cpu.i == 0,
            cpu.sp == 0,
            forall|j: int| 0 <= j < STACK_DEPTH ==> cpu.stack@[j] == 0u16,
            forall|j: int| 0 <= j < NUM_REGS ==> cpu.reg@[j] == 0u8,
            !cpu.wait,
            cpu.key_reg == 0,
    {
        let mut stack: Vec<u16> = Vec::new();
        let mut reg: Vec<u8> = Vec::new();
        let mut j: usize = 0;
        while j < STACK_DEPTH
            invariant
                j <= STACK_DEPTH,
                stack@.len() == j,
                forall|k: int| 0 <= k < j ==> stack@[k] == 0u16,
            decreases STACK_DEPTH - j,
        {
            stack.push(0);
            j = j + 1;
        }
        let mut j: usize = 0;
        while j < NUM_REGS
            invariant
                j <= NUM_REGS,
                reg@.len() == j,
                forall|k: int| 0 <= k < j ==> reg@[k] == 0u8,
            decreases NUM_REGS - j,
        {
            reg.push(0);
            j = j + 1;
        }
        Cpu { pc: PC_START, i: 0, sp: 0, stack, reg, wait: false, key_reg: 0 }
    }

    /// The low 12 bits of an instruction: the address operand.
    pub fn get_nnn(&self, instr: u16) -> (nnn: u16)
        ensures
            nnn == spec_nnn(instr),
            nnn < 4096,
    {
        proof {
            assert(instr & 0x0FFF < 4096) by (bit_vector);
        }
        instr & 0x0FFF
    }

    /// The low byte of an instruction: the immediate operand.
    pub fn get_kk(&self, instr: u16) -> (kk: u8)
        ensures
            kk == spec_kk(instr),
    {
        (instr & 0x00FF) as u8
    }

    /// Nibble `nibble_num` of an instruction, most significant first.
    pub fn get_nibble(&self, instr: u16, nibble_num: u8) -> (nib: u8)
        requires
            nibble_num <= 3,
        ensures
            nib == spec_nibble(instr, nibble_num as int),
            nib < 16,
    {
        let shift_amt: u32 = 12 - 4 * (nibble_num as u32);
        proof {
            let sh = shift_amt;
            assert((((instr >> sh) & 0x000F) as u8) < 16) by (bit_vector);
        }
        ((instr >> shift_amt) & 0x000F) as u8
    }

    /// Whether the CPU is in the wait-for-key state.
    pub fn get_wait(&self) -> (w: bool)
        ensures
            w == self.wait,
    {
        self.wait
    }

    /// One fetch-decode-execute cycle against the shared state containers.
    ///
    /// A waiting CPU does nothing and reports so.  Otherwise the two
    /// instruction bytes at `pc` are fetched big-endian, `pc` advances by
    /// two before dispatch, and the decoded instruction is executed.  The
    /// whole effect is pinned down by [`step_holds`] over machine
    /// snapshots.  Faults — an unknown bit pattern, a stack overflow or
    /// underflow, an out-of-range memory address or key code — are
    /// reported in the result and change nothing beyond the already
    /// advanced program counter.
    pub fn execute_instruction(
        &mut self,
        memory: &mut Memory,
        display_module: &mut DisplayModule,
        timer_module: &mut TimerModule,
        keyboard_module: &mut KeyboardModule,
    ) -> (r: StepResult)
        requires
            old(self).wf(),
            old(memory).wf(),
            old(display_module).wf(),
            old(keyboard_module).wf(),
        ensures
            final(self).wf(),
            final(memory).wf(),
            final(display_module).wf(),
            final(keyboard_module).wf(),
            step_holds(
                snap(
                    *old(self),
                    *old(memory),
                    *old(display_module),
                    *old(timer_module),
                    *old(keyboard_module),
                ),
                snap(
                    *final(self),
                    *final(memory),
                    *final(display_module),
                    *final(timer_module),
                    *final(keyboard_module),
                ),
                r,
            ),
    {
        if self.wait {
            return StepResult::Waiting;
        }
        let pc = self.pc;
        if pc as usize + 1 >= MEM_SIZE {
            return StepResult::MemoryOutOfBounds { addr: pc as u32 };
        }
        let hi = memory.get_memory(pc);
        let lo = memory.get_memory(pc + 1);
        let instr: u16 = ((hi as u16) << 8) | (lo as u16);
        self.pc = pc + 2;
        let ghost s = snap(*self, *memory, *display_module, *timer_module, *keyboard_module);
        let result: StepResult;
        if instr == 0x00E0 {
            // 00E0 - CLS
            display_module.clear();
            result = StepResult::Executed;
        } else if instr == 0x00EE {
            // 00EE - RET
            if self.sp == 0 {
                result = StepResult::StackUnderflow;
            } else {
                self.pc = self.stack[self.sp as usize];
                self.sp = self.sp - 1;
                result = StepResult::Executed;
            }
        } else if instr & 0xF000 == 0x1000 {
            // 1nnn - JP addr
            let jp_addr = self.get_nnn(instr);
            self.pc = jp_addr;
            result = StepResult::Executed;
        } else if instr & 0xF000 == 0x2000 {
            // 2nnn - CALL addr
            let call_addr = self.get_nnn(instr);
            if self.sp >= 15 {
                result = StepResult::StackOverflow;
            } else {
                self.sp = self.sp + 1;
                let idx = self.sp as usize;
                self.stack[idx] = self.pc;
                self.pc = call_addr;
                result = StepResult::Executed;
            }
        } else if instr & 0xF000 == 0x3000 {
            // 3xkk - SE Vx, byte
            let se_x = self.get_nibble(instr, 1) as usize;
            let se_kk = self.get_kk(instr);
            if self.reg[se_x] == se_kk {
                self.pc = self.pc + 2;
            }
            result = StepResult::Executed;
        } else if instr & 0xF000 == 0x4000 {
            // 4xkk - SNE Vx, byte
            let sne_x = self.get_nibble(instr, 1) as usize;
            let sne_kk = self.get_kk(instr);
            if self.reg[sne_x] != sne_kk {
                self.pc = self.pc + 2;
            }
            result = StepResult::Executed;
        } else if instr & 0xF00F == 0x5000 {
            // 5xy0 - SE Vx, Vy
            let se_x = self.get_nibble(instr, 1) as usize;
            let se_y = self.get_nibble(instr, 2) as usize;
            if self.reg[se_x] == self.reg[se_y] {
                self.pc = self.pc + 2;
            }
            result = StepResult::Executed;
        } else if instr & 0xF000 == 0x6000 {
            // 6xkk - LD Vx, byte
            let ld_x = self.get_nibble(instr, 1) as usize;
            let ld_kk = self.get_kk(instr);
            self.reg[ld_x] = ld_kk;
            result = StepResult::Executed;
        } else if instr & 0xF000 == 0x7000 {
            // 7xkk - ADD Vx, byte
            let add_x = self.get_nibble(instr, 1) as usize;
            let add_kk = self.get_kk(instr);
            let sum: u16 = self.reg[add_x] as u16 + add_kk as u16;
            self.reg[add_x] = (sum % 256) as u8;
            result = StepResult::Executed;
        } else if instr & 0xF00F == 0x8000 {
            // 8xy0 - LD Vx, Vy
            let ld_x = self.get_nibble(instr, 1) as usize;
            let ld_y = self.get_nibble(instr, 2) as usize;
            self.reg[ld_x] = self.reg[ld_y];
            result = StepResult::Executed;
        } else if instr & 0xF00F == 0x8001 {
            // 8xy1 - OR Vx, Vy
            let or_x = self.get_nibble(instr, 1) as usize;
            let or_y = self.get_nibble(instr, 2) as usize;
            self.reg[or_x] = self.reg[or_x] | self.reg[or_y];
            result = StepResult::Executed;
        } else if instr & 0xF00F == 0x8002 {
            // 8xy2 - AND Vx, Vy
            let and_x = self.get_nibble(instr, 1) as usize;
            let and_y = self.get_nibble(instr, 2) as usize;
            self.reg[and_x] = self.reg[and_x] & self.reg[and_y];
            result = StepResult::Executed;
        } else if instr & 0xF00F == 0x8003 {
            // 8xy3 - XOR Vx, Vy
            let xor_x = self.get_nibble(instr, 1) as usize;
            let xor_y = self.get_nibble(instr, 2) as usize;
            self.reg[xor_x] = self.reg[xor_x] ^ self.reg[xor_y];
            result = StepResult::Executed;
        } else if instr & 0xF00F == 0x8004 {
            // 8xy4 - ADD Vx, Vy; VF is the carry, written last
            let add_x = self.get_nibble(instr, 1) as usize;
            let add_y = self.get_nibble(instr, 2) as usize;
            let vx = self.reg[add_x];
            let vy = self.reg[add_y];
            let sum: u16 = vx as u16 + vy as u16;
            let flag: u8 = if sum > 0xFF {
                1
            } else {
                0
            };
            self.reg[add_x] = (sum % 256) as u8;
            self.reg[15] = flag;
            result = StepResult::Executed;
        } else if instr & 0xF00F == 0x8005 {
            // 8xy5 - SUB Vx, Vy; VF says whether no borrow occurred
            let sub_x = self.get_nibble(instr, 1) as usize;
            let sub_y = self.get_nibble(instr, 2) as usize;
            let vx = self.reg[sub_x];
            let vy = self.reg[sub_y];
            let flag: u8 = if vx > vy {
                1
            } else {
                0
            };
            let diff: u16 = (vx as u16 + 256 - vy as u16) % 256;
            self.reg[sub_x] = diff as u8;
            self.reg[15] = flag;
            result = StepResult::Executed;
        } else if instr & 0xF00F == 0x8006 {
            // 8xy6 - SHR Vx; VF takes the bit shifted out
            let shr_x = self.get_nibble(instr, 1) as usize;
            let vx = self.reg[shr_x];
            self.reg[shr_x] = vx >> 1u8;
            self.reg[15] = vx & 1;
            result = StepResult::Executed;
        } else if instr & 0xF00F == 0x8007 {
            // 8xy7 - SUBN Vx, Vy
            let subn_x = self.get_nibble(instr, 1) as usize;
            let subn_y = self.get_nibble(instr, 2) as usize;
            let vx = self.reg[subn_x];
            let vy = self.reg[subn_y];
            let flag: u8 = if vy > vx {
                1
            } else {
                0
            };
            let diff: u16 = (vy as u16 + 256 - vx as u16) % 256;
            self.reg[subn_x] = diff as u8;
            self.reg[15] = flag;
            result = StepResult::Executed;
        } else if instr & 0xF00F == 0x800E {
            // 8xyE - SHL Vx; VF takes the bit shifted out
            let shl_x = self.get_nibble(instr, 1) as usize;
            let vx = self.reg[shl_x];
            self.reg[shl_x] = vx << 1u8;
            self.reg[15] = (vx >> 7u8) & 1;
            result = StepResult::Executed;
        } else if instr & 0xF00F == 0x9000 {
            // 9xy0 - SNE Vx, Vy
            let sne_x = self.get_nibble(instr, 1) as usize;
            let sne_y = self.get_nibble(instr, 2) as usize;
            if self.reg[sne_x] != self.reg[sne_y] {
                self.pc = self.pc + 2;
            }
            result = StepResult::Executed;
        } else if instr & 0xF000 == 0xA000 {
            // Annn - LD I, addr
            let ld_i_nnn = self.get_nnn(instr);
            self.i = ld_i_nnn;
            result = StepResult::Executed;
        } else if instr & 0xF000 == 0xB000 {
            // Bnnn - JP V0, addr
            let ld_nnn = self.get_nnn(instr);
            self.pc = self.reg[0] as u16 + ld_nnn;
            result = StepResult::Executed;
        } else if instr & 0xF000 == 0xC000 {
            // Cxkk - RND Vx, byte
            let rnd_x = self.get_nibble(instr, 1) as usize;
            let rnd_kk = self.get_kk(instr);
            let rnd_num: u8 = random_byte();
            self.reg[rnd_x] = rnd_num & rnd_kk;
            result = StepResult::Executed;
        } else if instr & 0xF000 == 0xD000 {
            // Dxyn - DRW Vx, Vy, nibble
            let drw_x = self.get_nibble(instr, 1) as usize;
            let drw_y = self.get_nibble(instr, 2) as usize;
            let drw_n = self.get_nibble(instr, 3);
            let vx = self.reg[drw_x];
            let vy = self.reg[drw_y];
            if drw_n > 0 && (self.i as u32) + (drw_n as u32) - 1 >= MEM_SIZE as u32 {
                result = StepResult::MemoryOutOfBounds {
                    addr: (self.i as u32) + (drw_n as u32) - 1,
                };
            } else {
                let collision = draw_rows_exec(display_module, memory, vx, vy, self.i, drw_n);
                self.reg[15] = if collision {
                    1
                } else {
                    0
                };
                result = StepResult::Executed;
            }
        } else if instr & 0xF0FF == 0xE09E {
            // Ex9E - SKP Vx
            let skp_x = self.get_nibble(instr, 1) as usize;
            let vx = self.reg[skp_x];
            if vx >= 16 {
                result = StepResult::KeyOutOfBounds { key: vx };
            } else {
                if keyboard_module.get_key(vx) {
                    self.pc = self.pc + 2;
                }
                result = StepResult::Executed;
            }
        } else if instr & 0xF0FF == 0xE0A1 {
            // ExA1 - SKNP Vx
            let sknp_x = self.get_nibble(instr, 1) as usize;
            let vx = self.reg[sknp_x];
            if vx >= 16 {
                result = StepResult::KeyOutOfBounds { key: vx };
            } else {
                if !keyboard_module.get_key(vx) {
                    self.pc = self.pc + 2;
                }
                result = StepResult::Executed;
            }
        } else if instr & 0xF0FF == 0xF007 {
            // Fx07 - LD Vx, DT
            let ld_x = self.get_nibble(instr, 1) as usize;
            self.reg[ld_x] = timer_module.get_delay_register();
            result = StepResult::Executed;
        } else if instr & 0xF0FF == 0xF00A {
            // Fx0A - LD Vx, K: freeze until a key press is delivered
            let ld_x = self.get_nibble(instr, 1);
            self.wait = true;
            self.key_reg = ld_x;
            result = StepResult::Executed;
        } else if instr & 0xF0FF == 0xF015 {
            // Fx15 - LD DT, Vx
            let ld_dt_x = self.get_nibble(instr, 1) as usize;
            timer_module.set_delay_register(self.reg[ld_dt_x]);
            result = StepResult::Executed;
        } else if instr & 0xF0FF == 0xF018 {
            // Fx18 - LD ST, Vx
            let ld_st_x = self.get_nibble(instr, 1) as usize;
            timer_module.set_sound_register(self.reg[ld_st_x]);
            result = StepResult::Executed;
        } else if instr & 0xF0FF == 0xF01E {
            // Fx1E - ADD I, Vx (modulo 65535, as the instruction set fixes)
            let add_i_x = self.get_nibble(instr, 1) as usize;
            let sum: u32 = self.i as u32 + self.reg[add_i_x] as u32;
            self.i = (sum % 65535) as u16;
            result = StepResult::Executed;
        } else if instr & 0xF0FF == 0xF029 {
            // Fx29 - LD F, Vx: the font glyph of digit Vx sits at Vx * 5
            let ld_x = self.get_nibble(instr, 1) as usize;
            self.i = self.reg[ld_x] as u16 * 5;
            result = StepResult::Executed;
        } else if instr & 0xF0FF == 0xF033 {
            // Fx33 - LD B, Vx: BCD digits of Vx into memory[I..I+3]
            let ld_x = self.get_nibble(instr, 1) as usize;
            if (self.i as u32) + 2 >= MEM_SIZE as u32 {
                result = StepResult::MemoryOutOfBounds { addr: (self.i as u32) + 2 };
            } else {
                let vx = self.reg[ld_x];
                memory.set_memory(self.i, vx / 100);
                memory.set_memory(self.i + 1, (vx % 100) / 10);
                memory.set_memory(self.i + 2, vx % 10);
                result = StepResult::Executed;
            }
        } else if instr & 0xF0FF == 0xF055 {
            // Fx55 - LD [I], Vx: store V0..Vx from address I on
            let ld_x = self.get_nibble(instr, 1);
            if (self.i as u32) + (ld_x as u32) >= MEM_SIZE as u32 {
                result = StepResult::MemoryOutOfBounds {
                    addr: (self.i as u32) + (ld_x as u32),
                };
            } else {
                store_regs(memory, &self.reg, self.i, ld_x);
                result = StepResult::Executed;
            }
        } else if instr & 0xF0FF == 0xF065 {
            // Fx65 - LD Vx, [I]: load V0..Vx from address I on
            let ld_x = self.get_nibble(instr, 1);
            if (self.i as u32) + (ld_x as u32) >= MEM_SIZE as u32 {
                result = StepResult::MemoryOutOfBounds {
                    addr: (self.i as u32) + (ld_x as u32),
                };
            } else {
                self.load_regs(memory, ld_x);
                result = StepResult::Executed;
            }
        } else {
            result = StepResult::Unsupported { instr };
        }
        result
    }

    /// Delivers a pressed key to a waiting CPU: the key value is written
    /// into the register chosen by the wait instruction and execution
    /// resumes on the next cycle.
    pub fn key_press(&mut self, val: u8)
        requires
            old(self).wf(),
        ensures
            final(self).wf(),
            !final(self).wait,
            final(self).reg@ == old(self).reg@.update(old(self).key_reg as int, val),
            final(self).pc == old(self).pc,
            final(self).i == old(self).i,
            final(self).sp == old(self).sp,
            final(self).stack@ == old(self).stack@,
            final(self).key_reg == old(self).key_reg,
    {
        self.wait = false;
        let idx = self.key_reg as usize;
        self.reg[idx] = val;
    }
}

/// Relies on `rand::thread_rng` and `rand::Rng::gen`: a fresh random byte.
/// Nothing is assumed of its value.
#[verifier::external_body]
fn random_byte() -> u8 {
    rand::thread_rng().gen()
}

impl Cpu {
    /// Loads registers `V0..Vx` inclusive from memory starting at the
    /// index register; the registers above `Vx` keep their values.
    fn load_regs(&mut self, memory: &Memory, x: u8)
        requires
            old(self).wf(),
            memory.wf(),
            x < 16,
            old(self).i + x < MEM_SIZE,
        ensures
            final(self).wf(),
            final(self).reg@ == load_regs_seq(old(self).reg@, memory.mem@, old(self).i, x),
            final(self).pc == old(self).pc,
            final(self).i == old(self).i,
            final(self).sp == old(self).sp,
            final(self).stack@ == old(self).stack@,
            final(self).wait == old(self).wait,
            final(self).key_reg == old(self).key_reg,
    {
        let i0 = self.i;
        let mut k: usize = 0;
        while k < x as usize + 1
            invariant
                k <= x + 1,
                x < 16,
                i0 == old(self).i,
                i0 + x < MEM_SIZE,
                memory.wf(),
                self.wf(),
                self.pc == old(self).pc,
                self.i == old(self).i,
                self.sp == old(self).sp,
                self.stack@ == old(self).stack@,
                self.wait == old(self).wait,
                self.key_reg == old(self).key_reg,
                forall|j: int| 0 <= j < k ==> self.reg@[j] == memory.mem@[i0 + j],
                forall|j: int| k <= j < NUM_REGS ==> self.reg@[j] == old(self).reg@[j],
            decreases x + 1 - k,
        {
            let v = memory.get_memory(i0 + (k as u16));
            self.reg[k] = v;
            k = k + 1;
        }
        proof {
            assert(self.reg@ =~= load_regs_seq(old(self).reg@, memory.mem@, old(self).i, x));
        }
    }
}

/// Blits `rows` consecutive sprite rows from memory starting at `i0` at
/// screen position `(x, y)`, row `r` landing at `(x, (y + r) mod 256)`,
/// and reports whether any row collided.
fn draw_rows_exec(
    display: &mut DisplayModule,
    memory: &Memory,
    x: u8,
    y: u8,
    i0: u16,
    rows: u8,
) -> (collision: bool)
    requires
        old(display).wf(),
        memory.wf(),
        rows > 0 ==> i0 + rows - 1 < MEM_SIZE,
    ensures
        final(display).wf(),
        final(display).width == old(display).width,
        final(display).height == old(display).height,
        final(display).past() == old(display).past(),
        final(display).grid() == draw_rows(
            old(display).grid(),
            x,
            y,
            memory.mem@,
            i0,
            rows as int,
            old(display).width as int,
            old(display).height as int,
        ),
        collision == draw_rows_collision(
            old(display).grid(),
            x,
            y,
            memory.mem@,
            i0,
            rows as int,
            old(display).width as int,
            old(display).height as int,
        ),
{
    let mut collision = false;
    let mut r: u8 = 0;
    while r < rows
        invariant
            r <= rows,
            rows > 0 ==> i0 + rows - 1 < MEM_SIZE,
            display.wf(),
            memory.wf(),
            display.width == old(display).width,
            display.height == old(display).height,
            display.past() == old(display).past(),
            display.grid() == draw_rows(
                old(display).grid(),
                x,
                y,
                memory.mem@,
                i0,
                r as int,
                old(display).width as int,
                old(display).height as int,
            ),
            collision == draw_rows_collision(
                old(display).grid(),
                x,
                y,
                memory.mem@,
                i0,
                r as int,
                old(display).width as int,
                old(display).height as int,
            ),
        decreases rows - r,
    {
        let yr: u8 = (((y as u16) + (r as u16)) % 256) as u8;
        let addr: u16 = i0 + (r as u16);
        let c = display.draw_sprite(x, yr, addr, memory);
        if c {
            collision = true;
        }
        r = r + 1;
    }
    collision
}

/// The nibble operands of an instruction are register indices below 16.
pub proof fn lemma_nibble_range(instr: u16)
    ensures
        spec_nibble(instr, 0) < 16,
        spec_nibble(instr, 1) < 16,
        spec_nibble(instr, 2) < 16,
        spec_nibble(instr, 3) < 16,
{
    assert((((instr >> 12u32) & 0x000F) as u8) < 16 && (((instr >> 8u32) & 0x000F) as u8) < 16
        && (((instr >> 4u32) & 0x000F) as u8) < 16 && (((instr >> 0u32) & 0x000F) as u8)
        < 16) by (bit_vector);
    assert(spec_nibble(instr, 0) == (((instr >> 12u32) & 0x000F) as u8));
    assert(spec_nibble(instr, 1) == (((instr >> 8u32) & 0x000F) as u8));
    assert(spec_nibble(instr, 2) == (((instr >> 4u32) & 0x000F) as u8));
    assert(spec_nibble(instr, 3) == (((instr >> 0u32) & 0x000F) as u8));
}

/// ADD Vx,kk (7xkk) wraps modulo 256 and never records a carry: after the
/// opcode every register other than Vx — the flag register VF included,
/// whenever `x != 0xF` — keeps its value.
pub proof fn law_add_imm_no_carry(
    pre: MachineView,
    post: MachineView,
    r: StepResult,
    x: u8,
    kk: u8,
)
    requires
        !pre.wait,
        pre.pc + 1 < MEM_SIZE,
        pre.reg.len() == NUM_REGS,
        decode(fetch_instr(pre.mem, pre.pc)) == (Instr::AddImm { x, kk }),
        step_holds(pre, post, r),
    ensures
        r == StepResult::Executed,
        x < 16,
        post.reg.len() == NUM_REGS,
        post.reg[x as int] == ((pre.reg[x as int] + kk) % 256) as u8,
        forall|j: int| 0 <= j < NUM_REGS && j != x ==> post.reg[j] == pre.reg[j],
{
    lemma_nibble_range(fetch_instr(pre.mem, pre.pc));
}

/// 8xy4 records in VF exactly whether `Vx + Vy` exceeded 255, storing the
/// modular sum in Vx; VF is written after the sum, so it holds the carry
/// even when `x` is `0xF`.
pub proof fn law_add_reg_carry(
    pre: MachineView,
    post: MachineView,
    r: StepResult,
    x: u8,
    y: u8,
)
    requires
        !pre.wait,
        pre.pc + 1 < MEM_SIZE,
        pre.reg.len() == NUM_REGS,
        decode(fetch_instr(pre.mem, pre.pc)) == (Instr::AddReg { x, y }),
        step_holds(pre, post, r),
    ensures
        r == StepResult::Executed,
        x < 16,
        y < 16,
        post.reg.len() == NUM_REGS,
        post.reg[15] == (if pre.reg[x as int] + pre.reg[y as int] > 255 {
            1u8
        } else {
            0u8
        }),
        x != 15 ==> post.reg[x as int] == ((pre.reg[x as int] + pre.reg[y as int]) % 256) as u8,
{
    lemma_nibble_range(fetch_instr(pre.mem, pre.pc));
}

/// 8xy5 records in VF exactly whether `Vx > Vy` held before the
/// subtraction, storing the wrapping difference in Vx; VF is written
/// after the difference, so it holds the flag even when `x` is `0xF`.
pub proof fn law_sub_borrow(pre: MachineView, post: MachineView, r: StepResult, x: u8, y: u8)
    requires
        !pre.wait,
        pre.pc + 1 < MEM_SIZE,
        pre.reg.len() == NUM_REGS,
        decode(fetch_instr(pre.mem, pre.pc)) == (Instr::Sub { x, y }),
        step_holds(pre, post, r),
    ensures
        r == StepResult::Executed,
        x < 16,
        y < 16,
        post.reg.len() == NUM_REGS,
        post.reg[15] == (if pre.reg[x as int] > pre.reg[y as int] {
            1u8
        } else {
            0u8
        }),
        x != 15 ==> post.reg[x as int] == wrap_sub8(pre.reg[x as int], pre.reg[y as int]),
{
    lemma_nibble_range(fetch_instr(pre.mem, pre.pc));
}

/// CLS yields the all-off buffer that a freshly allocated display starts
/// with, whatever sequence of draws came before: the cleared buffer does
/// not depend on the prior machine state.
pub proof fn law_cls_restores_initial_buffer(pre: MachineView, post: MachineView, r: StepResult)
    requires
        !pre.wait,
        pre.pc + 1 < MEM_SIZE,
        decode(fetch_instr(pre.mem, pre.pc)) == Instr::Cls,
        step_holds(pre, post, r),
    ensures
        r == StepResult::Executed,
        post.grid == blank_grid(pre.width as int, pre.height as int),
        forall|c: int, row: int|
            0 <= c < pre.width && 0 <= row < pre.height ==> !post.grid[c][row],
{
}

/// A CALL immediately followed by RET resumes at the instruction after
/// the CALL, with the stack pointer back at its pre-CALL value.  Stated
/// for a call stack with room: a CALL on a full stack faults and pushes
/// nothing.
pub proof fn law_call_ret(
    pre: MachineView,
    mid: MachineView,
    post: MachineView,
    r1: StepResult,
    r2: StepResult,
    nnn: u16,
)
    requires
        !pre.wait,
        pre.pc + 1 < MEM_SIZE,
        pre.sp < 15,
        pre.stack.len() == STACK_DEPTH,
        decode(fetch_instr(pre.mem, pre.pc)) == (Instr::Call { nnn }),
        step_holds(pre, mid, r1),
        nnn + 1 < MEM_SIZE,
        decode(fetch_instr(mid.mem, mid.pc)) == Instr::Ret,
        step_holds(mid, post, r2),
    ensures
        r1 == StepResult::Executed,
        r2 == StepResult::Executed,
        post.pc == pre.pc + 2,
        post.sp == pre.sp,
{
}

/// Stores registers `V0..Vx` inclusive into memory from address `i0` on.
fn store_regs(memory: &mut Memory, reg: &Vec<u8>, i0: u16, x: u8)
    requires
        old(memory).wf(),
        reg@.len() == NUM_REGS,
        x < 16,
        i0 + x < MEM_SIZE,
    ensures
        final(memory).wf(),
        final(memory).mem@ == store_regs_seq(old(memory).mem@, reg@, i0, x),
{
    let mut k: usize = 0;
    while k < x as usize + 1
        invariant
            k <= x + 1,
            x < 16,
            i0 + x < MEM_SIZE,
            reg@.len() == NUM_REGS,
            memory.wf(),
            forall|a: int|
                0 <= a < MEM_SIZE && !(i0 <= a < i0 + k) ==> memory.mem@[a] == old(
                    memory,
                ).mem@[a],
            forall|a: int| i0 <= a < i0 + k ==> memory.mem@[a] == reg@[a - i0],
        decreases x + 1 - k,
    {
        memory.set_memory(i0 + (k as u16), reg[k]);
        k = k + 1;
    }
    proof {
        assert(memory.mem@ =~= store_regs_seq(old(memory).mem@, reg@, i0, x));
    }
}

} // verus!
