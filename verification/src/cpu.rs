//! Instruction-execution engine.
//!
//! The engine owns 16 general-purpose 8-bit registers, a 16-bit address
//! register, a program counter and a call-return stack. Each invocation of
//! [`Cpu::run_instruction`] fetches one big-endian instruction word at the
//! program counter, decodes it, and executes it against memory, the delay
//! timer, the framebuffer and the key latch. The whole cycle is specified by
//! the pure functions [`decode`] and [`step`] below.

use vstd::prelude::*;

use crate::clock::elapsed_ms;
use crate::keyboard::Keyboard;
use crate::ram::MEMORY_SIZE;
use crate::ram::ROM_START_ADDRESS;
use crate::ram::Ram;
use crate::screen::SCREEN_SIZE;
use crate::screen::Screen;
use crate::screen::draw_row_spec;
use crate::timer::Timer;
use crate::timer::TimerView;
use crate::timer::timer_value;

verus! {

/// Number of general-purpose registers.
pub const NUM_REGISTERS: usize = 16;

/// The register that receives carry, borrow, shifted-out and collision
/// flags.
pub const FLAG_REGISTER: usize = 15;

/// Minimum milliseconds between two instruction steps.
pub const MIN_INSTRUCTION_INTERVAL_MS: u64 = 2;

/// One decoded instruction. Operand conventions: `nnn` is the 12-bit
/// address literal, `nn` the 8-bit immediate, `n` a 4-bit count, `x` and
/// `y` 4-bit register selectors.
#[derive(Clone, Copy, PartialEq, Eq, Debug)]
pub enum Instr {
    /// 00E0: clear the screen.
    ClearScreen,
    /// 00EE: return from a subroutine.
    Ret,
    /// 1nnn: jump.
    Jump { nnn: u16 },
    /// 2nnn: call a subroutine.
    Call { nnn: u16 },
    /// 3xnn: skip the next instruction if `v[x] == nn`.
    SkipEqImm { x: u8, nn: u8 },
    /// 4xnn: skip the next instruction if `v[x] != nn`.
    SkipNeImm { x: u8, nn: u8 },
    /// 5xy0: skip the next instruction if `v[x] == v[y]`.
    SkipEqReg { x: u8, y: u8 },
    /// 6xnn: set `v[x] = nn`.
    LoadImm { x: u8, nn: u8 },
    /// 7xnn: set `v[x] = v[x] + nn`, wrapping, no flag.
    AddImm { x: u8, nn: u8 },
    /// 8xy0: copy `v[y]` into `v[x]`.
    Copy { x: u8, y: u8 },
    /// 8xy1: bitwise or, flag untouched.
    Or { x: u8, y: u8 },
    /// 8xy2: bitwise and, flag untouched.
    And { x: u8, y: u8 },
    /// 8xy3: bitwise xor, flag untouched.
    Xor { x: u8, y: u8 },
    /// 8xy4: add with carry flag.
    AddReg { x: u8, y: u8 },
    /// 8xy5: `v[x] - v[y]` with inverse-borrow flag.
    SubReg { x: u8, y: u8 },
    /// 8xy6: shift right, flag takes the old least significant bit.
    ShiftRight { x: u8 },
    /// 8xy7: `v[y] - v[x]` with inverse-borrow flag.
    SubFrom { x: u8, y: u8 },
    /// 8xyE: shift left, flag takes the old most significant bit.
    ShiftLeft { x: u8 },
    /// 9xy0: skip the next instruction if `v[x] != v[y]`.
    SkipNeReg { x: u8, y: u8 },
    /// Annn: set the address register.
    LoadI { nnn: u16 },
    /// Bnnn: jump to `nnn + v[0]`, unmasked 16-bit arithmetic.
    JumpOffset { nnn: u16 },
    /// Cxnn: random byte masked by `nn`.
    Random { x: u8, nn: u8 },
    /// Dxyn: draw an `n`-row sprite from memory at the address register at
    /// `(v[x], v[y])`; the flag reports a collision.
    Draw { x: u8, y: u8, n: u8 },
    /// Ex9E: skip if the key `v[x]` is pressed.
    SkipIfKey { x: u8 },
    /// ExA1: skip if the key `v[x]` is not pressed.
    SkipIfNotKey { x: u8 },
    /// Fx07: read the derived delay value into `v[x]`.
    ReadDelay { x: u8 },
    /// Fx0A: wait for a key; without one the program counter is not
    /// advanced, so the instruction repeats.
    WaitKey { x: u8 },
    /// Fx15: set the delay timer from `v[x]`.
    SetDelay { x: u8 },
    /// Fx18: set the sound timer; accepted but without observable effect.
    SetSound { x: u8 },
    /// Fx1E: add `v[x]` to the address register, unmasked.
    AddToI { x: u8 },
    /// Fx29: point the address register at the glyph sprite of digit
    /// `v[x]`.
    GlyphAddr { x: u8 },
    /// Fx33: write the decimal digits of `v[x]` to memory at the address
    /// register.
    StoreBcd { x: u8 },
    /// Fx55: store `v[0]` through `v[x]`, inclusive, to memory.
    StoreRegs { x: u8 },
    /// Fx65: load `v[0]` through `v[x]`, inclusive, from memory.
    LoadRegs { x: u8 },
}

/// Decodes one instruction word by its family (top 4 bits) and secondary
/// selectors (low byte, low 4 bits); `None` is a fatal invalid encoding.
pub open spec fn decode(w: u16) -> Option<Instr> {
    let family = (w & 0xF000) >> 12;
    let nnn = w & 0x0FFF;
    let nn = (w & 0x00FF) as u8;
    let n = (w & 0x000F) as u8;
    let x = ((w & 0x0F00) >> 8) as u8;
    let y = ((w & 0x00F0) >> 4) as u8;
    if family == 0x0 && nn == 0xE0 {
        Some(Instr::ClearScreen)
    } else if family == 0x0 && nn == 0xEE {
        Some(Instr::Ret)
    } else if family == 0x1 {
        Some(Instr::Jump { nnn })
    } else if family == 0x2 {
        Some(Instr::Call { nnn })
    } else if family == 0x3 {
        Some(Instr::SkipEqImm { x, nn })
    } else if family == 0x4 {
        Some(Instr::SkipNeImm { x, nn })
    } else if family == 0x5 && n == 0x0 {
        Some(Instr::SkipEqReg { x, y })
    } else if family == 0x6 {
        Some(Instr::LoadImm { x, nn })
    } else if family == 0x7 {
        Some(Instr::AddImm { x, nn })
    } else if family == 0x8 && n == 0x0 {
        Some(Instr::Copy { x, y })
    } else if family == 0x8 && n == 0x1 {
        Some(Instr::Or { x, y })
    } else if family == 0x8 && n == 0x2 {
        Some(Instr::And { x, y })
    } else if family == 0x8 && n == 0x3 {
        Some(Instr::Xor { x, y })
    } else if family == 0x8 && n == 0x4 {
        Some(Instr::AddReg { x, y })
    } else if family == 0x8 && n == 0x5 {
        Some(Instr::SubReg { x, y })
    } else if family == 0x8 && n == 0x6 {
        Some(Instr::ShiftRight { x })
    } else if family == 0x8 && n == 0x7 {
        Some(Instr::SubFrom { x, y })
    } else if family == 0x8 && n == 0xE {
        Some(Instr::ShiftLeft { x })
    } else if family == 0x9 && n == 0x0 {
        Some(Instr::SkipNeReg { x, y })
    } else if family == 0xA {
        Some(Instr::LoadI { nnn })
    } else if family == 0xB {
        Some(Instr::JumpOffset { nnn })
    } else if family == 0xC {
        Some(Instr::Random { x, nn })
    } else if family == 0xD {
        Some(Instr::Draw { x, y, n })
    } else if family == 0xE && nn == 0x9E {
        Some(Instr::SkipIfKey { x })
    } else if family == 0xE && nn == 0xA1 {
        Some(Instr::SkipIfNotKey { x })
    } else if family == 0xF && nn == 0x07 {
        Some(Instr::ReadDelay { x })
    } else if family == 0xF && nn == 0x0A {
        Some(Instr::WaitKey { x })
    } else if family == 0xF && nn == 0x15 {
        Some(Instr::SetDelay { x })
    } else if family == 0xF && nn == 0x18 {
        Some(Instr::SetSound { x })
    } else if family == 0xF && nn == 0x1E {
        Some(Instr::AddToI { x })
    } else if family == 0xF && nn == 0x29 {
        Some(Instr::GlyphAddr { x })
    } else if family == 0xF && nn == 0x33 {
        Some(Instr::StoreBcd { x })
    } else if family == 0xF && nn == 0x55 {
        Some(Instr::StoreRegs { x })
    } else if family == 0xF && nn == 0x65 {
        Some(Instr::LoadRegs { x })
    } else {
        None
    }
}

/// Operand fields sit inside their 4- or 12-bit ranges.
pub open spec fn instr_wf(ins: Instr) -> bool {
    match ins {
        Instr::Jump { nnn } => nnn < 4096,
        Instr::Call { nnn } => nnn < 4096,
        Instr::SkipEqImm { x, nn } => x < 16,
        Instr::SkipNeImm { x, nn } => x < 16,
        Instr::SkipEqReg { x, y } => x < 16 && y < 16,
        Instr::LoadImm { x, nn } => x < 16,
        Instr::AddImm { x, nn } => x < 16,
        Instr::Copy { x, y } => x < 16 && y < 16,
        Instr::Or { x, y } => x < 16 && y < 16,
        Instr::And { x, y } => x < 16 && y < 16,
        Instr::Xor { x, y } => x < 16 && y < 16,
        Instr::AddReg { x, y } => x < 16 && y < 16,
        Instr::SubReg { x, y } => x < 16 && y < 16,
        Instr::ShiftRight { x } => x < 16,
        Instr::SubFrom { x, y } => x < 16 && y < 16,
        Instr::ShiftLeft { x } => x < 16,
        Instr::SkipNeReg { x, y } => x < 16 && y < 16,
        Instr::LoadI { nnn } => nnn < 4096,
        Instr::JumpOffset { nnn } => nnn < 4096,
        Instr::Random { x, nn } => x < 16,
        Instr::Draw { x, y, n } => x < 16 && y < 16 && n < 16,
        Instr::SkipIfKey { x } => x < 16,
        Instr::SkipIfNotKey { x } => x < 16,
        Instr::ReadDelay { x } => x < 16,
        Instr::WaitKey { x } => x < 16,
        Instr::SetDelay { x } => x < 16,
        Instr::SetSound { x } => x < 16,
        Instr::AddToI { x } => x < 16,
        Instr::GlyphAddr { x } => x < 16,
        Instr::StoreBcd { x } => x < 16,
        Instr::StoreRegs { x } => x < 16,
        Instr::LoadRegs { x } => x < 16,
        _ => true,
    }
}

/// Ranges of the operand fields extracted from an instruction word.
proof fn lemma_operand_bounds(w: u16)
    by (bit_vector)
    ensures
        ((w & 0x0F00) >> 8) < 16,
        ((w & 0x00F0) >> 4) < 16,
        (w & 0x000F) < 16,
        (w & 0x0FFF) < 4096,
{
}

/// Whatever decodes is well formed.
proof fn lemma_decode_wf(w: u16)
    ensures
        match decode(w) {
            Some(ins) => instr_wf(ins),
            None => true,
        },
{
    lemma_operand_bounds(w);
}

/// Result and carry flag of the add-with-carry ALU operation.
pub open spec fn add_with_carry(a: u8, b: u8) -> (u8, u8) {
    (((a + b) % 256) as u8, if a + b > 255 { 1u8 } else { 0u8 })
}

/// Result and inverse-borrow flag of the subtract ALU operation: the flag
/// is 1 exactly when no borrow occurred.
pub open spec fn sub_with_borrow(a: u8, b: u8) -> (u8, u8) {
    if a >= b {
        ((a - b) as u8, 1u8)
    } else {
        ((a - b + 256) as u8, 0u8)
    }
}

/// Result and shifted-out bit of a logical shift right by one.
pub open spec fn shift_right_with_carry(a: u8) -> (u8, u8) {
    ((a / 2) as u8, (a % 2) as u8)
}

/// Result and shifted-out bit of a logical shift left by one.
pub open spec fn shift_left_with_carry(a: u8) -> (u8, u8) {
    (((a * 2) % 256) as u8, (a / 128) as u8)
}

/// Hundreds, tens and ones digits of a byte.
pub open spec fn bcd_digits(value: u8) -> (u8, u8, u8) {
    ((value / 100) as u8, ((value % 100) / 10) as u8, (value % 10) as u8)
}

/// Memory after storing registers 0 through `x`, inclusive, at `i`.
pub open spec fn store_regs(mem: Seq<u8>, v: Seq<u8>, i: int, x: int) -> Seq<u8> {
    Seq::new(mem.len(), |a: int| if i <= a <= i + x { v[a - i] } else { mem[a] })
}

/// Registers after loading 0 through `x`, inclusive, from memory at `i`.
pub open spec fn load_regs(v: Seq<u8>, mem: Seq<u8>, i: int, x: int) -> Seq<u8> {
    Seq::new(v.len(), |j: int| if j <= x { mem[i + j] } else { v[j] })
}

/// Framebuffer and collision flag after drawing the `n`-row sprite stored
/// at memory address `i` at coordinates `(x, y)`, row by row.
pub open spec fn draw_sprite_spec(
    fb: Seq<u8>,
    mem: Seq<u8>,
    i: int,
    x: int,
    y: int,
    n: nat,
) -> (Seq<u8>, bool)
    decreases n,
{
    if n == 0 {
        (fb, false)
    } else {
        let prev = draw_sprite_spec(fb, mem, i, x, y, (n - 1) as nat);
        let row = draw_row_spec(prev.0, mem[i + n - 1], x, y + n - 1);
        (row.0, prev.1 || row.1)
    }
}

/// Mathematical state of a [`Cpu`].
#[verifier::ext_equal]
pub struct CpuView {
    pub v: Seq<u8>,
    pub i: u16,
    pub pc: u16,
    pub stack: Seq<u16>,
    pub last_instruction_ms: u64,
}

/// Everything one instruction step may read or write: the engine registers
/// together with memory, the delay timer and the framebuffer.
#[verifier::ext_equal]
pub struct MachineState {
    pub v: Seq<u8>,
    pub i: u16,
    pub pc: u16,
    pub stack: Seq<u16>,
    pub mem: Seq<u8>,
    pub timer: TimerView,
    pub fb: Seq<u8>,
}

/// Assembles the step-relevant state from its components.
pub open spec fn machine_of(c: CpuView, mem: Seq<u8>, t: TimerView, fb: Seq<u8>) -> MachineState {
    MachineState { v: c.v, i: c.i, pc: c.pc, stack: c.stack, mem, timer: t, fb }
}

/// The instruction word fetched big-endian at the program counter.
pub open spec fn fetch(m: MachineState) -> u16 {
    ((m.mem[m.pc as int] as u16) << 8) | (m.mem[m.pc as int + 1] as u16)
}

/// Whether the next step is free of fatal conditions: the fetch is in
/// bounds, the word decodes, a return has a frame to pop, and address
/// arithmetic and memory transfers stay inside their ranges.
pub open spec fn valid_step(v: Seq<u8>, i: u16, pc: u16, stack: Seq<u16>, mem: Seq<u8>) -> bool {
    let m = MachineState {
        v,
        i,
        pc,
        stack,
        mem,
        timer: TimerView { delay: 0, set_at_ms: 0 },
        fb: Seq::empty(),
    };
    &&& pc as int + 1 < MEMORY_SIZE
    &&& match decode(fetch(m)) {
        None => false,
        Some(ins) => match ins {
            Instr::Ret => stack.len() > 0,
            Instr::AddToI { x } => i + v[x as int] <= u16::MAX,
            Instr::StoreBcd { x } => i as int + 2 < MEMORY_SIZE,
            Instr::StoreRegs { x } => i as int + x < MEMORY_SIZE,
            Instr::LoadRegs { x } => i as int + x < MEMORY_SIZE,
            Instr::Draw { x, y, n } => n > 0 ==> i as int + n <= MEMORY_SIZE && v[y as int] + n
                <= 256,
            _ => true,
        },
    }
}

/// [`valid_step`] over an assembled state.
pub open spec fn step_ok(m: MachineState) -> bool {
    valid_step(m.v, m.i, m.pc, m.stack, m.mem)
}

/// The machine state after executing the instruction at the program
/// counter: a pure function of the pre-state, the latched key, the random
/// byte drawn for this step, and the current time.
pub open spec fn step(m: MachineState, key: Option<u8>, rnd: u8, now_ms: u64) -> MachineState {
    match decode(fetch(m)) {
        None => m,
        Some(ins) => match ins {
            Instr::ClearScreen => MachineState {
                fb: Seq::new(SCREEN_SIZE as nat, |a: int| 0u8),
                pc: (m.pc + 2) as u16,
                ..m
            },
            Instr::Ret => MachineState { pc: m.stack.last(), stack: m.stack.drop_last(), ..m },
            Instr::Jump { nnn } => MachineState { pc: nnn, ..m },
            Instr::Call { nnn } => MachineState {
                stack: m.stack.push((m.pc + 2) as u16),
                pc: nnn,
                ..m
            },
            Instr::SkipEqImm { x, nn } => MachineState {
                pc: if m.v[x as int] == nn {
                    (m.pc + 4) as u16
                } else {
                    (m.pc + 2) as u16
                },
                ..m
            },
            Instr::SkipNeImm { x, nn } => MachineState {
                pc: if m.v[x as int] == nn {
                    (m.pc + 2) as u16
                } else {
                    (m.pc + 4) as u16
                },
                ..m
            },
            Instr::SkipEqReg { x, y } => MachineState {
                pc: if m.v[x as int] == m.v[y as int] {
                    (m.pc + 4) as u16
                } else {
                    (m.pc + 2) as u16
                },
                ..m
            },
            Instr::LoadImm { x, nn } => MachineState {
                v: m.v.update(x as int, nn),
                pc: (m.pc + 2) as u16,
                ..m
            },
            Instr::AddImm { x, nn } => MachineState {
                v: m.v.update(x as int, ((m.v[x as int] + nn) % 256) as u8),
                pc: (m.pc + 2) as u16,
                ..m
            },
            Instr::Copy { x, y } => MachineState {
                v: m.v.update(x as int, m.v[y as int]),
                pc: (m.pc + 2) as u16,
                ..m
            },
            Instr::Or { x, y } => MachineState {
                v: m.v.update(x as int, m.v[x as int] | m.v[y as int]),
                pc: (m.pc + 2) as u16,
                ..m
            },
            Instr::And { x, y } => MachineState {
                v: m.v.update(x as int, m.v[x as int] & m.v[y as int]),
                pc: (m.pc + 2) as u16,
                ..m
            },
            Instr::Xor { x, y } => MachineState {
                v: m.v.update(x as int, m.v[x as int] ^ m.v[y as int]),
                pc: (m.pc + 2) as u16,
                ..m
            },
            Instr::AddReg { x, y } => {
                let r = add_with_carry(m.v[x as int], m.v[y as int]);
                MachineState {
                    v: m.v.update(x as int, r.0).update(FLAG_REGISTER as int, r.1),
                    pc: (m.pc + 2) as u16,
                    ..m
                }
            },
            Instr::SubReg { x, y } => {
                let r = sub_with_borrow(m.v[x as int], m.v[y as int]);
                MachineState {
                    v: m.v.update(x as int, r.0).update(FLAG_REGISTER as int, r.1),
                    pc: (m.pc + 2) as u16,
                    ..m
                }
            },
            Instr::ShiftRight { x } => {
                let v1 = m.v.update(
                    FLAG_REGISTER as int,
                    shift_right_with_carry(m.v[x as int]).1,
                );
                MachineState {
                    v: v1.update(x as int, shift_right_with_carry(v1[x as int]).0),
                    pc: (m.pc + 2) as u16,
                    ..m
                }
            },
            Instr::SubFrom { x, y } => {
                let r = sub_with_borrow(m.v[y as int], m.v[x as int]);
                MachineState {
                    v: m.v.update(x as int, r.0).update(FLAG_REGISTER as int, r.1),
                    pc: (m.pc + 2) as u16,
                    ..m
                }
            },
            Instr::ShiftLeft { x } => {
                let v1 = m.v.update(
                    FLAG_REGISTER as int,
                    shift_left_with_carry(m.v[x as int]).1,
                );
                MachineState {
                    v: v1.update(x as int, shift_left_with_carry(v1[x as int]).0),
                    pc: (m.pc + 2) as u16,
                    ..m
                }
            },
            Instr::SkipNeReg { x, y } => MachineState {
                pc: if m.v[x as int] == m.v[y as int] {
                    (m.pc + 2) as u16
                } else {
                    (m.pc + 4) as u16
                },
                ..m
            },
            Instr::LoadI { nnn } => MachineState { i: nnn, pc: (m.pc + 2) as u16, ..m },
            Instr::JumpOffset { nnn } => MachineState { pc: (nnn + m.v[0]) as u16, ..m },
            Instr::Random { x, nn } => MachineState {
                v: m.v.update(x as int, rnd & nn),
                pc: (m.pc + 2) as u16,
                ..m
            },
            Instr::Draw { x, y, n } => {
                let r = draw_sprite_spec(
                    m.fb,
                    m.mem,
                    m.i as int,
                    m.v[x as int] as int,
                    m.v[y as int] as int,
                    n as nat,
                );
                MachineState {
                    fb: r.0,
                    v: m.v.update(FLAG_REGISTER as int, if r.1 { 1u8 } else { 0u8 }),
                    pc: (m.pc + 2) as u16,
                    ..m
                }
            },
            Instr::SkipIfKey { x } => MachineState {
                pc: if key == Some(m.v[x as int]) {
                    (m.pc + 4) as u16
                } else {
                    (m.pc + 2) as u16
                },
                ..m
            },
            Instr::SkipIfNotKey { x } => MachineState {
                pc: if key == Some(m.v[x as int]) {
                    (m.pc + 2) as u16
                } else {
                    (m.pc + 4) as u16
                },
                ..m
            },
            Instr::ReadDelay { x } => MachineState {
                v: m.v.update(x as int, timer_value(m.timer, now_ms)),
                pc: (m.pc + 2) as u16,
                ..m
            },
            Instr::WaitKey { x } => match key {
                Some(c) => MachineState {
                    v: m.v.update(x as int, c),
                    pc: (m.pc + 2) as u16,
                    ..m
                },
                None => m,
            },
            Instr::SetDelay { x } => MachineState {
                timer: TimerView { delay: m.v[x as int], set_at_ms: now_ms },
                pc: (m.pc + 2) as u16,
                ..m
            },
            Instr::SetSound { x } => MachineState { pc: (m.pc + 2) as u16, ..m },
            Instr::AddToI { x } => MachineState {
                i: (m.i + m.v[x as int]) as u16,
                pc: (m.pc + 2) as u16,
                ..m
            },
            Instr::GlyphAddr { x } => MachineState {
                i: (m.v[x as int] * 5) as u16,
                pc: (m.pc + 2) as u16,
                ..m
            },
            Instr::StoreBcd { x } => {
                let d = bcd_digits(m.v[x as int]);
                MachineState {
                    mem: m.mem.update(m.i as int, d.0).update(m.i as int + 1, d.1).update(
                        m.i as int + 2,
                        d.2,
                    ),
                    pc: (m.pc + 2) as u16,
                    ..m
                }
            },
            Instr::StoreRegs { x } => MachineState {
                mem: store_regs(m.mem, m.v, m.i as int, x as int),
                pc: (m.pc + 2) as u16,
                ..m
            },
            Instr::LoadRegs { x } => MachineState {
                v: load_regs(m.v, m.mem, m.i as int, x as int),
                pc: (m.pc + 2) as u16,
                ..m
            },
        },
    }
}

/// Add-with-carry: the flag is set exactly when the true sum exceeds 255,
/// and the stored byte is the sum modulo 256.
pub proof fn lemma_add_with_carry(a: u8, b: u8)
    ensures
        add_with_carry(a, b).0 == (a + b) % 256,
        add_with_carry(a, b).1 == 1u8 <==> a + b > 255,
        add_with_carry(a, b).1 == 0u8 <==> a + b <= 255,
{
}

/// Subtract: the flag is set exactly when no borrow occurred, and the
/// stored byte is the difference modulo 256.
pub proof fn lemma_sub_with_borrow(a: u8, b: u8)
    ensures
        sub_with_borrow(a, b).1 == 1u8 <==> a >= b,
        a >= b ==> sub_with_borrow(a, b).0 == a - b,
        a < b ==> sub_with_borrow(a, b).0 == a - b + 256,
{
}

/// Shifts: the flag takes the pre-shift least significant bit on a right
/// shift and the pre-shift most significant bit on a left shift.
pub proof fn lemma_shift_carries(a: u8)
    ensures
        shift_right_with_carry(a).1 == a % 2,
        shift_right_with_carry(a).1 == (a & 1),
        shift_right_with_carry(a).0 == a / 2,
        shift_left_with_carry(a).1 == a / 128,
        shift_left_with_carry(a).1 == ((a & 0x80) >> 7),
        shift_left_with_carry(a).0 == (a * 2) % 256,
{
    assert((a & 1) == a % 2) by (bit_vector);
    assert(((a & 0x80) >> 7) == a / 128) by (bit_vector);
}

/// At machine level: executing the add-with-carry instruction stores the
/// wrapped sum and sets the flag register exactly when the true sum
/// exceeds 255. When `x` is the flag register itself, the flag overwrites
/// the sum, as the engine writes the sum first.
pub proof fn lemma_step_add_with_carry(
    m: MachineState,
    key: Option<u8>,
    rnd: u8,
    now_ms: u64,
    x: u8,
    y: u8,
)
    requires
        m.v.len() == NUM_REGISTERS,
        x < 16,
        y < 16,
        decode(fetch(m)) == Some(Instr::AddReg { x, y }),
    ensures
        step(m, key, rnd, now_ms).v[FLAG_REGISTER as int] == (if m.v[x as int] + m.v[y as int]
            > 255 {
            1u8
        } else {
            0u8
        }),
        x != FLAG_REGISTER ==> step(m, key, rnd, now_ms).v[x as int] == (m.v[x as int]
            + m.v[y as int]) % 256,
{
}

/// At machine level: executing the subtract instruction stores the
/// difference modulo 256 and sets the flag register exactly when no
/// borrow occurred, that is when `v[x] >= v[y]`.
pub proof fn lemma_step_sub_with_borrow(
    m: MachineState,
    key: Option<u8>,
    rnd: u8,
    now_ms: u64,
    x: u8,
    y: u8,
)
    requires
        m.v.len() == NUM_REGISTERS,
        x < 16,
        y < 16,
        decode(fetch(m)) == Some(Instr::SubReg { x, y }),
    ensures
        step(m, key, rnd, now_ms).v[FLAG_REGISTER as int] == (if m.v[x as int] >= m.v[y as int] {
            1u8
        } else {
            0u8
        }),
        x != FLAG_REGISTER && m.v[x as int] >= m.v[y as int]
            ==> step(m, key, rnd, now_ms).v[x as int] == m.v[x as int] - m.v[y as int],
        x != FLAG_REGISTER && m.v[x as int] < m.v[y as int]
            ==> step(m, key, rnd, now_ms).v[x as int] == m.v[x as int] - m.v[y as int] + 256,
{
}

/// At machine level: a shift right moves the pre-shift least significant
/// bit of `v[x]` into the flag register and halves `v[x]`. Stated away
/// from the flag register itself, where the engine's write order makes
/// the flag the shifted value.
pub proof fn lemma_step_shift_right(
    m: MachineState,
    key: Option<u8>,
    rnd: u8,
    now_ms: u64,
    x: u8,
)
    requires
        m.v.len() == NUM_REGISTERS,
        x < 16,
        x != FLAG_REGISTER,
        decode(fetch(m)) == Some(Instr::ShiftRight { x }),
    ensures
        step(m, key, rnd, now_ms).v[FLAG_REGISTER as int] == m.v[x as int] % 2,
        step(m, key, rnd, now_ms).v[x as int] == m.v[x as int] / 2,
{
}

/// At machine level: a shift left moves the pre-shift most significant
/// bit of `v[x]` into the flag register and doubles `v[x]` modulo 256.
/// Stated away from the flag register itself, as for the right shift.
pub proof fn lemma_step_shift_left(
    m: MachineState,
    key: Option<u8>,
    rnd: u8,
    now_ms: u64,
    x: u8,
)
    requires
        m.v.len() == NUM_REGISTERS,
        x < 16,
        x != FLAG_REGISTER,
        decode(fetch(m)) == Some(Instr::ShiftLeft { x }),
    ensures
        step(m, key, rnd, now_ms).v[FLAG_REGISTER as int] == m.v[x as int] / 128,
        step(m, key, rnd, now_ms).v[x as int] == (m.v[x as int] * 2) % 256,
{
}

/// Storing registers 0 through `x` to memory and loading them back from
/// the same address reproduces the registers exactly.
pub proof fn lemma_store_load_roundtrip(mem: Seq<u8>, v: Seq<u8>, i: int, x: int)
    requires
        v.len() == NUM_REGISTERS,
        mem.len() == MEMORY_SIZE,
        0 <= x < NUM_REGISTERS,
        0 <= i,
        i + x < MEMORY_SIZE,
    ensures
        load_regs(v, store_regs(mem, v, i, x), i, x) == v,
{
    assert(load_regs(v, store_regs(mem, v, i, x), i, x) =~= v);
}

/// A call pushes the return address `pc + 2` and jumps to its literal; a
/// later return that still sees that frame on top of the stack restores
/// the program counter to exactly `pc + 2`.
pub proof fn lemma_call_then_ret(
    m1: MachineState,
    key1: Option<u8>,
    rnd1: u8,
    now1: u64,
    m2: MachineState,
    key2: Option<u8>,
    rnd2: u8,
    now2: u64,
    nnn: u16,
)
    requires
        m1.pc + 2 <= u16::MAX,
        decode(fetch(m1)) == Some(Instr::Call { nnn }),
        decode(fetch(m2)) == Some(Instr::Ret),
        m2.stack == step(m1, key1, rnd1, now1).stack,
    ensures
        step(m1, key1, rnd1, now1).pc == nnn,
        step(m1, key1, rnd1, now1).stack == m1.stack.push((m1.pc + 2) as u16),
        step(m2, key2, rnd2, now2).pc == m1.pc + 2,
{
}

/// Decodes one instruction word; mirrors [`decode`] exactly.
pub fn decode_instr(word: u16) -> (r: Option<Instr>)
    ensures
        r == decode(word),
{
    let family = (word & 0xF000) >> 12;
    let nnn = word & 0x0FFF;
    let nn = (word & 0x00FF) as u8;
    let n = (word & 0x000F) as u8;
    let x = ((word & 0x0F00) >> 8) as u8;
    let y = ((word & 0x00F0) >> 4) as u8;
    if family == 0x0 && nn == 0xE0 {
        Some(Instr::ClearScreen)
    } else if family == 0x0 && nn == 0xEE {
        Some(Instr::Ret)
    } else if family == 0x1 {
        Some(Instr::Jump { nnn })
    } else if family == 0x2 {
        Some(Instr::Call { nnn })
    } else if family == 0x3 {
        Some(Instr::SkipEqImm { x, nn })
    } else if family == 0x4 {
        Some(Instr::SkipNeImm { x, nn })
    } else if family == 0x5 && n == 0x0 {
        Some(Instr::SkipEqReg { x, y })
    } else if family == 0x6 {
        Some(Instr::LoadImm { x, nn })
    } else if family == 0x7 {
        Some(Instr::AddImm { x, nn })
    } else if family == 0x8 && n == 0x0 {
        Some(Instr::Copy { x, y })
    } else if family == 0x8 && n == 0x1 {
        Some(Instr::Or { x, y })
    } else if family == 0x8 && n == 0x2 {
        Some(Instr::And { x, y })
    } else if family == 0x8 && n == 0x3 {
        Some(Instr::Xor { x, y })
    } else if family == 0x8 && n == 0x4 {
        Some(Instr::AddReg { x, y })
    } else if family == 0x8 && n == 0x5 {
        Some(Instr::SubReg { x, y })
    } else if family == 0x8 && n == 0x6 {
        Some(Instr::ShiftRight { x })
    } else if family == 0x8 && n == 0x7 {
        Some(Instr::SubFrom { x, y })
    } else if family == 0x8 && n == 0xE {
        Some(Instr::ShiftLeft { x })
    } else if family == 0x9 && n == 0x0 {
        Some(Instr::SkipNeReg { x, y })
    } else if family == 0xA {
        Some(Instr::LoadI { nnn })
    } else if family == 0xB {
        Some(Instr::JumpOffset { nnn })
    } else if family == 0xC {
        Some(Instr::Random { x, nn })
    } else if family == 0xD {
        Some(Instr::Draw { x, y, n })
    } else if family == 0xE && nn == 0x9E {
        Some(Instr::SkipIfKey { x })
    } else if family == 0xE && nn == 0xA1 {
        Some(Instr::SkipIfNotKey { x })
    } else if family == 0xF && nn == 0x07 {
        Some(Instr::ReadDelay { x })
    } else if family == 0xF && nn == 0x0A {
        Some(Instr::WaitKey { x })
    } else if family == 0xF && nn == 0x15 {
        Some(Instr::SetDelay { x })
    } else if family == 0xF && nn == 0x18 {
        Some(Instr::SetSound { x })
    } else if family == 0xF && nn == 0x1E {
        Some(Instr::AddToI { x })
    } else if family == 0xF && nn == 0x29 {
        Some(Instr::GlyphAddr { x })
    } else if family == 0xF && nn == 0x33 {
        Some(Instr::StoreBcd { x })
    } else if family == 0xF && nn == 0x55 {
        Some(Instr::StoreRegs { x })
    } else if family == 0xF && nn == 0x65 {
        Some(Instr::LoadRegs { x })
    } else {
        None
    }
}

/// Writes registers 0 through `x`, inclusive, into memory starting at `i`.
fn write_register_block(ram: &mut Ram, v: &Vec<u8>, i: u16, x: u8)
    requires
        old(ram).wf(),
        v@.len() == NUM_REGISTERS,
        x < 16,
        i as int + x < MEMORY_SIZE,
    ensures
        final(ram).wf(),
        final(ram)@ == store_regs(old(ram)@, v@, i as int, x as int),
{
    let mut k: usize = 0;
    while k <= x as usize
        invariant
            k <= x as usize + 1,
            x < 16,
            v@.len() == NUM_REGISTERS,
            i as int + x < MEMORY_SIZE,
            ram.wf(),
            forall|j: int| 0 <= j < k ==> ram@[i + j] == v@[j],
            forall|a: int|
                0 <= a < MEMORY_SIZE && !(i <= a < i + k) ==> ram@[a] == old(ram)@[a],
        decreases x as usize + 1 - k,
    {
        let byte = v[k];
        ram.write(i + k as u16, byte);
        k += 1;
    }
    proof {
        assert(ram@ =~= store_regs(old(ram)@, v@, i as int, x as int));
    }
}

/// Reads memory starting at `i` back into registers 0 through `x`,
/// inclusive.
fn read_register_block(v: &mut Vec<u8>, ram: &Ram, i: u16, x: u8)
    requires
        old(v)@.len() == NUM_REGISTERS,
        ram.wf(),
        x < 16,
        i as int + x < MEMORY_SIZE,
    ensures
        final(v)@ == load_regs(old(v)@, ram@, i as int, x as int),
{
    let mut k: usize = 0;
    while k <= x as usize
        invariant
            k <= x as usize + 1,
            x < 16,
            v@.len() == NUM_REGISTERS,
            i as int + x < MEMORY_SIZE,
            ram.wf(),
            forall|j: int| 0 <= j < k ==> v@[j] == ram@[i + j],
            forall|j: int| k <= j < NUM_REGISTERS ==> v@[j] == old(v)@[j],
        decreases x as usize + 1 - k,
    {
        let byte = ram.read(i + k as u16);
        v[k] = byte;
        k += 1;
    }
    proof {
        assert(v@ =~= load_regs(old(v)@, ram@, i as int, x as int));
    }
}

/// 16 general-purpose registers, the address register, the program
/// counter, the call-return stack, and the timestamp of the last executed
/// instruction.
pub struct Cpu {
    v: Vec<u8>,
    i: u16,
    pc: u16,
    return_stack: Vec<u16>,
    last_instruction_at_ms: u64,
}

impl View for Cpu {
    type V = CpuView;

    closed spec fn view(&self) -> CpuView {
        CpuView {
            v: self.v@,
            i: self.i,
            pc: self.pc,
            stack: self.return_stack@,
            last_instruction_ms: self.last_instruction_at_ms,
        }
    }
}

impl Cpu {
    /// All 16 registers are backed.
    pub open spec fn wf(&self) -> bool {
        self@.v.len() == NUM_REGISTERS
    }

    /// A fresh engine: zeroed registers, empty stack, program counter at
    /// the program origin.
    pub fn new(now_ms: u64) -> (r: Cpu)
        ensures
            r.wf(),
            r@.v == Seq::new(NUM_REGISTERS as nat, |j: int| 0u8),
            r@.i == 0u16,
            r@.pc == ROM_START_ADDRESS,
            r@.stack == Seq::<u16>::empty(),
            r@.last_instruction_ms == now_ms,
    {
        let v: Vec<u8> = vec![0u8, 0, 0, 0, 0, 0, 0, 0, 0, 0, 0, 0, 0, 0, 0, 0];
        let r = Cpu {
            v,
            i: 0,
            pc: ROM_START_ADDRESS,
            return_stack: Vec::new(),
            last_instruction_at_ms: now_ms,
        };
        proof {
            assert(r@.v =~= Seq::new(NUM_REGISTERS as nat, |j: int| 0u8));
            assert(r@.stack =~= Seq::<u16>::empty());
        }
        r
    }

    /// Whether the minimum instruction interval has elapsed.
    pub fn can_run_instruction(&self, now_ms: u64) -> (r: bool)
        ensures
            r == (elapsed_ms(self@.last_instruction_ms, now_ms) > MIN_INSTRUCTION_INTERVAL_MS),
    {
        crate::clock::elapsed_millis(self.last_instruction_at_ms, now_ms)
            > MIN_INSTRUCTION_INTERVAL_MS
    }

    /// The program counter.
    pub fn program_counter(&self) -> (r: u16)
        ensures
            r == self@.pc,
    {
        self.pc
    }

    /// The address register.
    pub fn address_register(&self) -> (r: u16)
        ensures
            r == self@.i,
    {
        self.i
    }

    /// One general-purpose register.
    pub fn register(&self, index: u8) -> (r: u8)
        requires
            self.wf(),
            index < 16,
        ensures
            r == self@.v[index as int],
    {
        self.v[index as usize]
    }

    /// Whether the next fetch-decode-execute cycle is free of fatal
    /// conditions, as [`valid_step`] states; a step may only be run when it is.
    pub fn instruction_is_valid(&self, ram: &Ram) -> (r: bool)
        requires
            self.wf(),
            ram.wf(),
        ensures
            r == valid_step(self@.v, self@.i, self@.pc, self@.stack, ram@),
    {
        if !(self.pc < (MEMORY_SIZE - 1) as u16) {
            return false;
        }
        let hi = ram.read(self.pc);
        let lo = ram.read(self.pc + 1);
        let word = ((hi as u16) << 8) | (lo as u16);
        proof {
            lemma_decode_wf(word);
        }
        match decode_instr(word) {
            None => false,
            Some(ins) => match ins {
                Instr::Ret => {
                    self.return_stack.len() > 0
                },
                Instr::AddToI { x } => {
                    (self.i as u32 + self.v[x as usize] as u32) <= (u16::MAX as u32)
                },
                Instr::StoreBcd { x: _ } => {
                    (self.i as usize + 2) < MEMORY_SIZE
                },
                Instr::StoreRegs { x } => {
                    (self.i as usize + x as usize) < MEMORY_SIZE
                },
                Instr::LoadRegs { x } => {
                    (self.i as usize + x as usize) < MEMORY_SIZE
                },
                Instr::Draw { x: _, y, n } => {
                    n == 0 || ((self.i as usize + n as usize) <= MEMORY_SIZE && (self.v[y as usize]
                        as usize + n as usize) <= 256)
                },
                _ => true,
            },
        }
    }

    /// Draws the `length`-row sprite stored at the address register at
    /// `(x, y)` and records a collision in the flag register.
    fn draw_sprite(&mut self, x: u8, y: u8, length: u8, ram: &Ram, screen: &mut Screen)
        requires
            old(self).wf(),
            ram.wf(),
            old(screen).wf(),
            length > 0 ==> old(self)@.i as int + length <= MEMORY_SIZE,
            length > 0 ==> y + length <= 256,
        ensures
            final(self).wf(),
            final(screen).wf(),
            final(screen)@.fb == draw_sprite_spec(
                old(screen)@.fb,
                ram@,
                old(self)@.i as int,
                x as int,
                y as int,
                length as nat,
            ).0,
            final(self)@.v == old(self)@.v.update(
                FLAG_REGISTER as int,
                if draw_sprite_spec(
                    old(screen)@.fb,
                    ram@,
                    old(self)@.i as int,
                    x as int,
                    y as int,
                    length as nat,
                ).1 {
                    1u8
                } else {
                    0u8
                },
            ),
            final(self)@.i == old(self)@.i,
            final(self)@.pc == old(self)@.pc,
            final(self)@.stack == old(self)@.stack,
            final(self)@.last_instruction_ms == old(self)@.last_instruction_ms,
            final(screen)@.last_flush_ms == old(screen)@.last_flush_ms,
    {
        let mut should_set_flag = false;
        let mut k: u8 = 0;
        while k < length
            invariant
                k <= length,
                self@ == old(self)@,
                self.wf(),
                ram.wf(),
                screen.wf(),
                length > 0 ==> self@.i as int + length <= MEMORY_SIZE,
                length > 0 ==> y + length <= 256,
                screen@.fb == draw_sprite_spec(
                    old(screen)@.fb,
                    ram@,
                    self@.i as int,
                    x as int,
                    y as int,
                    k as nat,
                ).0,
                should_set_flag == draw_sprite_spec(
                    old(screen)@.fb,
                    ram@,
                    self@.i as int,
                    x as int,
                    y as int,
                    k as nat,
                ).1,
                screen@.last_flush_ms == old(screen)@.last_flush_ms,
            decreases length - k,
        {
            let byte = ram.read(self.i + k as u16);
            let erased = screen.draw_byte(byte, x as usize, y as usize + k as usize);
            if erased {
                should_set_flag = true;
            }
            k += 1;
        }
        self.v[FLAG_REGISTER] = if should_set_flag {
            1
        } else {
            0
        };
    }

    /// Executes exactly one instruction against memory, the delay timer,
    /// the framebuffer and the key latch, as specified by [`step`]; `rnd`
    /// is the random byte drawn for this step and `now_ms` the current
    /// time. The caller must have satisfied the instruction-interval gate
    /// and checked [`valid_step`].
    #[verifier::rlimit(100)]
    pub fn run_instruction(
        &mut self,
        ram: &mut Ram,
        timer: &mut Timer,
        screen: &mut Screen,
        keyboard: &Keyboard,
        rnd: u8,
        now_ms: u64,
    )
        requires
            old(self).wf(),
            old(ram).wf(),
            old(screen).wf(),
            elapsed_ms(old(self)@.last_instruction_ms, now_ms) > MIN_INSTRUCTION_INTERVAL_MS,
            valid_step(old(self)@.v, old(self)@.i, old(self)@.pc, old(self)@.stack, old(ram)@),
        ensures
            final(self).wf(),
            final(ram).wf(),
            final(screen).wf(),
            machine_of(final(self)@, final(ram)@, final(timer)@, final(screen)@.fb) == step(
                machine_of(old(self)@, old(ram)@, old(timer)@, old(screen)@.fb),
                keyboard@.pressed,
                rnd,
                now_ms,
            ),
            final(self)@.last_instruction_ms == now_ms,
            final(screen)@.last_flush_ms == old(screen)@.last_flush_ms,
    {
        let ghost m1 = machine_of(old(self)@, old(ram)@, old(timer)@, old(screen)@.fb);
        let ghost key = keyboard@.pressed;
        self.last_instruction_at_ms = now_ms;

        let hi = ram.read(self.pc);
        let lo = ram.read(self.pc + 1);
        let word = ((hi as u16) << 8) | (lo as u16);
        proof {
            assert(word == fetch(m1));
            lemma_decode_wf(word);
        }
        match decode_instr(word) {
            None => {
                // Excluded by the valid_step precondition: the fetched word
                // always decodes here.
                proof {
                    assert(false);
                }
            },
            Some(ins) => match ins {
                Instr::ClearScreen => {
                    screen.clear();
                    self.pc = self.pc + 2;
                    proof {
                        assert(machine_of(self@, ram@, timer@, screen@.fb) =~= step(
                            m1,
                            key,
                            rnd,
                            now_ms,
                        ));
                    }
                },
                Instr::Ret => {
                    self.pc = self.return_stack.pop().unwrap();
                    proof {
                        assert(self@.stack =~= m1.stack.drop_last());
                        assert(machine_of(self@, ram@, timer@, screen@.fb) =~= step(
                            m1,
                            key,
                            rnd,
                            now_ms,
                        ));
                    }
                },
                Instr::Jump { nnn } => {
                    self.pc = nnn;
                    proof {
                        assert(machine_of(self@, ram@, timer@, screen@.fb) =~= step(
                            m1,
                            key,
                            rnd,
                            now_ms,
                        ));
                    }
                },
                Instr::Call { nnn } => {
                    let return_address = self.pc + 2;
                    self.return_stack.push(return_address);
                    self.pc = nnn;
                    proof {
                        assert(machine_of(self@, ram@, timer@, screen@.fb) =~= step(
                            m1,
                            key,
                            rnd,
                            now_ms,
                        ));
                    }
                },
                Instr::SkipEqImm { x, nn } => {
                    if self.v[x as usize] == nn {
                        self.pc = self.pc + 4;
                    } else {
                        self.pc = self.pc + 2;
                    }
                    proof {
                        assert(machine_of(self@, ram@, timer@, screen@.fb) =~= step(
                            m1,
                            key,
                            rnd,
                            now_ms,
                        ));
                    }
                },
                Instr::SkipNeImm { x, nn } => {
                    if self.v[x as usize] == nn {
                        self.pc = self.pc + 2;
                    } else {
                        self.pc = self.pc + 4;
                    }
                    proof {
                        assert(machine_of(self@, ram@, timer@, screen@.fb) =~= step(
                            m1,
                            key,
                            rnd,
                            now_ms,
                        ));
                    }
                },
                Instr::SkipEqReg { x, y } => {
                    if self.v[x as usize] == self.v[y as usize] {
                        self.pc = self.pc + 4;
                    } else {
                        self.pc = self.pc + 2;
                    }
                    proof {
                        assert(machine_of(self@, ram@, timer@, screen@.fb) =~= step(
                            m1,
                            key,
                            rnd,
                            now_ms,
                        ));
                    }
                },
                Instr::LoadImm { x, nn } => {
                    self.v[x as usize] = nn;
                    self.pc = self.pc + 2;
                    proof {
                        assert(machine_of(self@, ram@, timer@, screen@.fb) =~= step(
                            m1,
                            key,
                            rnd,
                            now_ms,
                        ));
                    }
                },
                Instr::AddImm { x, nn } => {
                    let sum = (self.v[x as usize] as u16 + nn as u16) % 256;
                    self.v[x as usize] = sum as u8;
                    self.pc = self.pc + 2;
                    proof {
                        assert(machine_of(self@, ram@, timer@, screen@.fb) =~= step(
                            m1,
                            key,
                            rnd,
                            now_ms,
                        ));
                    }
                },
                Instr::Copy { x, y } => {
                    self.v[x as usize] = self.v[y as usize];
                    self.pc = self.pc + 2;
                    proof {
                        assert(machine_of(self@, ram@, timer@, screen@.fb) =~= step(
                            m1,
                            key,
                            rnd,
                            now_ms,
                        ));
                    }
                },
                Instr::Or { x, y } => {
                    self.v[x as usize] = self.v[x as usize] | self.v[y as usize];
                    self.pc = self.pc + 2;
                    proof {
                        assert(machine_of(self@, ram@, timer@, screen@.fb) =~= step(
                            m1,
                            key,
                            rnd,
                            now_ms,
                        ));
                    }
                },
                Instr::And { x, y } => {
                    self.v[x as usize] = self.v[x as usize] & self.v[y as usize];
                    self.pc = self.pc + 2;
                    proof {
                        assert(machine_of(self@, ram@, timer@, screen@.fb) =~= step(
                            m1,
                            key,
                            rnd,
                            now_ms,
                        ));
                    }
                },
                Instr::Xor { x, y } => {
                    self.v[x as usize] = self.v[x as usize] ^ self.v[y as usize];
                    self.pc = self.pc + 2;
                    proof {
                        assert(machine_of(self@, ram@, timer@, screen@.fb) =~= step(
                            m1,
                            key,
                            rnd,
                            now_ms,
                        ));
                    }
                },
                Instr::AddReg { x, y } => {
                    let a = self.v[x as usize];
                    let b = self.v[y as usize];
                    let sum16 = a as u16 + b as u16;
                    self.v[x as usize] = (sum16 % 256) as u8;
                    self.v[FLAG_REGISTER] = if sum16 > 255 {
                        1
                    } else {
                        0
                    };
                    proof {
                        assert(self@.v =~= m1.v.update(x as int, add_with_carry(a, b).0).update(
                            FLAG_REGISTER as int,
                            add_with_carry(a, b).1,
                        ));
                    }
                    self.pc = self.pc + 2;
                    proof {
                        assert(machine_of(self@, ram@, timer@, screen@.fb) =~= step(
                            m1,
                            key,
                            rnd,
                            now_ms,
                        ));
                    }
                },
                Instr::SubReg { x, y } => {
                    let a = self.v[x as usize];
                    let b = self.v[y as usize];
                    if a >= b {
                        self.v[x as usize] = a - b;
                        self.v[FLAG_REGISTER] = 1;
                    } else {
                        self.v[x as usize] = ((a as u16 + 256) - b as u16) as u8;
                        self.v[FLAG_REGISTER] = 0;
                    }
                    self.pc = self.pc + 2;
                    proof {
                        assert(machine_of(self@, ram@, timer@, screen@.fb) =~= step(
                            m1,
                            key,
                            rnd,
                            now_ms,
                        ));
                    }
                },
                Instr::ShiftRight { x } => {
                    let a = self.v[x as usize];
                    self.v[FLAG_REGISTER] = a % 2;
                    let current = self.v[x as usize];
                    self.v[x as usize] = current / 2;
                    self.pc = self.pc + 2;
                    proof {
                        assert(machine_of(self@, ram@, timer@, screen@.fb) =~= step(
                            m1,
                            key,
                            rnd,
                            now_ms,
                        ));
                    }
                },
                Instr::SubFrom { x, y } => {
                    let a = self.v[y as usize];
                    let b = self.v[x as usize];
                    if a >= b {
                        self.v[x as usize] = a - b;
                        self.v[FLAG_REGISTER] = 1;
                    } else {
                        self.v[x as usize] = ((a as u16 + 256) - b as u16) as u8;
                        self.v[FLAG_REGISTER] = 0;
                    }
                    self.pc = self.pc + 2;
                    proof {
                        assert(machine_of(self@, ram@, timer@, screen@.fb) =~= step(
                            m1,
                            key,
                            rnd,
                            now_ms,
                        ));
                    }
                },
                Instr::ShiftLeft { x } => {
                    let a = self.v[x as usize];
                    self.v[FLAG_REGISTER] = a / 128;
                    let current = self.v[x as usize];
                    self.v[x as usize] = ((current as u16 * 2) % 256) as u8;
                    self.pc = self.pc + 2;
                    proof {
                        assert(machine_of(self@, ram@, timer@, screen@.fb) =~= step(
                            m1,
                            key,
                            rnd,
                            now_ms,
                        ));
                    }
                },
                Instr::SkipNeReg { x, y } => {
                    if self.v[x as usize] == self.v[y as usize] {
                        self.pc = self.pc + 2;
                    } else {
                        self.pc = self.pc + 4;
                    }
                    proof {
                        assert(machine_of(self@, ram@, timer@, screen@.fb) =~= step(
                            m1,
                            key,
                            rnd,
                            now_ms,
                        ));
                    }
                },
                Instr::LoadI { nnn } => {
                    self.i = nnn;
                    self.pc = self.pc + 2;
                    proof {
                        assert(machine_of(self@, ram@, timer@, screen@.fb) =~= step(
                            m1,
                            key,
                            rnd,
                            now_ms,
                        ));
                    }
                },
                Instr::JumpOffset { nnn } => {
                    self.pc = nnn + self.v[0] as u16;
                    proof {
                        assert(machine_of(self@, ram@, timer@, screen@.fb) =~= step(
                            m1,
                            key,
                            rnd,
                            now_ms,
                        ));
                    }
                },
                Instr::Random { x, nn } => {
                    self.v[x as usize] = rnd & nn;
                    self.pc = self.pc + 2;
                    proof {
                        assert(machine_of(self@, ram@, timer@, screen@.fb) =~= step(
                            m1,
                            key,
                            rnd,
                            now_ms,
                        ));
                    }
                },
                Instr::Draw { x, y, n } => {
                    let column = self.v[x as usize];
                    let row = self.v[y as usize];
                    self.draw_sprite(column, row, n, ram, screen);
                    self.pc = self.pc + 2;
                    proof {
                        assert(machine_of(self@, ram@, timer@, screen@.fb) =~= step(
                            m1,
                            key,
                            rnd,
                            now_ms,
                        ));
                    }
                },
                Instr::SkipIfKey { x } => {
                    if keyboard.is_key_pressed(self.v[x as usize]) {
                        self.pc = self.pc + 4;
                    } else {
                        self.pc = self.pc + 2;
                    }
                    proof {
                        assert(machine_of(self@, ram@, timer@, screen@.fb) =~= step(
                            m1,
                            key,
                            rnd,
                            now_ms,
                        ));
                    }
                },
                Instr::SkipIfNotKey { x } => {
                    if keyboard.is_key_pressed(self.v[x as usize]) {
                        self.pc = self.pc + 2;
                    } else {
                        self.pc = self.pc + 4;
                    }
                    proof {
                        assert(machine_of(self@, ram@, timer@, screen@.fb) =~= step(
                            m1,
                            key,
                            rnd,
                            now_ms,
                        ));
                    }
                },
                Instr::ReadDelay { x } => {
                    let value = timer.get_delay(now_ms);
                    self.v[x as usize] = value;
                    self.pc = self.pc + 2;
                    proof {
                        assert(machine_of(self@, ram@, timer@, screen@.fb) =~= step(
                            m1,
                            key,
                            rnd,
                            now_ms,
                        ));
                    }
                },
                Instr::WaitKey { x } => {
                    match keyboard.pressed_key() {
                        Some(code) => {
                            self.v[x as usize] = code;
                            self.pc = self.pc + 2;
                        },
                        None => {},
                    }
                    proof {
                        assert(machine_of(self@, ram@, timer@, screen@.fb) =~= step(
                            m1,
                            key,
                            rnd,
                            now_ms,
                        ));
                    }
                },
                Instr::SetDelay { x } => {
                    let value = self.v[x as usize];
                    timer.set_delay(value, now_ms);
                    self.pc = self.pc + 2;
                    proof {
                        assert(machine_of(self@, ram@, timer@, screen@.fb) =~= step(
                            m1,
                            key,
                            rnd,
                            now_ms,
                        ));
                    }
                },
                Instr::SetSound { x: _ } => {
                    self.pc = self.pc + 2;
                    proof {
                        assert(machine_of(self@, ram@, timer@, screen@.fb) =~= step(
                            m1,
                            key,
                            rnd,
                            now_ms,
                        ));
                    }
                },
                Instr::AddToI { x } => {
                    self.i = self.i + self.v[x as usize] as u16;
                    self.pc = self.pc + 2;
                    proof {
                        assert(machine_of(self@, ram@, timer@, screen@.fb) =~= step(
                            m1,
                            key,
                            rnd,
                            now_ms,
                        ));
                    }
                },
                Instr::GlyphAddr { x } => {
                    self.i = self.v[x as usize] as u16 * 5;
                    self.pc = self.pc + 2;
                    proof {
                        assert(machine_of(self@, ram@, timer@, screen@.fb) =~= step(
                            m1,
                            key,
                            rnd,
                            now_ms,
                        ));
                    }
                },
                Instr::StoreBcd { x } => {
                    let value = self.v[x as usize];
                    ram.write(self.i, value / 100);
                    ram.write(self.i + 1, (value % 100) / 10);
                    ram.write(self.i + 2, value % 10);
                    self.pc = self.pc + 2;
                    proof {
                        assert(machine_of(self@, ram@, timer@, screen@.fb) =~= step(
                            m1,
                            key,
                            rnd,
                            now_ms,
                        ));
                    }
                },
                Instr::StoreRegs { x } => {
                    let address = self.i;
                    write_register_block(ram, &self.v, address, x);
                    self.pc = self.pc + 2;
                    proof {
                        assert(machine_of(self@, ram@, timer@, screen@.fb) =~= step(
                            m1,
                            key,
                            rnd,
                            now_ms,
                        ));
                    }
                },
                Instr::LoadRegs { x } => {
                    let address = self.i;
                    read_register_block(&mut self.v, ram, address, x);
                    self.pc = self.pc + 2;
                    proof {
                        assert(machine_of(self@, ram@, timer@, screen@.fb) =~= step(
                            m1,
                            key,
                            rnd,
                            now_ms,
                        ));
                    }
                },
            },
        }
    }
}

} // verus!
