//! Assembler and facade for the virtual machine: engine, memory, delay
//! timer, framebuffer and key latch, advanced at real-time-gated cadences
//! by the caller.
//!
//! Real time and randomness enter here as plain values: every method takes
//! the current millisecond count from the caller, and each step draws one
//! random byte whose use is fully specified by [`crate::cpu::step`].

use vstd::prelude::*;

use crate::clock::elapsed_ms;
use crate::cpu::Cpu;
use crate::cpu::CpuView;
use crate::cpu::MIN_INSTRUCTION_INTERVAL_MS;
use crate::cpu::MachineState;
use crate::cpu::NUM_REGISTERS;
use crate::cpu::machine_of;
use crate::cpu::step;
use crate::cpu::valid_step;
use crate::keyboard::Keyboard;
use crate::keyboard::KeyboardView;
use crate::keyboard::can_reset;
use crate::ram::DIGIT_SPRITES_LEN;
use crate::ram::MEMORY_SIZE;
use crate::ram::ROM_START_ADDRESS;
use crate::ram::Ram;
use crate::ram::digit_sprites;
use crate::screen::MIN_DISPLAY_INTERVAL_MS;
use crate::screen::SCREEN_HEIGHT;
use crate::screen::SCREEN_SIZE;
use crate::screen::SCREEN_WIDTH;
use crate::screen::Screen;
use crate::screen::ScreenView;
use crate::screen::fb_wf;
use crate::screen::pixel_index;
use crate::timer::Timer;
use crate::timer::TimerView;

verus! {

/// Relies on `rand::random`: an unconstrained pseudo-random byte from the
/// thread-local generator; nothing is promised of the result.
#[verifier::external_body]
fn random_byte() -> u8 {
    rand::random()
}

/// Mathematical state of an [`Emulator`]: the views of its components.
#[verifier::ext_equal]
pub struct EmulatorView {
    pub cpu: CpuView,
    pub mem: Seq<u8>,
    pub timer: TimerView,
    pub screen: ScreenView,
    pub keyboard: KeyboardView,
}

impl EmulatorView {
    /// The step-relevant part of the state.
    pub open spec fn machine(self) -> MachineState {
        machine_of(self.cpu, self.mem, self.timer, self.screen.fb)
    }

    /// Component well-formedness: 16 registers, a full address space, a
    /// full grid of binary cells.
    pub open spec fn wf(self) -> bool {
        &&& self.cpu.v.len() == NUM_REGISTERS
        &&& self.mem.len() == MEMORY_SIZE
        &&& fb_wf(self.screen.fb)
    }
}

/// The assembled virtual machine.
pub struct Emulator {
    cpu: Cpu,
    ram: Ram,
    timer: Timer,
    screen: Screen,
    keyboard: Keyboard,
}

impl View for Emulator {
    type V = EmulatorView;

    closed spec fn view(&self) -> EmulatorView {
        EmulatorView {
            cpu: self.cpu@,
            mem: self.ram@,
            timer: self.timer@,
            screen: self.screen@,
            keyboard: self.keyboard@,
        }
    }
}

impl Emulator {
    /// A fresh machine at time `now_ms`: glyph sprites loaded, the rest of
    /// memory zero, registers cleared, program counter at the program
    /// origin, dark screen, idle timer, no key latched.
    pub fn new(now_ms: u64) -> (r: Emulator)
        ensures
            r@.wf(),
            r@.cpu.pc == ROM_START_ADDRESS,
            r@.cpu.i == 0u16,
            r@.cpu.v == Seq::new(NUM_REGISTERS as nat, |j: int| 0u8),
            r@.cpu.stack == Seq::<u16>::empty(),
            r@.cpu.last_instruction_ms == now_ms,
            forall|j: int| 0 <= j < DIGIT_SPRITES_LEN ==> r@.mem[j] == digit_sprites()[j],
            forall|j: int| DIGIT_SPRITES_LEN <= j < MEMORY_SIZE ==> r@.mem[j] == 0u8,
            r@.timer == (TimerView { delay: 0u8, set_at_ms: now_ms }),
            r@.screen.fb == Seq::new(SCREEN_SIZE as nat, |i: int| 0u8),
            r@.screen.last_flush_ms == now_ms,
            r@.keyboard == (KeyboardView { pressed: None::<u8>, pressed_at_ms: now_ms }),
    {
        let mut ram = Ram::new();
        ram.load_digit_sprites();
        Emulator {
            cpu: Cpu::new(now_ms),
            ram,
            timer: Timer::new(now_ms),
            screen: Screen::new(now_ms),
            keyboard: Keyboard::new(now_ms),
        }
    }

    /// Copies a program image into memory at the program origin; nothing
    /// else is touched.
    pub fn load_rom(&mut self, data: &[u8])
        requires
            old(self)@.wf(),
            data@.len() <= MEMORY_SIZE - ROM_START_ADDRESS,
        ensures
            final(self)@.wf(),
            forall|j: int|
                0 <= j < data@.len() ==> final(self)@.mem[ROM_START_ADDRESS + j] == data@[j],
            forall|a: int|
                0 <= a < MEMORY_SIZE && !(ROM_START_ADDRESS <= a < ROM_START_ADDRESS
                    + data@.len()) ==> final(self)@.mem[a] == old(self)@.mem[a],
            final(self)@.cpu == old(self)@.cpu,
            final(self)@.timer == old(self)@.timer,
            final(self)@.screen == old(self)@.screen,
            final(self)@.keyboard == old(self)@.keyboard,
    {
        self.ram.load_rom(data);
    }

    /// Latches a key press at `now_ms`.
    pub fn press_key(&mut self, code: u8, now_ms: u64)
        ensures
            final(self)@ == (EmulatorView {
                keyboard: KeyboardView { pressed: Some(code), pressed_at_ms: now_ms },
                ..old(self)@
            }),
    {
        self.keyboard.press_key(code, now_ms);
    }

    /// Clears the latched key; only permitted once the hold has elapsed.
    pub fn reset_pressed_key(&mut self, now_ms: u64)
        requires
            can_reset(old(self)@.keyboard, now_ms),
        ensures
            final(self)@ == (EmulatorView {
                keyboard: KeyboardView {
                    pressed: None::<u8>,
                    pressed_at_ms: old(self)@.keyboard.pressed_at_ms,
                },
                ..old(self)@
            }),
    {
        self.keyboard.reset_pressed_key(now_ms);
    }

    /// Whether the latched key, if any, has been held long enough to be
    /// cleared.
    pub fn can_reset_pressed_key(&self, now_ms: u64) -> (r: bool)
        ensures
            r == can_reset(self@.keyboard, now_ms),
    {
        self.keyboard.can_reset_pressed_key(now_ms)
    }

    /// Executes exactly one instruction, drawing one random byte for it:
    /// the new state is [`step`] of the old one for that byte. The caller
    /// must have satisfied the instruction-interval gate and checked
    /// [`Emulator::instruction_is_valid`].
    pub fn run_instruction(&mut self, now_ms: u64)
        requires
            old(self)@.wf(),
            elapsed_ms(old(self)@.cpu.last_instruction_ms, now_ms)
                > MIN_INSTRUCTION_INTERVAL_MS,
            valid_step(
                old(self)@.cpu.v,
                old(self)@.cpu.i,
                old(self)@.cpu.pc,
                old(self)@.cpu.stack,
                old(self)@.mem,
            ),
        ensures
            final(self)@.wf(),
            exists|rnd: u8|
                final(self)@.machine() == step(
                    old(self)@.machine(),
                    old(self)@.keyboard.pressed,
                    rnd,
                    now_ms,
                ),
            final(self)@.keyboard == old(self)@.keyboard,
            final(self)@.screen.last_flush_ms == old(self)@.screen.last_flush_ms,
            final(self)@.cpu.last_instruction_ms == now_ms,
    {
        let rnd = random_byte();
        self.cpu.run_instruction(
            &mut self.ram,
            &mut self.timer,
            &mut self.screen,
            &self.keyboard,
            rnd,
            now_ms,
        );
        proof {
            assert(self@.machine() == step(
                old(self)@.machine(),
                old(self)@.keyboard.pressed,
                rnd,
                now_ms,
            ));
        }
    }

    /// Whether the minimum instruction interval has elapsed.
    pub fn can_run_instruction(&self, now_ms: u64) -> (r: bool)
        ensures
            r == (elapsed_ms(self@.cpu.last_instruction_ms, now_ms)
                > MIN_INSTRUCTION_INTERVAL_MS),
    {
        self.cpu.can_run_instruction(now_ms)
    }

    /// Whether the next fetch-decode-execute cycle is free of fatal
    /// conditions; running an instruction is only permitted when it is.
    pub fn instruction_is_valid(&self) -> (r: bool)
        requires
            self@.wf(),
        ensures
            r == valid_step(self@.cpu.v, self@.cpu.i, self@.cpu.pc, self@.cpu.stack, self@.mem),
    {
        self.cpu.instruction_is_valid(&self.ram)
    }

    /// Whether the minimum flush interval has elapsed.
    pub fn can_display(&self, now_ms: u64) -> (r: bool)
        ensures
            r == (elapsed_ms(self@.screen.last_flush_ms, now_ms) > MIN_DISPLAY_INTERVAL_MS),
    {
        self.screen.can_display(now_ms)
    }

    /// Records a flush to the display collaborator at `now_ms`.
    pub fn mark_displayed(&mut self, now_ms: u64)
        requires
            elapsed_ms(old(self)@.screen.last_flush_ms, now_ms) > MIN_DISPLAY_INTERVAL_MS,
        ensures
            final(self)@ == (EmulatorView {
                screen: ScreenView {
                    fb: old(self)@.screen.fb,
                    last_flush_ms: now_ms,
                },
                ..old(self)@
            }),
    {
        self.screen.mark_displayed(now_ms);
    }

    /// The full cell grid in row-major order, each cell 0 or 1.
    pub fn pixels(&self) -> (r: Vec<u8>)
        requires
            self@.wf(),
        ensures
            r@ == self@.screen.fb,
    {
        self.screen.pixels()
    }

    /// One cell of the grid.
    pub fn pixel(&self, x: usize, y: usize) -> (r: u8)
        requires
            self@.wf(),
            x < SCREEN_WIDTH,
            y < SCREEN_HEIGHT,
        ensures
            r == self@.screen.fb[pixel_index(x as int, y as int)],
            r <= 1,
    {
        self.screen.pixel(x, y)
    }

    /// One general-purpose register.
    pub fn register(&self, index: u8) -> (r: u8)
        requires
            self@.wf(),
            index < 16,
        ensures
            r == self@.cpu.v[index as int],
    {
        self.cpu.register(index)
    }

    /// The program counter.
    pub fn program_counter(&self) -> (r: u16)
        ensures
            r == self@.cpu.pc,
    {
        self.cpu.program_counter()
    }

    /// The address register.
    pub fn address_register(&self) -> (r: u16)
        ensures
            r == self@.cpu.i,
    {
        self.cpu.address_register()
    }

    /// The derived delay-timer value at `now_ms`.
    pub fn get_delay(&self, now_ms: u64) -> (r: u8)
        ensures
            r == crate::timer::timer_value(self@.timer, now_ms),
    {
        self.timer.get_delay(now_ms)
    }
}

} // verus!
