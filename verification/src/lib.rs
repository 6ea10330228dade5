pub mod clock;
pub mod cpu;
pub mod emulator;
pub mod keyboard;
pub mod ram;
pub mod screen;
pub mod timer;
