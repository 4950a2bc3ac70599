pub mod constants;
pub mod cpu;
pub mod cpu_registers;
pub mod interrupt_handler;
pub mod timer;
pub mod joypad;
pub mod serial;
pub mod hdma_controller;
pub mod audio_controller;
pub mod custom_errors;
pub mod mbc;
pub mod ppu;
pub mod mmu;
pub mod game_app;
