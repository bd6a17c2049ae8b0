//! A CHIP-8 virtual machine: display, keypad, interpreter core and the
//! scheduling decisions of the emulation thread, with their contracts.

pub mod config;
pub mod display;
pub mod emulator;
pub mod keypad;
pub mod vm;
