//! A CHIP-8 virtual machine: memory, registers, timers, framebuffer, keypad
//! and the instruction interpreter, with machine-checked contracts.
#![allow(non_snake_case)]

pub mod custom_errors;
pub mod events;
pub mod instruction_executioner;
pub mod launch_options;
pub mod laws;
pub mod memory;
pub mod screen;
pub mod semantics;
pub mod stack;
