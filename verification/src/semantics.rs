//! What each instruction means, as functions on mathematical values.
//!
//! The executable interpreter is specified against these functions, and the
//! laws of the machine are stated and proved over them.
use vstd::prelude::*;
use crate::custom_errors::{ExecutionError, NonUsedInstructionError};
use crate::events::first_pressed;
use crate::launch_options::{Quirks, CB, FONT_ADRESS, GLYPH_SIZE};
use crate::memory::{overlay, word_of, MemoryView, MEMORY_SIZE};
use crate::screen::{blank, collides, drawn, toggled_pixels, DisplayChange, HEIGHT, WIDTH};

verus! {

// OPERANDS

/// The family of an instruction: its highest four bits.
pub open spec fn opcode_of(instruction: u16) -> u16 {
    (instruction & 0xF000) >> 12
}

/// X: the second highest four bits, a register number.
pub open spec fn x_of(instruction: u16) -> int {
    ((instruction & 0x0F00) >> 8) as int
}

/// Y: the second lowest four bits, a register number.
pub open spec fn y_of(instruction: u16) -> int {
    ((instruction & 0x00F0) >> 4) as int
}

/// N: the lowest four bits.
pub open spec fn n_of(instruction: u16) -> u16 {
    instruction & 0x000F
}

/// NN: the low byte.
pub open spec fn nn_of(instruction: u16) -> u8 {
    (instruction & 0x00FF) as u8
}

/// NNN: the lowest twelve bits, an address.
pub open spec fn nnn_of(instruction: u16) -> u16 {
    instruction & 0x0FFF
}

/// The operands are the hexadecimal digits of the instruction.
pub proof fn lemma_operands(instruction: u16)
    ensures
        opcode_of(instruction) == instruction / 4096,
        x_of(instruction) == (instruction / 256) % 16,
        y_of(instruction) == (instruction / 16) % 16,
        n_of(instruction) == instruction % 16,
        nn_of(instruction) == instruction % 256,
        nnn_of(instruction) == instruction % 4096,
{
    assert((instruction & 0xF000) >> 12 == instruction / 4096 && (instruction & 0x0F00) >> 8 == (
    instruction / 256) % 16 && (instruction & 0x00F0) >> 4 == (instruction / 16) % 16 && instruction
        & 0x000F == instruction % 16 && instruction & 0x00FF == instruction % 256 && instruction
        & 0x0FFF == instruction % 4096) by (bit_vector);
}

/// The value of register VX.
pub open spec fn vx_of(instruction: u16, memory: MemoryView) -> u8 {
    memory.registers[x_of(instruction)]
}

/// The value of register VY.
pub open spec fn vy_of(instruction: u16, memory: MemoryView) -> u8 {
    memory.registers[y_of(instruction)]
}

/// The error for a word that is no instruction.
pub open spec fn unimplemented(pc: u16, instruction: u16) -> ExecutionError {
    ExecutionError::UnimplementedInstruction(NonUsedInstructionError { pc, instruction })
}

// CONTROL FLOW

/// The program counter after an instruction that skips the next one when
/// `condition` holds.
pub open spec fn skip_if(pc: u16, condition: bool) -> u16 {
    if condition {
        (pc + 2) as u16
    } else {
        pc
    }
}

/// 3XNN skips when VX == NN, 4XNN when VX != NN.
pub open spec fn skips_on_immediate(instruction: u16, opcode: u16, memory: MemoryView) -> bool {
    let vx = vx_of(instruction, memory);
    let nn = nn_of(instruction);
    (opcode == 3 && vx == nn) || (opcode == 4 && vx != nn)
}

/// 5XY0 and 9XY0 are the only instructions of their two families.
pub open spec fn compares_registers(instruction: u16, opcode: u16) -> bool {
    (opcode == 5 || opcode == 9) && n_of(instruction) == 0
}

/// 5XY0 skips when VX == VY, 9XY0 when VX != VY.
pub open spec fn skips_on_registers(instruction: u16, opcode: u16, memory: MemoryView) -> bool {
    let vx = vx_of(instruction, memory);
    let vy = vy_of(instruction, memory);
    if opcode == 5 {
        vx == vy
    } else {
        vx != vy
    }
}

/// BNNN: the target is NNN plus V0 (OLD) or plus VX (NEW).
pub open spec fn indexed_jump_target(instruction: u16, memory: MemoryView, quirks: Quirks) -> u16 {
    let offset = if quirks.jump_quirk == CB::OLD {
        memory.registers[0]
    } else {
        vx_of(instruction, memory)
    };
    (nnn_of(instruction) + offset) as u16
}

/// EX9E skips when key VX is down, EXA1 when it is up. A value of VX that
/// names no key counts as a key that is up.
pub open spec fn skips_on_key(instruction: u16, memory: MemoryView, keys: Seq<bool>) -> bool {
    let vx = vx_of(instruction, memory);
    let down = vx < keys.len() && keys[vx as int];
    if nn_of(instruction) == 0x9E {
        down
    } else {
        !down
    }
}

/// EX9E and EXA1 are the only instructions of their family.
pub open spec fn tests_key(instruction: u16) -> bool {
    nn_of(instruction) == 0x9E || nn_of(instruction) == 0xA1
}

// REGISTERS

/// `memory` with register VX set to `value`.
pub open spec fn with_vx(instruction: u16, memory: MemoryView, value: u8) -> MemoryView {
    MemoryView { registers: memory.registers.update(x_of(instruction), value), ..memory }
}

/// `memory` with register VX set to `value` and then VF set to `flag`.
pub open spec fn with_vx_then_vf(instruction: u16, memory: MemoryView, value: u8, flag: u8)
    -> MemoryView {
    MemoryView {
        registers: memory.registers.update(x_of(instruction), value).update(0xF, flag),
        ..memory
    }
}

/// 7XNN: VX + NN, cut to eight bits. VF is left alone.
pub open spec fn after_add_immediate(instruction: u16, memory: MemoryView) -> MemoryView {
    with_vx(
        instruction,
        memory,
        ((vx_of(instruction, memory) + nn_of(instruction)) % 256) as u8,
    )
}

/// 8XY1, 8XY2, 8XY3: VX becomes VX OR VY, VX AND VY, VX XOR VY.
pub open spec fn after_bitwise(instruction: u16, memory: MemoryView) -> MemoryView {
    let vx = vx_of(instruction, memory);
    let vy = vy_of(instruction, memory);
    let n = n_of(instruction);
    with_vx(
        instruction,
        memory,
        if n == 1 {
            vx | vy
        } else if n == 2 {
            vx & vy
        } else {
            vx ^ vy
        },
    )
}

/// 8XY4: VX becomes VX + VY cut to eight bits, then VF becomes 1 if the sum
/// exceeds 255 and 0 if not.
/// 8XY5: VX becomes VX - VY modulo 256, then VF becomes 1 if VX >= VY (no
/// borrow) and 0 if not.
/// 8XY7: as 8XY5 with VY - VX.
pub open spec fn after_arithmetic(instruction: u16, memory: MemoryView) -> MemoryView {
    let vx = vx_of(instruction, memory);
    let vy = vy_of(instruction, memory);
    let n = n_of(instruction);
    if n == 4 {
        with_vx_then_vf(
            instruction,
            memory,
            ((vx + vy) % 256) as u8,
            if vx + vy > 255 {
                1
            } else {
                0
            },
        )
    } else if n == 5 {
        with_vx_then_vf(
            instruction,
            memory,
            ((vx - vy) % 256) as u8,
            if vx >= vy {
                1
            } else {
                0
            },
        )
    } else {
        with_vx_then_vf(
            instruction,
            memory,
            ((vy - vx) % 256) as u8,
            if vy >= vx {
                1
            } else {
                0
            },
        )
    }
}

/// The register that a shift reads: VX (NEW) or VY (OLD).
pub open spec fn shift_source(instruction: u16, memory: MemoryView, quirks: Quirks) -> u8 {
    if quirks.shift_quirk == CB::OLD {
        vy_of(instruction, memory)
    } else {
        vx_of(instruction, memory)
    }
}

/// 8XY6 and 8XYE: VF becomes the lowest bit of VX, then VX becomes the
/// source shifted right (8XY6) or left (8XYE) by one bit. Any other N leaves
/// VX alone.
pub open spec fn after_shift(instruction: u16, memory: MemoryView, quirks: Quirks) -> MemoryView {
    let vx = vx_of(instruction, memory);
    let source = shift_source(instruction, memory, quirks);
    let n = n_of(instruction);
    let flagged = memory.registers.update(0xF, vx & 1);
    MemoryView {
        registers: if n == 6 {
            flagged.update(x_of(instruction), source >> 1)
        } else if n == 0xE {
            flagged.update(x_of(instruction), source << 1)
        } else {
            flagged
        },
        ..memory
    }
}

/// CXNN: VX becomes the random byte AND NN.
pub open spec fn after_random(instruction: u16, memory: MemoryView, random: u8) -> MemoryView {
    with_vx(instruction, memory, random & nn_of(instruction))
}

// TIMERS AND INDEX

/// FX15 sets the delay timer to VX; FX18, and any other low byte, the sound
/// timer.
pub open spec fn after_set_timer(instruction: u16, memory: MemoryView) -> MemoryView {
    let vx = vx_of(instruction, memory);
    if nn_of(instruction) == 0x15 {
        MemoryView { delay_timer: vx, ..memory }
    } else {
        MemoryView { sound_timer: vx, ..memory }
    }
}

/// FX1E: I becomes I + VX modulo 0x1000. Under NEW, VF is first set to 1 if
/// the sum exceeds 0xFFF, and left alone if not.
pub open spec fn after_add_to_index(instruction: u16, memory: MemoryView, quirks: Quirks)
    -> MemoryView {
    let sum = memory.adress_register + vx_of(instruction, memory);
    MemoryView {
        registers: if quirks.index_overflow_quirk == CB::NEW && sum > 0xFFF {
            memory.registers.update(0xF, 1)
        } else {
            memory.registers
        },
        adress_register: (sum % 0x1000) as u16,
        ..memory
    }
}

/// FX29: I becomes the address of the glyph for the low four bits of VX.
pub open spec fn glyph_address(instruction: u16, memory: MemoryView) -> u16 {
    ((vx_of(instruction, memory) & 0x0F) * GLYPH_SIZE + FONT_ADRESS) as u16
}

// MEMORY

/// The three decimal digits of a byte: hundreds, tens, units.
pub open spec fn decimal_digits(value: u8) -> Seq<u8> {
    seq![value / 100, (value / 10) % 10, value % 10]
}

/// FX33 needs the three bytes from I on.
pub open spec fn decimal_fits(memory: MemoryView) -> bool {
    memory.adress_register + 2 < MEMORY_SIZE
}

/// FX33: the digits of VX are stored at I, I + 1 and I + 2.
pub open spec fn after_store_decimal(instruction: u16, memory: MemoryView) -> MemoryView {
    MemoryView {
        data: overlay(
            memory.data,
            memory.adress_register as int,
            decimal_digits(vx_of(instruction, memory)),
        ),
        ..memory
    }
}

/// FX55 and FX65 need the X + 1 bytes from I on.
pub open spec fn block_fits(instruction: u16, memory: MemoryView) -> bool {
    memory.adress_register + x_of(instruction) < MEMORY_SIZE
}

/// FX55 stores V0 to VX at I and the addresses after it; FX65, and any other
/// low byte, loads them from there. Under OLD, I then advances by X + 1.
pub open spec fn after_block_transfer(instruction: u16, memory: MemoryView, quirks: Quirks)
    -> MemoryView {
    let count = x_of(instruction) + 1;
    let start = memory.adress_register as int;
    let adress_register = if quirks.index_increment_quirk == CB::OLD {
        (start + count) as u16
    } else {
        memory.adress_register
    };
    if nn_of(instruction) == 0x55 {
        MemoryView {
            data: overlay(memory.data, start, memory.registers.take(count)),
            adress_register,
            ..memory
        }
    } else {
        MemoryView {
            registers: overlay(memory.registers, 0, memory.data.subrange(start, start + count)),
            adress_register,
            ..memory
        }
    }
}

// DRAWING

/// Column of the top left corner of the sprite of DXYN.
pub open spec fn sprite_x(instruction: u16, memory: MemoryView) -> int {
    (vx_of(instruction, memory) % WIDTH) as int
}

/// Row of the top left corner of the sprite of DXYN.
pub open spec fn sprite_y(instruction: u16, memory: MemoryView) -> int {
    (vy_of(instruction, memory) % HEIGHT) as int
}

/// Number of rows of the sprite of DXYN that reach the screen: N, or fewer
/// where the sprite would pass the bottom edge. Only these are fetched.
pub open spec fn sprite_height(instruction: u16, memory: MemoryView) -> int {
    let n = n_of(instruction) as int;
    let room = HEIGHT - sprite_y(instruction, memory);
    if n < room {
        n
    } else {
        room
    }
}

/// DXYN needs the rows it fetches, from I on, to lie in memory.
pub open spec fn sprite_fits(instruction: u16, memory: MemoryView) -> bool {
    memory.adress_register + sprite_height(instruction, memory) <= MEMORY_SIZE
}

/// The rows that DXYN fetches.
pub open spec fn sprite_rows(instruction: u16, memory: MemoryView) -> Seq<u8> {
    memory.data.subrange(
        memory.adress_register as int,
        memory.adress_register + sprite_height(instruction, memory),
    )
}

/// DXYN: the screen after the sprite is drawn.
pub open spec fn screen_after_draw(instruction: u16, memory: MemoryView, screen: Seq<Seq<bool>>)
    -> Seq<Seq<bool>> {
    drawn(
        screen,
        sprite_x(instruction, memory),
        sprite_y(instruction, memory),
        sprite_rows(instruction, memory),
    )
}

/// DXYN: VF becomes 1 if a lit pixel was turned off and 0 if not.
pub open spec fn after_draw(instruction: u16, memory: MemoryView, screen: Seq<Seq<bool>>)
    -> MemoryView {
    MemoryView {
        registers: memory.registers.update(
            0xF,
            if collides(
                screen,
                sprite_x(instruction, memory),
                sprite_y(instruction, memory),
                sprite_rows(instruction, memory),
            ) {
                1
            } else {
                0
            },
        ),
        ..memory
    }
}

/// DXYN: the pixels that changed.
pub open spec fn pixels_of_draw(instruction: u16, memory: MemoryView) -> Seq<(u8, u8)> {
    toggled_pixels(
        sprite_x(instruction, memory),
        sprite_y(instruction, memory),
        sprite_rows(instruction, memory),
    )
}

// THE CYCLE

/// The state that an instruction can change, as mathematical values.
pub struct Machine {
    /// The program counter.
    pub pc: u16,
    /// The return addresses, the most recent call last.
    pub stack: Seq<u16>,
    /// The picture, rows from top to bottom.
    pub screen: Seq<Seq<bool>>,
    /// Bytes, registers and timers.
    pub memory: MemoryView,
}

/// The state in which an instruction leaves the machine, and what it
/// reports: the change of the picture, or why it failed.
pub struct Outcome {
    pub machine: Machine,
    pub result: Result<DisplayChange, ExecutionError>,
}

/// The instruction succeeded and left the picture alone.
pub open spec fn done(machine: Machine) -> Outcome {
    Outcome { machine, result: Ok(DisplayChange::Unchanged) }
}

/// The instruction failed.
pub open spec fn failed(machine: Machine, error: ExecutionError) -> Outcome {
    Outcome { machine, result: Err(error) }
}

/// The instruction succeeded, changed `memory` at most, and left the
/// picture alone.
pub open spec fn done_with(machine: Machine, memory: MemoryView) -> Outcome {
    done(Machine { memory, ..machine })
}

/// The word at the program counter, high byte first.
pub open spec fn fetched(machine: Machine) -> u16 {
    word_of(machine.memory.data[machine.pc as int], machine.memory.data[machine.pc + 1])
}

/// 2NNN: the program counter goes on the stack and becomes NNN.
pub open spec fn after_call(machine: Machine, instruction: u16) -> Machine {
    Machine { pc: nnn_of(instruction), stack: machine.stack.push(machine.pc), ..machine }
}

/// 00EE with a stack that is not empty: the program counter becomes the
/// address on top of the stack, which is taken off.
pub open spec fn after_return(machine: Machine) -> Machine {
    Machine { pc: machine.stack.last(), stack: machine.stack.drop_last(), ..machine }
}

/// The family 0: 00E0 clears the screen, 00EE returns from a subroutine.
pub open spec fn execute_0(machine: Machine, instruction: u16) -> Outcome {
    if instruction == 0x00E0 {
        Outcome { machine: Machine { screen: blank(), ..machine }, result: Ok(DisplayChange::Cleared) }
    } else if instruction == 0x00EE {
        if machine.stack.len() > 0 {
            done(after_return(machine))
        } else {
            failed(machine, ExecutionError::StackUnderflow)
        }
    } else {
        failed(machine, unimplemented(machine.pc, instruction))
    }
}

/// The family 8: register to register.
pub open spec fn execute_8(machine: Machine, instruction: u16, quirks: Quirks) -> Outcome {
    let memory = machine.memory;
    let n = n_of(instruction);
    if n == 0 {
        done_with(machine, with_vx(instruction, memory, vy_of(instruction, memory)))
    } else if 1 <= n <= 3 {
        done_with(machine, after_bitwise(instruction, memory))
    } else if n == 4 || n == 5 || n == 7 {
        done_with(machine, after_arithmetic(instruction, memory))
    } else if n == 6 || n == 0xE {
        done_with(machine, after_shift(instruction, memory, quirks))
    } else {
        failed(machine, unimplemented((machine.pc - 2) as u16, instruction))
    }
}

/// DXYN: draw a sprite.
pub open spec fn execute_D(machine: Machine, instruction: u16) -> Outcome {
    let memory = machine.memory;
    if sprite_fits(instruction, memory) {
        Outcome {
            machine: Machine {
                screen: screen_after_draw(instruction, memory, machine.screen),
                memory: after_draw(instruction, memory, machine.screen),
                ..machine
            },
            result: Ok(DisplayChange::Toggled(pixels_of_draw(instruction, memory))),
        }
    } else {
        failed(machine, ExecutionError::OutOfBounds)
    }
}

/// The family F: timers, keys, the index register and memory.
pub open spec fn execute_F(machine: Machine, instruction: u16, keys: Seq<bool>, quirks: Quirks)
    -> Outcome {
    let memory = machine.memory;
    let nn = nn_of(instruction);
    if nn == 0x07 {
        done_with(machine, with_vx(instruction, memory, memory.delay_timer))
    } else if nn == 0x0A {
        match first_pressed(keys) {
            Some(key) => done_with(machine, with_vx(instruction, memory, key)),
            None => done(Machine { pc: (machine.pc - 2) as u16, ..machine }),
        }
    } else if nn == 0x15 || nn == 0x18 {
        done_with(machine, after_set_timer(instruction, memory))
    } else if nn == 0x1E {
        done_with(machine, after_add_to_index(instruction, memory, quirks))
    } else if nn == 0x29 {
        done_with(
            machine,
            MemoryView { adress_register: glyph_address(instruction, memory), ..memory },
        )
    } else if nn == 0x33 {
        if decimal_fits(memory) {
            done_with(machine, after_store_decimal(instruction, memory))
        } else {
            failed(machine, ExecutionError::OutOfBounds)
        }
    } else if nn == 0x55 || nn == 0x65 {
        if block_fits(instruction, memory) {
            done_with(machine, after_block_transfer(instruction, memory, quirks))
        } else {
            failed(machine, ExecutionError::OutOfBounds)
        }
    } else {
        failed(machine, unimplemented((machine.pc - 2) as u16, instruction))
    }
}

/// What `instruction` does to a machine whose program counter already
/// points past it. `random` is the byte that CXNN draws.
pub open spec fn execute(
    machine: Machine,
    instruction: u16,
    keys: Seq<bool>,
    quirks: Quirks,
    random: u8,
) -> Outcome {
    let opcode = opcode_of(instruction);
    let memory = machine.memory;
    let pc = machine.pc;
    if opcode == 0 {
        execute_0(machine, instruction)
    } else if opcode == 1 {
        done(Machine { pc: nnn_of(instruction), ..machine })
    } else if opcode == 2 {
        done(after_call(machine, instruction))
    } else if opcode == 3 || opcode == 4 {
        done(Machine { pc: skip_if(pc, skips_on_immediate(instruction, opcode, memory)), ..machine })
    } else if opcode == 5 || opcode == 9 {
        if compares_registers(instruction, opcode) {
            done(
                Machine {
                    pc: skip_if(pc, skips_on_registers(instruction, opcode, memory)),
                    ..machine
                },
            )
        } else {
            failed(machine, unimplemented((pc - 2) as u16, instruction))
        }
    } else if opcode == 6 {
        done_with(machine, with_vx(instruction, memory, nn_of(instruction)))
    } else if opcode == 7 {
        done_with(machine, after_add_immediate(instruction, memory))
    } else if opcode == 8 {
        execute_8(machine, instruction, quirks)
    } else if opcode == 0xA {
        done_with(machine, MemoryView { adress_register: nnn_of(instruction), ..memory })
    } else if opcode == 0xB {
        done(Machine { pc: indexed_jump_target(instruction, memory, quirks), ..machine })
    } else if opcode == 0xC {
        done_with(machine, after_random(instruction, memory, random))
    } else if opcode == 0xD {
        execute_D(machine, instruction)
    } else if opcode == 0xE {
        if tests_key(instruction) {
            done(Machine { pc: skip_if(pc, skips_on_key(instruction, memory, keys)), ..machine })
        } else {
            failed(machine, unimplemented((pc - 2) as u16, instruction))
        }
    } else {
        execute_F(machine, instruction, keys, quirks)
    }
}

/// One cycle: fetch the word at the program counter, advance the counter by
/// two, execute the word.
///
/// A fetch past the end of memory fails and changes nothing. An instruction
/// that fails leaves the counter advanced and changes nothing else.
pub open spec fn step(machine: Machine, keys: Seq<bool>, quirks: Quirks, random: u8) -> Outcome {
    if machine.pc + 1 < MEMORY_SIZE {
        execute(
            Machine { pc: (machine.pc + 2) as u16, ..machine },
            fetched(machine),
            keys,
            quirks,
            random,
        )
    } else {
        failed(machine, ExecutionError::OutOfBounds)
    }
}

} // verus!
