//! The interpreter: one function per instruction family, and the
//! fetch-decode-execute cycle over them.
//!
//! The handlers take the program counter as the fetch stage left it, two
//! past the instruction that they execute.
use rand::Rng;
use vstd::prelude::*;
use crate::custom_errors::{ExecutionError, NonUsedInstructionError};
use crate::events::{first_pressed, KeysState};
use crate::launch_options::{Quirks, CB, FONT_ADRESS, GLYPH_SIZE};
use crate::memory::{overlay, Memory, MemoryView, MEMORY_SIZE};
use crate::screen::{blank, DisplayChange, DisplayUpdate, Screen, HEIGHT};
use crate::semantics::{
    after_add_immediate, after_add_to_index, after_arithmetic, after_bitwise,
    after_block_transfer, after_draw, after_random, after_set_timer, after_shift,
    after_store_decimal, block_fits, compares_registers, decimal_fits, execute, failed,
    glyph_address, indexed_jump_target, n_of, nn_of, nnn_of, opcode_of, pixels_of_draw,
    screen_after_draw, skip_if, skips_on_immediate, skips_on_key, skips_on_registers,
    sprite_fits, step, tests_key, unimplemented, vy_of, with_vx, x_of, y_of, Machine, Outcome,
};

verus! {

// OPERANDS

fn opcode(instruction: u16) -> (opcode: u16)
    ensures
        opcode == opcode_of(instruction),
        opcode < 16,
{
    assert((instruction & 0xF000) >> 12 < 16) by (bit_vector);
    (instruction & 0xF000) >> 12
}

fn operand_x(instruction: u16) -> (x: usize)
    ensures
        x == x_of(instruction),
        x < 16,
{
    assert((instruction & 0x0F00) >> 8 < 16) by (bit_vector);
    ((instruction & 0x0F00) >> 8) as usize
}

fn operand_y(instruction: u16) -> (y: usize)
    ensures
        y == y_of(instruction),
        y < 16,
{
    assert((instruction & 0x00F0) >> 4 < 16) by (bit_vector);
    ((instruction & 0x00F0) >> 4) as usize
}

fn operand_n(instruction: u16) -> (n: u16)
    ensures
        n == n_of(instruction),
        n < 16,
{
    assert(instruction & 0x000F < 16) by (bit_vector);
    instruction & 0x000F
}

fn operand_nn(instruction: u16) -> (nn: u8)
    ensures
        nn == nn_of(instruction),
{
    assert(instruction & 0x00FF < 256) by (bit_vector);
    (instruction & 0x00FF) as u8
}

fn operand_nnn(instruction: u16) -> (nnn: u16)
    ensures
        nnn == nnn_of(instruction),
        nnn < 0x1000,
{
    assert(instruction & 0x0FFF < 0x1000) by (bit_vector);
    instruction & 0x0FFF
}

// HANDLERS

/// 00E0 clears the screen. 00EE returns from a subroutine: the program
/// counter becomes the address on top of the stack, which is taken off.
///
/// A return with an empty stack fails and changes nothing, and so does any
/// other word.
pub fn i0(instruction: u16, pc: &mut u16, stack: &mut Vec<u16>, screen: &mut Screen) -> (result:
    Result<DisplayUpdate, ExecutionError>)
    ensures
        instruction == 0x00E0 ==> (result matches Ok(update) && update@ == DisplayChange::Cleared)
            && final(screen)@ == blank() && *final(pc) == *old(pc) && final(stack)@ == old(stack)@,
        instruction == 0x00EE && old(stack)@.len() > 0 ==> (result matches Ok(update) && update@
            == DisplayChange::Unchanged) && *final(pc) == old(stack)@.last() && final(stack)@
            == old(stack)@.drop_last() && final(screen)@ == old(screen)@,
        instruction == 0x00EE && old(stack)@.len() == 0 ==> result == Err::<
            DisplayUpdate,
            ExecutionError,
        >(ExecutionError::StackUnderflow),
        instruction != 0x00E0 && instruction != 0x00EE ==> result == Err::<
            DisplayUpdate,
            ExecutionError,
        >(unimplemented(*old(pc), instruction)),
        result is Err ==> *final(pc) == *old(pc) && final(stack)@ == old(stack)@ && final(screen)@ == old(screen)@,
{
    if instruction == 0x00E0 {
        screen.clear();
        Ok(DisplayUpdate::Cleared)
    } else if instruction == 0x00EE {
        match stack.pop() {
            Some(address) => {
                *pc = address;
                Ok(DisplayUpdate::Unchanged)
            },
            None => Err(ExecutionError::StackUnderflow),
        }
    } else {
        Err(
            ExecutionError::UnimplementedInstruction(
                NonUsedInstructionError { pc: *pc, instruction },
            ),
        )
    }
}

/// 1NNN: jump to NNN.
pub fn i1(instruction: u16, pc: &mut u16)
    ensures
        *final(pc) == nnn_of(instruction),
{
    *pc = operand_nnn(instruction);
}

/// 2NNN: call the subroutine at NNN. The program counter goes on the stack
/// and becomes NNN.
pub fn i2(instruction: u16, pc: &mut u16, stack: &mut Vec<u16>)
    ensures
        final(stack)@ == old(stack)@.push(*old(pc)),
        *final(pc) == nnn_of(instruction),
{
    stack.push(*pc);
    *pc = operand_nnn(instruction);
}

/// 3XNN skips the next instruction if VX == NN; 4XNN skips it if VX != NN.
/// With any other `opcode` nothing is skipped.
pub fn i34(instruction: u16, pc: &mut u16, memory: &Memory, opcode: u16)
    requires
        *old(pc) <= u16::MAX - 2,
    ensures
        *final(pc) == skip_if(*old(pc), skips_on_immediate(instruction, opcode, memory@)),
{
    let X: usize = operand_x(instruction);
    let NN: u8 = operand_nn(instruction);
    let VX: u8 = memory.read_register(X);
    if (opcode == 3 && VX == NN) || (opcode == 4 && VX != NN) {
        *pc = *pc + 2;
    }
}

/// 5XY0 skips the next instruction if VX == VY; 9XY0 skips it if VX != VY.
///
/// A word of these families whose lowest digit is not 0, or an `opcode`
/// other than 5 and 9, fails and leaves the program counter alone.
pub fn i59(instruction: u16, pc: &mut u16, opcode: u16, memory: &Memory) -> (result: Result<
    (),
    NonUsedInstructionError,
>)
    requires
        2 <= *old(pc) <= u16::MAX - 2,
    ensures
        compares_registers(instruction, opcode) ==> result == Ok::<(), NonUsedInstructionError>(
            (),
        ) && *final(pc) == skip_if(*old(pc), skips_on_registers(instruction, opcode, memory@)),
        !compares_registers(instruction, opcode) ==> result == Err::<(), NonUsedInstructionError>(
            NonUsedInstructionError { pc: (*old(pc) - 2) as u16, instruction },
        ) && *final(pc) == *old(pc),
{
    let X: usize = operand_x(instruction);
    let Y: usize = operand_y(instruction);
    let VX: u8 = memory.read_register(X);
    let VY: u8 = memory.read_register(Y);
    if (opcode == 5 || opcode == 9) && operand_n(instruction) == 0 {
        let condition_met = if opcode == 5 {
            VX == VY
        } else {
            VX != VY
        };
        if condition_met {
            *pc = *pc + 2;
        }
        return Ok(());
    }
    Err(NonUsedInstructionError { pc: *pc - 2, instruction })
}

/// 6XNN: VX becomes NN.
pub fn i6(instruction: u16, memory: &mut Memory)
    ensures
        final(memory)@ == with_vx(instruction, old(memory)@, nn_of(instruction)),
{
    let X: usize = operand_x(instruction);
    let NN: u8 = operand_nn(instruction);
    memory.write_register(X, NN);
}

/// 7XNN: VX becomes VX + NN modulo 256. VF is left alone.
pub fn i7(instruction: u16, memory: &mut Memory)
    ensures
        final(memory)@ == after_add_immediate(instruction, old(memory)@),
{
    let X: usize = operand_x(instruction);
    let NN: u8 = operand_nn(instruction);
    let VX: u8 = memory.read_register(X);
    memory.write_register(X, ((VX as u16 + NN as u16) % 256) as u8);
}

/// 8XY0: VX becomes VY.
pub fn i8_0(memory: &mut Memory, instruction: u16)
    ensures
        final(memory)@ == with_vx(instruction, old(memory)@, vy_of(instruction, old(memory)@)),
{
    let X: usize = operand_x(instruction);
    let Y: usize = operand_y(instruction);
    let VY: u8 = memory.read_register(Y);
    memory.write_register(X, VY);
}

/// 8XY1: VX becomes VX OR VY. 8XY2: VX AND VY. 8XY3: VX XOR VY.
pub fn i8_123(instruction: u16, memory: &mut Memory)
    requires
        1 <= n_of(instruction) <= 3,
    ensures
        final(memory)@ == after_bitwise(instruction, old(memory)@),
{
    let X: usize = operand_x(instruction);
    let Y: usize = operand_y(instruction);
    let N: u16 = operand_n(instruction);
    let VX: u8 = memory.read_register(X);
    let VY: u8 = memory.read_register(Y);
    if N == 1 {
        memory.write_register(X, VX | VY);
    } else if N == 2 {
        memory.write_register(X, VX & VY);
    } else {
        memory.write_register(X, VX ^ VY);
    }
}

/// 8XY4: VX becomes VX + VY modulo 256 and VF the carry.
/// 8XY5: VX becomes VX - VY modulo 256 and VF 1 unless there was a borrow.
/// 8XY7: VX becomes VY - VX modulo 256 and VF 1 unless there was a borrow.
///
/// Both operands are read first, and VF is written after VX.
pub fn i8_457(instruction: u16, memory: &mut Memory)
    requires
        n_of(instruction) == 4 || n_of(instruction) == 5 || n_of(instruction) == 7,
    ensures
        final(memory)@ == after_arithmetic(instruction, old(memory)@),
{
    let X: usize = operand_x(instruction);
    let Y: usize = operand_y(instruction);
    let N: u16 = operand_n(instruction);
    let VX: u8 = memory.read_register(X);
    let VY: u8 = memory.read_register(Y);
    if N == 4 {
        let sum: u16 = VX as u16 + VY as u16;
        memory.write_register(X, (sum % 256) as u8);
        memory.write_register(
            0xF,
            if sum > 255 {
                1
            } else {
                0
            },
        );
    } else {
        let (minuend, subtrahend): (u8, u8) = if N == 5 {
            (VX, VY)
        } else {
            (VY, VX)
        };
        let difference: u8 = if minuend >= subtrahend {
            minuend - subtrahend
        } else {
            (256 + minuend as u16 - subtrahend as u16) as u8
        };
        memory.write_register(X, difference);
        memory.write_register(
            0xF,
            if minuend >= subtrahend {
                1
            } else {
                0
            },
        );
    }
}

/// 8XY6 and 8XYE: VF becomes the lowest bit of VX; then VX becomes VX (NEW)
/// or VY (OLD) shifted by one bit, to the right for 8XY6 and to the left for
/// 8XYE. With any other lowest digit only VF is written.
///
/// Both registers are read before VF is written.
pub fn i8_6E(instruction: u16, memory: &mut Memory, quirks: &Quirks)
    ensures
        final(memory)@ == after_shift(instruction, old(memory)@, *quirks),
{
    let X: usize = operand_x(instruction);
    let Y: usize = operand_y(instruction);
    let N: u16 = operand_n(instruction);
    let VX: u8 = memory.read_register(X);
    let VY: u8 = memory.read_register(Y);
    let source: u8 = match quirks.shift_quirk {
        CB::OLD => VY,
        CB::NEW => VX,
    };
    memory.write_register(0xF, VX & 0x1);
    if N == 6 {
        memory.write_register(X, source >> 1);
    } else if N == 0xE {
        memory.write_register(X, source << 1);
    }
}

/// ANNN: I becomes NNN.
pub fn iA(memory: &mut Memory, instruction: u16)
    ensures
        final(memory)@ == (MemoryView {
            adress_register: nnn_of(instruction),
            ..old(memory)@
        }),
{
    memory.write_adress(operand_nnn(instruction));
}

/// BNNN: jump to NNN + V0 (OLD) or to NNN + VX (NEW).
pub fn iB(instruction: u16, pc: &mut u16, memory: &Memory, quirks: &Quirks)
    ensures
        *final(pc) == indexed_jump_target(instruction, memory@, *quirks),
{
    let NNN: u16 = operand_nnn(instruction);
    let X: usize = operand_x(instruction);
    match quirks.jump_quirk {
        CB::OLD => {
            let V0: u8 = memory.read_register(0);
            *pc = NNN + V0 as u16;
        },
        CB::NEW => {
            let VX: u8 = memory.read_register(X);
            *pc = NNN + VX as u16;
        },
    }
}

/// A byte from the thread-local generator of the `rand` crate
/// (`rand::thread_rng` and `Rng::gen`), which seeds itself from the
/// operating system. Nothing is claimed of the byte: it may be any.
#[verifier::external_body]
fn random_byte() -> (byte: u8) {
    rand::thread_rng().gen()
}

/// CXNN: VX becomes a random byte AND NN.
///
/// Whatever byte is drawn, VX ends up as the masking of some byte, and
/// nothing else changes.
pub fn iC(instruction: u16, memory: &mut Memory)
    ensures
        exists|random: u8| final(memory)@ == after_random(instruction, old(memory)@, random),
{
    let random: u8 = random_byte();
    iC_with_random(instruction, memory, random);
}

/// CXNN once the random byte is drawn: VX becomes `random` AND NN.
pub fn iC_with_random(instruction: u16, memory: &mut Memory, random: u8)
    ensures
        final(memory)@ == after_random(instruction, old(memory)@, random),
{
    let X: usize = operand_x(instruction);
    let NN: u8 = operand_nn(instruction);
    memory.write_register(X, random & NN);
}

/// DXYN: draws the sprite of up to N rows stored from I on, with its top
/// left corner at column VX % 64 of row VY % 32. VF becomes 1 if a lit pixel
/// was turned off and 0 if not. The result lists the pixels that changed.
///
/// Rows that would fall below the screen are not fetched. If a row that is
/// fetched lies past the end of memory, the instruction fails and changes
/// nothing.
pub fn iD(memory: &mut Memory, instruction: u16, screen: &mut Screen) -> (result: Result<
    DisplayUpdate,
    ExecutionError,
>)
    ensures
        sprite_fits(instruction, old(memory)@) ==> (result matches Ok(update) && update@
            == DisplayChange::Toggled(pixels_of_draw(instruction, old(memory)@))) && final(screen)@
            == screen_after_draw(instruction, old(memory)@, old(screen)@) && final(memory)@
            == after_draw(instruction, old(memory)@, old(screen)@),
        !sprite_fits(instruction, old(memory)@) ==> result == Err::<DisplayUpdate, ExecutionError>(
            ExecutionError::OutOfBounds,
        ) && final(screen)@ == old(screen)@ && final(memory)@ == old(memory)@,
{
    let X: usize = operand_x(instruction);
    let Y: usize = operand_y(instruction);
    let N: u16 = operand_n(instruction);
    let VX: u8 = memory.read_register(X);
    let VY: u8 = memory.read_register(Y);
    let I: u16 = memory.read_adress();
    let room: u16 = (HEIGHT - VY % HEIGHT) as u16;
    let height: u16 = if N < room {
        N
    } else {
        room
    };
    proof {
        memory.lemma_view_wf();
    }
    if I as usize + height as usize > MEMORY_SIZE {
        return Err(ExecutionError::OutOfBounds);
    }
    let mut rows: Vec<u8> = Vec::new();
    let mut i: u16 = 0;
    while i < height
        invariant
            i <= height <= 32,
            I + height <= MEMORY_SIZE,
            memory@.wf(),
            rows@ == memory@.data.subrange(I as int, I + i),
        decreases height - i,
    {
        let row: u8 = memory.read(I + i).unwrap();
        rows.push(row);
        i += 1;
        assert(rows@ =~= memory@.data.subrange(I as int, I + i));
    }
    let (collided, changed): (bool, Vec<(u8, u8)>) = screen.draw_sprite(VX, VY, rows.as_slice());
    memory.write_register(
        0xF,
        if collided {
            1
        } else {
            0
        },
    );
    Ok(DisplayUpdate::Toggled(changed))
}

/// EX9E skips the next instruction if the key whose number is in VX is
/// down; EXA1 skips it if that key is up.
///
/// Any other word of the family fails and leaves the program counter alone.
pub fn iE(instruction: u16, pc: &mut u16, memory: &Memory, keys_state: &KeysState) -> (result:
    Result<(), NonUsedInstructionError>)
    requires
        2 <= *old(pc) <= u16::MAX - 2,
    ensures
        tests_key(instruction) ==> result == Ok::<(), NonUsedInstructionError>(()) && *final(pc)
            == skip_if(*old(pc), skips_on_key(instruction, memory@, keys_state@)),
        !tests_key(instruction) ==> result == Err::<(), NonUsedInstructionError>(
            NonUsedInstructionError { pc: (*old(pc) - 2) as u16, instruction },
        ) && *final(pc) == *old(pc),
{
    let X: usize = operand_x(instruction);
    let NN: u8 = operand_nn(instruction);
    let VX: u8 = memory.read_register(X);
    let is_key_pressed_VX: bool = keys_state.read_state(VX);
    proof {
        keys_state.lemma_view_len();
    }
    if NN == 0x9E {
        if is_key_pressed_VX {
            *pc = *pc + 2;
        }
        Ok(())
    } else if NN == 0xA1 {
        if !is_key_pressed_VX {
            *pc = *pc + 2;
        }
        Ok(())
    } else {
        Err(NonUsedInstructionError { pc: *pc - 2, instruction })
    }
}

/// FX07: VX becomes the value of the delay timer.
pub fn iF_07(instruction: u16, memory: &mut Memory)
    ensures
        final(memory)@ == with_vx(instruction, old(memory)@, old(memory)@.delay_timer),
{
    let X: usize = operand_x(instruction);
    let timer_val: u8 = memory.read_delay_timer();
    memory.write_register(X, timer_val);
}

/// FX0A: waits for a key. If a key is down, VX becomes the lowest such key.
/// If none is, the program counter steps back by two, so that the
/// instruction is executed again on the next cycle.
pub fn iF_0A(instruction: u16, pc: &mut u16, memory: &mut Memory, keys_state: &KeysState)
    requires
        *old(pc) >= 2,
    ensures
        match first_pressed(keys_state@) {
            Some(key) => final(memory)@ == with_vx(instruction, old(memory)@, key) && *final(pc)
                == *old(pc),
            None => final(memory)@ == old(memory)@ && *final(pc) == *old(pc) - 2,
        },
{
    let X: usize = operand_x(instruction);
    match keys_state.is_key_pressed() {
        Some(key_pressed) => memory.write_register(X, key_pressed),
        None => {
            *pc = *pc - 2;
        },
    }
}

/// FX15: the delay timer becomes VX. FX18, and any other low byte: the sound
/// timer becomes VX.
pub fn iF_1518(instruction: u16, memory: &mut Memory)
    ensures
        final(memory)@ == after_set_timer(instruction, old(memory)@),
{
    let X: usize = operand_x(instruction);
    let NN: u8 = operand_nn(instruction);
    let VX: u8 = memory.read_register(X);
    if NN == 0x15 {
        memory.write_delay_timer(VX);
    } else {
        memory.write_sound_timer(VX);
    }
}

/// FX1E: I becomes I + VX modulo 0x1000. Under NEW, VF becomes 1 if the sum
/// exceeds 0xFFF and is left alone if not; under OLD it is always left alone.
pub fn iF_1E(instruction: u16, memory: &mut Memory, quirks: &Quirks)
    ensures
        final(memory)@ == after_add_to_index(instruction, old(memory)@, *quirks),
{
    let X: usize = operand_x(instruction);
    let VX: u8 = memory.read_register(X);
    let new_I: u32 = memory.read_adress() as u32 + VX as u32;
    let flagged: bool = match quirks.index_overflow_quirk {
        CB::NEW => new_I > 0xFFF,
        CB::OLD => false,
    };
    if flagged {
        memory.write_register(0xF, 1);
    }
    memory.write_adress((new_I % 0x1000) as u16);
    assert(memory@.registers =~= after_add_to_index(
        instruction,
        old(memory)@,
        *quirks,
    ).registers);
}

/// FX29: I becomes the address of the glyph for the low four bits of VX.
pub fn iF_29(instruction: u16, memory: &mut Memory)
    ensures
        final(memory)@ == (MemoryView {
            adress_register: glyph_address(instruction, old(memory)@),
            ..old(memory)@
        }),
{
    let X: usize = operand_x(instruction);
    let VX: u8 = memory.read_register(X);
    let char_0x: u8 = VX & 0x0F;
    assert(VX & 0x0F <= 15) by (bit_vector);
    memory.write_adress((char_0x as u16) * GLYPH_SIZE + FONT_ADRESS);
}

/// FX33: stores the hundreds, tens and units of VX at I, I + 1 and I + 2.
///
/// If one of the three addresses lies past the end of memory, the
/// instruction fails and changes nothing.
pub fn iF_33(instruction: u16, memory: &mut Memory) -> (result: Result<(), ExecutionError>)
    ensures
        decimal_fits(old(memory)@) ==> result == Ok::<(), ExecutionError>(()) && final(memory)@
            == after_store_decimal(instruction, old(memory)@),
        !decimal_fits(old(memory)@) ==> result == Err::<(), ExecutionError>(
            ExecutionError::OutOfBounds,
        ) && final(memory)@ == old(memory)@,
{
    let X: usize = operand_x(instruction);
    let VX: u8 = memory.read_register(X);
    let I: u16 = memory.read_adress();
    if I as usize + 2 >= MEMORY_SIZE {
        return Err(ExecutionError::OutOfBounds);
    }
    proof {
        memory.lemma_view_wf();
    }
    memory.write(I, VX / 100).unwrap();
    memory.write(I + 1, (VX / 10) % 10).unwrap();
    memory.write(I + 2, VX % 10).unwrap();
    assert(memory@.data =~= after_store_decimal(instruction, old(memory)@).data);
    Ok(())
}

/// FX55 stores V0 to VX at I and the addresses after it. FX65, and any other
/// low byte, loads V0 to VX from there. Under OLD, I then advances by X + 1.
///
/// If one of the X + 1 addresses lies past the end of memory, the
/// instruction fails and changes nothing.
pub fn iF_5565(instruction: u16, memory: &mut Memory, quirks: &Quirks) -> (result: Result<
    (),
    ExecutionError,
>)
    ensures
        block_fits(instruction, old(memory)@) ==> result == Ok::<(), ExecutionError>(()) && final(memory)@ == after_block_transfer(instruction, old(memory)@, *quirks),
        !block_fits(instruction, old(memory)@) ==> result == Err::<(), ExecutionError>(
            ExecutionError::OutOfBounds,
        ) && final(memory)@ == old(memory)@,
{
    let X: usize = operand_x(instruction);
    let NN: u8 = operand_nn(instruction);
    let I: u16 = memory.read_adress();
    if I as usize + X >= MEMORY_SIZE {
        return Err(ExecutionError::OutOfBounds);
    }
    proof {
        memory.lemma_view_wf();
    }
    let storing: bool = NN == 0x55;
    let mut i: usize = 0;
    assert(memory@.data =~= overlay(memory@.data, I as int, memory@.registers.take(0)));
    assert(memory@.registers =~= overlay(
        memory@.registers,
        0,
        memory@.data.subrange(I as int, I as int),
    ));
    while i < X + 1
        invariant
            X < 16,
            i <= X + 1,
            I + X < MEMORY_SIZE,
            old(memory)@.wf(),
            I == old(memory)@.adress_register,
            storing ==> memory@ == (MemoryView {
                data: overlay(old(memory)@.data, I as int, old(memory)@.registers.take(i as int)),
                ..old(memory)@
            }),
            !storing ==> memory@ == (MemoryView {
                registers: overlay(
                    old(memory)@.registers,
                    0,
                    old(memory)@.data.subrange(I as int, I + i),
                ),
                ..old(memory)@
            }),
        decreases X + 1 - i,
    {
        let address: u16 = I + i as u16;
        if storing {
            let Vi: u8 = memory.read_register(i);
            memory.write(address, Vi).unwrap();
            assert(memory@.data =~= overlay(
                old(memory)@.data,
                I as int,
                old(memory)@.registers.take(i + 1),
            ));
        } else {
            let future_Vi: u8 = memory.read(address).unwrap();
            memory.write_register(i, future_Vi);
            assert(memory@.registers =~= overlay(
                old(memory)@.registers,
                0,
                old(memory)@.data.subrange(I as int, I + i + 1),
            ));
        }
        i += 1;
    }
    match quirks.index_increment_quirk {
        CB::OLD => memory.write_adress(I + (X as u16) + 1),
        CB::NEW => {},
    }
    Ok(())
}

// THE CYCLE

/// What a cycle reports, as a mathematical value.
pub open spec fn reported(result: Result<DisplayUpdate, ExecutionError>) -> Result<
    DisplayChange,
    ExecutionError,
> {
    match result {
        Ok(update) => Ok(update@),
        Err(error) => Err(error),
    }
}

/// One cycle of the machine: fetches the word at the program counter,
/// advances the counter by two and executes the word.
///
/// The machine ends in the state, and the result is the report, that
/// [`step`] gives for the state before the cycle and for some random byte;
/// only CXNN depends on which. On success the result says what happened to
/// the picture. A fetch past the end of memory fails and changes nothing; a
/// word that is no instruction, a return with an empty stack and an access
/// past the end of memory fail and leave only the counter advanced.
pub fn decode(
    pc: &mut u16,
    stack: &mut Vec<u16>,
    screen: &mut Screen,
    memory: &mut Memory,
    keys_state: &KeysState,
    quirks: &Quirks,
) -> (result: Result<DisplayUpdate, ExecutionError>)
    ensures
        exists|random: u8|
            #[trigger] step(
                Machine {
                    pc: *old(pc),
                    stack: old(stack)@,
                    screen: old(screen)@,
                    memory: old(memory)@,
                },
                keys_state@,
                *quirks,
                random,
            ) == (Outcome {
                machine: Machine {
                    pc: *final(pc),
                    stack: final(stack)@,
                    screen: final(screen)@,
                    memory: final(memory)@,
                },
                result: reported(result),
            }),
{
    let ghost before = Machine {
        pc: *pc,
        stack: stack@,
        screen: screen@,
        memory: memory@,
    };
    let instruction: u16 = match memory.read_word(*pc) {
        Ok(word) => word,
        Err(_) => {
            assert(step(before, keys_state@, *quirks, 0) == failed(
                before,
                ExecutionError::OutOfBounds,
            ));
            return Err(ExecutionError::OutOfBounds);
        },
    };
    *pc = *pc + 2;
    let ghost ready = Machine { pc: *pc, ..before };
    let ghost mut random: u8 = 0;
    let family: u16 = opcode(instruction);
    let result: Result<DisplayUpdate, ExecutionError> = match family {
        0 => i0(instruction, pc, stack, screen),
        1 => {
            i1(instruction, pc);
            Ok(DisplayUpdate::Unchanged)
        },
        2 => {
            i2(instruction, pc, stack);
            Ok(DisplayUpdate::Unchanged)
        },
        3 | 4 => {
            i34(instruction, pc, memory, family);
            Ok(DisplayUpdate::Unchanged)
        },
        5 | 9 => match i59(instruction, pc, family, memory) {
            Ok(()) => Ok(DisplayUpdate::Unchanged),
            Err(error) => Err(ExecutionError::UnimplementedInstruction(error)),
        },
        6 => {
            i6(instruction, memory);
            Ok(DisplayUpdate::Unchanged)
        },
        7 => {
            i7(instruction, memory);
            Ok(DisplayUpdate::Unchanged)
        },
        8 => match operand_n(instruction) {
            0 => {
                i8_0(memory, instruction);
                Ok(DisplayUpdate::Unchanged)
            },
            1 | 2 | 3 => {
                i8_123(instruction, memory);
                Ok(DisplayUpdate::Unchanged)
            },
            4 | 5 | 7 => {
                i8_457(instruction, memory);
                Ok(DisplayUpdate::Unchanged)
            },
            6 | 0xE => {
                i8_6E(instruction, memory, quirks);
                Ok(DisplayUpdate::Unchanged)
            },
            _ => Err(
                ExecutionError::UnimplementedInstruction(
                    NonUsedInstructionError { pc: *pc - 2, instruction },
                ),
            ),
        },
        0xA => {
            iA(memory, instruction);
            Ok(DisplayUpdate::Unchanged)
        },
        0xB => {
            iB(instruction, pc, memory, quirks);
            Ok(DisplayUpdate::Unchanged)
        },
        0xC => {
            iC(instruction, memory);
            proof {
                random = choose|random: u8|
                    memory@ == after_random(instruction, before.memory, random);
            }
            Ok(DisplayUpdate::Unchanged)
        },
        0xD => iD(memory, instruction, screen),
        0xE => match iE(instruction, pc, memory, keys_state) {
            Ok(()) => Ok(DisplayUpdate::Unchanged),
            Err(error) => Err(ExecutionError::UnimplementedInstruction(error)),
        },
        _ => match operand_nn(instruction) {
            0x07 => {
                iF_07(instruction, memory);
                Ok(DisplayUpdate::Unchanged)
            },
            0x0A => {
                iF_0A(instruction, pc, memory, keys_state);
                Ok(DisplayUpdate::Unchanged)
            },
            0x15 | 0x18 => {
                iF_1518(instruction, memory);
                Ok(DisplayUpdate::Unchanged)
            },
            0x1E => {
                iF_1E(instruction, memory, quirks);
                Ok(DisplayUpdate::Unchanged)
            },
            0x29 => {
                iF_29(instruction, memory);
                Ok(DisplayUpdate::Unchanged)
            },
            0x33 => match iF_33(instruction, memory) {
                Ok(()) => Ok(DisplayUpdate::Unchanged),
                Err(error) => Err(error),
            },
            0x55 | 0x65 => match iF_5565(instruction, memory, quirks) {
                Ok(()) => Ok(DisplayUpdate::Unchanged),
                Err(error) => Err(error),
            },
            _ => Err(
                ExecutionError::UnimplementedInstruction(
                    NonUsedInstructionError { pc: *pc - 2, instruction },
                ),
            ),
        },
    };
    assert(execute(ready, instruction, keys_state@, *quirks, random) == (Outcome {
        machine: Machine { pc: *pc, stack: stack@, screen: screen@, memory: memory@ },
        result: reported(result),
    }));
    assert(step(before, keys_state@, *quirks, random) == execute(
        ready,
        instruction,
        keys_state@,
        *quirks,
        random,
    ));
    result
}

} // verus!
