//! Laws of the machine, proved over the meaning of its instructions.
use vstd::prelude::*;
use crate::custom_errors::ExecutionError;
use crate::events::first_pressed;
use crate::launch_options::{Quirks, CB};
use crate::memory::{MemoryView, MEMORY_SIZE};
use crate::screen::{covers, is_grid, lemma_draw_twice_restores, DisplayChange};
use crate::semantics::{
    after_add_immediate, after_arithmetic, after_call, after_return, after_shift, done, execute,
    execute_D, fetched, lemma_operands, n_of, nn_of, opcode_of, shift_source, sprite_fits,
    sprite_rows, sprite_x, sprite_y, step, vx_of, vy_of, x_of, y_of, Machine,
};

verus! {

// FETCH AND ADVANCE

/// Whether the instruction sets the program counter itself: a jump (1NNN,
/// BNNN), a call (2NNN), a return (00EE), a skip (3XNN, 4XNN, 5XY0, 9XY0,
/// EX9E, EXA1) or the wait for a key (FX0A).
pub open spec fn sets_counter(instruction: u16) -> bool {
    let opcode = opcode_of(instruction);
    ||| opcode == 1
    ||| opcode == 2
    ||| opcode == 0xB
    ||| instruction == 0x00EE
    ||| opcode == 3
    ||| opcode == 4
    ||| opcode == 5
    ||| opcode == 9
    ||| opcode == 0xE
    ||| (opcode == 0xF && nn_of(instruction) == 0x0A)
}

/// After a cycle whose fetch succeeds, the program counter is two past
/// where it was, whether the instruction succeeds or fails, unless the
/// instruction sets the counter itself. A skip leaves it two or four past
/// where it was. The wait for a key leaves it two past where it was if a key
/// is down and where it was if none is.
pub proof fn lemma_fetch_advances(machine: Machine, keys: Seq<bool>, quirks: Quirks, random: u8)
    requires
        machine.pc + 1 < MEMORY_SIZE,
    ensures
        !sets_counter(fetched(machine)) ==> step(machine, keys, quirks, random).machine.pc
            == machine.pc + 2,
        ({
            let opcode = opcode_of(fetched(machine));
            opcode == 3 || opcode == 4 || opcode == 5 || opcode == 9 || opcode == 0xE
        }) ==> step(machine, keys, quirks, random).machine.pc == machine.pc + 2 || step(
            machine,
            keys,
            quirks,
            random,
        ).machine.pc == machine.pc + 4,
        opcode_of(fetched(machine)) == 0xF && nn_of(fetched(machine)) == 0x0A ==> step(
            machine,
            keys,
            quirks,
            random,
        ).machine.pc == if first_pressed(keys) is Some {
            machine.pc + 2
        } else {
            machine.pc as int
        },
{
    lemma_operands(fetched(machine));
}

// ARITHMETIC

/// 7XNN leaves VX + NN modulo 256 in VX. 8XY4, 8XY5 and 8XY7 leave the sum
/// or difference modulo 256 in VX unless X is F, and in VF a flag: for 8XY4,
/// 1 exactly if VX + VY exceeds 255; for 8XY5, 1 exactly if VX >= VY; for
/// 8XY7, 1 exactly if VY >= VX; and 0 otherwise.
pub proof fn lemma_arithmetic_wraps(instruction: u16, memory: MemoryView)
    requires
        memory.wf(),
    ensures
        after_add_immediate(instruction, memory).registers[x_of(instruction)] == (vx_of(
            instruction,
            memory,
        ) + nn_of(instruction)) % 256,
        n_of(instruction) == 4 ==> {
            let after = after_arithmetic(instruction, memory);
            let sum = vx_of(instruction, memory) + vy_of(instruction, memory);
            &&& x_of(instruction) != 0xF ==> after.registers[x_of(instruction)] == sum % 256
            &&& after.registers[0xF] == 1 <==> sum > 255
            &&& after.registers[0xF] == 0 <==> sum <= 255
        },
        n_of(instruction) == 5 ==> {
            let after = after_arithmetic(instruction, memory);
            let vx = vx_of(instruction, memory);
            let vy = vy_of(instruction, memory);
            &&& x_of(instruction) != 0xF ==> after.registers[x_of(instruction)] == (vx - vy) % 256
            &&& after.registers[0xF] == 1 <==> vx >= vy
            &&& after.registers[0xF] == 0 <==> vx < vy
        },
        n_of(instruction) == 7 ==> {
            let after = after_arithmetic(instruction, memory);
            let vx = vx_of(instruction, memory);
            let vy = vy_of(instruction, memory);
            &&& x_of(instruction) != 0xF ==> after.registers[x_of(instruction)] == (vy - vx) % 256
            &&& after.registers[0xF] == 1 <==> vy >= vx
            &&& after.registers[0xF] == 0 <==> vy < vx
        },
{
    lemma_operands(instruction);
}

// CALLS AND RETURNS

/// The machine after a series of calls. Each call is given by the value of
/// the program counter when it is executed and by its instruction word.
pub open spec fn after_calls(machine: Machine, calls: Seq<(u16, u16)>) -> Machine
    decreases calls.len(),
{
    if calls.len() == 0 {
        machine
    } else {
        let earlier = after_calls(machine, calls.drop_last());
        after_call(Machine { pc: calls.last().0, ..earlier }, calls.last().1)
    }
}

/// The machine after `n` returns in a row.
pub open spec fn after_returns(machine: Machine, n: nat) -> Machine
    decreases n,
{
    if n == 0 {
        machine
    } else {
        after_return(after_returns(machine, (n - 1) as nat))
    }
}

/// After a series of calls, the stack holds the return addresses on top of
/// what it held, and the screen and memory are as they were.
pub proof fn lemma_calls_stack(machine: Machine, calls: Seq<(u16, u16)>)
    ensures
        after_calls(machine, calls).stack == machine.stack + calls.map_values(
            |call: (u16, u16)| call.0,
        ),
        after_calls(machine, calls).screen == machine.screen,
        after_calls(machine, calls).memory == machine.memory,
    decreases calls.len(),
{
    let addresses = calls.map_values(|call: (u16, u16)| call.0);
    if calls.len() > 0 {
        lemma_calls_stack(machine, calls.drop_last());
        let earlier = calls.drop_last().map_values(|call: (u16, u16)| call.0);
        assert(machine.stack + addresses =~= (machine.stack + earlier).push(calls.last().0));
    } else {
        assert(machine.stack + addresses =~= machine.stack);
    }
}

/// Calls and returns balance: after N calls, the k-th return that follows
/// finds an address to return to, sets the program counter to the value it
/// had at the k-th last call, and leaves the stack as it was before that
/// call. After N returns the stack is as it was before the first call.
pub proof fn lemma_stack_balance(machine: Machine, calls: Seq<(u16, u16)>, k: nat)
    requires
        k <= calls.len(),
    ensures
        after_returns(after_calls(machine, calls), k).stack == after_calls(
            machine,
            calls.take(calls.len() - k),
        ).stack,
        k > 0 ==> after_returns(after_calls(machine, calls), (k - 1) as nat).stack.len() > 0,
        k > 0 ==> after_returns(after_calls(machine, calls), k).pc == calls[calls.len() - k].0,
        k == calls.len() ==> after_returns(after_calls(machine, calls), k).stack == machine.stack,
    decreases k,
{
    if k == 0 {
        assert(calls.take(calls.len() as int) =~= calls);
    } else {
        lemma_stack_balance(machine, calls, (k - 1) as nat);
        let shorter = calls.take(calls.len() - k + 1);
        assert(shorter.drop_last() =~= calls.take(calls.len() - k));
        assert(shorter.last() == calls[calls.len() - k]);
        let earlier = after_calls(machine, shorter.drop_last());
        assert(after_calls(machine, shorter).stack == earlier.stack.push(shorter.last().0));
        assert(earlier.stack.push(shorter.last().0).drop_last() =~= earlier.stack);
        if k == calls.len() {
            assert(calls.take(0) =~= Seq::<(u16, u16)>::empty());
        }
    }
}

/// The instructions meet the model of calls and returns: 2NNN succeeds and
/// is one call, and 00EE with a stack that is not empty succeeds and is one
/// return.
pub proof fn lemma_call_and_return_execute(
    machine: Machine,
    instruction: u16,
    keys: Seq<bool>,
    quirks: Quirks,
    random: u8,
)
    ensures
        opcode_of(instruction) == 2 ==> execute(machine, instruction, keys, quirks, random) == done(
            after_call(machine, instruction),
        ),
        machine.stack.len() > 0 ==> execute(machine, 0x00EE, keys, quirks, random) == done(
            after_return(machine),
        ),
        machine.stack.len() == 0 ==> execute(machine, 0x00EE, keys, quirks, random).result == Err::<
            DisplayChange,
            ExecutionError,
        >(ExecutionError::StackUnderflow),
{
    assert(opcode_of(0x00EE) == 0) by {
        lemma_operands(0x00EE);
    }
}

// SHIFTS

/// The bit that 8XY6 or 8XYE pushes out of `source`: the lowest for the
/// shift to the right, the highest for the shift to the left.
pub open spec fn shifted_out(instruction: u16, source: u8) -> u8 {
    if n_of(instruction) == 6 {
        source & 1
    } else {
        source >> 7
    }
}

/// After 8XY6 or 8XYE, VF holds the lowest bit that VX had, unless X is F.
/// So VF holds the bit that was shifted out of the source exactly in these
/// cases: X is not F and the lowest bit of VX equals that bit, as it always
/// does for 8XY6 under NEW; or X is F, where VF ends up holding the shifted
/// value, and the source was 0, or was 3 and shifted to the right.
pub proof fn lemma_shift_flag(instruction: u16, memory: MemoryView, quirks: Quirks)
    requires
        memory.wf(),
        n_of(instruction) == 6 || n_of(instruction) == 0xE,
    ensures
        x_of(instruction) != 0xF ==> after_shift(instruction, memory, quirks).registers[0xF]
            == vx_of(instruction, memory) & 1,
        after_shift(instruction, memory, quirks).registers[0xF] == shifted_out(
            instruction,
            shift_source(instruction, memory, quirks),
        ) <==> (if x_of(instruction) == 0xF {
            shift_source(instruction, memory, quirks) == 0 || (n_of(instruction) == 6
                && shift_source(instruction, memory, quirks) == 3)
        } else {
            vx_of(instruction, memory) & 1 == shifted_out(
                instruction,
                shift_source(instruction, memory, quirks),
            )
        }),
        n_of(instruction) == 6 && quirks.shift_quirk == CB::NEW && x_of(instruction) != 0xF
            ==> after_shift(instruction, memory, quirks).registers[0xF] == shifted_out(
            instruction,
            shift_source(instruction, memory, quirks),
        ),
{
    lemma_operands(instruction);
    let source = shift_source(instruction, memory, quirks);
    assert((source >> 1 == source & 1) == (source == 0 || source == 3)) by (bit_vector);
    assert((source << 1 == source >> 7) == (source == 0)) by (bit_vector);
}

// DRAWING

/// DXYN executed twice in a row, with registers other than VF for the
/// coordinates, gives the screen back as it was. The second execution
/// succeeds as the first did, and leaves 1 in VF exactly if the sprite
/// covers a pixel that was lit after the first.
pub proof fn lemma_draw_twice(machine: Machine, instruction: u16)
    requires
        machine.memory.wf(),
        is_grid(machine.screen),
        x_of(instruction) != 0xF,
        y_of(instruction) != 0xF,
        sprite_fits(instruction, machine.memory),
    ensures
        ({
            let first = execute_D(machine, instruction);
            let second = execute_D(first.machine, instruction);
            &&& first.result is Ok
            &&& second.result is Ok
            &&& second.machine.screen == machine.screen
            &&& second.machine.memory.registers[0xF] == 1 <==> (exists|x: int, y: int|
                #[trigger] covers(
                    sprite_x(instruction, machine.memory),
                    sprite_y(instruction, machine.memory),
                    sprite_rows(instruction, machine.memory),
                    x,
                    y,
                ) && first.machine.screen[y][x])
            &&& second.machine.memory.registers[0xF] == 0 || second.machine.memory.registers[0xF]
                == 1
        }),
{
    lemma_operands(instruction);
    let first = execute_D(machine, instruction);
    assert(sprite_rows(instruction, first.machine.memory) =~= sprite_rows(
        instruction,
        machine.memory,
    ));
    lemma_draw_twice_restores(
        machine.screen,
        sprite_x(instruction, machine.memory),
        sprite_y(instruction, machine.memory),
        sprite_rows(instruction, machine.memory),
    );
}

} // verus!
