use chip8::custom_errors::{ExecutionError, NonUsedInstructionError};
use chip8::events::KeysState;
use chip8::instruction_executioner::{decode, iF_1E, iF_33};
use chip8::launch_options::{Quirks, CB};
use chip8::memory::{load_font, Memory};
use chip8::screen::{DisplayUpdate, Screen};

struct Machine {
    pc: u16,
    stack: Vec<u16>,
    screen: Screen,
    memory: Memory,
    keys_state: KeysState,
    quirks: Quirks,
}

fn machine_with(rom: &[u8]) -> Machine {
    let mut memory = Memory::new();
    memory.load_rom(rom).unwrap();
    load_font(&mut memory);
    Machine {
        pc: 0x200,
        stack: Vec::new(),
        screen: Screen::new(),
        memory,
        keys_state: KeysState::new(),
        quirks: Quirks::new(),
    }
}

fn cycle(machine: &mut Machine) -> Result<DisplayUpdate, ExecutionError> {
    decode(
        &mut machine.pc,
        &mut machine.stack,
        &mut machine.screen,
        &mut machine.memory,
        &machine.keys_state,
        &machine.quirks,
    )
}

fn picture(screen: &Screen) -> Vec<String> {
    (0..32u8)
        .map(|y| (0..64u8).map(|x| if screen.is_on(x, y) { '#' } else { '.' }).collect())
        .collect()
}

const IBM_LOGO: [u8; 132] = [
    0x00, 0xE0, 0xA2, 0x2A, 0x60, 0x0C, 0x61, 0x08, 0xD0, 0x1F, 0x70, 0x09, 0xA2, 0x39, 0xD0, 0x1F,
    0xA2, 0x48, 0x70, 0x08, 0xD0, 0x1F, 0x70, 0x04, 0xA2, 0x57, 0xD0, 0x1F, 0x70, 0x08, 0xA2, 0x66,
    0xD0, 0x1F, 0x70, 0x08, 0xA2, 0x75, 0xD0, 0x1F, 0x12, 0x28, 0xFF, 0x00, 0xFF, 0x00, 0x3C, 0x00,
    0x3C, 0x00, 0x3C, 0x00, 0x3C, 0x00, 0xFF, 0x00, 0xFF, 0xFF, 0x00, 0xFF, 0x00, 0x38, 0x00, 0x3F,
    0x00, 0x3F, 0x00, 0x38, 0x00, 0xFF, 0x00, 0xFF, 0x80, 0x00, 0xE0, 0x00, 0xE0, 0x00, 0x80, 0x00,
    0x80, 0x00, 0xE0, 0x00, 0xE0, 0x00, 0x80, 0xF8, 0x00, 0xFC, 0x00, 0x3E, 0x00, 0x3F, 0x00, 0x3B,
    0x00, 0x39, 0x00, 0xF8, 0x00, 0xF8, 0x03, 0x00, 0x07, 0x00, 0x0F, 0x00, 0xBF, 0x00, 0xFB, 0x00,
    0xF3, 0x00, 0xE3, 0x00, 0x43, 0xE0, 0x00, 0xE0, 0x00, 0x80, 0x00, 0x80, 0x00, 0x80, 0x00, 0x80,
    0x00, 0xE0, 0x00, 0xE0,
];

#[test]
fn ibm_logo() {
    let mut machine = machine_with(&IBM_LOGO);
    let mut toggled = 0;
    for step in 0..40 {
        let update = cycle(&mut machine).unwrap();
        match update {
            DisplayUpdate::Cleared => assert_eq!(step, 0),
            DisplayUpdate::Toggled(pixels) => toggled += pixels.len(),
            DisplayUpdate::Unchanged => {},
        }
    }
    let expected = vec![
        "................................................................",
        "................................................................",
        "................................................................",
        "................................................................",
        "................................................................",
        "................................................................",
        "................................................................",
        "................................................................",
        "............########.#########...#####.........#####............",
        "................................................................",
        "............########.###########.######.......######............",
        "................................................................",
        "..............####.....###...###...#####.....#####..............",
        "................................................................",
        "..............####.....#######.....#######.#######..............",
        "................................................................",
        "..............####.....#######.....###.#######.###..............",
        "................................................................",
        "..............####.....###...###...###..#####..###..............",
        "................................................................",
        "............########.###########.#####...###...#####............",
        "................................................................",
        "............########.#########...#####....#....#####............",
        "................................................................",
        "................................................................",
        "................................................................",
        "................................................................",
        "................................................................",
        "................................................................",
        "................................................................",
        "................................................................",
        "................................................................",
    ];
    assert_eq!(picture(&machine.screen), expected);
    assert_eq!(toggled, 208);
    assert_eq!(machine.pc, 0x228);
    assert_eq!(machine.memory.read_adress(), 0x275);
    assert_eq!(machine.memory.read_register(0), 49);
    assert_eq!(machine.memory.read_register(1), 8);
    assert_eq!(machine.memory.read_register(0xF), 0);
    assert!(machine.stack.is_empty());
}

#[test]
fn bcd() {
    let mut memory = Memory::new();
    memory.write_register(4, 0xFF);
    memory.write_adress(0x300);
    assert_eq!(iF_33(0xF433, &mut memory), Ok(()));
    assert_eq!(memory.read(0x300), Ok(2));
    assert_eq!(memory.read(0x301), Ok(5));
    assert_eq!(memory.read(0x302), Ok(5));
}

#[test]
fn index_overflow() {
    let mut memory = Memory::new();
    memory.write_register(3, 0x02);
    memory.write_adress(0x0FFF);
    iF_1E(0xF31E, &mut memory, &Quirks::new());
    assert_eq!(memory.read_register(0xF), 1);
    assert_eq!(memory.read_adress(), 0x0001);
}

#[test]
fn decode_advances_by_two() {
    // 6A12 7A01 8AB0 ANNN FX15 FX29 00E0
    let mut machine =
        machine_with(&[0x6A, 0x12, 0x7A, 0x01, 0x8A, 0xB0, 0xA3, 0x00, 0xFA, 0x15, 0xFA, 0x29, 0x00, 0xE0]);
    for step in 0..7u16 {
        assert_eq!(machine.pc, 0x200 + 2 * step);
        let update = cycle(&mut machine).unwrap();
        if step == 6 {
            assert_eq!(update, DisplayUpdate::Cleared);
        } else {
            assert_eq!(update, DisplayUpdate::Unchanged);
        }
    }
    assert_eq!(machine.pc, 0x20E);
    assert_eq!(machine.memory.read_register(0xA), 0);
    assert_eq!(machine.memory.read_delay_timer(), 0);
    assert_eq!(machine.memory.read_adress(), 50);
}

#[test]
fn decode_executes_the_arithmetic_family() {
    // V1 = 0xF0, V2 = 0x20, V1 += V2 (carry), V3 = VF
    let mut machine = machine_with(&[0x61, 0xF0, 0x62, 0x20, 0x81, 0x24, 0x83, 0xF0, 0x81, 0x26]);
    for _ in 0..4 {
        cycle(&mut machine).unwrap();
    }
    assert_eq!(machine.memory.read_register(1), 0x10);
    assert_eq!(machine.memory.read_register(3), 1);
    cycle(&mut machine).unwrap();
    assert_eq!(machine.memory.read_register(1), 0x08);
    assert_eq!(machine.memory.read_register(0xF), 0);
    assert_eq!(machine.pc, 0x20A);
}

#[test]
fn decode_jumps_calls_and_returns() {
    // 0x200: 2206 (call 0x206); 0x202: 1202 (loop); 0x206: 6001; 0x208: 00EE
    let mut machine = machine_with(&[0x22, 0x06, 0x12, 0x02, 0x00, 0x00, 0x60, 0x01, 0x00, 0xEE]);
    cycle(&mut machine).unwrap();
    assert_eq!(machine.pc, 0x206);
    assert_eq!(machine.stack, vec![0x202]);
    cycle(&mut machine).unwrap();
    assert_eq!(machine.pc, 0x208);
    cycle(&mut machine).unwrap();
    assert_eq!(machine.pc, 0x202);
    assert!(machine.stack.is_empty());
    cycle(&mut machine).unwrap();
    assert_eq!(machine.pc, 0x202);
    assert_eq!(machine.memory.read_register(0), 1);
}

#[test]
fn decode_skips() {
    // 6005 3005 (skip) 0000 4005 (no skip) 5010 (no skip: V1 = 0) 9010 (skip)
    let mut machine =
        machine_with(&[0x60, 0x05, 0x30, 0x05, 0x00, 0x00, 0x40, 0x05, 0x50, 0x10, 0x90, 0x10]);
    cycle(&mut machine).unwrap();
    cycle(&mut machine).unwrap();
    assert_eq!(machine.pc, 0x206);
    cycle(&mut machine).unwrap();
    assert_eq!(machine.pc, 0x208);
    cycle(&mut machine).unwrap();
    assert_eq!(machine.pc, 0x20A);
    cycle(&mut machine).unwrap();
    assert_eq!(machine.pc, 0x20E);
}

#[test]
fn decode_indexed_jump_follows_the_quirk() {
    let mut machine = machine_with(&[0x60, 0x04, 0x63, 0x08, 0xB3, 0x00]);
    cycle(&mut machine).unwrap();
    cycle(&mut machine).unwrap();
    cycle(&mut machine).unwrap();
    assert_eq!(machine.pc, 0x308);
    let mut machine = machine_with(&[0x60, 0x04, 0x63, 0x08, 0xB3, 0x00]);
    machine.quirks.jump_quirk = CB::OLD;
    cycle(&mut machine).unwrap();
    cycle(&mut machine).unwrap();
    cycle(&mut machine).unwrap();
    assert_eq!(machine.pc, 0x304);
}

#[test]
fn decode_waits_for_a_key_by_replaying() {
    let mut machine = machine_with(&[0xF5, 0x0A, 0x65, 0x77]);
    for _ in 0..5 {
        assert_eq!(cycle(&mut machine), Ok(DisplayUpdate::Unchanged));
        assert_eq!(machine.pc, 0x200);
    }
    machine.keys_state.update_state(0xB, true);
    cycle(&mut machine).unwrap();
    assert_eq!(machine.pc, 0x202);
    assert_eq!(machine.memory.read_register(5), 0xB);
}

#[test]
fn decode_key_skips() {
    let mut machine = machine_with(&[0x61, 0x07, 0xE1, 0x9E, 0xE1, 0xA1, 0x00, 0x00, 0xE1, 0x9E]);
    cycle(&mut machine).unwrap();
    cycle(&mut machine).unwrap();
    assert_eq!(machine.pc, 0x204);
    cycle(&mut machine).unwrap();
    assert_eq!(machine.pc, 0x208);
    machine.keys_state.update_state(7, true);
    cycle(&mut machine).unwrap();
    assert_eq!(machine.pc, 0x20C);
}

#[test]
fn decode_random_stays_under_the_mask() {
    let mut machine = machine_with(&[0xC1, 0x3C, 0x12, 0x00]);
    for _ in 0..100 {
        cycle(&mut machine).unwrap();
        assert_eq!(machine.pc, 0x202);
        assert_eq!(machine.memory.read_register(1) & !0x3C, 0);
        cycle(&mut machine).unwrap();
        assert_eq!(machine.pc, 0x200);
    }
}

#[test]
fn decode_draws_a_font_glyph_and_reports_the_pixels() {
    // V0 = 7; I = glyph 7; draw at (V1, V2) = (0, 0), 5 rows
    let mut machine = machine_with(&[0x60, 0x07, 0xF0, 0x29, 0xD1, 0x25, 0xD1, 0x25]);
    cycle(&mut machine).unwrap();
    cycle(&mut machine).unwrap();
    assert_eq!(machine.memory.read_adress(), 50 + 35);
    // F0 10 20 40 40
    let glyph = vec![(0, 0), (1, 0), (2, 0), (3, 0), (3, 1), (2, 2), (1, 3), (1, 4)];
    assert_eq!(cycle(&mut machine), Ok(DisplayUpdate::Toggled(glyph.clone())));
    assert_eq!(machine.memory.read_register(0xF), 0);
    assert_eq!(cycle(&mut machine), Ok(DisplayUpdate::Toggled(glyph)));
    assert_eq!(machine.memory.read_register(0xF), 1);
    assert!(picture(&machine.screen).iter().all(|row| !row.contains('#')));
}

#[test]
fn decode_reports_an_unknown_word_of_family_8() {
    let mut machine = machine_with(&[0x81, 0x28]);
    assert_eq!(
        cycle(&mut machine),
        Err(ExecutionError::UnimplementedInstruction(NonUsedInstructionError {
            pc: 0x200,
            instruction: 0x8128
        }))
    );
    assert_eq!(machine.pc, 0x202);
}

#[test]
fn decode_reports_an_unknown_word_of_family_f() {
    let mut machine = machine_with(&[0xF1, 0xFF]);
    assert_eq!(
        cycle(&mut machine),
        Err(ExecutionError::UnimplementedInstruction(NonUsedInstructionError {
            pc: 0x200,
            instruction: 0xF1FF
        }))
    );
    assert_eq!(machine.pc, 0x202);
}

#[test]
fn decode_reports_an_unknown_word_of_family_0() {
    let mut machine = machine_with(&[0x00, 0x00]);
    assert_eq!(
        cycle(&mut machine),
        Err(ExecutionError::UnimplementedInstruction(NonUsedInstructionError {
            pc: 0x202,
            instruction: 0x0000
        }))
    );
    assert_eq!(machine.pc, 0x202);
}

#[test]
fn decode_reports_unknown_words_of_families_5_9_and_e() {
    for word in [0x5121u16, 0x9121, 0xE100] {
        let mut machine = machine_with(&[(word >> 8) as u8, word as u8]);
        assert_eq!(
            cycle(&mut machine),
            Err(ExecutionError::UnimplementedInstruction(NonUsedInstructionError {
                pc: 0x200,
                instruction: word
            }))
        );
        assert_eq!(machine.pc, 0x202);
    }
}

#[test]
fn decode_return_with_empty_stack_underflows() {
    let mut machine = machine_with(&[0x00, 0xEE]);
    assert_eq!(cycle(&mut machine), Err(ExecutionError::StackUnderflow));
    assert_eq!(machine.pc, 0x202);
    assert!(machine.stack.is_empty());
}

#[test]
fn decode_fetch_past_the_end_of_memory_is_out_of_bounds() {
    let mut machine = machine_with(&[]);
    machine.pc = 0xFFF;
    assert_eq!(cycle(&mut machine), Err(ExecutionError::OutOfBounds));
    assert_eq!(machine.pc, 0xFFF);
    machine.pc = 0xFFFF;
    assert_eq!(cycle(&mut machine), Err(ExecutionError::OutOfBounds));
    assert_eq!(machine.pc, 0xFFFF);
    machine.pc = 0xFFE;
    machine.memory.write_word(0xFFE, 0x6123).unwrap();
    assert_eq!(cycle(&mut machine), Ok(DisplayUpdate::Unchanged));
    assert_eq!(machine.pc, 0x1000);
    assert_eq!(machine.memory.read_register(1), 0x23);
}

#[test]
fn decode_memory_access_past_the_end_is_out_of_bounds() {
    // I = 0xFFF, V0 = 123, FX33
    let mut machine = machine_with(&[0xAF, 0xFF, 0x60, 0x7B, 0xF0, 0x33]);
    cycle(&mut machine).unwrap();
    cycle(&mut machine).unwrap();
    assert_eq!(cycle(&mut machine), Err(ExecutionError::OutOfBounds));
    assert_eq!(machine.pc, 0x206);
    assert_eq!(machine.memory.read(0xFFF), Ok(0));
}

#[test]
fn decode_block_transfer_round_trip() {
    // V0..V2 = 1, 2, 3; I = 0x300; FX55; clear registers; FX65
    let mut machine = machine_with(&[
        0x60, 0x01, 0x61, 0x02, 0x62, 0x03, 0xA3, 0x00, 0xF2, 0x55, 0x60, 0x00, 0x61, 0x00, 0x62,
        0x00, 0xF2, 0x65,
    ]);
    for _ in 0..9 {
        cycle(&mut machine).unwrap();
    }
    assert_eq!(machine.memory.read(0x300), Ok(1));
    assert_eq!(machine.memory.read(0x302), Ok(3));
    assert_eq!(machine.memory.read_register(0), 1);
    assert_eq!(machine.memory.read_register(1), 2);
    assert_eq!(machine.memory.read_register(2), 3);
    assert_eq!(machine.memory.read_adress(), 0x300);
}
