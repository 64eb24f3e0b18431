//! The byte store of the machine together with its register file and timers.
use vstd::prelude::*;
use crate::custom_errors::MemoryError;
use crate::launch_options::{FONT_ADRESS, FONT_SET, ROM_ADRESS};

verus! {

/// Number of addressable bytes.
pub const MEMORY_SIZE: usize = 4096;

/// Number of general-purpose registers, V0 to VF.
pub const NB_REGISTERS: usize = 16;

/// Bytes, registers and timers of the machine.
pub struct Memory {
    data: [u8; 4096],
    registers: [u8; 16],
    adress_register: u16,
    delay_timer: u8,
    sound_timer: u8,
}

/// What a [`Memory`] holds, as mathematical values.
pub struct MemoryView {
    /// The bytes, by address.
    pub data: Seq<u8>,
    /// V0 to VF.
    pub registers: Seq<u8>,
    /// The index register I.
    pub adress_register: u16,
    pub delay_timer: u8,
    pub sound_timer: u8,
}

impl MemoryView {
    /// The shape that the view of every [`Memory`] has.
    pub open spec fn wf(self) -> bool {
        self.data.len() == MEMORY_SIZE && self.registers.len() == NB_REGISTERS
    }
}

/// `data` with `bytes` laid over it from address `at` on.
pub open spec fn overlay(data: Seq<u8>, at: int, bytes: Seq<u8>) -> Seq<u8> {
    Seq::new(
        data.len(),
        |k: int|
            if at <= k < at + bytes.len() {
                bytes[k - at]
            } else {
                data[k]
            },
    )
}

/// The 16-bit value whose high byte is `high` and whose low byte is `low`.
pub open spec fn word_of(high: u8, low: u8) -> u16 {
    (high as int * 256 + low as int) as u16
}

/// A timer one sixtieth of a second after it held `value`.
pub open spec fn timer_tick(value: u8) -> u8 {
    if value > 0 {
        (value - 1) as u8
    } else {
        0
    }
}

/// A timer `n` sixtieths of a second after it held `value`, with no write
/// in between.
pub open spec fn timer_after(value: u8, n: nat) -> u8
    decreases n,
{
    if n == 0 {
        value
    } else {
        timer_after(timer_tick(value), (n - 1) as nat)
    }
}

impl View for Memory {
    type V = MemoryView;

    closed spec fn view(&self) -> MemoryView {
        MemoryView {
            data: self.data@,
            registers: self.registers@,
            adress_register: self.adress_register,
            delay_timer: self.delay_timer,
            sound_timer: self.sound_timer,
        }
    }
}

impl Memory {
    /// Every memory holds 4096 bytes and 16 registers.
    pub proof fn lemma_view_wf(&self)
        ensures
            self@.wf(),
    {
    }

    /// A memory in which every byte, register and timer is zero.
    pub fn new() -> (memory: Memory)
        ensures
            memory@ == (MemoryView {
                data: Seq::new(MEMORY_SIZE as nat, |i: int| 0u8),
                registers: Seq::new(NB_REGISTERS as nat, |i: int| 0u8),
                adress_register: 0,
                delay_timer: 0,
                sound_timer: 0,
            }),
    {
        let memory = Memory {
            data: [0;4096],
            registers: [0;16],
            adress_register: 0,
            delay_timer: 0,
            sound_timer: 0,
        };
        assert(memory@.data =~= Seq::new(MEMORY_SIZE as nat, |i: int| 0u8));
        assert(memory@.registers =~= Seq::new(NB_REGISTERS as nat, |i: int| 0u8));
        memory
    }

    // SETUP

    /// Copies a program image to address 0x200 and the addresses after it.
    ///
    /// An image longer than the 3584 bytes between 0x200 and the end of
    /// memory is refused and nothing is written.
    pub fn load_rom(&mut self, rom: &[u8]) -> (result: Result<(), MemoryError>)
        ensures
            rom@.len() <= MEMORY_SIZE - ROM_ADRESS ==> result == Ok::<(), MemoryError>(())
                && final(self)@ == (MemoryView {
                data: overlay(old(self)@.data, ROM_ADRESS as int, rom@),
                ..old(self)@
            }),
            rom@.len() > MEMORY_SIZE - ROM_ADRESS ==> result == Err::<(), MemoryError>(
                MemoryError::RomTooLarge,
            ) && final(self)@ == old(self)@,
    {
        let start: usize = ROM_ADRESS as usize;
        if rom.len() > MEMORY_SIZE - start {
            return Err(MemoryError::RomTooLarge);
        }
        let mut i: usize = 0;
        assert(self@.data =~= overlay(self@.data, start as int, rom@.subrange(0, 0)));
        while i < rom.len()
            invariant
                start == ROM_ADRESS,
                i <= rom@.len() <= MEMORY_SIZE - start,
                self@ == (MemoryView {
                    data: overlay(old(self)@.data, start as int, rom@.subrange(0, i as int)),
                    ..old(self)@
                }),
            decreases rom@.len() - i,
        {
            self.data[start + i] = rom[i];
            i += 1;
            assert(self@.data =~= overlay(
                old(self)@.data,
                start as int,
                rom@.subrange(0, i as int),
            ));
        }
        assert(rom@.subrange(0, i as int) =~= rom@);
        Ok(())
    }

    // DATA

    /// The byte at `address`.
    pub fn read(&self, address: u16) -> (result: Result<u8, MemoryError>)
        ensures
            address < MEMORY_SIZE ==> result == Ok::<u8, MemoryError>(self@.data[address as int]),
            address >= MEMORY_SIZE ==> result == Err::<u8, MemoryError>(MemoryError::OutOfBounds),
    {
        if (address as usize) < MEMORY_SIZE {
            Ok(self.data[address as usize])
        } else {
            Err(MemoryError::OutOfBounds)
        }
    }

    /// Stores `value` at `address`.
    pub fn write(&mut self, address: u16, value: u8) -> (result: Result<(), MemoryError>)
        ensures
            address < MEMORY_SIZE ==> result == Ok::<(), MemoryError>(()) && final(self)@ == (
            MemoryView { data: old(self)@.data.update(address as int, value), ..old(self)@ }),
            address >= MEMORY_SIZE ==> result == Err::<(), MemoryError>(MemoryError::OutOfBounds)
                && final(self)@ == old(self)@,
    {
        if (address as usize) < MEMORY_SIZE {
            self.data[address as usize] = value;
            Ok(())
        } else {
            Err(MemoryError::OutOfBounds)
        }
    }

    /// The big-endian word whose high byte is at `address` and whose low
    /// byte is at `address + 1`.
    pub fn read_word(&self, address: u16) -> (result: Result<u16, MemoryError>)
        ensures
            address + 1 < MEMORY_SIZE ==> result == Ok::<u16, MemoryError>(
                word_of(self@.data[address as int], self@.data[address + 1]),
            ),
            address + 1 >= MEMORY_SIZE ==> result == Err::<u16, MemoryError>(
                MemoryError::OutOfBounds,
            ),
    {
        if (address as usize) + 1 < MEMORY_SIZE {
            let high: u8 = self.data[address as usize];
            let low: u8 = self.data[address as usize + 1];
            assert(((high as u16) << 8) | (low as u16) == (high as u16) * 256 + (low as u16))
                by (bit_vector);
            Ok(((high as u16) << 8) | (low as u16))
        } else {
            Err(MemoryError::OutOfBounds)
        }
    }

    /// Stores the high byte of `value` at `address` and its low byte at
    /// `address + 1`.
    pub fn write_word(&mut self, address: u16, value: u16) -> (result: Result<(), MemoryError>)
        ensures
            address + 1 < MEMORY_SIZE ==> result == Ok::<(), MemoryError>(()) && final(self)@ == (
            MemoryView {
                data: old(self)@.data.update(address as int, (value / 256) as u8).update(
                    address + 1,
                    (value % 256) as u8,
                ),
                ..old(self)@
            }),
            address + 1 >= MEMORY_SIZE ==> result == Err::<(), MemoryError>(
                MemoryError::OutOfBounds,
            ) && final(self)@ == old(self)@,
    {
        if (address as usize) + 1 < MEMORY_SIZE {
            self.data[address as usize] = (value / 256) as u8;
            self.data[address as usize + 1] = (value % 256) as u8;
            Ok(())
        } else {
            Err(MemoryError::OutOfBounds)
        }
    }

    // TIMERS

    pub fn read_delay_timer(&self) -> (value: u8)
        ensures
            value == self@.delay_timer,
    {
        self.delay_timer
    }

    pub fn write_delay_timer(&mut self, value: u8)
        ensures
            final(self)@ == (MemoryView { delay_timer: value, ..old(self)@ }),
    {
        self.delay_timer = value;
    }

    /// Lowers the delay timer by one unless it is zero already.
    pub fn decrement_delay_timer(&mut self)
        ensures
            final(self)@ == (MemoryView {
                delay_timer: timer_tick(old(self)@.delay_timer),
                ..old(self)@
            }),
    {
        if self.delay_timer > 0 {
            self.delay_timer = self.delay_timer - 1;
        }
    }

    pub fn read_sound_timer(&self) -> (value: u8)
        ensures
            value == self@.sound_timer,
    {
        self.sound_timer
    }

    pub fn write_sound_timer(&mut self, value: u8)
        ensures
            final(self)@ == (MemoryView { sound_timer: value, ..old(self)@ }),
    {
        self.sound_timer = value;
    }

    /// Lowers the sound timer by one unless it is zero already.
    pub fn decrement_sound_timer(&mut self)
        ensures
            final(self)@ == (MemoryView {
                sound_timer: timer_tick(old(self)@.sound_timer),
                ..old(self)@
            }),
    {
        if self.sound_timer > 0 {
            self.sound_timer = self.sound_timer - 1;
        }
    }

    /// One sixtieth of a second passes: both timers decay by one step.
    pub fn tick(&mut self)
        ensures
            final(self)@ == (MemoryView {
                delay_timer: timer_tick(old(self)@.delay_timer),
                sound_timer: timer_tick(old(self)@.sound_timer),
                ..old(self)@
            }),
    {
        self.decrement_delay_timer();
        self.decrement_sound_timer();
    }

    // REGISTERS

    pub fn write_adress(&mut self, value: u16)
        ensures
            final(self)@ == (MemoryView { adress_register: value, ..old(self)@ }),
    {
        self.adress_register = value;
    }

    pub fn read_adress(&self) -> (value: u16)
        ensures
            value == self@.adress_register,
    {
        self.adress_register
    }

    /// The value of register V`index`.
    pub fn read_register(&self, index: usize) -> (value: u8)
        requires
            index < NB_REGISTERS,
        ensures
            value == self@.registers[index as int],
    {
        self.registers[index]
    }

    /// Sets register V`index` to `value`.
    pub fn write_register(&mut self, index: usize, value: u8)
        requires
            index < NB_REGISTERS,
        ensures
            final(self)@ == (MemoryView {
                registers: old(self)@.registers.update(index as int, value),
                ..old(self)@
            }),
    {
        self.registers[index] = value;
    }
}

/// Stores the font at its fixed address.
pub fn load_font(memory: &mut Memory)
    ensures
        final(memory)@ == (MemoryView {
            data: overlay(old(memory)@.data, FONT_ADRESS as int, FONT_SET@),
            ..old(memory)@
        }),
{
    let mut i: usize = 0;
    assert(memory@.data =~= overlay(memory@.data, FONT_ADRESS as int, FONT_SET@.subrange(0, 0)));
    while i < 80
        invariant
            i <= 80,
            memory@ == (MemoryView {
                data: overlay(old(memory)@.data, FONT_ADRESS as int, FONT_SET@.subrange(0, i as int)),
                ..old(memory)@
            }),
        decreases 80 - i,
    {
        proof {
            memory.lemma_view_wf();
        }
        memory.write(i as u16 + FONT_ADRESS, FONT_SET[i]).unwrap();
        i += 1;
        assert(memory@.data =~= overlay(
            old(memory)@.data,
            FONT_ADRESS as int,
            FONT_SET@.subrange(0, i as int),
        ));
    }
    assert(FONT_SET@.subrange(0, 80) =~= FONT_SET@);
}

/// A timer that is left alone reads zero once as many ticks have passed as
/// the value it started from, and stays there.
pub proof fn lemma_timer_reaches_zero(value: u8, n: nat)
    requires
        n >= value,
    ensures
        timer_after(value, n) == 0,
    decreases n,
{
    if n > 0 {
        lemma_timer_reaches_zero(timer_tick(value), (n - 1) as nat);
    }
}

/// While ticks pass a timer falls by one per tick and never below zero.
pub proof fn lemma_timer_decay(value: u8, n: nat)
    ensures
        timer_after(value, n) == if n >= value {
            0
        } else {
            value - n
        },
    decreases n,
{
    if n > 0 {
        lemma_timer_decay(timer_tick(value), (n - 1) as nat);
    }
}

} // verus!
