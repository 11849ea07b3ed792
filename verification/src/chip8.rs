//! The assembled machine: processor, memory, display and keypad.

use vstd::prelude::*;

use crate::display::Display;
use crate::exceptions::Exception;
use crate::exceptions::ExceptionType;
use crate::keyboard::Keyboard;
use crate::memory::RandomAccessMemory;
use crate::processor::initial_memory;
use crate::processor::load_sprites;
use crate::processor::machine_state;
use crate::processor::spec_step;
use crate::processor::Processor;
use crate::processor::State;
use crate::processor::PROGRAM_START;

verus! {

/// The whole virtual machine. The execution loop around it owns this value
/// exclusively: collaborators (renderer, audio device, input source) only
/// receive copies of the framebuffer and report key events through
/// `keyboard`.
pub struct Chip8 {
    pub processor: Processor,
    pub ram: RandomAccessMemory,
    pub display: Display,
    pub keyboard: Keyboard,
}

impl Chip8 {
    /// Every component keeps its dimensions.
    pub open spec fn wf(&self) -> bool {
        &&& self.processor.wf()
        &&& self.ram.wf()
        &&& self.display.wf()
        &&& self.keyboard.wf()
    }

    /// The machine state as one mathematical value.
    pub open spec fn state(&self) -> State {
        machine_state(self.processor, self.ram, self.display, self.keyboard)
    }

    /// A fresh machine: registers, timers, stack and keypad zeroed, the
    /// program counter at the program start address, the display blank, and
    /// memory holding only the built-in font.
    pub fn new() -> (c8: Chip8)
        ensures
            c8.wf(),
            c8.state().regs == Seq::new(16, |j: int| 0u8),
            c8.state().index == 0,
            c8.state().dt == 0,
            c8.state().st == 0,
            c8.state().pc == PROGRAM_START,
            c8.state().sp == 0,
            c8.state().mem == initial_memory(),
            c8.state().grid == Seq::new(2048, |i: int| false),
            !c8.state().dirty,
            c8.state().keys == Seq::new(16, |k: int| 0u8),
    {
        let processor = Processor::new();
        let mut ram = RandomAccessMemory::new();
        let _ = load_sprites(&mut ram);
        let display = Display::new();
        let keyboard = Keyboard::new();
        let c8 = Chip8 { processor, ram, display, keyboard };
        proof {
            assert(c8.state().mem =~= initial_memory());
            assert(c8.state().grid =~= Seq::new(2048, |i: int| false));
        }
        c8
    }

    /// Copies the ROM verbatim into memory starting at the program start
    /// address; a ROM that would overflow the 4096-byte address space is
    /// refused whole.
    pub fn load_rom(&mut self, rom_content: &Vec<u8>) -> (r: Result<(), Exception>)
        requires
            old(self).wf(),
        ensures
            final(self).wf(),
            PROGRAM_START + rom_content@.len() <= 4096 ==> r == Ok::<(), Exception>(())
                && final(self).state() == (State {
                mem: final(self).state().mem,
                ..old(self).state()
            }) && (forall|a: int|
                0 <= a < 4096 ==> final(self).state().mem[a] == (if PROGRAM_START <= a
                    < PROGRAM_START + rom_content@.len() {
                    rom_content@[a - PROGRAM_START]
                } else {
                    old(self).state().mem[a]
                })),
            PROGRAM_START + rom_content@.len() > 4096 ==> (r matches Err(e)
                && e.exception_type == ExceptionType::AddressOutOfRange) && final(self).state()
                == old(self).state(),
    {
        if rom_content.len() > 4096 - PROGRAM_START as usize {
            return Err(Exception::new(ExceptionType::AddressOutOfRange));
        }
        let mut k: usize = 0;
        while k < rom_content.len()
            invariant
                self.ram.wf(),
                self.processor == old(self).processor,
                self.display == old(self).display,
                self.keyboard == old(self).keyboard,
                k <= rom_content@.len(),
                PROGRAM_START + rom_content@.len() <= 4096,
                forall|a: int|
                    0 <= a < 4096 ==> self.ram@[a] == (if PROGRAM_START <= a < PROGRAM_START + k {
                        rom_content@[a - PROGRAM_START]
                    } else {
                        old(self).ram@[a]
                    }),
            decreases rom_content@.len() - k,
        {
            let _ = self.ram.write(PROGRAM_START + k as u16, rom_content[k]);
            k = k + 1;
        }
        Ok(())
    }

    /// Runs one fetch-decode-execute cycle.
    pub fn step(&mut self) -> (r: Result<(), Exception>)
        requires
            old(self).wf(),
        ensures
            final(self).wf(),
            final(self).state().keys == old(self).state().keys,
            spec_step(old(self).state(), final(self).state(), r),
    {
        let Chip8 { processor, ram, display, keyboard } = self;
        processor.fetch_decode_execute(ram, display, keyboard)
    }

    /// One 1/60-second timer tick; returns whether the audio collaborator
    /// should be emitting tone.
    pub fn tick_timers(&mut self) -> (tone: bool)
        requires
            old(self).wf(),
        ensures
            final(self).wf(),
            final(self).state() == (State {
                dt: if old(self).state().dt > 0 {
                    (old(self).state().dt - 1) as u8
                } else {
                    0u8
                },
                st: if old(self).state().st > 0 {
                    (old(self).state().st - 1) as u8
                } else {
                    0u8
                },
                ..old(self).state()
            }),
            tone == (old(self).state().st > 0),
    {
        self.processor.tick_timers()
    }

    /// Records a key transition reported by the input source.
    pub fn set_key(&mut self, key: u8, down: bool) -> (r: Result<(), Exception>)
        requires
            old(self).wf(),
        ensures
            final(self).wf(),
            key < 16 ==> r == Ok::<(), Exception>(()) && final(self).state() == (State {
                keys: old(self).state().keys.update(key as int, if down { 1u8 } else { 0u8 }),
                ..old(self).state()
            }),
            key >= 16 ==> (r matches Err(e) && e.exception_type == ExceptionType::BadArgument)
                && final(self).state() == old(self).state(),
    {
        self.keyboard.set_key(key, down)
    }

    /// Presents the framebuffer if it changed since the last presentation;
    /// see `Display::update`.
    pub fn update(&mut self) -> (presented: bool)
        requires
            old(self).wf(),
        ensures
            final(self).wf(),
            final(self).state() == (State { dirty: false, ..old(self).state() }),
            presented == old(self).state().dirty,
    {
        self.display.update()
    }
}

} // verus!
