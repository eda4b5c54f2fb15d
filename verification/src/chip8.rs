//! The assembled machine: processor, memory, display and keyboard, with
//! the built-in hexadecimal glyph table, program loading, and the
//! one-instruction step the host driver calls once per tick. The driver
//! decrements the delay timer on its own, slower cadence.

use vstd::prelude::*;
use crate::cpu::Cpu;
use crate::cpu::PROGRAM_START_ADDRESS;
use crate::display::Display;
use crate::error::Chip8Error;
use crate::isa::step_spec;
use crate::isa::CpuV;
use crate::isa::MachineV;
use crate::keyboard::Keyboard;
use crate::ram::Ram;

verus! {

/// The five rows of the built-in glyph for hexadecimal digit `g`,
/// stored at address `g * 5` so that the glyph-address instruction
/// (`Fx29`) can compute its base by that same product.
pub open spec fn glyph(g: int) -> Seq<u8> {
    if g == 0x0 {
        seq![0xF0u8, 0x90, 0x90, 0x90, 0xF0]
    } else if g == 0x1 {
        seq![0x20u8, 0x60, 0x20, 0x20, 0x70]
    } else if g == 0x2 {
        seq![0xF0u8, 0x10, 0xF0, 0x80, 0xF0]
    } else if g == 0x3 {
        seq![0xF0u8, 0x10, 0xF0, 0x10, 0xF0]
    } else if g == 0x4 {
        seq![0x90u8, 0x90, 0xF0, 0x10, 0x10]
    } else if g == 0x5 {
        seq![0xF0u8, 0x80, 0xF0, 0x10, 0xF0]
    } else if g == 0x6 {
        seq![0xF0u8, 0x80, 0xF0, 0x90, 0xF0]
    } else if g == 0x7 {
        seq![0xF0u8, 0x10, 0x20, 0x40, 0x40]
    } else if g == 0x8 {
        seq![0xF0u8, 0x90, 0xF0, 0x90, 0xF0]
    } else if g == 0x9 {
        seq![0xF0u8, 0x90, 0xF0, 0x10, 0xF0]
    } else if g == 0xA {
        seq![0xF0u8, 0x90, 0xF0, 0x90, 0x90]
    } else if g == 0xB {
        seq![0xE0u8, 0x90, 0xE0, 0x90, 0xE0]
    } else if g == 0xC {
        seq![0xF0u8, 0x80, 0x80, 0x80, 0xF0]
    } else if g == 0xD {
        seq![0xE0u8, 0x90, 0x90, 0x90, 0xE0]
    } else if g == 0xE {
        seq![0xF0u8, 0x80, 0xF0, 0x80, 0xF0]
    } else {
        seq![0xF0u8, 0x80, 0xF0, 0x80, 0x80]
    }
}

/// The processor state a fresh machine starts in.
pub open spec fn initial_cpu() -> CpuV {
    CpuV {
        vx: Seq::new(16, |j: int| 0u8),
        pc: PROGRAM_START_ADDRESS,
        i: 0,
        stack: Seq::<u16>::empty(),
        delay_timer: 0,
        sound_timer: 0,
    }
}

/// Relies on rand::random: a byte drawn uniformly from the thread-local
/// generator. Nothing is assumed of its value; every caller's contract
/// holds whatever byte comes back.
#[verifier::external_body]
fn random_byte() -> u8 {
    rand::random::<u8>()
}

/// Writes the five rows of one glyph at `base`; only those five bytes
/// change.
fn write_glyph(ram: &mut Ram, base: u16, b0: u8, b1: u8, b2: u8, b3: u8, b4: u8)
    requires
        old(ram).wf(),
        base + 4 < 4096,
    ensures
        final(ram).wf(),
        forall|a: int| 0 <= a < 4096 && !(base <= a < base + 5) ==> final(ram)@[a] == old(ram)@[a],
        final(ram)@[base as int] == b0,
        final(ram)@[base + 1] == b1,
        final(ram)@[base + 2] == b2,
        final(ram)@[base + 3] == b3,
        final(ram)@[base + 4] == b4,
{
    let _ = ram.write_byte(base, b0);
    let _ = ram.write_byte(base + 1, b1);
    let _ = ram.write_byte(base + 2, b2);
    let _ = ram.write_byte(base + 3, b3);
    let _ = ram.write_byte(base + 4, b4);
}

/// The whole machine. Its view is the model's `MachineV`.
pub struct Chip8 {
    ram: Ram,
    cpu: Cpu,
    display: Display,
    keyboard: Keyboard,
}

impl View for Chip8 {
    type V = MachineV;

    closed spec fn view(&self) -> MachineV {
        MachineV { cpu: self.cpu@, ram: self.ram@, display: self.display@, key: self.keyboard@ }
    }
}

impl Chip8 {
    /// Component well-formedness of the whole machine.
    pub open spec fn wf(&self) -> bool {
        self@.wf()
    }

    /// A fresh machine: glyph table in low memory, the rest of memory
    /// zero, display clear, no key observed, processor at the load
    /// address.
    pub fn new() -> (r: Chip8)
        ensures
            r.wf(),
            r@.cpu == initial_cpu(),
            r@.key == Option::<u8>::None,
            forall|i: int| 0 <= i < 2048 ==> r@.display[i] == 0u8,
            forall|g: int, k: int|
                0 <= g < 16 && 0 <= k < 5 ==> r@.ram[g * 5 + k] == glyph(g)[k],
            forall|a: int| 80 <= a < 4096 ==> r@.ram[a] == 0u8,
    {
        let mut chp8 = Chip8 {
            ram: Ram::new(),
            cpu: Cpu::new(),
            display: Display::new(),
            keyboard: Keyboard::new(),
        };
        chp8.load_sprites();
        chp8
    }

    /// Writes the sixteen built-in glyphs at addresses `0x0..0x50`,
    /// glyph `g` at base `g * 5`.
    fn load_sprites(&mut self)
        requires
            old(self).wf(),
        ensures
            final(self).wf(),
            final(self)@.cpu == old(self)@.cpu,
            final(self)@.display == old(self)@.display,
            final(self)@.key == old(self)@.key,
            forall|g: int, k: int|
                0 <= g < 16 && 0 <= k < 5 ==> final(self)@.ram[g * 5 + k] == glyph(g)[k],
            forall|a: int| 80 <= a < 4096 ==> final(self)@.ram[a] == old(self)@.ram[a],
    {
        write_glyph(&mut self.ram, 0x00, 0xF0, 0x90, 0x90, 0x90, 0xF0);
        write_glyph(&mut self.ram, 0x05, 0x20, 0x60, 0x20, 0x20, 0x70);
        write_glyph(&mut self.ram, 0x0A, 0xF0, 0x10, 0xF0, 0x80, 0xF0);
        write_glyph(&mut self.ram, 0x0F, 0xF0, 0x10, 0xF0, 0x10, 0xF0);
        write_glyph(&mut self.ram, 0x14, 0x90, 0x90, 0xF0, 0x10, 0x10);
        write_glyph(&mut self.ram, 0x19, 0xF0, 0x80, 0xF0, 0x10, 0xF0);
        write_glyph(&mut self.ram, 0x1E, 0xF0, 0x80, 0xF0, 0x90, 0xF0);
        write_glyph(&mut self.ram, 0x23, 0xF0, 0x10, 0x20, 0x40, 0x40);
        write_glyph(&mut self.ram, 0x28, 0xF0, 0x90, 0xF0, 0x90, 0xF0);
        write_glyph(&mut self.ram, 0x2D, 0xF0, 0x90, 0xF0, 0x10, 0xF0);
        write_glyph(&mut self.ram, 0x32, 0xF0, 0x90, 0xF0, 0x90, 0x90);
        write_glyph(&mut self.ram, 0x37, 0xE0, 0x90, 0xE0, 0x90, 0xE0);
        write_glyph(&mut self.ram, 0x3C, 0xF0, 0x80, 0x80, 0x80, 0xF0);
        write_glyph(&mut self.ram, 0x41, 0xE0, 0x90, 0x90, 0x90, 0xE0);
        write_glyph(&mut self.ram, 0x46, 0xF0, 0x80, 0xF0, 0x80, 0xF0);
        write_glyph(&mut self.ram, 0x4B, 0xF0, 0x80, 0xF0, 0x80, 0x80);
    }

    /// The display grid, read-only, for the host renderer.
    pub fn get_display_buffer(&self) -> (r: &Vec<u8>)
        ensures
            r@ == self@.display,
    {
        self.display.get_buffer()
    }

    /// The processor state, read-only, for inspection by the host.
    pub fn get_cpu(&self) -> (r: &Cpu)
        ensures
            r@ == self@.cpu,
    {
        &self.cpu
    }

    /// Copies a program image into memory at the load address. Fails
    /// with `MemoryOutOfBounds`, mutating nothing, exactly when the
    /// image does not fit between the load address and the end of the
    /// store; the reported address is the first one past the store.
    pub fn load_rom(&mut self, data: &[u8]) -> (r: Result<(), Chip8Error>)
        requires
            old(self).wf(),
        ensures
            final(self).wf(),
            final(self)@.cpu == old(self)@.cpu,
            final(self)@.display == old(self)@.display,
            final(self)@.key == old(self)@.key,
            data@.len() > 4096 - PROGRAM_START_ADDRESS ==> r == Err::<(), Chip8Error>(
                Chip8Error::MemoryOutOfBounds { address: 4096 },
            ) && final(self)@.ram == old(self)@.ram,
            data@.len() <= 4096 - PROGRAM_START_ADDRESS ==> r is Ok && (forall|k: int|
                0 <= k < data@.len() ==> final(self)@.ram[PROGRAM_START_ADDRESS + k] == data@[k])
                && (forall|a: int|
                0 <= a < 4096 && !(PROGRAM_START_ADDRESS <= a < PROGRAM_START_ADDRESS
                    + data@.len()) ==> final(self)@.ram[a] == old(self)@.ram[a]),
    {
        if data.len() > 4096 - (PROGRAM_START_ADDRESS as usize) {
            return Err(Chip8Error::MemoryOutOfBounds { address: 4096 });
        }
        let mut k: usize = 0;
        while k < data.len()
            invariant
                self.ram.wf(),
                self.cpu@ == old(self)@.cpu,
                self.display@ == old(self)@.display,
                self.keyboard@ == old(self)@.key,
                k <= data@.len(),
                data@.len() <= 4096 - PROGRAM_START_ADDRESS,
                forall|t: int|
                    0 <= t < k ==> self.ram@[PROGRAM_START_ADDRESS + t] == data@[t],
                forall|a: int|
                    0 <= a < 4096 && !(PROGRAM_START_ADDRESS <= a < PROGRAM_START_ADDRESS + k)
                        ==> self.ram@[a] == old(self)@.ram[a],
            decreases data@.len() - k,
        {
            let addr: u16 = PROGRAM_START_ADDRESS + (k as u16);
            let _ = self.ram.write_byte(addr, data[k]);
            k = k + 1;
        }
        Ok(())
    }

    /// One step of the engine: fetch at the program counter, decode,
    /// execute. For some byte the random-number source may have
    /// produced, the machine moves to exactly the state the model's
    /// step function gives (only the random-register instruction `Cxnn`
    /// depends on that byte). On failure the typed condition is
    /// returned and nothing is mutated.
    pub fn run_instruction(&mut self) -> (r: Result<(), Chip8Error>)
        requires
            old(self).wf(),
        ensures
            final(self).wf(),
            match r {
                Ok(()) => exists|b: u8|
                    #[trigger] step_spec(old(self)@, b) == Ok::<MachineV, Chip8Error>(
                        final(self)@,
                    ),
                Err(e) => final(self)@ == old(self)@ && exists|b: u8|
                    #[trigger] step_spec(old(self)@, b) == Err::<MachineV, Chip8Error>(e),
            },
    {
        let instruction = match self.cpu.fetch_instruction(&self.ram) {
            Ok(w) => w,
            Err(e) => {
                proof {
                    assert(step_spec(old(self)@, 0u8) == Err::<MachineV, Chip8Error>(e));
                }
                return Err(e);
            },
        };
        let decoded = self.cpu.decode_instruction(instruction);
        let rnd = random_byte();
        let res = self.cpu.execute_instruction(
            &mut self.ram,
            &mut self.display,
            &self.keyboard,
            instruction,
            decoded,
            rnd,
        );
        match res {
            Ok(()) => {
                proof {
                    assert(step_spec(old(self)@, rnd) == Ok::<MachineV, Chip8Error>(self@));
                }
                Ok(())
            },
            Err(e) => {
                proof {
                    assert(step_spec(old(self)@, rnd) == Err::<MachineV, Chip8Error>(e));
                }
                Err(e)
            },
        }
    }

    /// Host-driven: records which key is currently observed, or `None`
    /// when no key is. Nothing else changes.
    pub fn set_key_pressed(&mut self, key: Option<u8>)
        requires
            old(self).wf(),
        ensures
            final(self).wf(),
            final(self)@ == (MachineV { key, ..old(self)@ }),
    {
        self.keyboard.set_key_pressed(key);
    }

    /// One tick of the externally driven timer cadence: the delay timer
    /// goes down by one, stopping at zero; nothing else changes.
    pub fn decrement_delay_timer(&mut self)
        requires
            old(self).wf(),
        ensures
            final(self).wf(),
            final(self)@ == (MachineV {
                cpu: CpuV {
                    delay_timer: if old(self)@.cpu.delay_timer > 0 {
                        (old(self)@.cpu.delay_timer - 1) as u8
                    } else {
                        0u8
                    },
                    ..old(self)@.cpu
                },
                ..old(self)@
            }),
    {
        self.cpu.decrement_timer();
    }
}

} // verus!
