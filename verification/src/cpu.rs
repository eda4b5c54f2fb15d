//! The executable processor: registers, program counter, call stack and
//! timers, with fetch, decode and execute proved to follow the
//! instruction-set model in `isa`.

use vstd::prelude::*;
use crate::display::draw_rows;
use crate::display::Display;
use crate::error::Chip8Error;
use crate::isa::advance;
use crate::isa::alu_vx;
use crate::isa::exec_f_spec;
use crate::isa::exec_spec;
use crate::isa::fetch_spec;
use crate::isa::first_oob;
use crate::isa::load_block;
use crate::isa::n_of;
use crate::isa::nn_of;
use crate::isa::nnn_of;
use crate::isa::op_of;
use crate::isa::store_block;
use crate::isa::wrap16;
use crate::isa::x_of;
use crate::isa::y_of;
use crate::isa::CpuV;
use crate::isa::MachineV;
use crate::keyboard::Keyboard;
use crate::ram::Ram;

verus! {

/// Address at which a program image is loaded and execution begins.
pub const PROGRAM_START_ADDRESS: u16 = 0x200;

/// Maximum nesting depth of the call stack.
pub const STACK_DEPTH_LIMIT: usize = 16;

/// The bitfields of one instruction word, extracted by decode. Any
/// 16-bit word decodes; validity is judged later, at dispatch.
#[derive(Clone, Copy, Debug, PartialEq, Eq, Structural)]
pub struct Decode {
    /// Top nibble, the primary dispatch key.
    pub op: u8,
    /// Bits 0-11: address/literal operand.
    pub nnn: u16,
    /// Bits 0-7: immediate operand.
    pub nn: u8,
    /// Bits 0-3: 4-bit literal, for example a sprite height.
    pub n: u8,
    /// Bits 8-11: first register selector.
    pub x: u8,
    /// Bits 4-7: second register selector.
    pub y: u8,
}

/// The decode record the model assigns to `w`.
pub open spec fn spec_decode(w: u16) -> Decode {
    Decode {
        op: op_of(w),
        nnn: nnn_of(w),
        nn: nn_of(w),
        n: n_of(w),
        x: x_of(w),
        y: y_of(w),
    }
}

/// The mask-and-shift field extraction equals the arithmetic form the
/// model is written in, and every selector fits its nibble.
proof fn lemma_decode_fields(w: u16)
    by (bit_vector)
    ensures
        w >> 12u16 == w / 0x1000,
        w & 0x0FFF == w % 0x1000,
        w & 0x0FF == w % 0x100,
        w & 0x00F == w % 0x10,
        (w & 0x0F00) >> 8u16 == (w / 0x100) % 0x10,
        (w & 0x00F0) >> 4u16 == (w / 0x10) % 0x10,
        w / 0x1000 < 16,
{
}

/// The processor. Its view is the `CpuV` record of the model.
pub struct Cpu {
    vx: Vec<u8>,
    pc: u16,
    i: u16,
    stack: Vec<u16>,
    delay_timer: u8,
    sound_timer: u8,
}

impl View for Cpu {
    type V = CpuV;

    closed spec fn view(&self) -> CpuV {
        CpuV {
            vx: self.vx@,
            pc: self.pc,
            i: self.i,
            stack: self.stack@,
            delay_timer: self.delay_timer,
            sound_timer: self.sound_timer,
        }
    }
}

/// Sixteen-bit addition that wraps, for program-counter and index
/// arithmetic.
fn wrap_add16(a: u16, b: u16) -> (r: u16)
    ensures
        r == wrap16(a + b),
{
    (((a as u32) + (b as u32)) % 0x10000) as u16
}

impl Cpu {
    /// Register and stack bounds hold.
    pub open spec fn wf(&self) -> bool {
        self@.wf()
    }

    /// A fresh processor: all registers and timers zero, empty call
    /// stack, program counter at the load address.
    pub fn new() -> (r: Cpu)
        ensures
            r.wf(),
            r@ == (CpuV {
                vx: Seq::new(16, |j: int| 0u8),
                pc: PROGRAM_START_ADDRESS,
                i: 0,
                stack: Seq::<u16>::empty(),
                delay_timer: 0,
                sound_timer: 0,
            }),
    {
        let mut vx: Vec<u8> = Vec::new();
        let mut k: usize = 0;
        while k < 16
            invariant
                k <= 16,
                vx@.len() == k,
                forall|j: int| 0 <= j < k ==> vx@[j] == 0u8,
            decreases 16 - k,
        {
            vx.push(0u8);
            k = k + 1;
        }
        let r = Cpu {
            vx,
            pc: PROGRAM_START_ADDRESS,
            i: 0,
            stack: Vec::new(),
            delay_timer: 0,
            sound_timer: 0,
        };
        proof {
            assert(r@.vx =~= Seq::new(16, |j: int| 0u8));
            assert(r@.stack =~= Seq::<u16>::empty());
            assert(r@ =~= (CpuV {
                vx: Seq::new(16, |j: int| 0u8),
                pc: PROGRAM_START_ADDRESS,
                i: 0,
                stack: Seq::<u16>::empty(),
                delay_timer: 0,
                sound_timer: 0,
            }));
        }
        r
    }

    /// Reads the big-endian instruction word at the program counter.
    /// Does not advance the program counter: advancement is part of each
    /// instruction's own semantics.
    pub fn fetch_instruction(&self, ram: &Ram) -> (r: Result<u16, Chip8Error>)
        requires
            self.wf(),
            ram.wf(),
        ensures
            r == fetch_spec(self@, ram@),
    {
        let hi = match ram.read_byte(self.pc) {
            Ok(b) => b,
            Err(e) => {
                return Err(e);
            },
        };
        let lo = match ram.read_byte(self.pc + 1) {
            Ok(b) => b,
            Err(e) => {
                return Err(e);
            },
        };
        Ok(((hi as u16) << 8u16) | (lo as u16))
    }

    /// Extracts the bitfields of `instruction`. Pure: any word decodes
    /// successfully.
    pub fn decode_instruction(&self, instruction: u16) -> (d: Decode)
        ensures
            d == spec_decode(instruction),
            d.op < 16,
            d.nnn < 0x1000,
            d.n < 16,
            d.x < 16,
            d.y < 16,
    {
        proof {
            lemma_decode_fields(instruction);
        }
        Decode {
            op: (instruction >> 12u16) as u8,
            nnn: instruction & 0x0FFF,
            nn: (instruction & 0x0FF) as u8,
            n: (instruction & 0x00F) as u8,
            x: ((instruction & 0x0F00) >> 8u16) as u8,
            y: ((instruction & 0x00F0) >> 4u16) as u8,
        }
    }

    /// The value of register `idx`.
    pub fn read_vx(&self, idx: u8) -> (r: u8)
        requires
            self.wf(),
            idx < 16,
        ensures
            r == self@.vx[idx as int],
    {
        self.vx[idx as usize]
    }

    /// Sets register `idx` to `nn`; nothing else changes.
    pub fn write_vx(&mut self, idx: u8, nn: u8)
        requires
            old(self).wf(),
            idx < 16,
        ensures
            final(self).wf(),
            final(self)@ == (CpuV { vx: old(self)@.vx.update(idx as int, nn), ..old(self)@ }),
    {
        self.vx.set(idx as usize, nn);
    }

    /// Sets the delay timer; nothing else changes.
    pub fn set_delay_timer(&mut self, val: u8)
        requires
            old(self).wf(),
        ensures
            final(self).wf(),
            final(self)@ == (CpuV { delay_timer: val, ..old(self)@ }),
    {
        self.delay_timer = val;
    }

    /// The delay timer's value.
    pub fn get_delay_timer(&self) -> (r: u8)
        ensures
            r == self@.delay_timer,
    {
        self.delay_timer
    }

    /// One tick of the externally driven timer cadence: the delay timer
    /// goes down by one, stopping at zero; nothing else changes.
    pub fn decrement_timer(&mut self)
        requires
            old(self).wf(),
        ensures
            final(self).wf(),
            final(self)@ == (CpuV {
                delay_timer: if old(self)@.delay_timer > 0 {
                    (old(self)@.delay_timer - 1) as u8
                } else {
                    0u8
                },
                ..old(self)@
            }),
    {
        if self.delay_timer > 0 {
            self.delay_timer = self.delay_timer - 1;
        }
    }

    /// The program counter.
    pub fn get_pc(&self) -> (r: u16)
        ensures
            r == self@.pc,
    {
        self.pc
    }

    /// The index register.
    pub fn get_i(&self) -> (r: u16)
        ensures
            r == self@.i,
    {
        self.i
    }

    /// How many call frames are pending.
    pub fn get_stack_depth(&self) -> (r: usize)
        ensures
            r == self@.stack.len(),
    {
        self.stack.len()
    }

    /// Blits the sprite of `n` rows fetched at the index register onto
    /// the display at `(x, y)`, returning whether any set cell was
    /// erased. The bounds of the whole fetch are checked up front; on
    /// failure nothing is mutated.
    pub fn draw_sprite(&self, ram: &Ram, display: &mut Display, x: u8, y: u8, n: u8) -> (r:
        Result<bool, Chip8Error>)
        requires
            self.wf(),
            ram.wf(),
            old(display).wf(),
        ensures
            final(display).wf(),
            n > 0 && self@.i + n > 4096 ==> r == Err::<bool, Chip8Error>(
                Chip8Error::MemoryOutOfBounds { address: first_oob(self@.i) },
            ) && final(display)@ == old(display)@,
            !(n > 0 && self@.i + n > 4096) ==> ({
                let rows = Seq::new(n as nat, |j: int| ram@[self@.i + j]);
                let dr = draw_rows(old(display)@, rows, x as int, y as int);
                r == Ok::<bool, Chip8Error>(dr.1) && final(display)@ == dr.0
            }),
    {
        if n > 0 && (self.i as usize) + (n as usize) > 4096 {
            let address = if self.i >= 4096 {
                self.i
            } else {
                4096
            };
            return Err(Chip8Error::MemoryOutOfBounds { address });
        }
        let ghost rows = Seq::new(n as nat, |j: int| ram@[self@.i + j]);
        let ghost buf0 = display@;
        let mut collided: bool = false;
        let mut j: u8 = 0;
        while j < n
            invariant
                self.wf(),
                ram.wf(),
                display.wf(),
                j <= n,
                n > 0 ==> self@.i + n <= 4096,
                rows == Seq::new(n as nat, |jj: int| ram@[self@.i + jj]),
                display@ == draw_rows(buf0, rows.take(j as int), x as int, y as int).0,
                collided == draw_rows(buf0, rows.take(j as int), x as int, y as int).1,
            decreases n - j,
        {
            let addr: u16 = self.i + (j as u16);
            let bits = match ram.read_byte(addr) {
                Ok(b) => b,
                Err(e) => {
                    return Err(e);
                },
            };
            let c = display.draw_byte(bits, x as usize, (y as usize) + (j as usize));
            proof {
                assert(rows.take(j as int + 1).drop_last() =~= rows.take(j as int));
                assert(rows.take(j as int + 1).last() == rows[j as int]);
            }
            collided = collided || c;
            j = j + 1;
        }
        proof {
            assert(rows.take(n as int) =~= rows);
        }
        Ok(collided)
    }

    /// `Fx55`: stores registers `V0..Vx` at the index register onwards.
    /// The index register itself is left unchanged. The bounds of the
    /// whole block are checked up front; on failure nothing is mutated.
    fn store_regs(&self, ram: &mut Ram, x: u8) -> (r: Result<(), Chip8Error>)
        requires
            self.wf(),
            old(ram).wf(),
            x < 16,
        ensures
            final(ram).wf(),
            self@.i + x >= 4096 ==> r == Err::<(), Chip8Error>(
                Chip8Error::MemoryOutOfBounds { address: first_oob(self@.i) },
            ) && final(ram)@ == old(ram)@,
            self@.i + x < 4096 ==> r is Ok && final(ram)@ == store_block(
                old(ram)@,
                self@.vx,
                self@.i,
                x,
            ),
    {
        if (self.i as usize) + (x as usize) >= 4096 {
            let address = if self.i >= 4096 {
                self.i
            } else {
                4096
            };
            return Err(Chip8Error::MemoryOutOfBounds { address });
        }
        let ghost ram0 = ram@;
        let mut k: u8 = 0;
        while k <= x
            invariant
                self.wf(),
                ram.wf(),
                x < 16,
                k <= x + 1,
                self@.i + x < 4096,
                forall|a: int|
                    0 <= a < 4096 && !(self@.i <= a < self@.i + k) ==> ram@[a] == ram0[a],
                forall|a: int| self@.i <= a < self@.i + k ==> ram@[a] == self@.vx[a - self@.i],
            decreases x + 1 - k,
        {
            let addr: u16 = self.i + (k as u16);
            let v = self.vx[k as usize];
            match ram.write_byte(addr, v) {
                Ok(()) => (),
                Err(_) => (),
            }
            k = k + 1;
        }
        proof {
            assert(ram@ =~= store_block(ram0, self@.vx, self@.i, x));
        }
        Ok(())
    }

    /// `Fx65`: loads registers `V0..Vx` from the index register onwards,
    /// leaving higher registers and the index register unchanged. The
    /// bounds of the whole block are checked up front; on failure
    /// nothing is mutated.
    fn load_regs(&mut self, ram: &Ram, x: u8) -> (r: Result<(), Chip8Error>)
        requires
            old(self).wf(),
            ram.wf(),
            x < 16,
        ensures
            final(self).wf(),
            old(self)@.i + x >= 4096 ==> r == Err::<(), Chip8Error>(
                Chip8Error::MemoryOutOfBounds { address: first_oob(old(self)@.i) },
            ) && final(self)@ == old(self)@,
            old(self)@.i + x < 4096 ==> r is Ok && final(self)@ == (CpuV {
                vx: load_block(old(self)@.vx, ram@, old(self)@.i, x),
                ..old(self)@
            }),
    {
        if (self.i as usize) + (x as usize) >= 4096 {
            let address = if self.i >= 4096 {
                self.i
            } else {
                4096
            };
            return Err(Chip8Error::MemoryOutOfBounds { address });
        }
        let mut k: u8 = 0;
        while k <= x
            invariant
                self.wf(),
                ram.wf(),
                x < 16,
                k <= x + 1,
                self@.i == old(self)@.i,
                self@.pc == old(self)@.pc,
                self@.stack == old(self)@.stack,
                self@.delay_timer == old(self)@.delay_timer,
                self@.sound_timer == old(self)@.sound_timer,
                self@.i + x < 4096,
                forall|t: int| 0 <= t < k ==> self@.vx[t] == ram@[self@.i + t],
                forall|t: int| k <= t < 16 ==> self@.vx[t] == old(self)@.vx[t],
            decreases x + 1 - k,
        {
            let addr: u16 = self.i + (k as u16);
            let v = match ram.read_byte(addr) {
                Ok(b) => b,
                Err(e) => {
                    return Err(e);
                },
            };
            self.vx.set(k as usize, v);
            k = k + 1;
        }
        proof {
            assert(self@.vx =~= load_block(old(self)@.vx, ram@, old(self)@.i, x));
            assert(self@ =~~= (CpuV {
                vx: load_block(old(self)@.vx, ram@, old(self)@.i, x),
                ..old(self)@
            }));
        }
        Ok(())
    }

    /// Executes one decoded instruction against memory, display and
    /// keyboard, exactly as the model's transition function says:
    /// success leaves the machine at the model's successor state, and
    /// failure returns the model's error with nothing mutated.
    /// `rand_byte` is the uniform random byte consumed by `Cxnn`.
    #[verifier::rlimit(60)]
    pub fn execute_instruction(
        &mut self,
        ram: &mut Ram,
        display: &mut Display,
        keyboard: &Keyboard,
        instruction: u16,
        decode: Decode,
        rand_byte: u8,
    ) -> (r: Result<(), Chip8Error>)
        requires
            old(self).wf(),
            old(ram).wf(),
            old(display).wf(),
            decode == spec_decode(instruction),
        ensures
            final(self).wf(),
            final(ram).wf(),
            final(display).wf(),
            ({
                let pre = MachineV {
                    cpu: old(self)@,
                    ram: old(ram)@,
                    display: old(display)@,
                    key: keyboard@,
                };
                let post = MachineV {
                    cpu: final(self)@,
                    ram: final(ram)@,
                    display: final(display)@,
                    key: keyboard@,
                };
                match r {
                    Ok(()) => exec_spec(pre, instruction, rand_byte) == Ok::<
                        MachineV,
                        Chip8Error,
                    >(post),
                    Err(e) => post == pre && exec_spec(pre, instruction, rand_byte) == Err::<
                        MachineV,
                        Chip8Error,
                    >(e),
                }
            }),
    {
        proof {
            lemma_decode_fields(instruction);
        }
        match decode.op {
            0x0 => {
                if decode.nn == 0xE0 {
                    display.clear();
                    proof {
                        assert(display@ =~= Seq::new(2048, |i: int| 0u8));
                    }
                    self.pc = wrap_add16(self.pc, 2);
                    Ok(())
                } else if decode.nn == 0xEE {
                    if self.stack.len() == 0 {
                        Err(Chip8Error::CallStackUnderflow)
                    } else {
                        match self.stack.pop() {
                            Some(addr) => {
                                proof {
                                    assert(self@.stack =~= old(self)@.stack.drop_last());
                                }
                                self.pc = addr;
                                Ok(())
                            },
                            None => Err(Chip8Error::CallStackUnderflow),
                        }
                    }
                } else {
                    Err(Chip8Error::UnsupportedInstruction { pc: self.pc, instruction })
                }
            },
            0x1 => {
                self.pc = decode.nnn;
                Ok(())
            },
            0x2 => {
                if self.stack.len() >= STACK_DEPTH_LIMIT {
                    Err(Chip8Error::CallStackOverflow)
                } else {
                    let ret = wrap_add16(self.pc, 2);
                    self.stack.push(ret);
                    self.pc = decode.nnn;
                    Ok(())
                }
            },
            0x3 => {
                let vx = self.read_vx(decode.x);
                self.pc = wrap_add16(self.pc, if vx == decode.nn { 4 } else { 2 });
                Ok(())
            },
            0x4 => {
                let vx = self.read_vx(decode.x);
                self.pc = wrap_add16(self.pc, if vx != decode.nn { 4 } else { 2 });
                Ok(())
            },
            0x5 => {
                let vx = self.read_vx(decode.x);
                let vy = self.read_vx(decode.y);
                self.pc = wrap_add16(self.pc, if vx == vy { 4 } else { 2 });
                Ok(())
            },
            0x6 => {
                self.write_vx(decode.x, decode.nn);
                self.pc = wrap_add16(self.pc, 2);
                Ok(())
            },
            0x7 => {
                let vx = self.read_vx(decode.x);
                let sum: u16 = (vx as u16) + (decode.nn as u16);
                self.write_vx(decode.x, (sum % 0x100) as u8);
                self.pc = wrap_add16(self.pc, 2);
                Ok(())
            },
            0x8 => self.exec_alu(instruction, decode),
            0x9 => {
                let vx = self.read_vx(decode.x);
                let vy = self.read_vx(decode.y);
                self.pc = wrap_add16(self.pc, if vx != vy { 4 } else { 2 });
                Ok(())
            },
            0xA => {
                self.i = decode.nnn;
                self.pc = wrap_add16(self.pc, 2);
                Ok(())
            },
            0xB => {
                let v0 = self.read_vx(0);
                self.pc = wrap_add16(v0 as u16, decode.nnn);
                Ok(())
            },
            0xC => {
                self.write_vx(decode.x, rand_byte & decode.nn);
                self.pc = wrap_add16(self.pc, 2);
                Ok(())
            },
            0xD => {
                let xv = self.read_vx(decode.x);
                let yv = self.read_vx(decode.y);
                match self.draw_sprite(ram, display, xv, yv, decode.n) {
                    Ok(c) => {
                        self.write_vx(
                            0xF,
                            if c {
                                1
                            } else {
                                0
                            },
                        );
                        self.pc = wrap_add16(self.pc, 2);
                        Ok(())
                    },
                    Err(e) => Err(e),
                }
            },
            0xE => {
                let keyv = self.read_vx(decode.x);
                if decode.nn == 0x9E {
                    let pressed = keyboard.is_key_pressed(keyv);
                    self.pc = wrap_add16(self.pc, if pressed { 4 } else { 2 });
                    Ok(())
                } else if decode.nn == 0xA1 {
                    let pressed = keyboard.is_key_pressed(keyv);
                    self.pc = wrap_add16(self.pc, if !pressed { 4 } else { 2 });
                    Ok(())
                } else {
                    Err(Chip8Error::UnsupportedInstruction { pc: self.pc, instruction })
                }
            },
            _ => self.exec_f(ram, keyboard, instruction, decode),
        }
    }

    /// The `0x8xyn` arithmetic/logic group.
    fn exec_alu(&mut self, instruction: u16, decode: Decode) -> (r: Result<(), Chip8Error>)
        requires
            old(self).wf(),
            decode == spec_decode(instruction),
            op_of(instruction) == 0x8,
        ensures
            final(self).wf(),
            match alu_vx(
                old(self)@.vx,
                x_of(instruction) as int,
                y_of(instruction) as int,
                n_of(instruction),
            ) {
                Some(vx2) => r is Ok && final(self)@ == advance(
                    CpuV { vx: vx2, ..old(self)@ },
                    2,
                ),
                None => r == Err::<(), Chip8Error>(
                    Chip8Error::UnsupportedInstruction {
                        pc: old(self)@.pc,
                        instruction,
                    },
                ) && final(self)@ == old(self)@,
            },
    {
        let vx = self.read_vx(decode.x);
        let vy = self.read_vx(decode.y);
        match decode.n {
            0x0 => {
                self.write_vx(decode.x, vy);
            },
            0x2 => {
                self.write_vx(decode.x, vx & vy);
            },
            0x3 => {
                self.write_vx(decode.x, vx ^ vy);
            },
            0x4 => {
                let sum: u16 = (vx as u16) + (vy as u16);
                self.write_vx(decode.x, (sum % 0x100) as u8);
                if sum > 0xFF {
                    self.write_vx(0xF, 1);
                }
            },
            0x5 => {
                let diff: u16 = (vx as u16) + 0x100 - (vy as u16);
                self.write_vx(decode.x, (diff % 0x100) as u8);
                self.write_vx(0xF, if vx < vy { 1 } else { 0 });
            },
            0x6 => {
                self.write_vx(0xF, vx & 1);
                self.write_vx(decode.x, vx >> 1u8);
            },
            0x7 => {
                let diff: u16 = (vy as u16) + 0x100 - (vx as u16);
                self.write_vx(decode.x, (diff % 0x100) as u8);
                self.write_vx(0xF, if vy < vx { 1 } else { 0 });
            },
            0xE => {
                self.write_vx(0xF, vx >> 7u8);
                self.write_vx(decode.x, vx << 1u8);
            },
            _ => {
                return Err(Chip8Error::UnsupportedInstruction { pc: self.pc, instruction });
            },
        }
        self.pc = wrap_add16(self.pc, 2);
        Ok(())
    }

    /// The `0xFxnn` group: timers, key wait, index arithmetic, glyph
    /// addresses, BCD and the register block transfers.
    fn exec_f(
        &mut self,
        ram: &mut Ram,
        keyboard: &Keyboard,
        instruction: u16,
        decode: Decode,
    ) -> (r: Result<(), Chip8Error>)
        requires
            old(self).wf(),
            old(ram).wf(),
            decode == spec_decode(instruction),
            op_of(instruction) == 0xF,
        ensures
            final(self).wf(),
            final(ram).wf(),
            match r {
                Ok(()) => exec_f_spec(old(self)@, old(ram)@, keyboard@, instruction) == Ok::<
                    (CpuV, Seq<u8>),
                    Chip8Error,
                >((final(self)@, final(ram)@)),
                Err(e) => final(self)@ == old(self)@ && final(ram)@ == old(ram)@ && exec_f_spec(
                    old(self)@,
                    old(ram)@,
                    keyboard@,
                    instruction,
                ) == Err::<(CpuV, Seq<u8>), Chip8Error>(e),
            },
    {
        let vx = self.read_vx(decode.x);
        if decode.nn == 0x07 {
            let d = self.delay_timer;
            self.write_vx(decode.x, d);
            self.pc = wrap_add16(self.pc, 2);
            Ok(())
        } else if decode.nn == 0x0A {
            match keyboard.get_key_pressed() {
                Some(k) => {
                    self.write_vx(decode.x, k);
                    self.pc = wrap_add16(self.pc, 2);
                    Ok(())
                },
                None => Ok(()),
            }
        } else if decode.nn == 0x15 {
            self.delay_timer = vx;
            self.pc = wrap_add16(self.pc, 2);
            Ok(())
        } else if decode.nn == 0x18 {
            self.sound_timer = vx;
            self.pc = wrap_add16(self.pc, 2);
            Ok(())
        } else if decode.nn == 0x1E {
            self.i = wrap_add16(self.i, vx as u16);
            self.pc = wrap_add16(self.pc, 2);
            Ok(())
        } else if decode.nn == 0x29 {
            self.i = (vx as u16) * 5;
            self.pc = wrap_add16(self.pc, 2);
            Ok(())
        } else if decode.nn == 0x33 {
            if (self.i as usize) + 2 >= 4096 {
                let address = if self.i >= 4096 {
                    self.i
                } else {
                    4096
                };
                Err(Chip8Error::MemoryOutOfBounds { address })
            } else {
                match ram.write_byte(self.i, vx / 100) {
                    Ok(()) => (),
                    Err(_) => (),
                }
                match ram.write_byte(self.i + 1, (vx % 100) / 10) {
                    Ok(()) => (),
                    Err(_) => (),
                }
                match ram.write_byte(self.i + 2, vx % 10) {
                    Ok(()) => (),
                    Err(_) => (),
                }
                self.pc = wrap_add16(self.pc, 2);
                Ok(())
            }
        } else if decode.nn == 0x55 {
            match self.store_regs(ram, decode.x) {
                Ok(()) => {
                    self.pc = wrap_add16(self.pc, 2);
                    Ok(())
                },
                Err(e) => Err(e),
            }
        } else if decode.nn == 0x65 {
            match self.load_regs(ram, decode.x) {
                Ok(()) => {
                    self.pc = wrap_add16(self.pc, 2);
                    Ok(())
                },
                Err(e) => Err(e),
            }
        } else {
            Err(Chip8Error::UnsupportedInstruction { pc: self.pc, instruction })
        }
    }
}

} // verus!
