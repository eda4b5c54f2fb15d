//! The instruction-set model: decode fields, the mathematical view of the
//! whole machine, and a transition function giving the exact meaning of
//! every instruction word. The executable engine in `cpu` is proved to
//! follow this model step for step.
//!
//! Choices the hardware leaves open are fixed here and stated in the
//! contracts: register-block store/load (`Fx55`/`Fx65`) leave the index
//! register unchanged; arithmetic instructions write the result register
//! first and the flag register afterwards, so on `0x8` instructions with
//! destination `VF` the flag value is what remains (for the shifts, which
//! write the flag first, the shifted value remains); `Fx1E` and all
//! program-counter arithmetic wrap at sixteen bits.

use vstd::prelude::*;
use crate::display::draw_rows;
use crate::error::Chip8Error;

verus! {

/// Primary dispatch key: bits 12-15 of the instruction word.
pub open spec fn op_of(w: u16) -> u8 {
    (w / 0x1000) as u8
}

/// 12-bit address/literal operand: bits 0-11.
pub open spec fn nnn_of(w: u16) -> u16 {
    w % 0x1000
}

/// 8-bit immediate operand: bits 0-7.
pub open spec fn nn_of(w: u16) -> u8 {
    (w % 0x100) as u8
}

/// 4-bit literal (for example a sprite height): bits 0-3.
pub open spec fn n_of(w: u16) -> u8 {
    (w % 0x10) as u8
}

/// First register selector: bits 8-11.
pub open spec fn x_of(w: u16) -> u8 {
    ((w / 0x100) % 0x10) as u8
}

/// Second register selector: bits 4-7.
pub open spec fn y_of(w: u16) -> u8 {
    ((w / 0x10) % 0x10) as u8
}

/// A value reduced to sixteen bits.
pub open spec fn wrap16(v: int) -> u16 {
    (v % 0x10000) as u16
}

/// A value reduced to eight bits.
pub open spec fn wrap8(v: int) -> u8 {
    (v % 0x100) as u8
}

/// The first address of a block access starting at `base` that lies
/// outside the backing store, given that the block does not fit.
pub open spec fn first_oob(base: u16) -> u16 {
    if base >= 4096 {
        base
    } else {
        4096
    }
}

/// The processor state: sixteen 8-bit registers, program counter, index
/// register, call stack, and the two timers (the sound timer is a stub
/// with no observable effect).
#[verifier::ext_equal]
pub ghost struct CpuV {
    pub vx: Seq<u8>,
    pub pc: u16,
    pub i: u16,
    pub stack: Seq<u16>,
    pub delay_timer: u8,
    pub sound_timer: u8,
}

/// The whole machine as the model sees it: processor, memory, display
/// grid and the key currently observed by the host.
#[verifier::ext_equal]
pub ghost struct MachineV {
    pub cpu: CpuV,
    pub ram: Seq<u8>,
    pub display: Seq<u8>,
    pub key: Option<u8>,
}

impl CpuV {
    /// Sixteen registers; call depth never exceeds the bound.
    pub open spec fn wf(self) -> bool {
        &&& self.vx.len() == 16
        &&& self.stack.len() <= 16
    }
}

impl MachineV {
    /// Component well-formedness: register and stack bounds, memory and
    /// display sizes, and every display cell 0 or 1.
    pub open spec fn wf(self) -> bool {
        &&& self.cpu.wf()
        &&& self.ram.len() == 4096
        &&& self.display.len() == 2048
        &&& forall|i: int| 0 <= i < 2048 ==> self.display[i] < 2
    }
}

/// The processor with its program counter advanced `by` bytes.
pub open spec fn advance(cpu: CpuV, by: int) -> CpuV {
    CpuV { pc: wrap16(cpu.pc + by), ..cpu }
}

/// The processor after a conditional skip: four bytes ahead when `cond`
/// holds, else two.
pub open spec fn skip_if(cpu: CpuV, cond: bool) -> CpuV {
    advance(cpu, if cond { 4int } else { 2int })
}

/// `m` with only the processor replaced.
pub open spec fn with_cpu(m: MachineV, cpu: CpuV) -> MachineV {
    MachineV { cpu, ..m }
}

/// Dispatch miss: no opcode/operand combination matched `word`.
pub open spec fn unsupported(m: MachineV, word: u16) -> Result<MachineV, Chip8Error> {
    Err(Chip8Error::UnsupportedInstruction { pc: m.cpu.pc, instruction: word })
}

/// `0x00E0` (clear screen) and `0x00EE` (return).
pub open spec fn exec0_spec(m: MachineV, word: u16) -> Result<MachineV, Chip8Error> {
    if nn_of(word) == 0xE0 {
        Ok(MachineV { display: Seq::new(2048, |i: int| 0u8), cpu: advance(m.cpu, 2), ..m })
    } else if nn_of(word) == 0xEE {
        if m.cpu.stack.len() == 0 {
            Err(Chip8Error::CallStackUnderflow)
        } else {
            Ok(with_cpu(m, CpuV { pc: m.cpu.stack.last(), stack: m.cpu.stack.drop_last(), ..m.cpu }))
        }
    } else {
        unsupported(m, word)
    }
}

/// `2nnn`: push the return address, branch to `nnn`.
pub open spec fn exec_call_spec(m: MachineV, word: u16) -> Result<MachineV, Chip8Error> {
    if m.cpu.stack.len() >= 16 {
        Err(Chip8Error::CallStackOverflow)
    } else {
        Ok(with_cpu(
            m,
            CpuV { pc: nnn_of(word), stack: m.cpu.stack.push(wrap16(m.cpu.pc + 2)), ..m.cpu },
        ))
    }
}

/// The register file after an `0x8xyn` arithmetic/logic instruction, or
/// `None` when the low nibble matches no instruction. Flag-writing
/// instructions write the result first and `VF` afterwards, except the
/// shifts, which write `VF` first.
pub open spec fn alu_vx(vx: Seq<u8>, x: int, y: int, n: u8) -> Option<Seq<u8>> {
    let a = vx[x];
    let b = vx[y];
    if n == 0x0 {
        Some(vx.update(x, b))
    } else if n == 0x2 {
        Some(vx.update(x, a & b))
    } else if n == 0x3 {
        Some(vx.update(x, a ^ b))
    } else if n == 0x4 {
        let r = vx.update(x, wrap8(a + b));
        Some(
            if a + b > 255 {
                r.update(15, 1u8)
            } else {
                r
            },
        )
    } else if n == 0x5 {
        Some(
            vx.update(x, wrap8(a + 256 - b)).update(
                15,
                if a < b {
                    1u8
                } else {
                    0u8
                },
            ),
        )
    } else if n == 0x6 {
        Some(vx.update(15, a & 1).update(x, a >> 1u8))
    } else if n == 0x7 {
        Some(
            vx.update(x, wrap8(b + 256 - a)).update(
                15,
                if b < a {
                    1u8
                } else {
                    0u8
                },
            ),
        )
    } else if n == 0xE {
        Some(vx.update(15, a >> 7u8).update(x, a << 1u8))
    } else {
        None
    }
}

/// `Dxyn`: blit `n` sprite rows fetched at the index register onto the
/// display at `(Vx, Vy)`, set `VF` to the accumulated collision flag.
/// The bounds of the whole fetch are checked up front: on failure
/// nothing is mutated.
pub open spec fn exec_draw_spec(m: MachineV, word: u16) -> Result<MachineV, Chip8Error> {
    let n = n_of(word);
    if n > 0 && m.cpu.i + n > 4096 {
        Err(Chip8Error::MemoryOutOfBounds { address: first_oob(m.cpu.i) })
    } else {
        let xv = m.cpu.vx[x_of(word) as int];
        let yv = m.cpu.vx[y_of(word) as int];
        let rows = Seq::new(n as nat, |j: int| m.ram[m.cpu.i + j]);
        let dr = draw_rows(m.display, rows, xv as int, yv as int);
        Ok(
            MachineV {
                display: dr.0,
                cpu: advance(
                    CpuV {
                        vx: m.cpu.vx.update(
                            15,
                            if dr.1 {
                                1u8
                            } else {
                                0u8
                            },
                        ),
                        ..m.cpu
                    },
                    2,
                ),
                ..m
            },
        )
    }
}

/// `Ex9E` / `ExA1`: skip on key state.
pub open spec fn exec_key_spec(m: MachineV, word: u16) -> Result<MachineV, Chip8Error> {
    let keyv = m.cpu.vx[x_of(word) as int];
    if nn_of(word) == 0x9E {
        Ok(with_cpu(m, skip_if(m.cpu, m.key == Some(keyv))))
    } else if nn_of(word) == 0xA1 {
        Ok(with_cpu(m, skip_if(m.cpu, m.key != Some(keyv))))
    } else {
        unsupported(m, word)
    }
}

/// The memory after `Fx55`: registers `V0..Vx` stored at the index
/// register onwards.
pub open spec fn store_block(ram: Seq<u8>, vx: Seq<u8>, i: u16, x: u8) -> Seq<u8> {
    Seq::new(ram.len(), |a: int| if i <= a <= i + x { vx[a - i] } else { ram[a] })
}

/// The register file after `Fx65`: `V0..Vx` loaded from the index
/// register onwards, higher registers untouched.
pub open spec fn load_block(vx: Seq<u8>, ram: Seq<u8>, i: u16, x: u8) -> Seq<u8> {
    Seq::new(vx.len(), |r: int| if r <= x { ram[i + r] } else { vx[r] })
}

/// The `0xFxnn` group: timers, key wait, index arithmetic, glyph
/// addresses, BCD and the register block transfers. The display is
/// never touched by this group, so the result is the processor and
/// memory alone.
pub open spec fn exec_f_spec(cpu: CpuV, ram: Seq<u8>, key: Option<u8>, word: u16) -> Result<
    (CpuV, Seq<u8>),
    Chip8Error,
> {
    let x = x_of(word) as int;
    let xv = cpu.vx[x];
    let nn = nn_of(word);
    if nn == 0x07 {
        Ok((advance(CpuV { vx: cpu.vx.update(x, cpu.delay_timer), ..cpu }, 2), ram))
    } else if nn == 0x0A {
        match key {
            None => Ok((cpu, ram)),
            Some(k) => Ok((advance(CpuV { vx: cpu.vx.update(x, k), ..cpu }, 2), ram)),
        }
    } else if nn == 0x15 {
        Ok((advance(CpuV { delay_timer: xv, ..cpu }, 2), ram))
    } else if nn == 0x18 {
        Ok((advance(CpuV { sound_timer: xv, ..cpu }, 2), ram))
    } else if nn == 0x1E {
        Ok((advance(CpuV { i: wrap16(cpu.i + xv), ..cpu }, 2), ram))
    } else if nn == 0x29 {
        Ok((advance(CpuV { i: (xv * 5) as u16, ..cpu }, 2), ram))
    } else if nn == 0x33 {
        if cpu.i + 2 >= 4096 {
            Err(Chip8Error::MemoryOutOfBounds { address: first_oob(cpu.i) })
        } else {
            Ok(
                (
                    advance(cpu, 2),
                    ram.update(cpu.i as int, (xv / 100) as u8).update(
                        cpu.i + 1,
                        ((xv % 100) / 10) as u8,
                    ).update(cpu.i + 2, (xv % 10) as u8),
                ),
            )
        }
    } else if nn == 0x55 {
        if cpu.i + x_of(word) >= 4096 {
            Err(Chip8Error::MemoryOutOfBounds { address: first_oob(cpu.i) })
        } else {
            Ok((advance(cpu, 2), store_block(ram, cpu.vx, cpu.i, x_of(word))))
        }
    } else if nn == 0x65 {
        if cpu.i + x_of(word) >= 4096 {
            Err(Chip8Error::MemoryOutOfBounds { address: first_oob(cpu.i) })
        } else {
            Ok((advance(CpuV { vx: load_block(cpu.vx, ram, cpu.i, x_of(word)), ..cpu }, 2), ram))
        }
    } else {
        Err(Chip8Error::UnsupportedInstruction { pc: cpu.pc, instruction: word })
    }
}

/// The meaning of one instruction word: the machine after executing it,
/// or the typed condition that stops it. `rnd` is the uniform random
/// byte consumed by `Cxnn` and ignored by every other instruction. An
/// `Err` outcome mutates nothing.
pub open spec fn exec_spec(m: MachineV, word: u16, rnd: u8) -> Result<MachineV, Chip8Error> {
    let op = op_of(word);
    let x = x_of(word) as int;
    let y = y_of(word) as int;
    if op == 0x0 {
        exec0_spec(m, word)
    } else if op == 0x1 {
        Ok(with_cpu(m, CpuV { pc: nnn_of(word), ..m.cpu }))
    } else if op == 0x2 {
        exec_call_spec(m, word)
    } else if op == 0x3 {
        Ok(with_cpu(m, skip_if(m.cpu, m.cpu.vx[x] == nn_of(word))))
    } else if op == 0x4 {
        Ok(with_cpu(m, skip_if(m.cpu, m.cpu.vx[x] != nn_of(word))))
    } else if op == 0x5 {
        Ok(with_cpu(m, skip_if(m.cpu, m.cpu.vx[x] == m.cpu.vx[y])))
    } else if op == 0x6 {
        Ok(with_cpu(m, advance(CpuV { vx: m.cpu.vx.update(x, nn_of(word)), ..m.cpu }, 2)))
    } else if op == 0x7 {
        Ok(
            with_cpu(
                m,
                advance(CpuV { vx: m.cpu.vx.update(x, wrap8(m.cpu.vx[x] + nn_of(word))), ..m.cpu }, 2),
            ),
        )
    } else if op == 0x8 {
        match alu_vx(m.cpu.vx, x, y, n_of(word)) {
            Some(vx2) => Ok(with_cpu(m, advance(CpuV { vx: vx2, ..m.cpu }, 2))),
            None => unsupported(m, word),
        }
    } else if op == 0x9 {
        Ok(with_cpu(m, skip_if(m.cpu, m.cpu.vx[x] != m.cpu.vx[y])))
    } else if op == 0xA {
        Ok(with_cpu(m, advance(CpuV { i: nnn_of(word), ..m.cpu }, 2)))
    } else if op == 0xB {
        Ok(with_cpu(m, CpuV { pc: wrap16(m.cpu.vx[0] + nnn_of(word)), ..m.cpu }))
    } else if op == 0xC {
        Ok(with_cpu(m, advance(CpuV { vx: m.cpu.vx.update(x, rnd & nn_of(word)), ..m.cpu }, 2)))
    } else if op == 0xD {
        exec_draw_spec(m, word)
    } else if op == 0xE {
        exec_key_spec(m, word)
    } else {
        match exec_f_spec(m.cpu, m.ram, m.key, word) {
            Ok(cr) => Ok(MachineV { cpu: cr.0, ram: cr.1, ..m }),
            Err(e) => Err(e),
        }
    }
}

/// Fetch: the big-endian instruction word at the program counter, or the
/// out-of-bounds condition when the two bytes do not both lie inside the
/// store.
pub open spec fn fetch_spec(cpu: CpuV, ram: Seq<u8>) -> Result<u16, Chip8Error> {
    if cpu.pc >= 4096 {
        Err(Chip8Error::MemoryOutOfBounds { address: cpu.pc })
    } else if cpu.pc + 1 >= 4096 {
        Err(Chip8Error::MemoryOutOfBounds { address: (cpu.pc + 1) as u16 })
    } else {
        Ok(((ram[cpu.pc as int] as u16) << 8u16) | (ram[cpu.pc + 1] as u16))
    }
}

/// One whole step: fetch at the program counter, then execute. An `Err`
/// outcome mutates nothing.
pub open spec fn step_spec(m: MachineV, rnd: u8) -> Result<MachineV, Chip8Error> {
    match fetch_spec(m.cpu, m.ram) {
        Ok(w) => exec_spec(m, w, rnd),
        Err(e) => Err(e),
    }
}

} // verus!
