//! Laws of the instruction-set model: properties that hold of every
//! machine state, proved once and for all against the transition
//! function the executable engine is verified to follow.

use vstd::prelude::*;
use crate::display::blit_row;
use crate::display::col_offset;
use crate::display::lemma_xor_cell;
use crate::display::sprite_bit;
use crate::error::Chip8Error;
use crate::isa::advance;
use crate::isa::exec_spec;
use crate::isa::fetch_spec;
use crate::isa::n_of;
use crate::isa::nn_of;
use crate::isa::nnn_of;
use crate::isa::op_of;
use crate::isa::step_spec;
use crate::isa::wrap16;
use crate::isa::wrap8;
use crate::isa::x_of;
use crate::isa::y_of;
use crate::isa::MachineV;

verus! {

/// Clear screen: executing an `0x00E0` word leaves every display cell
/// unset, advances the program counter by two, and touches nothing
/// else, whatever was on the display before.
pub proof fn lemma_clear_screen(m: MachineV, word: u16, rnd: u8)
    requires
        m.wf(),
        op_of(word) == 0x0,
        nn_of(word) == 0xE0,
    ensures
        exec_spec(m, word, rnd) is Ok,
        ({
            let m2 = exec_spec(m, word, rnd)->Ok_0;
            &&& m2.display.len() == 2048
            &&& forall|i: int| 0 <= i < 2048 ==> m2.display[i] == 0u8
            &&& m2.cpu == advance(m.cpu, 2)
            &&& m2.ram == m.ram
            &&& m2.key == m.key
        }),
{
}

/// Return: executing an `0x00EE` word with an empty call stack fails
/// with `CallStackUnderflow`; with a non-empty stack the program
/// counter becomes the most recently pushed address, that frame is
/// removed, and nothing else changes.
pub proof fn lemma_subroutine_return(m: MachineV, word: u16, rnd: u8)
    requires
        m.wf(),
        op_of(word) == 0x0,
        nn_of(word) == 0xEE,
    ensures
        m.cpu.stack.len() == 0 ==> exec_spec(m, word, rnd) == Err::<MachineV, Chip8Error>(
            Chip8Error::CallStackUnderflow,
        ),
        m.cpu.stack.len() > 0 ==> ({
            let m2 = exec_spec(m, word, rnd)->Ok_0;
            &&& exec_spec(m, word, rnd) is Ok
            &&& m2.cpu.pc == m.cpu.stack.last()
            &&& m2.cpu.stack == m.cpu.stack.drop_last()
            &&& m2.cpu.vx == m.cpu.vx
            &&& m2.cpu.i == m.cpu.i
            &&& m2.ram == m.ram
            &&& m2.display == m.display
            &&& m2.key == m.key
        }),
{
}

/// Add immediate (`0x7xnn`): the destination register wraps at eight
/// bits and every other register — the flag register included, as long
/// as it is not itself the destination — keeps its value. This is the
/// deliberate asymmetry with register-register addition, which does
/// report its carry.
pub proof fn lemma_add_immediate_flag_untouched(m: MachineV, word: u16, rnd: u8)
    requires
        m.wf(),
        op_of(word) == 0x7,
    ensures
        exec_spec(m, word, rnd) is Ok,
        ({
            let x = x_of(word) as int;
            let m2 = exec_spec(m, word, rnd)->Ok_0;
            &&& m2.cpu.vx[x] == wrap8(m.cpu.vx[x] + nn_of(word))
            &&& forall|j: int| 0 <= j < 16 && j != x ==> m2.cpu.vx[j] == m.cpu.vx[j]
            &&& x_of(word) != 0xF ==> m2.cpu.vx[15] == m.cpu.vx[15]
            &&& m2.cpu.pc == wrap16(m.cpu.pc + 2)
            &&& m2.ram == m.ram
            &&& m2.display == m.display
        }),
{
}

/// Register-register add (`0x8xy4`, destination not the flag register):
/// the destination wraps at eight bits and the flag register becomes 1
/// exactly when the widened sum overflows a byte, keeping its old value
/// otherwise.
pub proof fn lemma_add_registers_carry(m: MachineV, word: u16, rnd: u8)
    requires
        m.wf(),
        op_of(word) == 0x8,
        n_of(word) == 0x4,
        x_of(word) != 0xF,
    ensures
        exec_spec(m, word, rnd) is Ok,
        ({
            let a = m.cpu.vx[x_of(word) as int];
            let b = m.cpu.vx[y_of(word) as int];
            let m2 = exec_spec(m, word, rnd)->Ok_0;
            &&& m2.cpu.vx[x_of(word) as int] == wrap8(a + b)
            &&& m2.cpu.vx[15] == (if a + b > 255 {
                1u8
            } else {
                m.cpu.vx[15]
            })
            &&& m2.cpu.pc == wrap16(m.cpu.pc + 2)
        }),
{
}

/// Blitting the same sprite row twice at the same position restores
/// the buffer exactly: the XOR blit is an involution.
pub proof fn lemma_blit_row_involution(buf: Seq<u8>, bits: u8, x: int, y: int)
    ensures
        blit_row(blit_row(buf, bits, x, y), bits, x, y) == buf,
{
    let b1 = blit_row(buf, bits, x, y);
    let b2 = blit_row(b1, bits, x, y);
    assert forall|i: int| 0 <= i < buf.len() implies b2[i] == buf[i] by {
        if i / 64 == y % 32 && col_offset(i % 64, x) < 8 {
            lemma_xor_cell(buf[i], sprite_bit(bits, col_offset(i % 64, x)));
        }
    }
    assert(b2 =~= buf);
}

/// Register block round trip: storing `V0..Vx` with `Fx55` and loading
/// with `Fx65` at the same index register restores every register, for
/// any register contents; both instructions leave the index register
/// unchanged.
pub proof fn lemma_register_block_round_trip(m: MachineV, w55: u16, w65: u16, rnd1: u8, rnd2: u8)
    requires
        m.wf(),
        op_of(w55) == 0xF,
        nn_of(w55) == 0x55,
        op_of(w65) == 0xF,
        nn_of(w65) == 0x65,
        x_of(w65) == x_of(w55),
        m.cpu.i + x_of(w55) < 4096,
    ensures
        exec_spec(m, w55, rnd1) is Ok,
        ({
            let m1 = exec_spec(m, w55, rnd1)->Ok_0;
            &&& m1.cpu.i == m.cpu.i
            &&& exec_spec(m1, w65, rnd2) is Ok
            &&& exec_spec(m1, w65, rnd2)->Ok_0.cpu.vx == m.cpu.vx
            &&& exec_spec(m1, w65, rnd2)->Ok_0.cpu.i == m.cpu.i
        }),
{
    let m1 = exec_spec(m, w55, rnd1)->Ok_0;
    let m2 = exec_spec(m1, w65, rnd2)->Ok_0;
    assert forall|r: int| 0 <= r < 16 implies m2.cpu.vx[r] == m.cpu.vx[r] by {
        if r <= x_of(w55) {
            assert(m1.ram[m.cpu.i + r] == m.cpu.vx[r]);
        }
    }
    assert(m2.cpu.vx =~= m.cpu.vx);
}

/// The three BCD digits of a byte are decimal digits and recombine to
/// the byte itself.
pub proof fn lemma_bcd_digits(v: u8)
    by (bit_vector)
    ensures
        v / 100 < 10,
        (v % 100) / 10 < 10,
        v % 10 < 10,
        100 * (v / 100) + 10 * ((v % 100) / 10) + (v % 10) == v,
{
}

/// `Fx33` writes the hundreds, tens and units digits of `Vx` at the
/// index register, touching no other byte, and those three digits
/// recombine to `Vx`.
pub proof fn lemma_bcd_write(m: MachineV, word: u16, rnd: u8)
    requires
        m.wf(),
        op_of(word) == 0xF,
        nn_of(word) == 0x33,
        m.cpu.i + 2 < 4096,
    ensures
        exec_spec(m, word, rnd) is Ok,
        ({
            let v = m.cpu.vx[x_of(word) as int];
            let m2 = exec_spec(m, word, rnd)->Ok_0;
            &&& m2.ram[m.cpu.i as int] == v / 100
            &&& m2.ram[m.cpu.i + 1] == (v % 100) / 10
            &&& m2.ram[m.cpu.i + 2] == v % 10
            &&& 100 * (m2.ram[m.cpu.i as int]) + 10 * (m2.ram[m.cpu.i + 1]) + (m2.ram[m.cpu.i
                + 2]) == v
            &&& forall|a: int|
                0 <= a < 4096 && !(m.cpu.i <= a <= m.cpu.i + 2) ==> m2.ram[a] == m.ram[a]
            &&& m2.cpu == advance(m.cpu, 2)
            &&& m2.display == m.display
        }),
{
    lemma_bcd_digits(m.cpu.vx[x_of(word) as int]);
}

/// Call/return round trip: a call (`2nnn`) from a machine whose stack
/// is not full, followed by a return (`0x00EE`), brings the program
/// counter to just past the call and restores the stack, whatever the
/// target of the call was.
pub proof fn lemma_call_return_round_trip(m: MachineV, wcall: u16, wret: u16, rnd1: u8, rnd2: u8)
    requires
        m.wf(),
        op_of(wcall) == 0x2,
        op_of(wret) == 0x0,
        nn_of(wret) == 0xEE,
        m.cpu.stack.len() < 16,
    ensures
        exec_spec(m, wcall, rnd1) is Ok,
        ({
            let m1 = exec_spec(m, wcall, rnd1)->Ok_0;
            &&& m1.cpu.pc == nnn_of(wcall)
            &&& exec_spec(m1, wret, rnd2) is Ok
            &&& exec_spec(m1, wret, rnd2)->Ok_0.cpu.pc == wrap16(m.cpu.pc + 2)
            &&& exec_spec(m1, wret, rnd2)->Ok_0.cpu.stack == m.cpu.stack
        }),
{
    let m1 = exec_spec(m, wcall, rnd1)->Ok_0;
    assert(m1.cpu.stack.drop_last() =~= m.cpu.stack);
}

/// Only the random-register instruction (`Cxnn`) reads the random
/// byte: a step whose fetched word has any other top nibble gives the
/// same outcome for every byte the random source may produce.
pub proof fn lemma_step_ignores_randomness(m: MachineV, b1: u8, b2: u8)
    requires
        m.wf(),
        fetch_spec(m.cpu, m.ram) is Ok ==> op_of(fetch_spec(m.cpu, m.ram)->Ok_0) != 0xC,
    ensures
        step_spec(m, b1) == step_spec(m, b2),
{
}

/// Key wait (`Fx0A`): with no key observed the machine does not move at
/// all — the program counter stays, so the same instruction is fetched
/// again on every following step; once a key is observed, the step
/// stores the key code in `Vx` and advances the program counter by two.
pub proof fn lemma_key_wait(m: MachineV, word: u16, rnd: u8)
    requires
        m.wf(),
        op_of(word) == 0xF,
        nn_of(word) == 0x0A,
    ensures
        m.key is None ==> exec_spec(m, word, rnd) == Ok::<MachineV, Chip8Error>(m),
        m.key is Some ==> ({
            let x = x_of(word) as int;
            let m2 = exec_spec(m, word, rnd)->Ok_0;
            &&& exec_spec(m, word, rnd) is Ok
            &&& m2.cpu.vx[x] == m.key->0
            &&& forall|j: int| 0 <= j < 16 && j != x ==> m2.cpu.vx[j] == m.cpu.vx[j]
            &&& m2.cpu.pc == wrap16(m.cpu.pc + 2)
            &&& m2.ram == m.ram
            &&& m2.display == m.display
        }),
{
}

} // verus!
