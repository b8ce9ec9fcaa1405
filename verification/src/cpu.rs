//! The processor, which the `w65c02s` crate simulates.
use crate::bus::BusView;
use crate::bus::MM2;
use crate::decimal::add_decimal;
use crate::decimal::decimal_difference;
use crate::decimal::decimal_sum;
use crate::decimal::flagged;
use crate::decimal::P_C;
use crate::decimal::P_D;
use crate::decimal::subtract_decimal;
use crate::decimal::with_flags;
use vstd::prelude::*;
use w65c02s::State;
use w65c02s::W65C02S;

verus! {

/// The processor. Nothing of its registers is visible here: it is carried
/// through and handed to the calls that drive it.
#[verifier::external_type_specification]
#[verifier::external_body]
pub struct ExW65C02S(W65C02S);

/// `W65C02S::new`: a processor that has just been reset.
pub assume_specification[ W65C02S::new ]() -> (cpu: W65C02S);

/// `W65C02S::reset`: puts the processor back into its reset state. It
/// touches the processor only.
pub assume_specification[ W65C02S::reset ](cpu: &mut W65C02S);

/// `W65C02S::set_irq`: sets the level of the interrupt-request line. It
/// touches the processor only.
pub assume_specification[ W65C02S::set_irq ](cpu: &mut W65C02S, irq: bool);

/// The registers of the processor that the driver looks at.
#[derive(Clone, Copy, PartialEq, Eq, Debug)]
pub struct Regs {
    pub a: u8,
    pub p: u8,
    pub pc: u16,
    pub s: u8,
    /// Whether the processor is running: not newly reset, not waiting for
    /// an interrupt, not stopped.
    pub running: bool,
}

/// Whether `opcode` adds to the accumulator with carry.
pub open spec fn adds(opcode: u8) -> bool {
    opcode == 0x61 || opcode == 0x65 || opcode == 0x69 || opcode == 0x6d || opcode == 0x71
        || opcode == 0x72 || opcode == 0x75 || opcode == 0x79 || opcode == 0x7d
}

/// Whether `opcode` subtracts from the accumulator with carry.
pub open spec fn subtracts(opcode: u8) -> bool {
    opcode == 0xe1 || opcode == 0xe5 || opcode == 0xe9 || opcode == 0xed || opcode == 0xf1
        || opcode == 0xf2 || opcode == 0xf5 || opcode == 0xf9 || opcode == 0xfd
}

/// Whether the processor, with these registers on this board, stands in
/// decimal mode before an instruction that adds or subtracts.
pub open spec fn decimal_sum_ahead(regs: Regs, bus: BusView) -> bool {
    regs.p & P_D != 0 && (adds(bus.read(regs.pc)) || subtracts(bus.read(regs.pc)))
}

/// Whether `opcode` adds to the accumulator with carry.
pub fn is_sum(opcode: u8) -> (r: bool)
    ensures
        r == adds(opcode),
{
    opcode == 0x61 || opcode == 0x65 || opcode == 0x69 || opcode == 0x6d || opcode == 0x71
        || opcode == 0x72 || opcode == 0x75 || opcode == 0x79 || opcode == 0x7d
}

/// Whether `opcode` subtracts from the accumulator with carry.
pub fn is_difference(opcode: u8) -> (r: bool)
    ensures
        r == subtracts(opcode),
{
    opcode == 0xe1 || opcode == 0xe5 || opcode == 0xe9 || opcode == 0xed || opcode == 0xf1
        || opcode == 0xf2 || opcode == 0xf5 || opcode == 0xf9 || opcode == 0xfd
}

/// Where the status byte lies that the processor has stacked, if it has
/// taken an interrupt in place of the instruction: a running processor
/// moves its stack pointer for nothing else when a sum is ahead.
pub open spec fn stacked_status(before: Regs, after: Regs) -> Option<u16> {
    if before.running && after.s != before.s {
        Some((0x0100 + after.s.wrapping_add(1)) as u16)
    } else {
        None
    }
}

/// The registers to go on with, once the processor has been handed in
/// binary mode the sum `opcode` that stood ahead of it in decimal mode with
/// the registers `before`, and holds the registers `after`.
/// - It was not running: it keeps decimal mode if it has done nothing, and
///   is as its reset has left it else.
/// - It has taken an interrupt: it is as the interrupt has left it.
/// - It has run the instruction: the operand is what the binary result says
///   it was, and accumulator and flags are those of the decimal sum or
///   difference.
pub open spec fn decimal_kept(before: Regs, after: Regs, opcode: u8) -> Regs {
    if !before.running {
        if after.pc == before.pc && after.s == before.s {
            Regs { p: after.p | P_D, ..after }
        } else {
            after
        }
    } else if after.s != before.s {
        after
    } else {
        let carry = before.p & P_C != 0;
        let delta = after.a.wrapping_sub(before.a).wrapping_sub(
            if carry {
                1u8
            } else {
                0u8
            },
        );
        let sum = if adds(opcode) {
            decimal_sum(before.a, delta, carry)
        } else {
            decimal_difference(before.a, delta ^ 0xff, carry)
        };
        Regs { a: sum.a, p: flagged(before.p, sum), ..after }
    }
}

/// Where the processor has stacked its status byte, if it has taken an
/// interrupt in place of the instruction.
pub fn find_stacked_status(before: Regs, after: Regs) -> (r: Option<u16>)
    ensures
        r == stacked_status(before, after),
        r matches Some(addr) ==> 0x0100 <= addr < 0x0200,
{
    if before.running && after.s != before.s {
        let low: u8 = after.s.wrapping_add(1);
        Some(0x0100 + low as u16)
    } else {
        None
    }
}

/// Works out the registers to go on with after a decimal sum that the
/// processor was handed in binary mode.
pub fn keep_decimal(before: Regs, after: Regs, opcode: u8) -> (r: Regs)
    ensures
        r == decimal_kept(before, after, opcode),
{
    if !before.running {
        if after.pc == before.pc && after.s == before.s {
            Regs { p: after.p | P_D, ..after }
        } else {
            after
        }
    } else if after.s != before.s {
        after
    } else {
        let carry = before.p & P_C != 0;
        let c: u8 = if carry {
            1
        } else {
            0
        };
        let delta: u8 = after.a.wrapping_sub(before.a).wrapping_sub(c);
        let sum = if is_sum(opcode) {
            add_decimal(before.a, delta, carry)
        } else {
            subtract_decimal(before.a, delta ^ 0xff, carry)
        };
        Regs { a: sum.a, p: with_flags(before.p, sum), ..after }
    }
}

/// `W65C02S::get_a`, `get_p`, `get_pc`, `get_s` and `get_state`: the
/// registers as the processor holds them. Nothing is said of what they
/// hold.
#[verifier::external_body]
pub(crate) fn registers(cpu: &W65C02S) -> (regs: Regs) {
    let running = match cpu.get_state() {
        State::Running => true,
        State::HasBeenReset => false,
        State::AwaitingInterrupt => false,
        State::Stopped => false,
    };
    Regs { a: cpu.get_a(), p: cpu.get_p(), pc: cpu.get_pc(), s: cpu.get_s(), running }
}

/// `W65C02S::set_a`, `set_p`, `set_pc` and `step`: the accumulator, the
/// status register and the program counter are set as `regs` has them, and
/// the processor runs one instruction, or one step of its reset or
/// interrupt sequence. It reaches the board through `System::read` and
/// `System::write` alone, which for this board are `MM2::read`, which
/// changes nothing, and `MM2::write`; so the board afterwards is the board
/// before with some writes made to it. Which writes is not said.
///
/// In decimal mode the crate adds and subtracts with sums that pass the
/// width of their type (`adc` with 0x80 and 0x80, `sbc` with 0x10 and
/// 0x0f), which panics where overflow is checked. So the processor must
/// not stand in decimal mode before an instruction that adds or subtracts.
#[verifier::external_body]
pub(crate) fn step(cpu: &mut W65C02S, regs: Regs, bus: &mut MM2)
    requires
        !decimal_sum_ahead(regs, old(bus)@),
    ensures
        old(bus)@.runs_to(final(bus)@),
{
    cpu.set_a(regs.a);
    cpu.set_p(regs.p);
    cpu.set_pc(regs.pc);
    cpu.step(bus);
}

} // verus!
