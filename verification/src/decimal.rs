//! Sums and differences of the processor's decimal mode, for the driver to
//! work out where the processor is kept from them.
use vstd::prelude::*;

verus! {

/// The carry flag of the status register.
pub const P_C: u8 = 0x01;

/// The zero flag.
pub const P_Z: u8 = 0x02;

/// The flag of decimal mode.
pub const P_D: u8 = 0x08;

/// The overflow flag.
pub const P_V: u8 = 0x40;

/// The negative flag.
pub const P_N: u8 = 0x80;

/// What a sum or difference leaves in the accumulator, and the flags that go
/// with it.
#[derive(Clone, Copy, PartialEq, Eq, Debug)]
pub struct Sum {
    pub a: u8,
    pub carry: bool,
    pub overflow: bool,
}

/// A byte as a sixteen-bit number of the same sign, without its low digit.
pub open spec fn high_part(byte: u8) -> u32 {
    if byte >= 0x80 {
        (0xff00u32 | byte as u32) & 0xfff0
    } else {
        byte as u32 & 0xfff0
    }
}

/// The sum of the two low digits and the carry, brought back into one
/// decimal digit, with 0x10 for a carry into the high digit.
pub open spec fn low_sum(a: u8, operand: u8, carry: bool) -> u32 {
    let al = ((a & 0xf) + (operand & 0xf) + if carry {
        1u8
    } else {
        0u8
    }) as u32;
    if al > 9 {
        ((al + 6) as u32 & 0xf) | 0x10
    } else {
        al
    }
}

/// The decimal sum of accumulator, operand and carry as the processor
/// forms it: digit by digit, each digit over 9 brought back by 6 with a
/// carry. The overflow flag is taken from the sum of the signed high parts
/// within sixteen bits.
pub open spec fn decimal_sum(a: u8, operand: u8, carry: bool) -> Sum {
    let al = low_sum(a, operand, carry);
    let signed = (high_part(a) + high_part(operand) + al) as u32 & 0xffff;
    let plain = ((a & 0xf0) + (operand & 0xf0) + al) as u32;
    let val = if plain > 0x9f {
        (plain + 0x60) as u32 | 0x100
    } else {
        plain
    };
    Sum { a: (val & 0xff) as u8, carry: val >= 0x100, overflow: 0x80 <= signed < 0xff80 }
}

/// The decimal difference of accumulator and operand, less one without the
/// carry, as the processor forms it: the binary difference, brought back
/// by 0x60 where it has gone below zero and by 6 where its low digit has.
pub open spec fn decimal_difference(a: u8, operand: u8, carry: bool) -> Sum {
    let borrow = if carry {
        0u8
    } else {
        1u8
    };
    let al = (a & 0xf).wrapping_sub(operand & 0xf).wrapping_sub(borrow);
    let below = (a as int) < operand as int + borrow as int;
    let diff = a.wrapping_sub(operand).wrapping_sub(borrow);
    let high = if below {
        diff.wrapping_sub(0x60)
    } else {
        diff
    };
    let val = if al >= 0x80 {
        high.wrapping_sub(6)
    } else {
        high
    };
    Sum { a: val, carry: !below, overflow: ((a ^ diff) & (operand ^ 0xff ^ diff) & 0x80) != 0 }
}

/// The status register with the flags of a sum put in: negative and zero
/// from the accumulator, carry and overflow as the sum has them.
pub open spec fn flagged(p: u8, sum: Sum) -> u8 {
    let n = (p & 0x7f) | (sum.a & 0x80);
    let z = if sum.a == 0 {
        n | P_Z
    } else {
        n & !P_Z
    };
    let c = if sum.carry {
        z | P_C
    } else {
        z & !P_C
    };
    if sum.overflow {
        c | P_V
    } else {
        c & !P_V
    }
}

/// Forms the decimal sum of accumulator, operand and carry.
pub fn add_decimal(a: u8, operand: u8, carry: bool) -> (sum: Sum)
    ensures
        sum == decimal_sum(a, operand, carry),
{
    let a_low: u8 = a & 0xf;
    let o_low: u8 = operand & 0xf;
    let a_high: u8 = a & 0xf0;
    let o_high: u8 = operand & 0xf0;
    assert(a_low <= 0xf && o_low <= 0xf && a_high <= 0xf0 && o_high <= 0xf0) by (bit_vector)
        requires
            a_low == a & 0xf,
            o_low == operand & 0xf,
            a_high == a & 0xf0,
            o_high == operand & 0xf0,
    ;
    let sum: u32 = a_low as u32 + o_low as u32 + if carry {
        1u32
    } else {
        0u32
    };
    let al: u32 = if sum > 9 {
        let wrapped: u32 = (sum + 6) & 0xf;
        assert(wrapped <= 0xf) by (bit_vector)
            requires
                wrapped == (sum + 6) as u32 & 0xf,
        ;
        let carried: u32 = wrapped | 0x10;
        assert(carried <= 0x1f) by (bit_vector)
            requires
                carried == wrapped | 0x10,
                wrapped <= 0xf,
        ;
        carried
    } else {
        sum
    };
    let sa: u32 = signed_high(a);
    let so: u32 = signed_high(operand);
    let signed: u32 = (sa + so + al) & 0xffff;
    let plain: u32 = a_high as u32 + o_high as u32 + al;
    let val: u32 = if plain > 0x9f {
        let raised: u32 = plain + 0x60;
        let marked: u32 = raised | 0x100;
        assert(marked <= 0x3ff) by (bit_vector)
            requires
                marked == raised | 0x100,
                raised <= 0x2ff,
        ;
        marked
    } else {
        plain
    };
    let low: u32 = val & 0xff;
    assert(low <= 0xff) by (bit_vector)
        requires
            low == val & 0xff,
    ;
    Sum { a: low as u8, carry: val >= 0x100, overflow: 0x80 <= signed && signed < 0xff80 }
}

fn signed_high(byte: u8) -> (r: u32)
    ensures
        r == high_part(byte),
        r <= 0xfff0,
{
    let wide: u32 = if byte >= 0x80 {
        0xff00u32 | byte as u32
    } else {
        byte as u32
    };
    let r: u32 = wide & 0xfff0;
    assert(r <= 0xfff0) by (bit_vector)
        requires
            r == wide & 0xfff0,
    ;
    r
}

/// Forms the decimal difference of accumulator and operand, less one
/// without the carry.
pub fn subtract_decimal(a: u8, operand: u8, carry: bool) -> (sum: Sum)
    ensures
        sum == decimal_difference(a, operand, carry),
{
    let borrow: u8 = if carry {
        0
    } else {
        1
    };
    let a_low: u8 = a & 0xf;
    let o_low: u8 = operand & 0xf;
    let al: u8 = a_low.wrapping_sub(o_low).wrapping_sub(borrow);
    let below = (a as u16) < operand as u16 + borrow as u16;
    let diff: u8 = a.wrapping_sub(operand).wrapping_sub(borrow);
    let high: u8 = if below {
        diff.wrapping_sub(0x60)
    } else {
        diff
    };
    let val: u8 = if al >= 0x80 {
        high.wrapping_sub(6)
    } else {
        high
    };
    Sum { a: val, carry: !below, overflow: ((a ^ diff) & (operand ^ 0xff ^ diff) & 0x80) != 0 }
}

/// Puts the flags of a sum into the status register.
pub fn with_flags(p: u8, sum: Sum) -> (r: u8)
    ensures
        r == flagged(p, sum),
{
    let n: u8 = (p & 0x7f) | (sum.a & 0x80);
    let z: u8 = if sum.a == 0 {
        n | P_Z
    } else {
        n & !P_Z
    };
    let c: u8 = if sum.carry {
        z | P_C
    } else {
        z & !P_C
    };
    if sum.overflow {
        c | P_V
    } else {
        c & !P_V
    }
}

} // verus!
