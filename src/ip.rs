//! IPv4 addresses held as their 32-bit value.

use crate::buffer::be_u32;
use vstd::prelude::*;

verus! {

/// An IPv4 address.
#[derive(Debug, PartialEq, Eq, Structural, Clone, Copy)]
pub struct Ipv4Addr {
    bits: u32,
}

impl View for Ipv4Addr {
    type V = u32;

    /// The address as a 32-bit integer, first octet most significant.
    closed spec fn view(&self) -> u32 {
        self.bits
    }
}

impl Ipv4Addr {
    /// The address `a.b.c.d`.
    pub fn new(a: u8, b: u8, c: u8, d: u8) -> (r: Ipv4Addr)
        ensures
            r@ == be_u32(seq![a, b, c, d], 0),
    {
        Ipv4Addr {
            bits: (a as u32) * 0x100_0000 + (b as u32) * 0x1_0000 + (c as u32) * 0x100 + (d as u32),
        }
    }

    /// The address whose 32-bit value is `bits`.
    pub fn from_bits(bits: u32) -> (r: Ipv4Addr)
        ensures
            r@ == bits,
    {
        Ipv4Addr { bits }
    }

    /// The 32-bit value of the address.
    pub fn to_bits(&self) -> (r: u32)
        ensures
            r == self@,
    {
        self.bits
    }

    /// The four octets of the address, first octet first.
    pub fn octets(&self) -> (r: [u8; 4])
        ensures
            be_u32(r@, 0) == self@,
    {
        let x = self.bits;
        let r = [(x >> 24) as u8, (x >> 16) as u8, (x >> 8) as u8, x as u8];
        assert((((x >> 24) as u8) as int) * 0x100_0000 + (((x >> 16) as u8) as int) * 0x1_0000
            + (((x >> 8) as u8) as int) * 0x100 + ((x as u8) as int) == x) by (bit_vector);
        r
    }
}

} // verus!
