//! Plain little-endian loads and stores at every width, with sign or zero
//! extension on the way in and truncation on the way out.
use crate::codec::{lemma_byte_moduli, signed_of, to_signed};
use crate::memory::{cell, in_bounds, with_cell, LinearMemory};
use vstd::prelude::*;

verus! {

impl LinearMemory {
    /// Reads the little-endian `i32` at `address`, as it is.
    pub fn read_i32(&self, address: i32) -> (r: i32)
        requires
            in_bounds(self@, address, 4),
        ensures
            r == signed_of(cell(self@, address, 4), 4),
    {
        proof {
            lemma_byte_moduli();
        }
        to_signed(self.load(address, 4), 4) as i32
    }

    /// Reads the little-endian `i8` at `address`, sign-extended to `i32`.
    pub fn read_i32_from_i8(&self, address: i32) -> (r: i32)
        requires
            in_bounds(self@, address, 1),
        ensures
            r == signed_of(cell(self@, address, 1), 1),
    {
        proof {
            lemma_byte_moduli();
        }
        to_signed(self.load(address, 1), 1) as i32
    }

    /// Reads the little-endian `i16` at `address`, sign-extended to `i32`.
    pub fn read_i32_from_i16(&self, address: i32) -> (r: i32)
        requires
            in_bounds(self@, address, 2),
        ensures
            r == signed_of(cell(self@, address, 2), 2),
    {
        proof {
            lemma_byte_moduli();
        }
        to_signed(self.load(address, 2), 2) as i32
    }

    /// Reads the little-endian `u8` at `address`, zero-extended to `i32`.
    pub fn read_i32_from_u8(&self, address: i32) -> (r: i32)
        requires
            in_bounds(self@, address, 1),
        ensures
            r == cell(self@, address, 1),
    {
        proof {
            lemma_byte_moduli();
        }
        self.load(address, 1) as i32
    }

    /// Reads the little-endian `u16` at `address`, zero-extended to `i32`.
    pub fn read_i32_from_u16(&self, address: i32) -> (r: i32)
        requires
            in_bounds(self@, address, 2),
        ensures
            r == cell(self@, address, 2),
    {
        proof {
            lemma_byte_moduli();
        }
        self.load(address, 2) as i32
    }

    /// Reads the little-endian `i64` at `address`, as it is.
    pub fn read_i64(&self, address: i32) -> (r: i64)
        requires
            in_bounds(self@, address, 8),
        ensures
            r == signed_of(cell(self@, address, 8), 8),
    {
        proof {
            lemma_byte_moduli();
        }
        to_signed(self.load(address, 8), 8)
    }

    /// Reads the little-endian `i8` at `address`, sign-extended to `i64`.
    pub fn read_i64_from_i8(&self, address: i32) -> (r: i64)
        requires
            in_bounds(self@, address, 1),
        ensures
            r == signed_of(cell(self@, address, 1), 1),
    {
        proof {
            lemma_byte_moduli();
        }
        to_signed(self.load(address, 1), 1) as i64
    }

    /// Reads the little-endian `i16` at `address`, sign-extended to `i64`.
    pub fn read_i64_from_i16(&self, address: i32) -> (r: i64)
        requires
            in_bounds(self@, address, 2),
        ensures
            r == signed_of(cell(self@, address, 2), 2),
    {
        proof {
            lemma_byte_moduli();
        }
        to_signed(self.load(address, 2), 2) as i64
    }

    /// Reads the little-endian `i32` at `address`, sign-extended to `i64`.
    pub fn read_i64_from_i32(&self, address: i32) -> (r: i64)
        requires
            in_bounds(self@, address, 4),
        ensures
            r == signed_of(cell(self@, address, 4), 4),
    {
        proof {
            lemma_byte_moduli();
        }
        to_signed(self.load(address, 4), 4) as i64
    }

    /// Reads the little-endian `u8` at `address`, zero-extended to `i64`.
    pub fn read_i64_from_u8(&self, address: i32) -> (r: i64)
        requires
            in_bounds(self@, address, 1),
        ensures
            r == cell(self@, address, 1),
    {
        proof {
            lemma_byte_moduli();
        }
        self.load(address, 1) as i64
    }

    /// Reads the little-endian `u16` at `address`, zero-extended to `i64`.
    pub fn read_i64_from_u16(&self, address: i32) -> (r: i64)
        requires
            in_bounds(self@, address, 2),
        ensures
            r == cell(self@, address, 2),
    {
        proof {
            lemma_byte_moduli();
        }
        self.load(address, 2) as i64
    }

    /// Reads the little-endian `u32` at `address`, zero-extended to `i64`.
    pub fn read_i64_from_u32(&self, address: i32) -> (r: i64)
        requires
            in_bounds(self@, address, 4),
        ensures
            r == cell(self@, address, 4),
    {
        proof {
            lemma_byte_moduli();
        }
        self.load(address, 4) as i64
    }

    /// Writes `value`, as it is, little-endian at `address`.
    pub fn write_i32(&mut self, address: i32, value: i32)
        requires
            in_bounds(old(self)@, address, 4),
        ensures
            final(self)@ == with_cell(old(self)@, address, 4, value as int),
    {
        self.store_value(address, value as i64, 4);
    }

    /// Writes `value`, cut to `i8`, little-endian at `address`.
    pub fn write_i32_to_i8(&mut self, address: i32, value: i32)
        requires
            in_bounds(old(self)@, address, 1),
        ensures
            final(self)@ == with_cell(old(self)@, address, 1, value as int),
    {
        self.store_value(address, value as i64, 1);
    }

    /// Writes `value`, cut to `i16`, little-endian at `address`.
    pub fn write_i32_to_i16(&mut self, address: i32, value: i32)
        requires
            in_bounds(old(self)@, address, 2),
        ensures
            final(self)@ == with_cell(old(self)@, address, 2, value as int),
    {
        self.store_value(address, value as i64, 2);
    }

    /// Writes `value`, as it is, little-endian at `address`.
    pub fn write_i64(&mut self, address: i32, value: i64)
        requires
            in_bounds(old(self)@, address, 8),
        ensures
            final(self)@ == with_cell(old(self)@, address, 8, value as int),
    {
        self.store_value(address, value, 8);
    }

    /// Writes `value`, cut to `i8`, little-endian at `address`.
    pub fn write_i64_to_i8(&mut self, address: i32, value: i64)
        requires
            in_bounds(old(self)@, address, 1),
        ensures
            final(self)@ == with_cell(old(self)@, address, 1, value as int),
    {
        self.store_value(address, value as i64, 1);
    }

    /// Writes `value`, cut to `i16`, little-endian at `address`.
    pub fn write_i64_to_i16(&mut self, address: i32, value: i64)
        requires
            in_bounds(old(self)@, address, 2),
        ensures
            final(self)@ == with_cell(old(self)@, address, 2, value as int),
    {
        self.store_value(address, value as i64, 2);
    }

    /// Writes `value`, cut to `i32`, little-endian at `address`.
    pub fn write_i64_to_i32(&mut self, address: i32, value: i64)
        requires
            in_bounds(old(self)@, address, 4),
        ensures
            final(self)@ == with_cell(old(self)@, address, 4, value as int),
    {
        self.store_value(address, value as i64, 4);
    }
}

} // verus!
