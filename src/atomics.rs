//! Atomic cells over linear memory: loads and stores at every width, the
//! read-modify-write family, compare-exchange, and the fence.
//!
//! Every operation that changes a cell takes the memory by `&mut`: with the
//! memory held exclusively no other access can fall between the read and the
//! write of a cell, so each operation is indivisible, as a sequentially
//! consistent atomic is.
use crate::codec::{
    add_wrapping, byte_modulus, is_width, lemma_bitwise_bounded, lemma_byte_moduli,
    lemma_unsigned_in_range, signed_of, sub_wrapping, to_signed, to_unsigned, unsigned_of,
};
use crate::memory::{cell, in_bounds, with_cell, LinearMemory};
use vstd::arithmetic::div_mod::{lemma_add_mod_noop, lemma_sub_mod_noop};
use vstd::prelude::*;

verus! {

/// The read-modify-write operations on an atomic cell.
#[derive(Clone, Copy, Debug, PartialEq, Eq, Structural)]
pub enum RmwOp {
    Add,
    Sub,
    And,
    Or,
    Xor,
    Exchange,
}

/// The new value of an `n`-byte cell that held the unsigned value `pre` after
/// `op` with operand `arg`; the store cuts it to `n` bytes.
pub open spec fn rmw_result(op: RmwOp, pre: int, arg: int, n: nat) -> int {
    match op {
        RmwOp::Add => pre + arg,
        RmwOp::Sub => pre - arg,
        RmwOp::And => (pre as u64 & unsigned_of(arg, n) as u64) as int,
        RmwOp::Or => (pre as u64 | unsigned_of(arg, n) as u64) as int,
        RmwOp::Xor => (pre as u64 ^ unsigned_of(arg, n) as u64) as int,
        RmwOp::Exchange => arg,
    }
}

/// Relies on `std::sync::atomic::fence`: a sequentially consistent fence.
#[verifier::external_body]
fn seq_cst_fence() {
    std::sync::atomic::fence(std::sync::atomic::Ordering::SeqCst)
}

impl LinearMemory {
    /// Applies `op` with `arg` to the `n`-byte cell at `address`; returns the
    /// value the cell held before, read as signed.
    pub(crate) fn rmw(&mut self, address: i32, op: RmwOp, arg: i64, n: usize) -> (r: i64)
        requires
            in_bounds(old(self)@, address, n as int),
            is_width(n as nat),
        ensures
            r == signed_of(cell(old(self)@, address, n as nat), n as nat),
            -(byte_modulus(n as nat) / 2) <= r < byte_modulus(n as nat) / 2,
            final(self)@ == with_cell(
                old(self)@,
                address,
                n as nat,
                rmw_result(op, cell(old(self)@, address, n as nat), arg as int, n as nat),
            ),
    {
        let pre = self.load(address, n);
        let a = to_unsigned(arg, n);
        proof {
            lemma_byte_moduli();
            lemma_unsigned_in_range(pre as int, n as nat);
            lemma_bitwise_bounded(pre, a, n as nat);
        }
        let next: u64 = match op {
            RmwOp::Add => add_wrapping(pre, a, n),
            RmwOp::Sub => sub_wrapping(pre, a, n),
            RmwOp::And => pre & a,
            RmwOp::Or => pre | a,
            RmwOp::Xor => pre ^ a,
            RmwOp::Exchange => a,
        };
        proof {
            let m = byte_modulus(n as nat);
            let res = rmw_result(op, pre as int, arg as int, n as nat);
            lemma_unsigned_in_range(next as int, n as nat);
            match op {
                RmwOp::Add => {
                    lemma_add_mod_noop(pre as int, arg as int, m);
                },
                RmwOp::Sub => {
                    lemma_sub_mod_noop(pre as int, arg as int, m);
                },
                RmwOp::Exchange => {
                    vstd::arithmetic::div_mod::lemma_mod_twice(arg as int, m);
                },
                _ => {
                    lemma_unsigned_in_range(res, n as nat);
                },
            }
            assert(unsigned_of(next as int, n as nat) == unsigned_of(res, n as nat));
        }
        self.store(address, next, n);
        to_signed(pre, n)
    }

    /// Stores `new` in the `n`-byte cell at `address` where the cell holds
    /// `current` (both cut to `n` bytes); returns the value the cell held
    /// before, read as signed.
    pub(crate) fn cmpxchg(&mut self, address: i32, current: i64, new: i64, n: usize) -> (r: i64)
        requires
            in_bounds(old(self)@, address, n as int),
            is_width(n as nat),
        ensures
            r == signed_of(cell(old(self)@, address, n as nat), n as nat),
            -(byte_modulus(n as nat) / 2) <= r < byte_modulus(n as nat) / 2,
            final(self)@ == if cell(old(self)@, address, n as nat) == unsigned_of(
                current as int,
                n as nat,
            ) {
                with_cell(old(self)@, address, n as nat, new as int)
            } else {
                old(self)@
            },
    {
        let pre = self.load(address, n);
        let expected = to_unsigned(current, n);
        if pre == expected {
            let v = to_unsigned(new, n);
            proof {
                lemma_unsigned_in_range(v as int, n as nat);
                vstd::arithmetic::div_mod::lemma_mod_twice(new as int, byte_modulus(n as nat));
                assert(unsigned_of(v as int, n as nat) == unsigned_of(new as int, n as nat));
            }
            self.store(address, v, n);
        }
        to_signed(pre, n)
    }

    /// Orders this thread's memory accesses against all others, sequentially
    /// consistently.
    pub fn atomic_fence(&self) {
        seq_cst_fence();
    }

    /// Reads the little-endian `i32` cell at `address`, as it is. A plain
    /// load is atomic here: every writer holds the memory by `&mut`.
    pub fn atomic_read_i32(&self, address: i32) -> (r: i32)
        requires
            in_bounds(self@, address, 4),
        ensures
            r == signed_of(cell(self@, address, 4), 4),
    {
        proof {
            lemma_byte_moduli();
        }
        to_signed(self.load(address, 4), 4) as i32
    }

    /// Reads the little-endian `i8` cell at `address`, sign-extended to `i32`. A plain
    /// load is atomic here: every writer holds the memory by `&mut`.
    pub fn atomic_read_i32_from_i8(&self, address: i32) -> (r: i32)
        requires
            in_bounds(self@, address, 1),
        ensures
            r == signed_of(cell(self@, address, 1), 1),
    {
        proof {
            lemma_byte_moduli();
        }
        to_signed(self.load(address, 1), 1) as i32
    }

    /// Reads the little-endian `i16` cell at `address`, sign-extended to `i32`. A plain
    /// load is atomic here: every writer holds the memory by `&mut`.
    pub fn atomic_read_i32_from_i16(&self, address: i32) -> (r: i32)
        requires
            in_bounds(self@, address, 2),
        ensures
            r == signed_of(cell(self@, address, 2), 2),
    {
        proof {
            lemma_byte_moduli();
        }
        to_signed(self.load(address, 2), 2) as i32
    }

    /// Reads the little-endian `u8` cell at `address`, zero-extended to `i32`. A plain
    /// load is atomic here: every writer holds the memory by `&mut`.
    pub fn atomic_read_i32_from_u8(&self, address: i32) -> (r: i32)
        requires
            in_bounds(self@, address, 1),
        ensures
            r == cell(self@, address, 1),
    {
        proof {
            lemma_byte_moduli();
        }
        self.load(address, 1) as i32
    }

    /// Reads the little-endian `u16` cell at `address`, zero-extended to `i32`. A plain
    /// load is atomic here: every writer holds the memory by `&mut`.
    pub fn atomic_read_i32_from_u16(&self, address: i32) -> (r: i32)
        requires
            in_bounds(self@, address, 2),
        ensures
            r == cell(self@, address, 2),
    {
        proof {
            lemma_byte_moduli();
        }
        self.load(address, 2) as i32
    }

    /// Reads the little-endian `i64` cell at `address`, as it is. A plain
    /// load is atomic here: every writer holds the memory by `&mut`.
    pub fn atomic_read_i64(&self, address: i32) -> (r: i64)
        requires
            in_bounds(self@, address, 8),
        ensures
            r == signed_of(cell(self@, address, 8), 8),
    {
        proof {
            lemma_byte_moduli();
        }
        to_signed(self.load(address, 8), 8)
    }

    /// Reads the little-endian `i8` cell at `address`, sign-extended to `i64`. A plain
    /// load is atomic here: every writer holds the memory by `&mut`.
    pub fn atomic_read_i64_from_i8(&self, address: i32) -> (r: i64)
        requires
            in_bounds(self@, address, 1),
        ensures
            r == signed_of(cell(self@, address, 1), 1),
    {
        proof {
            lemma_byte_moduli();
        }
        to_signed(self.load(address, 1), 1) as i64
    }

    /// Reads the little-endian `i16` cell at `address`, sign-extended to `i64`. A plain
    /// load is atomic here: every writer holds the memory by `&mut`.
    pub fn atomic_read_i64_from_i16(&self, address: i32) -> (r: i64)
        requires
            in_bounds(self@, address, 2),
        ensures
            r == signed_of(cell(self@, address, 2), 2),
    {
        proof {
            lemma_byte_moduli();
        }
        to_signed(self.load(address, 2), 2) as i64
    }

    /// Reads the little-endian `i32` cell at `address`, sign-extended to `i64`. A plain
    /// load is atomic here: every writer holds the memory by `&mut`.
    pub fn atomic_read_i64_from_i32(&self, address: i32) -> (r: i64)
        requires
            in_bounds(self@, address, 4),
        ensures
            r == signed_of(cell(self@, address, 4), 4),
    {
        proof {
            lemma_byte_moduli();
        }
        to_signed(self.load(address, 4), 4) as i64
    }

    /// Reads the little-endian `u8` cell at `address`, zero-extended to `i64`. A plain
    /// load is atomic here: every writer holds the memory by `&mut`.
    pub fn atomic_read_i64_from_u8(&self, address: i32) -> (r: i64)
        requires
            in_bounds(self@, address, 1),
        ensures
            r == cell(self@, address, 1),
    {
        proof {
            lemma_byte_moduli();
        }
        self.load(address, 1) as i64
    }

    /// Reads the little-endian `u16` cell at `address`, zero-extended to `i64`. A plain
    /// load is atomic here: every writer holds the memory by `&mut`.
    pub fn atomic_read_i64_from_u16(&self, address: i32) -> (r: i64)
        requires
            in_bounds(self@, address, 2),
        ensures
            r == cell(self@, address, 2),
    {
        proof {
            lemma_byte_moduli();
        }
        self.load(address, 2) as i64
    }

    /// Reads the little-endian `u32` cell at `address`, zero-extended to `i64`. A plain
    /// load is atomic here: every writer holds the memory by `&mut`.
    pub fn atomic_read_i64_from_u32(&self, address: i32) -> (r: i64)
        requires
            in_bounds(self@, address, 4),
        ensures
            r == cell(self@, address, 4),
    {
        proof {
            lemma_byte_moduli();
        }
        self.load(address, 4) as i64
    }

    /// Writes `value`, as it is, little-endian at `address`;
    /// the `&mut` makes the store indivisible.
    pub fn atomic_write_i32(&mut self, address: i32, value: i32)
        requires
            in_bounds(old(self)@, address, 4),
        ensures
            final(self)@ == with_cell(old(self)@, address, 4, value as int),
    {
        self.store_value(address, value as i64, 4);
    }

    /// Writes `value`, cut to `i8`, little-endian at `address`;
    /// the `&mut` makes the store indivisible.
    pub fn atomic_write_i32_to_i8(&mut self, address: i32, value: i32)
        requires
            in_bounds(old(self)@, address, 1),
        ensures
            final(self)@ == with_cell(old(self)@, address, 1, value as int),
    {
        self.store_value(address, value as i64, 1);
    }

    /// Writes `value`, cut to `i16`, little-endian at `address`;
    /// the `&mut` makes the store indivisible.
    pub fn atomic_write_i32_to_i16(&mut self, address: i32, value: i32)
        requires
            in_bounds(old(self)@, address, 2),
        ensures
            final(self)@ == with_cell(old(self)@, address, 2, value as int),
    {
        self.store_value(address, value as i64, 2);
    }

    /// Writes `value`, as it is, little-endian at `address`;
    /// the `&mut` makes the store indivisible.
    pub fn atomic_write_i64(&mut self, address: i32, value: i64)
        requires
            in_bounds(old(self)@, address, 8),
        ensures
            final(self)@ == with_cell(old(self)@, address, 8, value as int),
    {
        self.store_value(address, value, 8);
    }

    /// Writes `value`, cut to `i8`, little-endian at `address`;
    /// the `&mut` makes the store indivisible.
    pub fn atomic_write_i64_to_i8(&mut self, address: i32, value: i64)
        requires
            in_bounds(old(self)@, address, 1),
        ensures
            final(self)@ == with_cell(old(self)@, address, 1, value as int),
    {
        self.store_value(address, value as i64, 1);
    }

    /// Writes `value`, cut to `i16`, little-endian at `address`;
    /// the `&mut` makes the store indivisible.
    pub fn atomic_write_i64_to_i16(&mut self, address: i32, value: i64)
        requires
            in_bounds(old(self)@, address, 2),
        ensures
            final(self)@ == with_cell(old(self)@, address, 2, value as int),
    {
        self.store_value(address, value as i64, 2);
    }

    /// Writes `value`, cut to `i32`, little-endian at `address`;
    /// the `&mut` makes the store indivisible.
    pub fn atomic_write_i64_to_i32(&mut self, address: i32, value: i64)
        requires
            in_bounds(old(self)@, address, 4),
        ensures
            final(self)@ == with_cell(old(self)@, address, 4, value as int),
    {
        self.store_value(address, value as i64, 4);
    }

    /// Atomically adds `value` to the `i32` cell at `address`, wrapping at its width; returns
    /// the cell's previous value, sign-extended.
    pub fn atomic_rmw_add_i32(&mut self, address: i32, value: i32) -> (r: i32)
        requires
            in_bounds(old(self)@, address, 4),
        ensures
            r == signed_of(cell(old(self)@, address, 4), 4),
            final(self)@ == with_cell(
                old(self)@,
                address,
                4,
                rmw_result(RmwOp::Add, cell(old(self)@, address, 4), value as int, 4),
            ),
    {
        proof {
            lemma_byte_moduli();
        }
        self.rmw(address, RmwOp::Add, value as i64, 4) as i32
    }

    /// Atomically ands `value` into the `i32` cell at `address`, wrapping at its width; returns
    /// the cell's previous value, sign-extended.
    pub fn atomic_rmw_and_i32(&mut self, address: i32, value: i32) -> (r: i32)
        requires
            in_bounds(old(self)@, address, 4),
        ensures
            r == signed_of(cell(old(self)@, address, 4), 4),
            final(self)@ == with_cell(
                old(self)@,
                address,
                4,
                rmw_result(RmwOp::And, cell(old(self)@, address, 4), value as int, 4),
            ),
    {
        proof {
            lemma_byte_moduli();
        }
        self.rmw(address, RmwOp::And, value as i64, 4) as i32
    }

    /// Atomically subtracts `value` from the `i32` cell at `address`, wrapping at its width; returns
    /// the cell's previous value, sign-extended.
    pub fn atomic_rmw_sub_i32(&mut self, address: i32, value: i32) -> (r: i32)
        requires
            in_bounds(old(self)@, address, 4),
        ensures
            r == signed_of(cell(old(self)@, address, 4), 4),
            final(self)@ == with_cell(
                old(self)@,
                address,
                4,
                rmw_result(RmwOp::Sub, cell(old(self)@, address, 4), value as int, 4),
            ),
    {
        proof {
            lemma_byte_moduli();
        }
        self.rmw(address, RmwOp::Sub, value as i64, 4) as i32
    }

    /// Atomically ors `value` into the `i32` cell at `address`, wrapping at its width; returns
    /// the cell's previous value, sign-extended.
    pub fn atomic_rmw_or_i32(&mut self, address: i32, value: i32) -> (r: i32)
        requires
            in_bounds(old(self)@, address, 4),
        ensures
            r == signed_of(cell(old(self)@, address, 4), 4),
            final(self)@ == with_cell(
                old(self)@,
                address,
                4,
                rmw_result(RmwOp::Or, cell(old(self)@, address, 4), value as int, 4),
            ),
    {
        proof {
            lemma_byte_moduli();
        }
        self.rmw(address, RmwOp::Or, value as i64, 4) as i32
    }

    /// Atomically xors `value` into the `i32` cell at `address`, wrapping at its width; returns
    /// the cell's previous value, sign-extended.
    pub fn atomic_rmw_xor_i32(&mut self, address: i32, value: i32) -> (r: i32)
        requires
            in_bounds(old(self)@, address, 4),
        ensures
            r == signed_of(cell(old(self)@, address, 4), 4),
            final(self)@ == with_cell(
                old(self)@,
                address,
                4,
                rmw_result(RmwOp::Xor, cell(old(self)@, address, 4), value as int, 4),
            ),
    {
        proof {
            lemma_byte_moduli();
        }
        self.rmw(address, RmwOp::Xor, value as i64, 4) as i32
    }

    /// Atomically stores `value` in the `i32` cell at `address`, wrapping at its width; returns
    /// the cell's previous value, sign-extended.
    pub fn atomic_rmw_exchange_i32(&mut self, address: i32, value: i32) -> (r: i32)
        requires
            in_bounds(old(self)@, address, 4),
        ensures
            r == signed_of(cell(old(self)@, address, 4), 4),
            final(self)@ == with_cell(
                old(self)@,
                address,
                4,
                rmw_result(RmwOp::Exchange, cell(old(self)@, address, 4), value as int, 4),
            ),
    {
        proof {
            lemma_byte_moduli();
        }
        self.rmw(address, RmwOp::Exchange, value as i64, 4) as i32
    }

    /// Atomically adds `value` to the `i8` cell at `address`, wrapping at its width; returns
    /// the cell's previous value, sign-extended.
    pub fn atomic_rmw_add_i32_to_i8(&mut self, address: i32, value: i32) -> (r: i32)
        requires
            in_bounds(old(self)@, address, 1),
        ensures
            r == signed_of(cell(old(self)@, address, 1), 1),
            final(self)@ == with_cell(
                old(self)@,
                address,
                1,
                rmw_result(RmwOp::Add, cell(old(self)@, address, 1), value as int, 1),
            ),
    {
        proof {
            lemma_byte_moduli();
        }
        self.rmw(address, RmwOp::Add, value as i64, 1) as i32
    }

    /// Atomically ands `value` into the `i8` cell at `address`, wrapping at its width; returns
    /// the cell's previous value, sign-extended.
    pub fn atomic_rmw_and_i32_to_i8(&mut self, address: i32, value: i32) -> (r: i32)
        requires
            in_bounds(old(self)@, address, 1),
        ensures
            r == signed_of(cell(old(self)@, address, 1), 1),
            final(self)@ == with_cell(
                old(self)@,
                address,
                1,
                rmw_result(RmwOp::And, cell(old(self)@, address, 1), value as int, 1),
            ),
    {
        proof {
            lemma_byte_moduli();
        }
        self.rmw(address, RmwOp::And, value as i64, 1) as i32
    }

    /// Atomically subtracts `value` from the `i8` cell at `address`, wrapping at its width; returns
    /// the cell's previous value, sign-extended.
    pub fn atomic_rmw_sub_i32_to_i8(&mut self, address: i32, value: i32) -> (r: i32)
        requires
            in_bounds(old(self)@, address, 1),
        ensures
            r == signed_of(cell(old(self)@, address, 1), 1),
            final(self)@ == with_cell(
                old(self)@,
                address,
                1,
                rmw_result(RmwOp::Sub, cell(old(self)@, address, 1), value as int, 1),
            ),
    {
        proof {
            lemma_byte_moduli();
        }
        self.rmw(address, RmwOp::Sub, value as i64, 1) as i32
    }

    /// Atomically ors `value` into the `i8` cell at `address`, wrapping at its width; returns
    /// the cell's previous value, sign-extended.
    pub fn atomic_rmw_or_i32_to_i8(&mut self, address: i32, value: i32) -> (r: i32)
        requires
            in_bounds(old(self)@, address, 1),
        ensures
            r == signed_of(cell(old(self)@, address, 1), 1),
            final(self)@ == with_cell(
                old(self)@,
                address,
                1,
                rmw_result(RmwOp::Or, cell(old(self)@, address, 1), value as int, 1),
            ),
    {
        proof {
            lemma_byte_moduli();
        }
        self.rmw(address, RmwOp::Or, value as i64, 1) as i32
    }

    /// Atomically xors `value` into the `i8` cell at `address`, wrapping at its width; returns
    /// the cell's previous value, sign-extended.
    pub fn atomic_rmw_xor_i32_to_i8(&mut self, address: i32, value: i32) -> (r: i32)
        requires
            in_bounds(old(self)@, address, 1),
        ensures
            r == signed_of(cell(old(self)@, address, 1), 1),
            final(self)@ == with_cell(
                old(self)@,
                address,
                1,
                rmw_result(RmwOp::Xor, cell(old(self)@, address, 1), value as int, 1),
            ),
    {
        proof {
            lemma_byte_moduli();
        }
        self.rmw(address, RmwOp::Xor, value as i64, 1) as i32
    }

    /// Atomically stores `value` in the `i8` cell at `address`, wrapping at its width; returns
    /// the cell's previous value, sign-extended.
    pub fn atomic_rmw_exchange_i32_to_i8(&mut self, address: i32, value: i32) -> (r: i32)
        requires
            in_bounds(old(self)@, address, 1),
        ensures
            r == signed_of(cell(old(self)@, address, 1), 1),
            final(self)@ == with_cell(
                old(self)@,
                address,
                1,
                rmw_result(RmwOp::Exchange, cell(old(self)@, address, 1), value as int, 1),
            ),
    {
        proof {
            lemma_byte_moduli();
        }
        self.rmw(address, RmwOp::Exchange, value as i64, 1) as i32
    }

    /// Atomically adds `value` to the `i16` cell at `address`, wrapping at its width; returns
    /// the cell's previous value, sign-extended.
    pub fn atomic_rmw_add_i32_to_i16(&mut self, address: i32, value: i32) -> (r: i32)
        requires
            in_bounds(old(self)@, address, 2),
        ensures
            r == signed_of(cell(old(self)@, address, 2), 2),
            final(self)@ == with_cell(
                old(self)@,
                address,
                2,
                rmw_result(RmwOp::Add, cell(old(self)@, address, 2), value as int, 2),
            ),
    {
        proof {
            lemma_byte_moduli();
        }
        self.rmw(address, RmwOp::Add, value as i64, 2) as i32
    }

    /// Atomically ands `value` into the `i16` cell at `address`, wrapping at its width; returns
    /// the cell's previous value, sign-extended.
    pub fn atomic_rmw_and_i32_to_i16(&mut self, address: i32, value: i32) -> (r: i32)
        requires
            in_bounds(old(self)@, address, 2),
        ensures
            r == signed_of(cell(old(self)@, address, 2), 2),
            final(self)@ == with_cell(
                old(self)@,
                address,
                2,
                rmw_result(RmwOp::And, cell(old(self)@, address, 2), value as int, 2),
            ),
    {
        proof {
            lemma_byte_moduli();
        }
        self.rmw(address, RmwOp::And, value as i64, 2) as i32
    }

    /// Atomically subtracts `value` from the `i16` cell at `address`, wrapping at its width; returns
    /// the cell's previous value, sign-extended.
    pub fn atomic_rmw_sub_i32_to_i16(&mut self, address: i32, value: i32) -> (r: i32)
        requires
            in_bounds(old(self)@, address, 2),
        ensures
            r == signed_of(cell(old(self)@, address, 2), 2),
            final(self)@ == with_cell(
                old(self)@,
                address,
                2,
                rmw_result(RmwOp::Sub, cell(old(self)@, address, 2), value as int, 2),
            ),
    {
        proof {
            lemma_byte_moduli();
        }
        self.rmw(address, RmwOp::Sub, value as i64, 2) as i32
    }

    /// Atomically ors `value` into the `i16` cell at `address`, wrapping at its width; returns
    /// the cell's previous value, sign-extended.
    pub fn atomic_rmw_or_i32_to_i16(&mut self, address: i32, value: i32) -> (r: i32)
        requires
            in_bounds(old(self)@, address, 2),
        ensures
            r == signed_of(cell(old(self)@, address, 2), 2),
            final(self)@ == with_cell(
                old(self)@,
                address,
                2,
                rmw_result(RmwOp::Or, cell(old(self)@, address, 2), value as int, 2),
            ),
    {
        proof {
            lemma_byte_moduli();
        }
        self.rmw(address, RmwOp::Or, value as i64, 2) as i32
    }

    /// Atomically xors `value` into the `i16` cell at `address`, wrapping at its width; returns
    /// the cell's previous value, sign-extended.
    pub fn atomic_rmw_xor_i32_to_i16(&mut self, address: i32, value: i32) -> (r: i32)
        requires
            in_bounds(old(self)@, address, 2),
        ensures
            r == signed_of(cell(old(self)@, address, 2), 2),
            final(self)@ == with_cell(
                old(self)@,
                address,
                2,
                rmw_result(RmwOp::Xor, cell(old(self)@, address, 2), value as int, 2),
            ),
    {
        proof {
            lemma_byte_moduli();
        }
        self.rmw(address, RmwOp::Xor, value as i64, 2) as i32
    }

    /// Atomically stores `value` in the `i16` cell at `address`, wrapping at its width; returns
    /// the cell's previous value, sign-extended.
    pub fn atomic_rmw_exchange_i32_to_i16(&mut self, address: i32, value: i32) -> (r: i32)
        requires
            in_bounds(old(self)@, address, 2),
        ensures
            r == signed_of(cell(old(self)@, address, 2), 2),
            final(self)@ == with_cell(
                old(self)@,
                address,
                2,
                rmw_result(RmwOp::Exchange, cell(old(self)@, address, 2), value as int, 2),
            ),
    {
        proof {
            lemma_byte_moduli();
        }
        self.rmw(address, RmwOp::Exchange, value as i64, 2) as i32
    }

    /// Atomically adds `value` to the `i64` cell at `address`, wrapping at its width; returns
    /// the cell's previous value, sign-extended.
    pub fn atomic_rmw_add_i64(&mut self, address: i32, value: i64) -> (r: i64)
        requires
            in_bounds(old(self)@, address, 8),
        ensures
            r == signed_of(cell(old(self)@, address, 8), 8),
            final(self)@ == with_cell(
                old(self)@,
                address,
                8,
                rmw_result(RmwOp::Add, cell(old(self)@, address, 8), value as int, 8),
            ),
    {
        proof {
            lemma_byte_moduli();
        }
        self.rmw(address, RmwOp::Add, value, 8)
    }

    /// Atomically ands `value` into the `i64` cell at `address`, wrapping at its width; returns
    /// the cell's previous value, sign-extended.
    pub fn atomic_rmw_and_i64(&mut self, address: i32, value: i64) -> (r: i64)
        requires
            in_bounds(old(self)@, address, 8),
        ensures
            r == signed_of(cell(old(self)@, address, 8), 8),
            final(self)@ == with_cell(
                old(self)@,
                address,
                8,
                rmw_result(RmwOp::And, cell(old(self)@, address, 8), value as int, 8),
            ),
    {
        proof {
            lemma_byte_moduli();
        }
        self.rmw(address, RmwOp::And, value, 8)
    }

    /// Atomically subtracts `value` from the `i64` cell at `address`, wrapping at its width; returns
    /// the cell's previous value, sign-extended.
    pub fn atomic_rmw_sub_i64(&mut self, address: i32, value: i64) -> (r: i64)
        requires
            in_bounds(old(self)@, address, 8),
        ensures
            r == signed_of(cell(old(self)@, address, 8), 8),
            final(self)@ == with_cell(
                old(self)@,
                address,
                8,
                rmw_result(RmwOp::Sub, cell(old(self)@, address, 8), value as int, 8),
            ),
    {
        proof {
            lemma_byte_moduli();
        }
        self.rmw(address, RmwOp::Sub, value, 8)
    }

    /// Atomically ors `value` into the `i64` cell at `address`, wrapping at its width; returns
    /// the cell's previous value, sign-extended.
    pub fn atomic_rmw_or_i64(&mut self, address: i32, value: i64) -> (r: i64)
        requires
            in_bounds(old(self)@, address, 8),
        ensures
            r == signed_of(cell(old(self)@, address, 8), 8),
            final(self)@ == with_cell(
                old(self)@,
                address,
                8,
                rmw_result(RmwOp::Or, cell(old(self)@, address, 8), value as int, 8),
            ),
    {
        proof {
            lemma_byte_moduli();
        }
        self.rmw(address, RmwOp::Or, value, 8)
    }

    /// Atomically xors `value` into the `i64` cell at `address`, wrapping at its width; returns
    /// the cell's previous value, sign-extended.
    pub fn atomic_rmw_xor_i64(&mut self, address: i32, value: i64) -> (r: i64)
        requires
            in_bounds(old(self)@, address, 8),
        ensures
            r == signed_of(cell(old(self)@, address, 8), 8),
            final(self)@ == with_cell(
                old(self)@,
                address,
                8,
                rmw_result(RmwOp::Xor, cell(old(self)@, address, 8), value as int, 8),
            ),
    {
        proof {
            lemma_byte_moduli();
        }
        self.rmw(address, RmwOp::Xor, value, 8)
    }

    /// Atomically stores `value` in the `i64` cell at `address`, wrapping at its width; returns
    /// the cell's previous value, sign-extended.
    pub fn atomic_rmw_exchange_i64(&mut self, address: i32, value: i64) -> (r: i64)
        requires
            in_bounds(old(self)@, address, 8),
        ensures
            r == signed_of(cell(old(self)@, address, 8), 8),
            final(self)@ == with_cell(
                old(self)@,
                address,
                8,
                rmw_result(RmwOp::Exchange, cell(old(self)@, address, 8), value as int, 8),
            ),
    {
        proof {
            lemma_byte_moduli();
        }
        self.rmw(address, RmwOp::Exchange, value, 8)
    }

    /// Atomically adds `value` to the `i8` cell at `address`, wrapping at its width; returns
    /// the cell's previous value, sign-extended.
    pub fn atomic_rmw_add_i64_to_i8(&mut self, address: i32, value: i64) -> (r: i64)
        requires
            in_bounds(old(self)@, address, 1),
        ensures
            r == signed_of(cell(old(self)@, address, 1), 1),
            final(self)@ == with_cell(
                old(self)@,
                address,
                1,
                rmw_result(RmwOp::Add, cell(old(self)@, address, 1), value as int, 1),
            ),
    {
        proof {
            lemma_byte_moduli();
        }
        self.rmw(address, RmwOp::Add, value as i64, 1) as i64
    }

    /// Atomically ands `value` into the `i8` cell at `address`, wrapping at its width; returns
    /// the cell's previous value, sign-extended.
    pub fn atomic_rmw_and_i64_to_i8(&mut self, address: i32, value: i64) -> (r: i64)
        requires
            in_bounds(old(self)@, address, 1),
        ensures
            r == signed_of(cell(old(self)@, address, 1), 1),
            final(self)@ == with_cell(
                old(self)@,
                address,
                1,
                rmw_result(RmwOp::And, cell(old(self)@, address, 1), value as int, 1),
            ),
    {
        proof {
            lemma_byte_moduli();
        }
        self.rmw(address, RmwOp::And, value as i64, 1) as i64
    }

    /// Atomically subtracts `value` from the `i8` cell at `address`, wrapping at its width; returns
    /// the cell's previous value, sign-extended.
    pub fn atomic_rmw_sub_i64_to_i8(&mut self, address: i32, value: i64) -> (r: i64)
        requires
            in_bounds(old(self)@, address, 1),
        ensures
            r == signed_of(cell(old(self)@, address, 1), 1),
            final(self)@ == with_cell(
                old(self)@,
                address,
                1,
                rmw_result(RmwOp::Sub, cell(old(self)@, address, 1), value as int, 1),
            ),
    {
        proof {
            lemma_byte_moduli();
        }
        self.rmw(address, RmwOp::Sub, value as i64, 1) as i64
    }

    /// Atomically ors `value` into the `i8` cell at `address`, wrapping at its width; returns
    /// the cell's previous value, sign-extended.
    pub fn atomic_rmw_or_i64_to_i8(&mut self, address: i32, value: i64) -> (r: i64)
        requires
            in_bounds(old(self)@, address, 1),
        ensures
            r == signed_of(cell(old(self)@, address, 1), 1),
            final(self)@ == with_cell(
                old(self)@,
                address,
                1,
                rmw_result(RmwOp::Or, cell(old(self)@, address, 1), value as int, 1),
            ),
    {
        proof {
            lemma_byte_moduli();
        }
        self.rmw(address, RmwOp::Or, value as i64, 1) as i64
    }

    /// Atomically xors `value` into the `i8` cell at `address`, wrapping at its width; returns
    /// the cell's previous value, sign-extended.
    pub fn atomic_rmw_xor_i64_to_i8(&mut self, address: i32, value: i64) -> (r: i64)
        requires
            in_bounds(old(self)@, address, 1),
        ensures
            r == signed_of(cell(old(self)@, address, 1), 1),
            final(self)@ == with_cell(
                old(self)@,
                address,
                1,
                rmw_result(RmwOp::Xor, cell(old(self)@, address, 1), value as int, 1),
            ),
    {
        proof {
            lemma_byte_moduli();
        }
        self.rmw(address, RmwOp::Xor, value as i64, 1) as i64
    }

    /// Atomically stores `value` in the `i8` cell at `address`, wrapping at its width; returns
    /// the cell's previous value, sign-extended.
    pub fn atomic_rmw_exchange_i64_to_i8(&mut self, address: i32, value: i64) -> (r: i64)
        requires
            in_bounds(old(self)@, address, 1),
        ensures
            r == signed_of(cell(old(self)@, address, 1), 1),
            final(self)@ == with_cell(
                old(self)@,
                address,
                1,
                rmw_result(RmwOp::Exchange, cell(old(self)@, address, 1), value as int, 1),
            ),
    {
        proof {
            lemma_byte_moduli();
        }
        self.rmw(address, RmwOp::Exchange, value as i64, 1) as i64
    }

    /// Atomically adds `value` to the `i16` cell at `address`, wrapping at its width; returns
    /// the cell's previous value, sign-extended.
    pub fn atomic_rmw_add_i64_to_i16(&mut self, address: i32, value: i64) -> (r: i64)
        requires
            in_bounds(old(self)@, address, 2),
        ensures
            r == signed_of(cell(old(self)@, address, 2), 2),
            final(self)@ == with_cell(
                old(self)@,
                address,
                2,
                rmw_result(RmwOp::Add, cell(old(self)@, address, 2), value as int, 2),
            ),
    {
        proof {
            lemma_byte_moduli();
        }
        self.rmw(address, RmwOp::Add, value as i64, 2) as i64
    }

    /// Atomically ands `value` into the `i16` cell at `address`, wrapping at its width; returns
    /// the cell's previous value, sign-extended.
    pub fn atomic_rmw_and_i64_to_i16(&mut self, address: i32, value: i64) -> (r: i64)
        requires
            in_bounds(old(self)@, address, 2),
        ensures
            r == signed_of(cell(old(self)@, address, 2), 2),
            final(self)@ == with_cell(
                old(self)@,
                address,
                2,
                rmw_result(RmwOp::And, cell(old(self)@, address, 2), value as int, 2),
            ),
    {
        proof {
            lemma_byte_moduli();
        }
        self.rmw(address, RmwOp::And, value as i64, 2) as i64
    }

    /// Atomically subtracts `value` from the `i16` cell at `address`, wrapping at its width; returns
    /// the cell's previous value, sign-extended.
    pub fn atomic_rmw_sub_i64_to_i16(&mut self, address: i32, value: i64) -> (r: i64)
        requires
            in_bounds(old(self)@, address, 2),
        ensures
            r == signed_of(cell(old(self)@, address, 2), 2),
            final(self)@ == with_cell(
                old(self)@,
                address,
                2,
                rmw_result(RmwOp::Sub, cell(old(self)@, address, 2), value as int, 2),
            ),
    {
        proof {
            lemma_byte_moduli();
        }
        self.rmw(address, RmwOp::Sub, value as i64, 2) as i64
    }

    /// Atomically ors `value` into the `i16` cell at `address`, wrapping at its width; returns
    /// the cell's previous value, sign-extended.
    pub fn atomic_rmw_or_i64_to_i16(&mut self, address: i32, value: i64) -> (r: i64)
        requires
            in_bounds(old(self)@, address, 2),
        ensures
            r == signed_of(cell(old(self)@, address, 2), 2),
            final(self)@ == with_cell(
                old(self)@,
                address,
                2,
                rmw_result(RmwOp::Or, cell(old(self)@, address, 2), value as int, 2),
            ),
    {
        proof {
            lemma_byte_moduli();
        }
        self.rmw(address, RmwOp::Or, value as i64, 2) as i64
    }

    /// Atomically xors `value` into the `i16` cell at `address`, wrapping at its width; returns
    /// the cell's previous value, sign-extended.
    pub fn atomic_rmw_xor_i64_to_i16(&mut self, address: i32, value: i64) -> (r: i64)
        requires
            in_bounds(old(self)@, address, 2),
        ensures
            r == signed_of(cell(old(self)@, address, 2), 2),
            final(self)@ == with_cell(
                old(self)@,
                address,
                2,
                rmw_result(RmwOp::Xor, cell(old(self)@, address, 2), value as int, 2),
            ),
    {
        proof {
            lemma_byte_moduli();
        }
        self.rmw(address, RmwOp::Xor, value as i64, 2) as i64
    }

    /// Atomically stores `value` in the `i16` cell at `address`, wrapping at its width; returns
    /// the cell's previous value, sign-extended.
    pub fn atomic_rmw_exchange_i64_to_i16(&mut self, address: i32, value: i64) -> (r: i64)
        requires
            in_bounds(old(self)@, address, 2),
        ensures
            r == signed_of(cell(old(self)@, address, 2), 2),
            final(self)@ == with_cell(
                old(self)@,
                address,
                2,
                rmw_result(RmwOp::Exchange, cell(old(self)@, address, 2), value as int, 2),
            ),
    {
        proof {
            lemma_byte_moduli();
        }
        self.rmw(address, RmwOp::Exchange, value as i64, 2) as i64
    }

    /// Atomically adds `value` to the `i32` cell at `address`, wrapping at its width; returns
    /// the cell's previous value, sign-extended.
    pub fn atomic_rmw_add_i64_to_i32(&mut self, address: i32, value: i64) -> (r: i64)
        requires
            in_bounds(old(self)@, address, 4),
        ensures
            r == signed_of(cell(old(self)@, address, 4), 4),
            final(self)@ == with_cell(
                old(self)@,
                address,
                4,
                rmw_result(RmwOp::Add, cell(old(self)@, address, 4), value as int, 4),
            ),
    {
        proof {
            lemma_byte_moduli();
        }
        self.rmw(address, RmwOp::Add, value as i64, 4) as i64
    }

    /// Atomically ands `value` into the `i32` cell at `address`, wrapping at its width; returns
    /// the cell's previous value, sign-extended.
    pub fn atomic_rmw_and_i64_to_i32(&mut self, address: i32, value: i64) -> (r: i64)
        requires
            in_bounds(old(self)@, address, 4),
        ensures
            r == signed_of(cell(old(self)@, address, 4), 4),
            final(self)@ == with_cell(
                old(self)@,
                address,
                4,
                rmw_result(RmwOp::And, cell(old(self)@, address, 4), value as int, 4),
            ),
    {
        proof {
            lemma_byte_moduli();
        }
        self.rmw(address, RmwOp::And, value as i64, 4) as i64
    }

    /// Atomically subtracts `value` from the `i32` cell at `address`, wrapping at its width; returns
    /// the cell's previous value, sign-extended.
    pub fn atomic_rmw_sub_i64_to_i32(&mut self, address: i32, value: i64) -> (r: i64)
        requires
            in_bounds(old(self)@, address, 4),
        ensures
            r == signed_of(cell(old(self)@, address, 4), 4),
            final(self)@ == with_cell(
                old(self)@,
                address,
                4,
                rmw_result(RmwOp::Sub, cell(old(self)@, address, 4), value as int, 4),
            ),
    {
        proof {
            lemma_byte_moduli();
        }
        self.rmw(address, RmwOp::Sub, value as i64, 4) as i64
    }

    /// Atomically ors `value` into the `i32` cell at `address`, wrapping at its width; returns
    /// the cell's previous value, sign-extended.
    pub fn atomic_rmw_or_i64_to_i32(&mut self, address: i32, value: i64) -> (r: i64)
        requires
            in_bounds(old(self)@, address, 4),
        ensures
            r == signed_of(cell(old(self)@, address, 4), 4),
            final(self)@ == with_cell(
                old(self)@,
                address,
                4,
                rmw_result(RmwOp::Or, cell(old(self)@, address, 4), value as int, 4),
            ),
    {
        proof {
            lemma_byte_moduli();
        }
        self.rmw(address, RmwOp::Or, value as i64, 4) as i64
    }

    /// Atomically xors `value` into the `i32` cell at `address`, wrapping at its width; returns
    /// the cell's previous value, sign-extended.
    pub fn atomic_rmw_xor_i64_to_i32(&mut self, address: i32, value: i64) -> (r: i64)
        requires
            in_bounds(old(self)@, address, 4),
        ensures
            r == signed_of(cell(old(self)@, address, 4), 4),
            final(self)@ == with_cell(
                old(self)@,
                address,
                4,
                rmw_result(RmwOp::Xor, cell(old(self)@, address, 4), value as int, 4),
            ),
    {
        proof {
            lemma_byte_moduli();
        }
        self.rmw(address, RmwOp::Xor, value as i64, 4) as i64
    }

    /// Atomically stores `value` in the `i32` cell at `address`, wrapping at its width; returns
    /// the cell's previous value, sign-extended.
    pub fn atomic_rmw_exchange_i64_to_i32(&mut self, address: i32, value: i64) -> (r: i64)
        requires
            in_bounds(old(self)@, address, 4),
        ensures
            r == signed_of(cell(old(self)@, address, 4), 4),
            final(self)@ == with_cell(
                old(self)@,
                address,
                4,
                rmw_result(RmwOp::Exchange, cell(old(self)@, address, 4), value as int, 4),
            ),
    {
        proof {
            lemma_byte_moduli();
        }
        self.rmw(address, RmwOp::Exchange, value as i64, 4) as i64
    }

    /// Atomically stores `new` in the `i32` cell at `address` where it holds
    /// `current` (both cut to `i32`); returns the cell's previous value,
    /// sign-extended, whether or not it was replaced.
    pub fn atomic_compare_exchange_i32(&mut self, address: i32, current: i32, new: i32) -> (r: i32)
        requires
            in_bounds(old(self)@, address, 4),
        ensures
            r == signed_of(cell(old(self)@, address, 4), 4),
            final(self)@ == if cell(old(self)@, address, 4) == unsigned_of(current as int, 4) {
                with_cell(old(self)@, address, 4, new as int)
            } else {
                old(self)@
            },
    {
        proof {
            lemma_byte_moduli();
        }
        self.cmpxchg(address, current as i64, new as i64, 4) as i32
    }

    /// Atomically stores `new` in the `i8` cell at `address` where it holds
    /// `current` (both cut to `i8`); returns the cell's previous value,
    /// sign-extended, whether or not it was replaced.
    pub fn atomic_compare_exchange_i32_to_i8(&mut self, address: i32, current: i32, new: i32) -> (r: i32)
        requires
            in_bounds(old(self)@, address, 1),
        ensures
            r == signed_of(cell(old(self)@, address, 1), 1),
            final(self)@ == if cell(old(self)@, address, 1) == unsigned_of(current as int, 1) {
                with_cell(old(self)@, address, 1, new as int)
            } else {
                old(self)@
            },
    {
        proof {
            lemma_byte_moduli();
        }
        self.cmpxchg(address, current as i64, new as i64, 1) as i32
    }

    /// Atomically stores `new` in the `i16` cell at `address` where it holds
    /// `current` (both cut to `i16`); returns the cell's previous value,
    /// sign-extended, whether or not it was replaced.
    pub fn atomic_compare_exchange_i32_to_i16(&mut self, address: i32, current: i32, new: i32) -> (r: i32)
        requires
            in_bounds(old(self)@, address, 2),
        ensures
            r == signed_of(cell(old(self)@, address, 2), 2),
            final(self)@ == if cell(old(self)@, address, 2) == unsigned_of(current as int, 2) {
                with_cell(old(self)@, address, 2, new as int)
            } else {
                old(self)@
            },
    {
        proof {
            lemma_byte_moduli();
        }
        self.cmpxchg(address, current as i64, new as i64, 2) as i32
    }

    /// Atomically stores `new` in the `i64` cell at `address` where it holds
    /// `current` (both cut to `i64`); returns the cell's previous value,
    /// sign-extended, whether or not it was replaced.
    pub fn atomic_compare_exchange_i64(&mut self, address: i32, current: i64, new: i64) -> (r: i64)
        requires
            in_bounds(old(self)@, address, 8),
        ensures
            r == signed_of(cell(old(self)@, address, 8), 8),
            final(self)@ == if cell(old(self)@, address, 8) == unsigned_of(current as int, 8) {
                with_cell(old(self)@, address, 8, new as int)
            } else {
                old(self)@
            },
    {
        proof {
            lemma_byte_moduli();
        }
        self.cmpxchg(address, current, new, 8)
    }

    /// Atomically stores `new` in the `i8` cell at `address` where it holds
    /// `current` (both cut to `i8`); returns the cell's previous value,
    /// sign-extended, whether or not it was replaced.
    pub fn atomic_compare_exchange_i64_to_i8(&mut self, address: i32, current: i64, new: i64) -> (r: i64)
        requires
            in_bounds(old(self)@, address, 1),
        ensures
            r == signed_of(cell(old(self)@, address, 1), 1),
            final(self)@ == if cell(old(self)@, address, 1) == unsigned_of(current as int, 1) {
                with_cell(old(self)@, address, 1, new as int)
            } else {
                old(self)@
            },
    {
        proof {
            lemma_byte_moduli();
        }
        self.cmpxchg(address, current as i64, new as i64, 1) as i64
    }

    /// Atomically stores `new` in the `i16` cell at `address` where it holds
    /// `current` (both cut to `i16`); returns the cell's previous value,
    /// sign-extended, whether or not it was replaced.
    pub fn atomic_compare_exchange_i64_to_i16(&mut self, address: i32, current: i64, new: i64) -> (r: i64)
        requires
            in_bounds(old(self)@, address, 2),
        ensures
            r == signed_of(cell(old(self)@, address, 2), 2),
            final(self)@ == if cell(old(self)@, address, 2) == unsigned_of(current as int, 2) {
                with_cell(old(self)@, address, 2, new as int)
            } else {
                old(self)@
            },
    {
        proof {
            lemma_byte_moduli();
        }
        self.cmpxchg(address, current as i64, new as i64, 2) as i64
    }

    /// Atomically stores `new` in the `i32` cell at `address` where it holds
    /// `current` (both cut to `i32`); returns the cell's previous value,
    /// sign-extended, whether or not it was replaced.
    pub fn atomic_compare_exchange_i64_to_i32(&mut self, address: i32, current: i64, new: i64) -> (r: i64)
        requires
            in_bounds(old(self)@, address, 4),
        ensures
            r == signed_of(cell(old(self)@, address, 4), 4),
            final(self)@ == if cell(old(self)@, address, 4) == unsigned_of(current as int, 4) {
                with_cell(old(self)@, address, 4, new as int)
            } else {
                old(self)@
            },
    {
        proof {
            lemma_byte_moduli();
        }
        self.cmpxchg(address, current as i64, new as i64, 4) as i64
    }
}

} // verus!
