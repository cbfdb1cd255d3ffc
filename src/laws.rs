//! Laws that relate the memory's operations to one another: what a read
//! returns after a write, a read-modify-write or a compare-exchange.
use crate::atomics::{rmw_result, RmwOp};
use crate::codec::{
    byte_modulus, is_width, le_bytes, lemma_byte_moduli, lemma_le_round_trip,
    lemma_signed_in_range, lemma_signed_of_unsigned, signed_of, unsigned_of,
};
use crate::memory::{cell, in_bounds, offset, splice, window, with_cell};
use vstd::prelude::*;

verus! {

/// The bytes just written are what a window over them shows.
proof fn lemma_window_of_splice(bytes: Seq<u8>, address: i32, t: Seq<u8>)
    requires
        in_bounds(bytes, address, t.len() as int),
    ensures
        window(splice(bytes, offset(address), t), address, t.len()) =~= t,
        splice(bytes, offset(address), t).len() == bytes.len(),
        forall|j: int|
            0 <= j < bytes.len() && !(offset(address) <= j < offset(address) + t.len())
                ==> #[trigger] splice(bytes, offset(address), t)[j] == bytes[j],
{
    lemma_byte_moduli();
}

/// Writing a cell and reading it back gives the written value cut to the
/// cell's width: read as unsigned, `v` modulo 2^(8n); read as signed, `v`
/// itself for every `v` of the cell's signed type. Every byte outside the cell
/// stays as it was.
pub proof fn law_write_then_read(bytes: Seq<u8>, address: i32, n: nat, v: int)
    requires
        is_width(n),
        in_bounds(bytes, address, n as int),
    ensures
        cell(with_cell(bytes, address, n, v), address, n) == unsigned_of(v, n),
        signed_of(cell(with_cell(bytes, address, n, v), address, n), n) == signed_of(v, n),
        -(byte_modulus(n) / 2) <= v < byte_modulus(n) / 2 ==> signed_of(
            cell(with_cell(bytes, address, n, v), address, n),
            n,
        ) == v,
        with_cell(bytes, address, n, v).len() == bytes.len(),
        forall|j: int|
            0 <= j < bytes.len() && !(offset(address) <= j < offset(address) + n) ==> #[trigger] with_cell(
                bytes,
                address,
                n,
                v,
            )[j] == bytes[j],
{
    lemma_le_round_trip(v, n);
    lemma_window_of_splice(bytes, address, le_bytes(v, n));
    lemma_signed_of_unsigned(v, n);
    if -(byte_modulus(n) / 2) <= v < byte_modulus(n) / 2 {
        lemma_signed_in_range(v, n);
    }
}

/// Storing an `i32` as a byte and loading that byte zero-extended gives
/// `v & 0xFF`.
pub proof fn law_narrow_store_zero_extend(bytes: Seq<u8>, address: i32, v: i32)
    requires
        in_bounds(bytes, address, 1),
    ensures
        cell(with_cell(bytes, address, 1, v as int), address, 1) == (v & 0xFF) as int,
{
    law_write_then_read(bytes, address, 1, v as int);
    lemma_byte_moduli();
    assert(0 <= (v & 0xff) < 256) by (bit_vector);
    assert(v == (v >> 8) * 256 + (v & 0xff)) by (bit_vector);
    vstd::arithmetic::div_mod::lemma_fundamental_div_mod_converse(
        v as int,
        256,
        (v >> 8) as int,
        (v & 0xff) as int,
    );
}

/// Storing an `i32` as a byte and loading that byte sign-extended gives
/// `v & 0xFF` sign-extended from 8 bits.
pub proof fn law_narrow_store_sign_extend(bytes: Seq<u8>, address: i32, v: i32)
    requires
        in_bounds(bytes, address, 1),
    ensures
        signed_of(cell(with_cell(bytes, address, 1, v as int), address, 1), 1) == if (v & 0xFF)
            < 0x80 {
            (v & 0xFF) as int
        } else {
            (v & 0xFF) - 0x100
        },
{
    law_narrow_store_zero_extend(bytes, address, v);
    lemma_byte_moduli();
    assert(0 <= (v & 0xff) < 256) by (bit_vector);
    crate::codec::lemma_unsigned_in_range((v & 0xff) as int, 1);
}

/// After a read-modify-write, the cell holds `op(pre, arg)` in the cell's
/// type: where `pre` is what the cell held, reading it back gives the result
/// of the operation wrapped to the cell's width.
pub proof fn law_rmw_then_read(bytes: Seq<u8>, address: i32, n: nat, op: RmwOp, arg: int)
    requires
        is_width(n),
        in_bounds(bytes, address, n as int),
    ensures
        ({
            let pre = cell(bytes, address, n);
            let after = with_cell(bytes, address, n, rmw_result(op, pre, arg, n));
            &&& cell(after, address, n) == unsigned_of(rmw_result(op, pre, arg, n), n)
            &&& op == RmwOp::Add ==> signed_of(cell(after, address, n), n) == signed_of(
                signed_of(pre, n) + arg,
                n,
            )
            &&& op == RmwOp::Sub ==> signed_of(cell(after, address, n), n) == signed_of(
                signed_of(pre, n) - arg,
                n,
            )
            &&& op == RmwOp::Exchange ==> signed_of(cell(after, address, n), n) == signed_of(
                arg,
                n,
            )
        }),
{
    let pre = cell(bytes, address, n);
    let res = rmw_result(op, pre, arg, n);
    law_write_then_read(bytes, address, n, res);
    let m = byte_modulus(n);
    crate::codec::lemma_byte_modulus_positive(n);
    let s = signed_of(pre, n);
    // The signed and unsigned readings of the old cell differ by a multiple of m.
    assert(s % m == pre % m) by {
        vstd::arithmetic::div_mod::lemma_mod_twice(pre, m);
        vstd::arithmetic::div_mod::lemma_mod_sub_multiples_vanish(pre % m, m);
    }
    vstd::arithmetic::div_mod::lemma_add_mod_noop(s, arg, m);
    vstd::arithmetic::div_mod::lemma_add_mod_noop(pre, arg, m);
    vstd::arithmetic::div_mod::lemma_sub_mod_noop(s, arg, m);
    vstd::arithmetic::div_mod::lemma_sub_mod_noop(pre, arg, m);
    lemma_signed_of_unsigned(res, n);
    if op == RmwOp::Add {
        lemma_signed_of_unsigned(s + arg, n);
    }
}

/// After a compare-exchange, the cell holds `new` (cut to the cell's width)
/// where it held `current`, and is unchanged otherwise.
pub proof fn law_compare_exchange_then_read(
    bytes: Seq<u8>,
    address: i32,
    n: nat,
    current: int,
    new: int,
)
    requires
        is_width(n),
        in_bounds(bytes, address, n as int),
    ensures
        ({
            let pre = cell(bytes, address, n);
            let after = if pre == unsigned_of(current, n) {
                with_cell(bytes, address, n, new)
            } else {
                bytes
            };
            &&& pre == unsigned_of(current, n) ==> cell(after, address, n) == unsigned_of(new, n)
            &&& pre != unsigned_of(current, n) ==> cell(after, address, n) == pre
        }),
{
    law_write_then_read(bytes, address, n, new);
}

} // verus!
