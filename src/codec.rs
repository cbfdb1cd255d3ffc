//! Little-endian integer codecs and the arithmetic model they are proved against.
use vstd::arithmetic::div_mod::{lemma_div_denominator, lemma_mod_breakdown, lemma_mod_mod};
use vstd::prelude::*;

verus! {

/// 256 to the power `n`: how many values an `n`-byte integer can take.
pub open spec fn byte_modulus(n: nat) -> int
    decreases n,
{
    if n == 0 {
        1
    } else {
        256 * byte_modulus((n - 1) as nat)
    }
}

/// The byte widths of the integer cells that memory is read and written in.
pub open spec fn is_width(n: nat) -> bool {
    n == 1 || n == 2 || n == 4 || n == 8
}

/// `v` cut to its low `n` bytes, read as an unsigned integer (wrap modulo 2^(8n)).
pub open spec fn unsigned_of(v: int, n: nat) -> int {
    v % byte_modulus(n)
}

/// `v` cut to its low `n` bytes, read as a two's-complement integer.
pub open spec fn signed_of(v: int, n: nat) -> int {
    let u = unsigned_of(v, n);
    if u < byte_modulus(n) / 2 {
        u
    } else {
        u - byte_modulus(n)
    }
}

/// The unsigned integer whose little-endian bytes are `s`.
pub open spec fn le_value(s: Seq<u8>) -> int
    decreases s.len(),
{
    if s.len() == 0 {
        0
    } else {
        s[0] + 256 * le_value(s.drop_first())
    }
}

/// The first `k` base-256 digits of `u`, least significant first.
pub open spec fn digits(u: int, k: nat) -> Seq<u8> {
    Seq::new(k, |i: int| ((u / byte_modulus(i as nat)) % 256) as u8)
}

/// The `n` little-endian bytes that encode `v` cut to `n` bytes.
pub open spec fn le_bytes(v: int, n: nat) -> Seq<u8> {
    digits(unsigned_of(v, n), n)
}

pub proof fn lemma_byte_modulus_positive(n: nat)
    ensures
        byte_modulus(n) > 0,
    decreases n,
{
    if n > 0 {
        lemma_byte_modulus_positive((n - 1) as nat);
    }
}

pub proof fn lemma_byte_modulus_monotone(a: nat, b: nat)
    requires
        a <= b,
    ensures
        byte_modulus(a) <= byte_modulus(b),
    decreases b,
{
    if a < b {
        lemma_byte_modulus_monotone(a, (b - 1) as nat);
        lemma_byte_modulus_positive((b - 1) as nat);
    }
}

pub proof fn lemma_byte_moduli()
    ensures
        byte_modulus(0) == 1,
        byte_modulus(1) == 0x100,
        byte_modulus(2) == 0x1_0000,
        byte_modulus(4) == 0x1_0000_0000,
        byte_modulus(7) == 0x100_0000_0000_0000,
        byte_modulus(8) == 0x1_0000_0000_0000_0000,
{
    reveal_with_fuel(byte_modulus, 9);
}

/// Reading back the digits of a non-negative integer gives it modulo 256^k.
pub proof fn lemma_digits_value(u: int, k: nat)
    requires
        u >= 0,
    ensures
        le_value(digits(u, k)) == u % byte_modulus(k),
    decreases k,
{
    lemma_byte_modulus_positive(k);
    if k == 0 {
        assert(digits(u, 0) =~= Seq::<u8>::empty());
    } else {
        let s = digits(u, k);
        let q = u / 256;
        let rest = digits(q, (k - 1) as nat);
        assert forall|i: int| 0 <= i < k - 1 implies #[trigger] s.drop_first()[i] == rest[i] by {
            lemma_byte_modulus_positive(i as nat);
            lemma_div_denominator(u, 256, byte_modulus(i as nat));
            assert(byte_modulus((i + 1) as nat) == 256 * byte_modulus(i as nat));
        }
        assert(s.drop_first() =~= rest);
        lemma_digits_value(q, (k - 1) as nat);
        lemma_byte_modulus_positive((k - 1) as nat);
        lemma_mod_breakdown(u, 256, byte_modulus((k - 1) as nat));
        assert(s[0] == u % 256);
    }
}

/// Decoding an encoding gives the value cut to its width.
pub proof fn lemma_le_round_trip(v: int, n: nat)
    ensures
        le_bytes(v, n).len() == n,
        le_value(le_bytes(v, n)) == unsigned_of(v, n),
{
    lemma_byte_modulus_positive(n);
    lemma_digits_value(unsigned_of(v, n), n);
    vstd::arithmetic::div_mod::lemma_mod_twice(v, byte_modulus(n));
}

/// Cutting an unsigned `n`-byte value to `n` bytes leaves it as it is.
pub proof fn lemma_unsigned_in_range(u: int, n: nat)
    requires
        0 <= u < byte_modulus(n),
    ensures
        unsigned_of(u, n) == u,
{
    vstd::arithmetic::div_mod::lemma_fundamental_div_mod_converse(u, byte_modulus(n), 0, u);
}

/// A signed `n`-byte integer survives the cut to `n` bytes and the signed reading.
pub proof fn lemma_signed_in_range(v: int, n: nat)
    requires
        n > 0,
        -(byte_modulus(n) / 2) <= v < byte_modulus(n) / 2,
    ensures
        signed_of(v, n) == v,
{
    lemma_byte_modulus_positive((n - 1) as nat);
    if v >= 0 {
        lemma_unsigned_in_range(v, n);
    } else {
        assert(unsigned_of(v, n) == v + byte_modulus(n)) by {
            vstd::arithmetic::div_mod::lemma_fundamental_div_mod_converse(
                v,
                byte_modulus(n),
                -1,
                v + byte_modulus(n),
            );
        }
    }
}

/// The signed reading only depends on the value modulo 256^n.
pub proof fn lemma_signed_of_unsigned(v: int, n: nat)
    ensures
        signed_of(unsigned_of(v, n), n) == signed_of(v, n),
{
    lemma_byte_modulus_positive(n);
    vstd::arithmetic::div_mod::lemma_mod_twice(v, byte_modulus(n));
}

/// Cutting to a smaller width after a larger one is the same as cutting once.
pub proof fn lemma_unsigned_narrow(v: int, small: nat, large: nat)
    requires
        is_width(small),
        is_width(large),
        small <= large,
    ensures
        unsigned_of(unsigned_of(v, large), small) == unsigned_of(v, small),
{
    lemma_byte_moduli();
    let a = byte_modulus(small);
    let b = byte_modulus(large) / a;
    assert(byte_modulus(large) == a * b);
    lemma_mod_mod(v, a, b);
}

/// The unsigned value of the `n` little-endian bytes at `s[off..off + n]`.
pub fn load_le(s: &[u8], off: usize, n: usize) -> (r: u64)
    requires
        off + n <= s@.len(),
        n <= 8,
    ensures
        r == le_value(s@.subrange(off as int, off + n)),
        r < byte_modulus(n as nat),
{
    let len = s.len();
    let mut r: u64 = 0;
    let mut i: usize = n;
    proof {
        assert(s@.subrange(off + n, off + n) =~= Seq::<u8>::empty());
        lemma_byte_moduli();
    }
    while i > 0
        invariant
            0 <= i <= n,
            off + n <= s@.len(),
            s@.len() == len,
            n <= 8,
            r == le_value(s@.subrange(off + i, off + n)),
            r < byte_modulus((n - i) as nat),
        decreases i,
    {
        i = i - 1;
        proof {
            let t = s@.subrange(off + i, off + n);
            assert(t.drop_first() =~= s@.subrange(off + i + 1, off + n));
            lemma_byte_modulus_monotone((n - i - 1) as nat, 7);
            lemma_byte_moduli();
        }
        r = r * 256 + s[off + i] as u64;
    }
    r
}

/// The two's-complement reading of an unsigned `n`-byte value.
pub fn to_signed(u: u64, n: usize) -> (r: i64)
    requires
        is_width(n as nat),
        u < byte_modulus(n as nat),
    ensures
        r == signed_of(u as int, n as nat),
        -(byte_modulus(n as nat) / 2) <= r < byte_modulus(n as nat) / 2,
{
    proof {
        lemma_byte_moduli();
        lemma_unsigned_in_range(u as int, n as nat);
    }
    if n == 8 {
        if u < 0x8000_0000_0000_0000 {
            u as i64
        } else {
            ((u - 0x8000_0000_0000_0000) as i64) + i64::MIN
        }
    } else {
        let m: u64 = if n == 1 {
            0x100
        } else if n == 2 {
            0x1_0000
        } else {
            0x1_0000_0000
        };
        if u < m / 2 {
            u as i64
        } else {
            u as i64 - m as i64
        }
    }
}

/// `u` cut to its low `n` bytes.
pub fn cut(u: u64, n: usize) -> (r: u64)
    requires
        is_width(n as nat),
    ensures
        r == unsigned_of(u as int, n as nat),
        r < byte_modulus(n as nat),
{
    proof {
        lemma_byte_moduli();
        lemma_byte_modulus_positive(n as nat);
        if n == 8 {
            lemma_unsigned_in_range(u as int, 8);
        }
    }
    if n == 8 {
        u
    } else if n == 4 {
        u % 0x1_0000_0000
    } else if n == 2 {
        u % 0x1_0000
    } else {
        u % 0x100
    }
}

/// `v` cut to its low `n` bytes, as an unsigned value.
pub fn to_unsigned(v: i64, n: usize) -> (u: u64)
    requires
        is_width(n as nat),
    ensures
        u == unsigned_of(v as int, n as nat),
        u < byte_modulus(n as nat),
{
    proof {
        lemma_byte_moduli();
    }
    let w: u64 = if v >= 0 {
        v as u64
    } else {
        ((v + i64::MAX) + 1) as u64 + 0x8000_0000_0000_0000
    };
    proof {
        if v < 0 {
            vstd::arithmetic::div_mod::lemma_fundamental_div_mod_converse(
                v as int,
                byte_modulus(8),
                -1,
                w as int,
            );
        } else {
            lemma_unsigned_in_range(v as int, 8);
        }
        lemma_unsigned_narrow(v as int, n as nat, 8);
    }
    cut(w, n)
}

/// `x + y` cut to `n` bytes.
pub fn add_wrapping(x: u64, y: u64, n: usize) -> (r: u64)
    requires
        is_width(n as nat),
    ensures
        r == unsigned_of(x + y, n as nat),
        r < byte_modulus(n as nat),
{
    let w: u64 = if y <= u64::MAX - x {
        x + y
    } else {
        y - (u64::MAX - x) - 1
    };
    proof {
        lemma_byte_moduli();
        let q: int = if y <= u64::MAX - x { 0 } else { 1 };
        vstd::arithmetic::div_mod::lemma_fundamental_div_mod_converse(
            x + y,
            byte_modulus(8),
            q,
            w as int,
        );
        lemma_unsigned_narrow(x + y, n as nat, 8);
    }
    cut(w, n)
}

/// `x - y` cut to `n` bytes.
pub fn sub_wrapping(x: u64, y: u64, n: usize) -> (r: u64)
    requires
        is_width(n as nat),
    ensures
        r == unsigned_of(x - y, n as nat),
        r < byte_modulus(n as nat),
{
    let w: u64 = if x >= y {
        x - y
    } else {
        (u64::MAX - (y - x)) + 1
    };
    proof {
        lemma_byte_moduli();
        let q: int = if x >= y { 0 } else { -1 };
        vstd::arithmetic::div_mod::lemma_fundamental_div_mod_converse(
            x - y,
            byte_modulus(8),
            q,
            w as int,
        );
        lemma_unsigned_narrow(x - y, n as nat, 8);
    }
    cut(w, n)
}

/// Bitwise operations keep values below a width's modulus.
pub proof fn lemma_bitwise_bounded(x: u64, y: u64, n: nat)
    requires
        is_width(n),
        x < byte_modulus(n),
        y < byte_modulus(n),
    ensures
        (x & y) < byte_modulus(n),
        (x | y) < byte_modulus(n),
        (x ^ y) < byte_modulus(n),
{
    lemma_byte_moduli();
    if n == 1 {
        assert(x < 0x100 && y < 0x100 ==> (x & y) < 0x100 && (x | y) < 0x100 && (x ^ y) < 0x100)
            by (bit_vector);
    } else if n == 2 {
        assert(x < 0x1_0000 && y < 0x1_0000 ==> (x & y) < 0x1_0000 && (x | y) < 0x1_0000 && (x
            ^ y) < 0x1_0000) by (bit_vector);
    } else if n == 4 {
        assert(x < 0x1_0000_0000 && y < 0x1_0000_0000 ==> (x & y) < 0x1_0000_0000 && (x | y)
            < 0x1_0000_0000 && (x ^ y) < 0x1_0000_0000) by (bit_vector);
    }
}

} // verus!
