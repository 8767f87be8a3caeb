//! Big-endian byte-string views of unbounded integers.
//!
//! The source chain's ABI hands integers over as arbitrary-length byte
//! strings: unsigned values as a big-endian magnitude, signed values in
//! big-endian two's complement. Everything the crate does with them —
//! narrowing into fixed-width fields, truncating to a destination address,
//! widening to a 256-bit word — is defined here against the mathematical
//! value of those byte strings.

use vstd::prelude::*;

verus! {

broadcast use vstd::std_specs::vec::group_vec_axioms, vstd::seq::group_seq_axioms;

/// 256 raised to the n-th power: the number of values of an n-byte string.
pub open spec fn pow256(n: nat) -> nat
    decreases n,
{
    if n == 0 {
        1
    } else {
        256 * pow256((n - 1) as nat)
    }
}

/// The unsigned value of a big-endian byte string. The empty string is 0.
pub open spec fn be_value(s: Seq<u8>) -> nat
    decreases s.len(),
{
    if s.len() == 0 {
        0
    } else {
        (be_value(s.drop_last()) * 256 + s.last()) as nat
    }
}

/// The signed (two's complement) value of a big-endian byte string.
/// The empty string is 0; the sign lives in the top bit of the first byte.
pub open spec fn sbe_value(s: Seq<u8>) -> int
    decreases s.len(),
{
    if s.len() == 0 {
        0
    } else if s[0] >= 0x80 {
        be_value(s) - pow256(s.len())
    } else {
        be_value(s) as int
    }
}

/// The weight of the ninth byte position, written out: `u64::MAX + 1`.
pub proof fn lemma_pow256_8()
    ensures
        pow256(8) == 0x1_0000_0000_0000_0000,
        pow256(7) == 0x100_0000_0000_0000,
{
    reveal_with_fuel(pow256, 9);
}

pub proof fn lemma_pow256_pos(n: nat)
    ensures
        pow256(n) >= 1,
    decreases n,
{
    if n > 0 {
        lemma_pow256_pos((n - 1) as nat);
    }
}

pub proof fn lemma_pow256_mono(a: nat, b: nat)
    requires
        a <= b,
    ensures
        pow256(a) <= pow256(b),
    decreases b,
{
    if a < b {
        lemma_pow256_mono(a, (b - 1) as nat);
    }
}

pub proof fn lemma_be_value_bound(s: Seq<u8>)
    ensures
        be_value(s) < pow256(s.len()),
    decreases s.len(),
{
    if s.len() > 0 {
        lemma_be_value_bound(s.drop_last());
    }
}

/// Splitting off the first byte: a big-endian value is its first byte scaled
/// by the weight of the remaining positions, plus the value of the rest.
pub proof fn lemma_be_first_byte(s: Seq<u8>)
    requires
        s.len() > 0,
    ensures
        be_value(s) == s[0] * pow256((s.len() - 1) as nat) + be_value(s.skip(1)),
    decreases s.len(),
{
    if s.len() == 1 {
        reveal_with_fuel(be_value, 2);
        reveal_with_fuel(pow256, 2);
        assert(s.skip(1) =~= Seq::<u8>::empty());
        assert(s.drop_last() =~= Seq::<u8>::empty());
        assert(be_value(s.skip(1)) == 0);
        assert(be_value(s.drop_last()) == 0);
        assert(pow256((s.len() - 1) as nat) == 1);
        assert(be_value(s) == s[0]);
    } else {
        let dl = s.drop_last();
        lemma_be_first_byte(dl);
        assert(s.skip(1).drop_last() =~= dl.skip(1));
        assert(s.skip(1).last() == s.last());
        let n = s.len();
        let p = pow256((n - 2) as nat) as int;
        let a = s[0] as int;
        let x = be_value(dl.skip(1)) as int;
        let l = s.last() as int;
        assert(pow256((n - 1) as nat) == 256 * p);
        assert(be_value(dl) == a * p + x);
        assert(be_value(s) == (a * p + x) * 256 + l);
        assert((a * p + x) * 256 == a * (256 * p) + x * 256) by (nonlinear_arith);
        assert(be_value(s.skip(1)) == x * 256 + l);
        assert(be_value(s) == a * (256 * p) + (x * 256 + l));
        assert(a * (256 * p) == a * pow256((n - 1) as nat)) by (nonlinear_arith)
            requires
                256 * p == pow256((n - 1) as nat),
        ;
    }
}

/// A leading zero byte does not change the value.
pub proof fn lemma_be_leading_zero(s: Seq<u8>)
    requires
        s.len() > 0,
        s[0] == 0,
    ensures
        be_value(s) == be_value(s.skip(1)),
{
    lemma_be_first_byte(s);
}

/// A nonzero first byte forces the value up to the weight of its position.
pub proof fn lemma_be_lower(s: Seq<u8>)
    requires
        s.len() > 0,
        s[0] > 0,
    ensures
        be_value(s) >= pow256((s.len() - 1) as nat),
{
    lemma_be_first_byte(s);
    assert(s[0] * pow256((s.len() - 1) as nat) >= 1 * pow256((s.len() - 1) as nat))
        by (nonlinear_arith)
        requires s[0] >= 1;
}

/// Concatenation: the left part's value is scaled by the weight of the
/// right part's positions.
pub proof fn lemma_be_concat(a: Seq<u8>, b: Seq<u8>)
    ensures
        be_value(a + b) == be_value(a) * pow256(b.len()) + be_value(b),
    decreases b.len(),
{
    if b.len() == 0 {
        assert(a + b =~= a);
        reveal_with_fuel(pow256, 2);
        assert(be_value(a) * 1 == be_value(a));
    } else {
        lemma_be_concat(a, b.drop_last());
        assert((a + b).drop_last() =~= a + b.drop_last());
        assert((a + b).last() == b.last());
        let n = b.len();
        let av = be_value(a) as int;
        let p = pow256((n - 1) as nat) as int;
        let d = be_value(b.drop_last()) as int;
        let l = b.last() as int;
        assert(pow256(n) == 256 * p);
        assert(be_value(a + b) == (av * p + d) * 256 + l);
        assert((av * p + d) * 256 == av * (256 * p) + d * 256) by (nonlinear_arith);
        assert(av * (256 * p) == av * pow256(n)) by (nonlinear_arith)
            requires
                256 * p == pow256(n),
        ;
        assert(be_value(b) == d * 256 + l);
    }
}

/// Address truncation keeps the value modulo the address width: the 20-byte
/// result's value is the source value's low 160 bits exactly.
pub proof fn lemma_addr20_value(s: Seq<u8>)
    ensures
        be_value(addr20(s)) == be_value(s) % pow256(20),
{
    lemma_pow256_pos(20);
    if s.len() >= 20 {
        let hi = s.take(s.len() - 20);
        let lo = s.skip(s.len() - 20);
        assert(hi + lo =~= s);
        lemma_be_concat(hi, lo);
        lemma_be_value_bound(lo);
        let m = pow256(20) as int;
        let hv = be_value(hi) as int;
        let lv = be_value(lo) as int;
        let sv = be_value(s) as int;
        assert(sv == hv * m + lv);
        assert(hv * m == m * hv) by (nonlinear_arith);
        vstd::arithmetic::div_mod::lemma_mod_multiples_vanish(hv, lv, m);
        assert((m * hv + lv) % m == lv % m);
        vstd::arithmetic::div_mod::lemma_small_mod(be_value(lo), pow256(20));
        assert(sv % m == lv);
        assert(be_value(addr20(s)) == lv);
    } else {
        lemma_zero_prefix_value((20 - s.len()) as nat, s);
        lemma_be_value_bound(s);
        lemma_pow256_mono(s.len(), 20);
        vstd::arithmetic::div_mod::lemma_small_mod(be_value(s), pow256(20));
    }
}

/// A run of `n` zero bytes.
pub open spec fn zero_bytes(n: nat) -> Seq<u8> {
    Seq::new(n, |i: int| 0u8)
}

/// A run of `n` copies of the byte `b`.
pub open spec fn fill_bytes(n: nat, b: u8) -> Seq<u8> {
    Seq::new(n, |i: int| b)
}

/// The destination chain's flat 20-byte address read from an unsigned
/// big-endian magnitude: the low-order 20 bytes are kept, shorter values
/// are left-padded with zeros.
pub open spec fn addr20(s: Seq<u8>) -> Seq<u8> {
    if s.len() >= 20 {
        s.skip(s.len() - 20)
    } else {
        zero_bytes((20 - s.len()) as nat) + s
    }
}

/// The byte string with its leading zero bytes removed.
pub open spec fn strip_zeros(s: Seq<u8>) -> Seq<u8>
    decreases s.len(),
{
    if s.len() > 0 && s[0] == 0 {
        strip_zeros(s.skip(1))
    } else {
        s
    }
}

pub proof fn lemma_strip_zeros_value(s: Seq<u8>)
    ensures
        be_value(strip_zeros(s)) == be_value(s),
        strip_zeros(s).len() <= s.len(),
        strip_zeros(s).len() > 0 ==> strip_zeros(s)[0] != 0,
    decreases s.len(),
{
    if s.len() > 0 && s[0] == 0 {
        lemma_be_leading_zero(s);
        lemma_strip_zeros_value(s.skip(1));
    }
}

/// The value of a byte string fits in 32 bytes exactly when its significant
/// part (leading zeros removed) is at most 32 bytes long.
pub proof fn lemma_strip_zeros_fits(s: Seq<u8>)
    ensures
        strip_zeros(s).len() <= 32 <==> be_value(s) < pow256(32),
{
    lemma_strip_zeros_value(s);
    let t = strip_zeros(s);
    if t.len() <= 32 {
        lemma_be_value_bound(t);
        lemma_pow256_mono(t.len(), 32);
    } else {
        lemma_be_lower(t);
        lemma_pow256_mono(32, (t.len() - 1) as nat);
    }
}

/// Prefixing with zero bytes does not change the value.
pub proof fn lemma_zero_prefix_value(k: nat, t: Seq<u8>)
    ensures
        be_value(zero_bytes(k) + t) == be_value(t),
    decreases k,
{
    if k > 0 {
        lemma_zero_prefix_value((k - 1) as nat, t);
        let s = zero_bytes(k) + t;
        lemma_be_leading_zero(s);
        assert(s.skip(1) =~= zero_bytes((k - 1) as nat) + t);
    } else {
        assert(zero_bytes(0) + t =~= t);
    }
}

/// Truncates (or left-pads) an unsigned big-endian magnitude to the
/// destination chain's flat 20-byte address, keeping the low-order bytes.
pub fn eth_address_from_be_bytes(b: &Vec<u8>) -> (r: Vec<u8>)
    ensures
        r@ == addr20(b@),
        r@.len() == 20,
{
    let mut r: Vec<u8> = Vec::new();
    if b.len() >= 20 {
        let start: usize = b.len() - 20;
        let mut i: usize = start;
        while i < b.len()
            invariant
                start == b@.len() - 20,
                start <= i <= b@.len(),
                r@ =~= b@.subrange(start as int, i as int),
            decreases b@.len() - i,
        {
            r.push(b[i]);
            i = i + 1;
        }
        proof {
            assert(b@.subrange(start as int, b@.len() as int) =~= b@.skip(b@.len() - 20));
        }
    } else {
        let pad: usize = 20 - b.len();
        let mut i: usize = 0;
        while i < pad
            invariant
                i <= pad,
                pad == 20 - b@.len(),
                r@ =~= zero_bytes(i as nat),
            decreases pad - i,
        {
            r.push(0);
            i = i + 1;
        }
        let mut j: usize = 0;
        while j < b.len()
            invariant
                j <= b@.len(),
                pad == 20 - b@.len(),
                r@ =~= zero_bytes(pad as nat) + b@.subrange(0, j as int),
            decreases b@.len() - j,
        {
            r.push(b[j]);
            j = j + 1;
        }
        proof {
            assert(b@.subrange(0, b@.len() as int) =~= b@);
        }
    }
    r
}

/// The destination chain's 32-byte word holding an unsigned magnitude:
/// the significant bytes, left-padded with zeros.
/// Meaningful when the value fits, i.e. `strip_zeros(bytes).len() <= 32`.
pub open spec fn uint_word(bytes: Seq<u8>) -> Seq<u8> {
    zero_bytes((32 - strip_zeros(bytes).len()) as nat) + strip_zeros(bytes)
}

/// The destination chain's 32-byte word holding a signed value: the
/// significant bytes, sign-extended. Meaningful when
/// `strip_signed(bytes).len() <= 32`.
pub open spec fn int_word(bytes: Seq<u8>) -> Seq<u8> {
    fill_bytes((32 - strip_signed(bytes).len()) as nat, sign_fill(strip_signed(bytes)))
        + strip_signed(bytes)
}

/// Widens an unsigned big-endian magnitude to the destination chain's
/// 32-byte word, left-padded with zeros. Fails exactly when the value does
/// not fit in 256 bits.
pub fn uint_word_from_be_bytes(b: &Vec<u8>) -> (r: Option<Vec<u8>>)
    ensures
        r is Some <==> be_value(b@) < pow256(32),
        r matches Some(w) ==> w@.len() == 32 && be_value(w@) == be_value(b@),
        r matches Some(w) ==> w@ == uint_word(b@),
{
    proof {
        lemma_strip_zeros_fits(b@);
        assert(b@.skip(0) =~= b@);
    }
    let mut z: usize = 0;
    while z < b.len() && b[z] == 0
        invariant
            z <= b@.len(),
            be_value(b@.skip(z as int)) == be_value(b@),
            strip_zeros(b@.skip(z as int)) == strip_zeros(b@),
        decreases b@.len() - z,
    {
        proof {
            lemma_be_leading_zero(b@.skip(z as int));
            assert(b@.skip(z as int).skip(1) =~= b@.skip(z as int + 1));
        }
        z = z + 1;
    }
    proof {
        assert(strip_zeros(b@.skip(z as int)) == b@.skip(z as int));
        lemma_strip_zeros_value(b@);
    }
    if b.len() - z > 32 {
        None
    } else {
        let pad: usize = 32 - (b.len() - z);
        let mut w: Vec<u8> = Vec::new();
        let mut i: usize = 0;
        while i < pad
            invariant
                i <= pad,
                w@ =~= zero_bytes(i as nat),
            decreases pad - i,
        {
            w.push(0);
            i = i + 1;
        }
        let mut j: usize = z;
        while j < b.len()
            invariant
                z <= j <= b@.len(),
                pad == 32 - (b@.len() - z),
                w@ =~= zero_bytes(pad as nat) + b@.subrange(z as int, j as int),
            decreases b@.len() - j,
        {
            w.push(b[j]);
            j = j + 1;
        }
        proof {
            assert(b@.subrange(z as int, b@.len() as int) =~= b@.skip(z as int));
            lemma_zero_prefix_value(pad as nat, b@.skip(z as int));
        }
        Some(w)
    }
}

/// The byte a signed value's representation is widened with: all ones for
/// a negative value, zero otherwise.
pub open spec fn sign_fill(s: Seq<u8>) -> u8 {
    if s.len() > 0 && s[0] >= 0x80 {
        0xFF
    } else {
        0
    }
}

/// Prepending one copy of the sign byte keeps the two's-complement value.
pub proof fn lemma_sbe_prepend_sign(t: Seq<u8>)
    ensures
        sbe_value(seq![sign_fill(t)] + t) == sbe_value(t),
        sign_fill(seq![sign_fill(t)] + t) == sign_fill(t),
{
    let s = seq![sign_fill(t)] + t;
    let n = t.len();
    assert(s.skip(1) =~= t);
    lemma_be_first_byte(s);
    if sign_fill(t) == 0xFF {
        assert(be_value(s) == 255 * pow256(n) + be_value(t));
        assert(pow256(n + 1) == 256 * pow256(n));
        assert(sbe_value(s) == be_value(t) - pow256(n));
    } else {
        assert(be_value(s) == 0 * pow256(n) + be_value(t));
    }
}

/// Widening with any number of sign bytes keeps the two's-complement value.
pub proof fn lemma_sbe_extend(k: nat, t: Seq<u8>)
    ensures
        sbe_value(fill_bytes(k, sign_fill(t)) + t) == sbe_value(t),
        sign_fill(fill_bytes(k, sign_fill(t)) + t) == sign_fill(t),
    decreases k,
{
    if k == 0 {
        assert(fill_bytes(0, sign_fill(t)) + t =~= t);
    } else {
        lemma_sbe_extend((k - 1) as nat, t);
        let inner = fill_bytes((k - 1) as nat, sign_fill(t)) + t;
        lemma_sbe_prepend_sign(inner);
        assert(seq![sign_fill(inner)] + inner =~= fill_bytes(k, sign_fill(t)) + t);
    }
}

/// The byte string with its redundant leading sign bytes removed: a leading
/// zero followed by a byte with a clear top bit, or a leading `0xFF` followed
/// by a byte with a set top bit, carries no information.
pub open spec fn strip_signed(s: Seq<u8>) -> Seq<u8>
    decreases s.len(),
{
    if s.len() >= 2 && ((s[0] == 0 && s[1] < 0x80) || (s[0] == 0xFF && s[1] >= 0x80)) {
        strip_signed(s.skip(1))
    } else {
        s
    }
}

pub proof fn lemma_strip_signed_value(s: Seq<u8>)
    ensures
        sbe_value(strip_signed(s)) == sbe_value(s),
        strip_signed(s).len() <= s.len(),
    decreases s.len(),
{
    if s.len() >= 2 && ((s[0] == 0 && s[1] < 0x80) || (s[0] == 0xFF && s[1] >= 0x80)) {
        let t = s.skip(1);
        let n = s.len();
        lemma_be_first_byte(s);
        lemma_strip_signed_value(t);
        if s[0] == 0 {
            assert(be_value(s) == 0 * pow256((n - 1) as nat) + be_value(t));
        } else {
            assert(be_value(s) == 255 * pow256((n - 1) as nat) + be_value(t));
            assert(pow256(n) == 256 * pow256((n - 1) as nat));
            assert(sbe_value(s) == be_value(t) - pow256((n - 1) as nat));
        }
    }
}

/// Sign-extends (or rejects) a signed big-endian two's-complement byte
/// string into the destination chain's 32-byte word. Fails exactly when the
/// value's minimal representation is wider than 32 bytes.
pub fn int_word_from_sbe_bytes(b: &Vec<u8>) -> (r: Option<Vec<u8>>)
    ensures
        r is Some <==> strip_signed(b@).len() <= 32,
        r matches Some(w) ==> w@.len() == 32 && sbe_value(w@) == sbe_value(b@),
        r matches Some(w) ==> w@ == int_word(b@),
{
    proof {
        assert(b@.skip(0) =~= b@);
    }
    let mut z: usize = 0;
    while b.len() - z >= 2 && ((b[z] == 0 && b[z + 1] < 0x80) || (b[z] == 0xFF && b[z + 1]
        >= 0x80))
        invariant
            z <= b@.len(),
            strip_signed(b@.skip(z as int)) == strip_signed(b@),
        decreases b@.len() - z,
    {
        proof {
            assert(b@.skip(z as int).skip(1) =~= b@.skip(z as int + 1));
        }
        z = z + 1;
    }
    proof {
        assert(strip_signed(b@.skip(z as int)) == b@.skip(z as int));
        lemma_strip_signed_value(b@);
    }
    if b.len() - z > 32 {
        None
    } else {
        let fill: u8 = if z < b.len() && b[z] >= 0x80 {
            0xFF
        } else {
            0
        };
        proof {
            assert(fill == sign_fill(b@.skip(z as int)));
        }
        let pad: usize = 32 - (b.len() - z);
        let mut w: Vec<u8> = Vec::new();
        let mut i: usize = 0;
        while i < pad
            invariant
                i <= pad,
                w@ =~= fill_bytes(i as nat, fill),
            decreases pad - i,
        {
            w.push(fill);
            i = i + 1;
        }
        let mut j: usize = z;
        while j < b.len()
            invariant
                z <= j <= b@.len(),
                pad == 32 - (b@.len() - z),
                w@ =~= fill_bytes(pad as nat, fill) + b@.subrange(z as int, j as int),
            decreases b@.len() - j,
        {
            w.push(b[j]);
            j = j + 1;
        }
        proof {
            assert(b@.subrange(z as int, b@.len() as int) =~= b@.skip(z as int));
            lemma_sbe_extend(pad as nat, b@.skip(z as int));
        }
        Some(w)
    }
}

/// The eight big-endian bytes of a 64-bit value.
pub open spec fn u64_be(v: u64) -> Seq<u8> {
    Seq::new(8, |i: int| ((v >> ((56 - 8 * i) as u64)) & 0xFF) as u8)
}

/// The destination chain's 32-byte word holding a 64-bit unsigned value.
pub open spec fn u64_word(v: u64) -> Seq<u8> {
    zero_bytes(24) + u64_be(v)
}

/// The destination chain's 32-byte word holding a signed 8-bit value,
/// sign-extended.
pub open spec fn i8_word(v: i8) -> Seq<u8> {
    fill_bytes(
        31,
        if v < 0 {
            0xFF
        } else {
            0
        },
    ) + seq![v as u8]
}

/// Builds the 32-byte word of a 64-bit unsigned value.
pub fn word_from_u64(v: u64) -> (w: Vec<u8>)
    ensures
        w@ == u64_word(v),
        w@.len() == 32,
{
    let mut w: Vec<u8> = Vec::new();
    let mut i: usize = 0;
    while i < 24
        invariant
            i <= 24,
            w@ =~= zero_bytes(i as nat),
        decreases 24 - i,
    {
        w.push(0);
        i = i + 1;
    }
    let mut j: u64 = 0;
    while j < 8
        invariant
            j <= 8,
            w@ =~= zero_bytes(24) + u64_be(v).take(j as int),
        decreases 8 - j,
    {
        let sh: u64 = 56 - 8 * j;
        w.push(((v >> sh) & 0xFF) as u8);
        j = j + 1;
        proof {
            assert(w@ =~= zero_bytes(24) + u64_be(v).take(j as int));
        }
    }
    proof {
        assert(u64_be(v).take(8) =~= u64_be(v));
    }
    w
}

/// Builds the 32-byte word of a signed 8-bit value.
pub fn word_from_i8(v: i8) -> (w: Vec<u8>)
    ensures
        w@ == i8_word(v),
        w@.len() == 32,
{
    let fill: u8 = if v < 0 {
        0xFF
    } else {
        0
    };
    let mut w: Vec<u8> = Vec::new();
    let mut i: usize = 0;
    while i < 31
        invariant
            i <= 31,
            w@ =~= fill_bytes(i as nat, fill),
        decreases 31 - i,
    {
        w.push(fill);
        i = i + 1;
    }
    w.push(v as u8);
    proof {
        assert(w@ =~= i8_word(v));
    }
    w
}

/// Reads an unsigned big-endian byte string into a `u64`.
/// Returns the value exactly when it fits; leading zero bytes are allowed.
pub fn u64_from_be_bytes(b: &Vec<u8>) -> (r: Option<u64>)
    ensures
        r is Some <==> be_value(b@) <= u64::MAX,
        r matches Some(v) ==> v == be_value(b@),
{
    proof {
        lemma_pow256_8();
        assert(b@.skip(0) =~= b@);
    }
    let mut z: usize = 0;
    while z < b.len() && b[z] == 0
        invariant
            z <= b@.len(),
            be_value(b@.skip(z as int)) == be_value(b@),
        decreases b@.len() - z,
    {
        proof {
            lemma_be_leading_zero(b@.skip(z as int));
            assert(b@.skip(z as int).skip(1) =~= b@.skip(z as int + 1));
        }
        z = z + 1;
    }
    if b.len() - z > 8 {
        proof {
            lemma_be_lower(b@.skip(z as int));
            lemma_pow256_mono(8, (b@.len() - z - 1) as nat);
        }
        None
    } else {
        proof {
            lemma_be_value_bound(b@.skip(z as int));
            lemma_pow256_mono((b@.len() - z) as nat, 8);
        }
        let mut acc: u64 = 0;
        let mut i: usize = z;
        while i < b.len()
            invariant
                z <= i <= b@.len(),
                b@.len() - z <= 8,
                acc == be_value(b@.subrange(z as int, i as int)),
                acc < pow256((i - z) as nat),
                pow256(8) == 0x1_0000_0000_0000_0000,
        decreases b@.len() - i,
        {
            proof {
                lemma_pow256_mono((i - z) as nat, 7);
                lemma_pow256_8();
                assert(b@.subrange(z as int, i as int + 1).drop_last() =~= b@.subrange(
                    z as int,
                    i as int,
                ));
            }
            acc = acc * 256 + (b[i] as u64);
            i = i + 1;
        }
        proof {
            assert(b@.subrange(z as int, b@.len() as int) =~= b@.skip(z as int));
        }
        Some(acc)
    }
}

/// Reads an unsigned big-endian byte string into a `u32`.
pub fn u32_from_be_bytes(b: &Vec<u8>) -> (r: Option<u32>)
    ensures
        r is Some <==> be_value(b@) <= u32::MAX,
        r matches Some(v) ==> v == be_value(b@),
{
    match u64_from_be_bytes(b) {
        Some(v) => if v <= u32::MAX as u64 {
            Some(v as u32)
        } else {
            None
        },
        None => None,
    }
}

/// Reads an unsigned big-endian byte string into a `u16`.
pub fn u16_from_be_bytes(b: &Vec<u8>) -> (r: Option<u16>)
    ensures
        r is Some <==> be_value(b@) <= u16::MAX,
        r matches Some(v) ==> v == be_value(b@),
{
    match u64_from_be_bytes(b) {
        Some(v) => if v <= u16::MAX as u64 {
            Some(v as u16)
        } else {
            None
        },
        None => None,
    }
}

/// Reads an unsigned big-endian byte string into a `u8`.
pub fn u8_from_be_bytes(b: &Vec<u8>) -> (r: Option<u8>)
    ensures
        r is Some <==> be_value(b@) <= u8::MAX,
        r matches Some(v) ==> v == be_value(b@),
{
    match u64_from_be_bytes(b) {
        Some(v) => if v <= u8::MAX as u64 {
            Some(v as u8)
        } else {
            None
        },
        None => None,
    }
}


/// Copies a byte string.
pub fn clone_bytes(b: &Vec<u8>) -> (r: Vec<u8>)
    ensures
        r@ == b@,
{
    let mut r: Vec<u8> = Vec::new();
    let mut i: usize = 0;
    while i < b.len()
        invariant
            i <= b@.len(),
            r@ =~= b@.subrange(0, i as int),
        decreases b@.len() - i,
    {
        r.push(b[i]);
        i = i + 1;
    }
    proof {
        assert(b@.subrange(0, b@.len() as int) =~= b@);
    }
    r
}


/// Sign extension of minus one (law): a source integer whose significant
/// form is the single byte 0xFF — the two's-complement spelling of -1 —
/// widens to the all-ones 32-byte word, the destination's spelling of -1.
pub proof fn lemma_sign_extend_minus_one(s: Seq<u8>)
    requires
        strip_signed(s) == seq![0xFFu8],
    ensures
        int_word(s) == fill_bytes(32, 0xFF),
        sbe_value(s) == -1,
        sbe_value(int_word(s)) == -1,
{
    let m = seq![0xFFu8];
    reveal_with_fuel(be_value, 2);
    reveal_with_fuel(pow256, 2);
    assert(m.drop_last() =~= Seq::<u8>::empty());
    assert(m.last() == 0xFF);
    assert(be_value(m) == 255);
    assert(sbe_value(m) == -1);
    lemma_strip_signed_value(s);
    assert(sign_fill(m) == 0xFF);
    assert(int_word(s) =~= fill_bytes(32, 0xFF));
    lemma_sbe_extend(31, m);
    assert(fill_bytes(31, sign_fill(m)) + m =~= int_word(s));
}


/// The eight big-endian bytes of a 64-bit value hold exactly that value.
pub proof fn lemma_u64_be_value(v: u64)
    ensures
        be_value(u64_be(v)) == v,
{
    let s = u64_be(v);
    reveal_with_fuel(be_value, 10);
    let d7 = s.drop_last();
    let d6 = d7.drop_last();
    let d5 = d6.drop_last();
    let d4 = d5.drop_last();
    let d3 = d4.drop_last();
    let d2 = d3.drop_last();
    let d1 = d2.drop_last();
    assert(d1.drop_last() =~= Seq::<u8>::empty());
    assert(be_value(d1) == s[0]);
    assert(be_value(d2) == (s[0] as int) * 0x100 + s[1]);
    assert(be_value(d3) == ((s[0] as int) * 0x100 + s[1]) * 0x100 + s[2]);
    assert(be_value(s) == (s[0] as int) * 0x100_0000_0000_0000 + (s[1] as int)
        * 0x1_0000_0000_0000 + (s[2] as int) * 0x100_0000_0000 + (s[3] as int) * 0x1_0000_0000 + (
    s[4] as int) * 0x100_0000 + (s[5] as int) * 0x1_0000 + (s[6] as int) * 0x100 + (s[7] as int));
    assert(forall|sh: u64| sh < 64 ==> ((v >> sh) & 0xFF) < 256) by (bit_vector);
    assert(s[0] == ((v >> 56) & 0xFF) as u8 && s[1] == ((v >> 48) & 0xFF) as u8 && s[2] == ((v
        >> 40) & 0xFF) as u8 && s[3] == ((v >> 32) & 0xFF) as u8 && s[4] == ((v >> 24) & 0xFF)
        as u8 && s[5] == ((v >> 16) & 0xFF) as u8 && s[6] == ((v >> 8) & 0xFF) as u8 && s[7] == ((
    v >> 0) & 0xFF) as u8);
    assert((v >> 0) & 0xFF == v & 0xFF) by (bit_vector);
    assert(v == ((v >> 56) & 0xFF) * 0x100_0000_0000_0000 + ((v >> 48) & 0xFF)
        * 0x1_0000_0000_0000 + ((v >> 40) & 0xFF) * 0x100_0000_0000 + ((v >> 32) & 0xFF)
        * 0x1_0000_0000 + ((v >> 24) & 0xFF) * 0x100_0000 + ((v >> 16) & 0xFF) * 0x1_0000 + ((v
        >> 8) & 0xFF) * 0x100 + (v & 0xFF)) by (bit_vector);
}

/// The 32-byte word of a 64-bit value holds exactly that value: what the
/// envelope carries for the logical time, timestamp, index and thresholds
/// round-trips to the field it came from.
pub proof fn lemma_u64_word_value(v: u64)
    ensures
        be_value(u64_word(v)) == v,
{
    lemma_zero_prefix_value(24, u64_be(v));
    lemma_u64_be_value(v);
}

/// The 32-byte word of a signed 8-bit value holds exactly that value in
/// two's complement.
pub proof fn lemma_i8_word_value(v: i8)
    ensures
        sbe_value(i8_word(v)) == v,
{
    let t = seq![v as u8];
    reveal_with_fuel(be_value, 2);
    reveal_with_fuel(pow256, 2);
    assert(t.drop_last() =~= Seq::<u8>::empty());
    assert(be_value(t) == (v as u8));
    assert(v >= 0 ==> (v as u8) == v) by (bit_vector);
    assert(v < 0 ==> (v as u8) == v + 256) by (bit_vector);
    assert(v < 0 <==> (v as u8) >= 0x80) by (bit_vector);
    assert(sbe_value(t) == v);
    assert(sign_fill(t) == if v < 0 { 0xFFu8 } else { 0u8 });
    lemma_sbe_extend(31, t);
    assert(fill_bytes(31, sign_fill(t)) + t =~= i8_word(v));
}

} // verus!\n