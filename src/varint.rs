//! Variable-length integers (RFC 9000, section 16).
use vstd::prelude::*;

verus! {

/// The largest value a variable-length integer holds: `2^62 - 1`.
pub const VARINT_MAX: u64 = 0x3fff_ffff_ffff_ffff;

/// `256^k`.
pub open spec fn pow256(k: nat) -> nat
    decreases k,
{
    if k == 0 {
        1
    } else {
        256 * pow256((k - 1) as nat)
    }
}

/// The big-endian value of a byte string.
pub open spec fn be_val(s: Seq<u8>) -> nat
    decreases s.len(),
{
    if s.len() == 0 {
        0
    } else {
        be_val(s.drop_last()) * 256 + s.last() as nat
    }
}

/// The `k` low bytes of `x`, big-endian.
pub open spec fn be_bytes(x: nat, k: nat) -> Seq<u8>
    decreases k,
{
    if k == 0 {
        Seq::empty()
    } else {
        be_bytes(x / 256, (k - 1) as nat).push((x % 256) as u8)
    }
}

/// The number of bytes that encode `v`: the shortest of 1, 2, 4 and 8 that holds it.
pub open spec fn size_of(v: nat) -> nat {
    if v < 64 {
        1
    } else if v < 16384 {
        2
    } else if v < 1073741824 {
        4
    } else {
        8
    }
}

/// The two-bit tag that announces an encoding of `k` bytes.
pub open spec fn tag_of(k: nat) -> nat {
    if k == 1 {
        0
    } else if k == 2 {
        1
    } else if k == 4 {
        2
    } else {
        3
    }
}

/// The encoding of `v`: the tag and the high six bits in the first byte, the
/// remaining bytes big-endian.
pub open spec fn encode_spec(v: nat) -> Seq<u8> {
    let k = size_of(v);
    let p = pow256((k - 1) as nat);
    seq![(tag_of(k) * 64 + v / p) as u8] + be_bytes(v % p, (k - 1) as nat)
}

/// The number of bytes an encoding takes, read from the tag of its first byte.
pub open spec fn len_of_first(b: u8) -> nat {
    if b < 64 {
        1
    } else if b < 128 {
        2
    } else if b < 192 {
        4
    } else {
        8
    }
}

/// The value of an encoding that `s` starts with, which must be complete.
pub open spec fn decode_value(s: Seq<u8>) -> nat {
    let k = len_of_first(s[0]);
    (s[0] % 64) as nat * pow256((k - 1) as nat) + be_val(s.subrange(1, k as int))
}

/// Whether `s` holds a complete encoding at its start.
pub open spec fn decodable(s: Seq<u8>) -> bool {
    s.len() > 0 && s.len() >= len_of_first(s[0])
}

proof fn lemma_pow256_values()
    ensures
        pow256(0) == 1,
        pow256(1) == 256,
        pow256(3) == 16777216,
        pow256(7) == 72057594037927936,
{
    reveal_with_fuel(pow256, 8);
}

proof fn lemma_pow256_small(j: nat)
    requires
        j <= 7,
    ensures
        pow256(j) <= 72057594037927936,
        j <= 6 ==> pow256(j) <= 281474976710656,
{
    reveal_with_fuel(pow256, 8);
}

proof fn lemma_be_val_bound(s: Seq<u8>)
    ensures
        be_val(s) < pow256(s.len()),
    decreases s.len(),
{
    if s.len() > 0 {
        lemma_be_val_bound(s.drop_last());
        let a = be_val(s.drop_last());
        let p = pow256((s.len() - 1) as nat);
        assert(a * 256 + s.last() < p * 256) by (nonlinear_arith)
            requires
                a < p,
                s.last() < 256,
        ;
    }
}

proof fn lemma_be_round_trip(x: nat, k: nat)
    requires
        x < pow256(k),
    ensures
        be_bytes(x, k).len() == k,
        be_val(be_bytes(x, k)) == x,
    decreases k,
{
    if k > 0 {
        let p = pow256((k - 1) as nat);
        assert(x / 256 < p) by (nonlinear_arith)
            requires
                x < 256 * p,
        ;
        lemma_be_round_trip(x / 256, (k - 1) as nat);
        let s = be_bytes(x, k);
        assert(s.drop_last() =~= be_bytes(x / 256, (k - 1) as nat));
        assert(x == (x / 256) * 256 + x % 256) by (nonlinear_arith);
    }
}

/// Decoding the encoding of a value gives back the value, and consumes the
/// whole encoding.
pub proof fn varint_round_trip(v: nat)
    requires
        v <= VARINT_MAX,
    ensures
        decodable(encode_spec(v)),
        len_of_first(encode_spec(v)[0]) == encode_spec(v).len(),
        decode_value(encode_spec(v)) == v,
{
    lemma_pow256_values();
    let k = size_of(v);
    let p = pow256((k - 1) as nat);
    let t = tag_of(k);
    let q = v / p;
    let r = v % p;
    assert(p > 0);
    assert(q < 64 && r < p && v == q * p + r) by (nonlinear_arith)
        requires
            p > 0,
            v < 64 * p,
            q == v / p,
            r == v % p,
    ;
    lemma_be_round_trip(r, (k - 1) as nat);
    let e = encode_spec(v);
    let b0 = (t * 64 + q) as u8;
    assert(e[0] == b0);
    assert(len_of_first(b0) == k);
    assert(b0 % 64 == q);
    assert(e.subrange(1, k as int) =~= be_bytes(r, (k - 1) as nat));
}

/// A value that does not fit in a variable-length integer.
#[derive(Debug, Clone, Copy, PartialEq, Eq)]
pub struct Overflow;

/// A non-negative integer below `2^62`, as carried on the wire.
#[derive(Debug, Clone, Copy, PartialEq, Eq, Structural, Hash, PartialOrd, Ord)]
pub struct VarInt {
    value: u64,
}

impl VarInt {
    /// The integer held.
    pub closed spec fn value(self) -> u64 {
        self.value
    }

    /// Two variable-length integers that hold the same value are the same.
    pub proof fn lemma_value_eq(a: VarInt, b: VarInt)
        requires
            a.value() == b.value(),
        ensures
            a == b,
    {
    }

    #[verifier::type_invariant]
    spec fn in_range(self) -> bool {
        self.value <= VARINT_MAX
    }

    /// A variable-length integer from a `u32`, which always fits.
    pub fn from_u32(v: u32) -> (r: VarInt)
        ensures
            r.value() == v,
    {
        VarInt { value: v as u64 }
    }

    /// A variable-length integer from a `u64`, or `Overflow` when `v` is above the maximum.
    pub fn from_u64(v: u64) -> (r: Result<VarInt, Overflow>)
        ensures
            r is Ok <==> v <= VARINT_MAX,
            r matches Ok(x) ==> x.value() == v,
    {
        if v <= VARINT_MAX {
            Ok(VarInt { value: v })
        } else {
            Err(Overflow)
        }
    }

    /// The integer held.
    pub fn into_inner(self) -> (r: u64)
        ensures
            r == self.value(),
            r <= VARINT_MAX,
    {
        proof {
            use_type_invariant(&self);
        }
        self.value
    }

    /// The exact number of bytes of the encoding.
    pub fn encoding_size(&self) -> (r: usize)
        ensures
            r == size_of(self.value() as nat),
    {
        if self.value < 64 {
            1
        } else if self.value < 16384 {
            2
        } else if self.value < 1073741824 {
            4
        } else {
            8
        }
    }

    /// Appends the encoding to `buf`.
    pub fn encode(&self, buf: &mut Vec<u8>)
        ensures
            final(buf)@ == old(buf)@ + encode_spec(self.value() as nat),
    {
        proof {
            use_type_invariant(self);
            lemma_pow256_values();
        }
        let v = self.value;
        let (tag, p, k): (u64, u64, usize) = if v < 64 {
            (0, 1, 1)
        } else if v < 16384 {
            (1, 256, 2)
        } else if v < 1073741824 {
            (2, 16777216, 4)
        } else {
            (3, 72057594037927936, 8)
        };
        assert(v / p < 64) by (nonlinear_arith)
            requires
                p > 0,
                v < 64 * p,
        ;
        buf.push((tag * 64 + v / p) as u8);
        push_be(buf, v % p, k - 1);
        assert(final(buf)@ =~= old(buf)@ + encode_spec(v as nat));
    }
}

/// Appends the `k` low bytes of `x`, big-endian.
pub(crate) fn push_be(buf: &mut Vec<u8>, x: u64, k: usize)
    requires
        k <= 8,
    ensures
        final(buf)@ == old(buf)@ + be_bytes(x as nat, k as nat),
    decreases k,
{
    if k > 0 {
        push_be(buf, x / 256, k - 1);
        buf.push((x % 256) as u8);
        assert(final(buf)@ =~= old(buf)@ + be_bytes(x as nat, k as nat));
    } else {
        assert(final(buf)@ =~= old(buf)@ + be_bytes(x as nat, k as nat));
    }
}

/// Reads a variable-length integer from the start of `input`: the value and
/// the number of bytes it took, or `None` when the encoding is incomplete.
pub fn decode(input: &[u8]) -> (r: Option<(VarInt, usize)>)
    ensures
        r is Some <==> decodable(input@),
        r matches Some((v, n)) ==> n == len_of_first(input@[0]) && v.value()
            == decode_value(input@),
{
    assert(input@.subrange(0, input@.len() as int) =~= input@);
    decode_at(input, 0)
}

/// Reads a variable-length integer from `input` at `pos`: the value and the
/// number of bytes it took, or `None` when the encoding is incomplete.
pub fn decode_at(input: &[u8], pos: usize) -> (r: Option<(VarInt, usize)>)
    requires
        pos <= input@.len(),
    ensures
        r is Some <==> decodable(input@.subrange(pos as int, input@.len() as int)),
        r matches Some((v, n)) ==> n == len_of_first(input@[pos as int]) && v.value()
            == decode_value(input@.subrange(pos as int, input@.len() as int)),
        r matches Some((v, n)) ==> 1 <= n <= 8 && pos + n <= input@.len(),
{
    let ghost sub = input@.subrange(pos as int, input@.len() as int);
    if pos >= input.len() {
        return None;
    }
    let b0 = input[pos];
    assert(sub[0] == b0);
    let k: usize = if b0 < 64 {
        1
    } else if b0 < 128 {
        2
    } else if b0 < 192 {
        4
    } else {
        8
    };
    if input.len() - pos < k {
        return None;
    }
    let mut acc: u64 = (b0 % 64) as u64;
    let mut i: usize = 1;
    proof {
        lemma_pow256_values();
    }
    assert(sub.subrange(1, 1) =~= Seq::<u8>::empty());
    while i < k
        invariant
            1 <= i <= k <= 8,
            k == len_of_first(b0),
            pos + k <= input@.len(),
            sub == input@.subrange(pos as int, input@.len() as int),
            b0 == sub[0],
            acc == (b0 % 64) as nat * pow256((i - 1) as nat) + be_val(sub.subrange(1, i as int)),
        decreases k - i,
    {
        let ghost c = (b0 % 64) as nat;
        let ghost s = sub.subrange(1, i as int);
        let ghost p = pow256((i - 1) as nat);
        proof {
            lemma_be_val_bound(s);
            lemma_pow256_small((i - 1) as nat);
        }
        assert(acc * 256 + 255 <= u64::MAX) by (nonlinear_arith)
            requires
                acc == c * p + be_val(s),
                c < 64,
                be_val(s) < p,
                p <= 281474976710656,
        ;
        let ghost s2 = sub.subrange(1, i as int + 1);
        assert(s2.drop_last() =~= s);
        assert(sub[i as int] == input@[pos + i]);
        assert(acc * 256 + sub[i as int] == c * (256 * p) + be_val(s2)) by (nonlinear_arith)
            requires
                acc == c * p + be_val(s),
                be_val(s2) == be_val(s) * 256 + sub[i as int],
        ;
        assert(input@.len() == input.len());
        acc = acc * 256 + input[pos + i] as u64;
        i = i + 1;
    }
    proof {
        lemma_pow256_small((k - 1) as nat);
        lemma_be_val_bound(sub.subrange(1, k as int));
    }
    assert(acc <= VARINT_MAX) by (nonlinear_arith)
        requires
            acc == (b0 % 64) as nat * pow256((k - 1) as nat) + be_val(sub.subrange(1, k as int)),
            be_val(sub.subrange(1, k as int)) < pow256((k - 1) as nat),
            pow256((k - 1) as nat) <= 72057594037927936,
            b0 % 64 < 64,
    {
    }
    Some((VarInt { value: acc }, k))
}

} // verus!
