//! The unsigned-varint form of a code: the bytes a code is written as in
//! binary formats.

use vstd::prelude::*;
use multi_trait::EncodeIntoArray;

verus! {

/// The unsigned-varint encoding of `n`: 7-bit groups, least significant
/// first, each byte but the last with its high bit set.
pub open spec fn varint(n: nat) -> Seq<u8>
    decreases n,
{
    if n < 128 {
        seq![n as u8]
    } else {
        seq![(n % 128 + 128) as u8] + varint(n / 128)
    }
}

/// `128` to the power `k`.
pub open spec fn pow128(k: nat) -> nat
    decreases k,
{
    if k == 0 {
        1
    } else {
        128 * pow128((k - 1) as nat)
    }
}

/// Encodes `code` with `EncodeIntoArray::encode_into_array` of multi-trait,
/// which writes the unsigned-varint encoding of the number (7-bit groups, least
/// significant first, the high bit set on every byte but the last) into a
/// zeroed array of 19 bytes and returns it with the length of the encoding.
#[verifier::external_body]
fn encode_into_array(code: u64) -> (res: ([u8; 19], usize))
    ensures
        res.1 as nat == varint(code as nat).len(),
        res.0@.subrange(0, res.1 as int) == varint(code as nat),
        forall|i: int| res.1 <= i < 19 ==> res.0@[i] == 0u8,
{
    code.encode_into_array()
}

/// The bytes a code is written as in binary formats: its unsigned-varint
/// encoding, one to ten bytes long.
pub fn varint_bytes(code: u64) -> (res: Vec<u8>)
    ensures
        res@ == varint(code as nat),
        1 <= res@.len() <= 10,
{
    let (buf, len) = encode_into_array(code);
    proof {
        lemma_varint_len(code as nat);
    }
    let mut out: Vec<u8> = Vec::new();
    let mut i: usize = 0;
    while i < len
        invariant
            len as nat == varint(code as nat).len(),
            len <= 10,
            buf@.subrange(0, len as int) == varint(code as nat),
            0 <= i <= len,
            out@ == varint(code as nat).subrange(0, i as int),
        decreases len - i,
    {
        assert(buf@[i as int] == varint(code as nat)[i as int]) by {
            assert(buf@.subrange(0, len as int)[i as int] == buf@[i as int]);
        }
        out.push(buf[i]);
        i = i + 1;
        assert(out@ =~= varint(code as nat).subrange(0, i as int));
    }
    assert(out@ =~= varint(code as nat));
    out
}

/// A number below `128^k` (with `k` at least one) takes at most `k` bytes.
proof fn lemma_varint_len_below(n: nat, k: nat)
    requires
        k >= 1,
        n < pow128(k),
    ensures
        1 <= varint(n).len() <= k,
    decreases k,
{
    if n >= 128 {
        if k == 1 {
            assert(pow128(1) == 128 * pow128(0));
        } else {
            let p = pow128((k - 1) as nat);
            assert(n / 128 < p) by (nonlinear_arith)
                requires
                    n < 128 * p,
            ;
            lemma_varint_len_below(n / 128, (k - 1) as nat);
        }
    }
}

/// Every 64-bit code takes one to ten bytes.
pub proof fn lemma_varint_len(n: nat)
    requires
        n <= u64::MAX,
    ensures
        1 <= varint(n).len() <= 10,
{
    reveal_with_fuel(pow128, 11);
    assert(pow128(10) == 1180591620717411303424nat);
    lemma_varint_len_below(n, 10);
}

/// The number a run of varint bytes stands for: the low seven bits of each
/// byte, least significant group first.
pub open spec fn varint_value(s: Seq<u8>) -> nat
    decreases s.len(),
{
    if s.len() == 0 {
        0
    } else {
        (s[0] % 128) as nat + 128 * varint_value(s.drop_first())
    }
}

/// An encoding reads back as the number it encodes, and it is minimal: its
/// last byte is zero only when it is the single byte of zero.
pub proof fn lemma_varint_reads_back(n: nat)
    ensures
        varint_value(varint(n)) == n,
        varint(n).len() > 1 ==> varint(n).last() != 0,
    decreases n,
{
    let v = varint(n);
    if n < 128 {
        assert(v.drop_first() =~= Seq::<u8>::empty());
        assert(varint_value(v) == (v[0] % 128) as nat + 128 * varint_value(v.drop_first()));
    } else {
        lemma_varint_reads_back(n / 128);
        let rest = varint(n / 128);
        assert(v.drop_first() =~= rest);
        assert(v[0] == (n % 128 + 128) as u8);
        assert(v[0] % 128 == n % 128);
        assert(varint_value(v) == (v[0] % 128) as nat + 128 * varint_value(v.drop_first()));
        assert(n == n % 128 + 128 * (n / 128));
        assert(v.last() == rest.last());
        if n / 128 < 128 {
            assert(rest.last() == (n / 128) as u8);
        } else {
            lemma_varint_self_delimiting(n / 128 / 128);
            assert(rest.len() == 1 + varint(n / 128 / 128).len());
        }
    }
}

/// An encoding marks its own end: every byte but the last has its high bit
/// set, and the last one has it clear.
pub proof fn lemma_varint_self_delimiting(n: nat)
    ensures
        varint(n).len() >= 1,
        varint(n).last() < 128,
        forall|i: int| 0 <= i < varint(n).len() - 1 ==> #[trigger] varint(n)[i] >= 128,
    decreases n,
{
    if n >= 128 {
        lemma_varint_self_delimiting(n / 128);
        let v = varint(n);
        let rest = varint(n / 128);
        assert(v =~= seq![(n % 128 + 128) as u8] + rest);
        assert forall|i: int| 0 <= i < v.len() - 1 implies #[trigger] v[i] >= 128 by {
            if i > 0 {
                assert(v[i] == rest[i - 1]);
            }
        }
    }
}

/// The encoding of a code followed by any bytes determines both the code and
/// the bytes: a decoder reads back exactly the code and leaves exactly what
/// followed it. In particular, different codes never share an encoding.
pub proof fn lemma_varint_prefix_unique(a: nat, b: nat, s: Seq<u8>, t: Seq<u8>)
    requires
        varint(a) + s == varint(b) + t,
    ensures
        a == b,
        s == t,
    decreases a,
{
    let va = varint(a);
    let vb = varint(b);
    assert((va + s)[0] == va[0]);
    assert((vb + t)[0] == vb[0]);
    if a < 128 {
        if b >= 128 {
            assert(vb[0] == (b % 128 + 128) as u8);
        } else {
            assert(s =~= (va + s).subrange(1, (va + s).len() as int));
            assert(t =~= (vb + t).subrange(1, (vb + t).len() as int));
        }
    } else {
        if b < 128 {
            assert(va[0] == (a % 128 + 128) as u8);
        } else {
            assert(a % 128 == b % 128);
            assert(varint(a / 128) + s =~= (va + s).subrange(1, (va + s).len() as int));
            assert(varint(b / 128) + t =~= (vb + t).subrange(1, (vb + t).len() as int));
            lemma_varint_prefix_unique(a / 128, b / 128, s, t);
        }
    }
}

} // verus!
