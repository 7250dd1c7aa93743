//! Codes are ordered as the numbers they hold, names as their UTF-8 bytes.

use core::cmp::Ordering;
use vstd::prelude::*;
use vstd::std_specs::cmp::{PartialEqSpec, PartialOrdSpec};

use crate::types::{CodecCode, CodecName};

verus! {

impl PartialOrd for CodecCode {
    fn partial_cmp(&self, other: &Self) -> (res: Option<Ordering>) {
        let a = self.get();
        let b = other.get();
        if a < b {
            Some(Ordering::Less)
        } else if a == b {
            Some(Ordering::Equal)
        } else {
            Some(Ordering::Greater)
        }
    }
}

impl vstd::std_specs::cmp::PartialOrdSpecImpl for CodecCode {
    open spec fn obeys_partial_cmp_spec() -> bool {
        true
    }

    open spec fn partial_cmp_spec(&self, other: &Self) -> Option<Ordering> {
        if self@ < other@ {
            Some(Ordering::Less)
        } else if self@ == other@ {
            Some(Ordering::Equal)
        } else {
            Some(Ordering::Greater)
        }
    }
}

/// Lexicographic order of byte strings: the first differing byte decides,
/// and a proper prefix comes first.
pub open spec fn byte_order(a: Seq<u8>, b: Seq<u8>) -> Ordering
    decreases a.len(),
{
    if a.len() == 0 {
        if b.len() == 0 {
            Ordering::Equal
        } else {
            Ordering::Less
        }
    } else if b.len() == 0 {
        Ordering::Greater
    } else if a[0] < b[0] {
        Ordering::Less
    } else if a[0] > b[0] {
        Ordering::Greater
    } else {
        byte_order(a.drop_first(), b.drop_first())
    }
}

/// The bytes of `s` from position `i` on.
pub open spec fn rest_from(s: Seq<u8>, i: usize) -> Seq<u8> {
    s.skip(i as int)
}

/// The byte of `s` at position `i`.
pub open spec fn byte_at(s: Seq<u8>, i: usize) -> u8 {
    s[i as int]
}

impl PartialOrd for CodecName {
    fn partial_cmp(&self, other: &Self) -> (res: Option<Ordering>) {
        let a = self.as_str().as_bytes();
        let b = other.as_str().as_bytes();
        let mut i: usize = 0;
        assert(a@.skip(0) =~= a@);
        assert(b@.skip(0) =~= b@);
        while i < a.len() && i < b.len()
            invariant
                0 <= i <= a@.len(),
                i <= b@.len(),
                byte_order(a@, b@) == byte_order(rest_from(a@, i), rest_from(b@, i)),
                a@ == vstd::utf8::encode_utf8(self@),
                b@ == vstd::utf8::encode_utf8(other@),
            decreases a@.len() - i,
        {
            assert(rest_from(a@, i)[0] == byte_at(a@, i));
            assert(rest_from(b@, i)[0] == byte_at(b@, i));
            if a[i] < b[i] {
                return Some(Ordering::Less);
            } else if a[i] > b[i] {
                return Some(Ordering::Greater);
            }
            assert(rest_from(a@, i).drop_first() =~= a@.skip(i + 1));
            assert(rest_from(b@, i).drop_first() =~= b@.skip(i + 1));
            i = i + 1;
        }
        if i == a.len() && i == b.len() {
            Some(Ordering::Equal)
        } else if i == a.len() {
            Some(Ordering::Less)
        } else {
            Some(Ordering::Greater)
        }
    }
}

impl vstd::std_specs::cmp::PartialOrdSpecImpl for CodecName {
    open spec fn obeys_partial_cmp_spec() -> bool {
        true
    }

    open spec fn partial_cmp_spec(&self, other: &Self) -> Option<Ordering> {
        Some(byte_order(vstd::utf8::encode_utf8(self@), vstd::utf8::encode_utf8(other@)))
    }
}

/// Byte strings compare equal exactly when they are the same, and swapping
/// them reverses the order.
pub proof fn lemma_byte_order(a: Seq<u8>, b: Seq<u8>)
    ensures
        byte_order(a, b) == Ordering::Equal <==> a == b,
        byte_order(a, b) == Ordering::Less <==> byte_order(b, a) == Ordering::Greater,
    decreases a.len(),
{
    if a.len() > 0 && b.len() > 0 && a[0] == b[0] {
        lemma_byte_order(a.drop_first(), b.drop_first());
        if a.drop_first() =~= b.drop_first() {
            assert forall|j: int| 0 <= j < a.len() implies a[j] == b[j] by {
                if j > 0 {
                    assert(a[j] == a.drop_first()[j - 1]);
                    assert(b[j] == b.drop_first()[j - 1]);
                }
            }
            assert(a =~= b);
        }
        if a =~= b {
            assert(a.drop_first() =~= b.drop_first());
        }
    } else if a.len() == 0 || b.len() == 0 {
        if a =~= b {
            assert(a.len() == 0 && b.len() == 0);
        }
    } else {
        assert(a[0] != b[0]);
        assert(!(a =~= b));
    }
}

/// Byte strings that agree on their first `i` bytes and differ at byte `i`
/// are ordered by that byte; a proper prefix comes before the longer string.
proof fn lemma_byte_order_first_difference(a: Seq<u8>, b: Seq<u8>, i: int)
    requires
        0 <= i <= a.len(),
        i <= b.len(),
        a.take(i) == b.take(i),
        (i < a.len() && i < b.len() && a[i] < b[i]) || (i == a.len() && a.len() < b.len()),
    ensures
        byte_order(a, b) == Ordering::Less,
    decreases i,
{
    if i > 0 {
        assert(a[0] == a.take(i)[0]);
        assert(b[0] == b.take(i)[0]);
        assert(a.drop_first().take(i - 1) =~= a.take(i).drop_first());
        assert(b.drop_first().take(i - 1) =~= b.take(i).drop_first());
        if i < a.len() && i < b.len() {
            assert(a.drop_first()[i - 1] == a[i]);
            assert(b.drop_first()[i - 1] == b[i]);
        }
        lemma_byte_order_first_difference(a.drop_first(), b.drop_first(), i - 1);
    }
}

/// Names are ordered by their UTF-8 bytes: where the bytes first differ, the
/// name with the smaller byte comes first, whatever the bytes are; and a name
/// whose bytes are a proper prefix of another's comes first.
pub proof fn lemma_name_order_first_difference(a: CodecName, b: CodecName, i: int)
    requires
        0 <= i <= vstd::utf8::encode_utf8(a@).len(),
        i <= vstd::utf8::encode_utf8(b@).len(),
        vstd::utf8::encode_utf8(a@).take(i) == vstd::utf8::encode_utf8(b@).take(i),
        (i < vstd::utf8::encode_utf8(a@).len() && i < vstd::utf8::encode_utf8(b@).len()
            && vstd::utf8::encode_utf8(a@)[i] < vstd::utf8::encode_utf8(b@)[i]) || (i
            == vstd::utf8::encode_utf8(a@).len() && vstd::utf8::encode_utf8(a@).len()
            < vstd::utf8::encode_utf8(b@).len()),
    ensures
        a.partial_cmp_spec(&b) == Some(Ordering::Less),
        b.partial_cmp_spec(&a) == Some(Ordering::Greater),
{
    let ea = vstd::utf8::encode_utf8(a@);
    let eb = vstd::utf8::encode_utf8(b@);
    lemma_byte_order_first_difference(ea, eb, i);
    lemma_byte_order(ea, eb);
}

/// Names compare as their UTF-8 bytes in lexicographic order: they compare
/// equal exactly when they are the same name, and swapping them reverses the
/// order.
pub proof fn lemma_name_order(a: CodecName, b: CodecName)
    ensures
        a.partial_cmp_spec(&b) == Some(Ordering::Equal) <==> a@ == b@,
        a.partial_cmp_spec(&b) == Some(Ordering::Less) <==> b.partial_cmp_spec(&a) == Some(
            Ordering::Greater,
        ),
        a.eq_spec(&b) <==> a@ == b@,
{
    let ea = vstd::utf8::encode_utf8(a@);
    let eb = vstd::utf8::encode_utf8(b@);
    lemma_byte_order(ea, eb);
    if ea == eb {
        vstd::utf8::encode_utf8_decode_utf8(a@);
        vstd::utf8::encode_utf8_decode_utf8(b@);
    }
}

/// Codes compare as the numbers they hold, and any two codes are comparable.
pub proof fn lemma_order_follows_code(a: CodecCode, b: CodecCode)
    ensures
        a.partial_cmp_spec(&b) == Some(Ordering::Less) <==> a@ < b@,
        a.partial_cmp_spec(&b) == Some(Ordering::Equal) <==> a == b,
        a.partial_cmp_spec(&b) == Some(Ordering::Greater) <==> a@ > b@,
        a.partial_cmp_spec(&b) == Some(Ordering::Less) <==> b.partial_cmp_spec(&a) == Some(
            Ordering::Greater,
        ),
{
    crate::types::lemma_code_round_trip(0, a, b);
}

} // verus!
