//! Token identifiers: 256-bit unsigned integers read from big-endian bytes.

use vstd::prelude::*;

verus! {

/// The number whose big-endian base-256 digits are `digits`.
pub open spec fn be_value(digits: Seq<u8>) -> nat
    decreases digits.len(),
{
    if digits.len() == 0 {
        0
    } else {
        be_value(digits.drop_last()) * 256 + digits.last() as nat
    }
}

/// `count` zero bytes.
pub open spec fn zero_bytes(count: nat) -> Seq<u8> {
    Seq::new(count, |i: int| 0u8)
}

/// Leading zero bytes do not change a big-endian value.
pub proof fn lemma_be_value_zero_padding(count: nat, digits: Seq<u8>)
    ensures
        be_value(zero_bytes(count) + digits) == be_value(digits),
    decreases digits.len(), count,
{
    if digits.len() == 0 {
        assert(zero_bytes(count) + digits =~= zero_bytes(count));
        if count > 0 {
            assert(zero_bytes(count).drop_last() =~= zero_bytes((count - 1) as nat));
            lemma_be_value_zero_padding((count - 1) as nat, digits);
            assert(zero_bytes((count - 1) as nat) + digits =~= zero_bytes((count - 1) as nat));
        }
    } else {
        let whole = zero_bytes(count) + digits;
        assert(whole.drop_last() =~= zero_bytes(count) + digits.drop_last());
        lemma_be_value_zero_padding(count, digits.drop_last());
    }
}

/// Two digit strings of one length with one value are the same string.
pub proof fn lemma_be_value_injective(a: Seq<u8>, b: Seq<u8>)
    requires
        a.len() == b.len(),
        be_value(a) == be_value(b),
    ensures
        a == b,
    decreases a.len(),
{
    if a.len() > 0 {
        let ha = be_value(a.drop_last());
        let hb = be_value(b.drop_last());
        let la = a.last() as nat;
        let lb = b.last() as nat;
        assert(ha == hb && la == lb) by (nonlinear_arith)
            requires
                ha * 256 + la == hb * 256 + lb,
                la < 256,
                lb < 256,
        ;
        lemma_be_value_injective(a.drop_last(), b.drop_last());
        assert(a =~= a.drop_last().push(a.last()));
        assert(b =~= b.drop_last().push(b.last()));
    } else {
        assert(a =~= b);
    }
}

/// A 256-bit token identifier, held as its 32 big-endian bytes.
#[derive(Clone, Copy, Debug, PartialEq, Eq)]
pub struct TokenId(pub [u8; 32]);

impl TokenId {
    /// The number the identifier stands for.
    pub open spec fn value(self) -> nat {
        be_value(self.0@)
    }

    /// The identifier whose value is the big-endian number `bytes`.
    ///
    /// At most 32 bytes fit; longer input is outside the domain.
    pub fn from_big_endian(bytes: &[u8]) -> (id: TokenId)
        requires
            bytes@.len() <= 32,
        ensures
            id.value() == be_value(bytes@),
            id.0@ == zero_bytes((32 - bytes@.len()) as nat) + bytes@,
    {
        let len = bytes.len();
        let pad = 32 - len;
        let mut out = [0u8; 32];
        let mut i: usize = 0;
        while i < len
            invariant
                len == bytes@.len(),
                len <= 32,
                pad == 32 - len,
                i <= len,
                forall|k: int| 0 <= k < pad ==> out@[k] == 0u8,
                forall|k: int| 0 <= k < i ==> out@[pad + k] == bytes@[k],
            decreases len - i,
        {
            out[pad + i] = bytes[i];
            i = i + 1;
        }
        let ghost expected = zero_bytes(pad as nat) + bytes@;
        assert(out@ =~= expected);
        proof {
            lemma_be_value_zero_padding(pad as nat, bytes@);
        }
        TokenId(out)
    }

    /// Whether the two identifiers stand for the same number.
    pub fn same_as(&self, other: &TokenId) -> (same: bool)
        ensures
            same == (self.value() == other.value()),
            same == (self.0@ == other.0@),
    {
        let mut i: usize = 0;
        while i < 32
            invariant
                i <= 32,
                forall|k: int| 0 <= k < i ==> self.0@[k] == other.0@[k],
            decreases 32 - i,
        {
            if self.0[i] != other.0[i] {
                proof {
                    if self.value() == other.value() {
                        lemma_be_value_injective(self.0@, other.0@);
                    }
                }
                return false;
            }
            i = i + 1;
        }
        assert(self.0@ =~= other.0@);
        true
    }
}

} // verus!
