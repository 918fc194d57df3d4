//! The field element codec: 252-bit field elements as 32-byte big-endian
//! buffers, and their overflow-checked narrowing to machine integers.

use starknet_core::types::Felt;
use vstd::prelude::*;

verus! {

/// The integer that a byte sequence denotes when read most significant byte first.
pub open spec fn be_value(bytes: Seq<u8>) -> nat
    decreases bytes.len(),
{
    if bytes.len() == 0 {
        0
    } else {
        be_value(bytes.drop_last()) * 256 + bytes.last() as nat
    }
}

/// `256` to the power `n`.
pub open spec fn pow256(n: nat) -> nat
    decreases n,
{
    if n == 0 {
        1
    } else {
        256 * pow256((n - 1) as nat)
    }
}

/// Reading `a` followed by `b` shifts `a` left by the length of `b`.
pub proof fn lemma_be_value_concat(a: Seq<u8>, b: Seq<u8>)
    ensures
        be_value(a + b) == be_value(a) * pow256(b.len()) + be_value(b),
    decreases b.len(),
{
    if b.len() == 0 {
        assert(a + b =~= a);
        assert(be_value(a) * pow256(0) == be_value(a)) by (nonlinear_arith)
            requires
                pow256(0) == 1,
        ;
    } else {
        let front = b.drop_last();
        assert((a + b).drop_last() =~= a + front);
        assert((a + b).last() == b.last());
        lemma_be_value_concat(a, front);
        assert(be_value(a + b) == be_value(a + front) * 256 + b.last() as nat);
        assert(be_value(b) == be_value(front) * 256 + b.last() as nat);
        assert(be_value(a) * pow256(front.len()) * 256 == be_value(a) * pow256(b.len()))
            by (nonlinear_arith)
            requires
                pow256(b.len()) == 256 * pow256(front.len()),
        ;
    }
}

/// A sequence of `n` bytes denotes an integer below `256^n`.
pub proof fn lemma_be_value_bound(bytes: Seq<u8>)
    ensures
        be_value(bytes) < pow256(bytes.len()),
    decreases bytes.len(),
{
    if bytes.len() > 0 {
        lemma_be_value_bound(bytes.drop_last());
    }
}

/// A sequence denotes zero exactly when all its bytes are zero.
pub proof fn lemma_be_value_zero(bytes: Seq<u8>)
    ensures
        be_value(bytes) == 0 <==> (forall|i: int| 0 <= i < bytes.len() ==> bytes[i] == 0),
    decreases bytes.len(),
{
    if bytes.len() > 0 {
        let front = bytes.drop_last();
        lemma_be_value_zero(front);
        if be_value(bytes) == 0 {
            assert forall|i: int| 0 <= i < bytes.len() implies bytes[i] == 0 by {
                if i < front.len() {
                    assert(front[i] == bytes[i]);
                }
            }
        } else if forall|i: int| 0 <= i < bytes.len() ==> bytes[i] == 0 {
            assert forall|i: int| 0 <= i < front.len() implies front[i] == 0 by {
                assert(front[i] == bytes[i]);
            }
        }
    }
}

/// `256^n` grows with `n`.
pub proof fn lemma_pow256_monotonic(m: nat, n: nat)
    requires
        m <= n,
    ensures
        0 < pow256(m) <= pow256(n),
    decreases n,
{
    if n == 0 {
    } else if m < n {
        lemma_pow256_monotonic(m, (n - 1) as nat);
    } else {
        lemma_pow256_monotonic((m - 1) as nat, (n - 1) as nat);
    }
}

/// Two byte sequences of one length that denote the same integer are equal.
pub proof fn lemma_be_value_injective(a: Seq<u8>, b: Seq<u8>)
    requires
        a.len() == b.len(),
        be_value(a) == be_value(b),
    ensures
        a == b,
    decreases a.len(),
{
    if a.len() > 0 {
        lemma_be_value_injective(a.drop_last(), b.drop_last());
        assert(a =~= a.drop_last().push(a.last()));
        assert(b =~= b.drop_last().push(b.last()));
    } else {
        assert(a =~= b);
    }
}

/// The prime `2^251 + 17 * 2^192 + 1` of the field.
pub open spec fn field_modulus() -> nat {
    0x0800000000000011000000000000000000000000000000000000000000000001nat
}

/// Reduces a 256-bit big-endian integer into the field.
///
/// Calls `Felt::from_bytes_be` and then `Felt::to_bytes_be` of starknet-core:
/// the first reads the buffer as an integer and reduces it modulo the field
/// prime, the second writes the reduced representative back as 32 bytes.
#[verifier::external_body]
fn reduce_bytes(bytes: &[u8; 32]) -> (r: [u8; 32])
    ensures
        be_value(r@) == be_value(bytes@) % field_modulus(),
{
    Felt::from_bytes_be(bytes).to_bytes_be()
}

/// Adds two field elements given by their encodings.
///
/// Calls `Felt::from_bytes_be` on each operand, the `+` of starknet-core's
/// `Felt`, which is addition in the field and so never overflows, and
/// `Felt::to_bytes_be` on the sum.
#[verifier::external_body]
fn add_bytes(a: &[u8; 32], b: &[u8; 32]) -> (r: [u8; 32])
    ensures
        be_value(r@) == (be_value(a@) + be_value(b@)) % field_modulus(),
{
    (Felt::from_bytes_be(a) + Felt::from_bytes_be(b)).to_bytes_be()
}

/// A field element, held as its canonical 32-byte big-endian encoding.
#[derive(Clone, Copy, Debug)]
pub struct FieldElement {
    bytes: [u8; 32],
}

impl FieldElement {
    /// The 32 bytes of the element, most significant first.
    pub closed spec fn bytes(self) -> Seq<u8> {
        self.bytes@
    }

    /// The integer that the element stands for.
    pub open spec fn value(self) -> nat {
        be_value(self.bytes())
    }

    /// An element stands for an integer below the field prime.
    #[verifier::type_invariant]
    pub open spec fn is_canonical(self) -> bool {
        self.value() < field_modulus()
    }

    /// The additive identity.
    pub fn zero() -> (r: FieldElement)
        ensures
            r.value() == 0,
            r.bytes() == Seq::new(32, |i: int| 0u8),
    {
        let bytes = [0u8;32];
        proof {
            lemma_be_value_zero(bytes@);
            assert(bytes@ =~= Seq::new(32, |i: int| 0u8));
        }
        FieldElement { bytes }
    }

    /// The multiplicative identity.
    pub fn one() -> (r: FieldElement)
        ensures
            r.value() == 1,
            r.bytes() == Seq::new(32, |i: int| 0u8).update(31, 1u8),
    {
        let mut bytes = [0u8;32];
        bytes[31] = 1;
        proof {
            lemma_be_value_zero(bytes@.drop_last());
            assert(bytes@ =~= Seq::new(32, |i: int| 0u8).update(31, 1u8));
        }
        FieldElement { bytes }
    }

    /// The element that stands for a 64-bit integer.
    pub fn from_u64(n: u64) -> (r: FieldElement)
        ensures
            r.value() == n,
    {
        let mut bytes = [0u8;32];
        let mut rest = n;
        let mut i: usize = 0;
        proof {
            assert(bytes@.subrange(32, 32) =~= Seq::<u8>::empty());
            assert(rest * pow256(0) == rest) by (nonlinear_arith)
                requires
                    pow256(0) == 1,
            ;
        }
        while i < 8
            invariant
                i <= 8,
                forall|j: int| 0 <= j < 32 - i ==> bytes@[j] == 0,
                n == rest * pow256(i as nat) + be_value(bytes@.subrange(32 - i, 32)),
            decreases 8 - i,
        {
            let ghost before = bytes@.subrange(32 - i, 32);
            let digit = (rest % 256) as u8;
            bytes[31 - i] = digit;
            proof {
                let after = bytes@.subrange(31 - i, 32);
                assert(after =~= seq![digit] + before);
                lemma_be_value_concat(seq![digit], before);
                assert(seq![digit].drop_last() =~= Seq::<u8>::empty());
                assert(be_value(seq![digit].drop_last()) == 0);
                assert(seq![digit].last() == digit);
                assert(be_value(seq![digit]) == digit);
                let unit = pow256(i as nat);
                assert(rest * unit == (rest / 256) * (256 * unit) + digit * unit)
                    by (nonlinear_arith)
                    requires
                        rest == (rest / 256) * 256 + digit,
                ;
            }
            rest = rest / 256;
            i += 1;
        }
        proof {
            reveal_with_fuel(pow256, 9);
            let high = bytes@.subrange(0, 24);
            let low = bytes@.subrange(24, 32);
            assert(bytes@ =~= high + low);
            lemma_be_value_concat(high, low);
            lemma_be_value_zero(high);
            assert(be_value(high) * pow256(8) == 0) by (nonlinear_arith)
                requires
                    be_value(high) == 0,
            ;
            assert(rest == 0) by (nonlinear_arith)
                requires
                    n == rest * pow256(8) + be_value(low),
                    pow256(8) == 0x1_0000_0000_0000_0000,
                    n < 0x1_0000_0000_0000_0000,
            ;
            assert(rest * pow256(8) == 0) by (nonlinear_arith)
                requires
                    rest == 0,
            ;
        }
        FieldElement { bytes }
    }

    /// The element that a 32-byte big-endian integer denotes, reduced modulo
    /// the field prime.
    pub fn from_bytes_be(bytes: &[u8; 32]) -> (r: FieldElement)
        ensures
            r.bytes().len() == 32,
            r.value() == be_value(bytes@) % field_modulus(),
    {
        let reduced = reduce_bytes(bytes);
        FieldElement { bytes: reduced }
    }

    /// The canonical big-endian encoding.
    pub fn to_bytes_be(&self) -> (r: [u8; 32])
        ensures
            r@ == self.bytes(),
    {
        self.bytes
    }

    /// Whether the element is the additive identity.
    pub fn is_zero(&self) -> (r: bool)
        ensures
            r <==> self.value() == 0,
    {
        proof {
            reveal_with_fuel(pow256, 1);
        }
        self.leading_zero(32)
    }

    /// The sum of two elements in the field.
    pub fn add(&self, other: &FieldElement) -> (r: FieldElement)
        ensures
            r.value() == (self.value() + other.value()) % field_modulus(),
    {
        let sum = add_bytes(&self.bytes, &other.bytes);
        FieldElement { bytes: sum }
    }

    /// The element as a 128-bit integer; the element itself where it does
    /// not fit.
    pub fn to_u128(&self) -> (r: Result<u128, FieldElement>)
        ensures
            r == (if self.value() <= u128::MAX {
                Ok::<u128, FieldElement>(self.value() as u128)
            } else {
                Err::<u128, FieldElement>(*self)
            }),
    {
        proof {
            reveal_with_fuel(pow256, 17);
            self.lemma_split(16);
        }
        if self.leading_zero(16) {
            Ok(self.low_value(16))
        } else {
            Err(*self)
        }
    }

    /// The element as a 64-bit integer; the element itself where it does
    /// not fit.
    pub fn to_u64(&self) -> (r: Result<u64, FieldElement>)
        ensures
            r == (if self.value() <= u64::MAX {
                Ok::<u64, FieldElement>(self.value() as u64)
            } else {
                Err::<u64, FieldElement>(*self)
            }),
    {
        proof {
            reveal_with_fuel(pow256, 9);
            self.lemma_split(24);
        }
        if self.leading_zero(24) {
            Ok(self.low_value(8) as u64)
        } else {
            Err(*self)
        }
    }

    /// The element as a machine-sized integer; the element itself where it
    /// does not fit.
    pub fn to_usize(&self) -> (r: Result<usize, FieldElement>)
        ensures
            r == (if self.value() <= usize::MAX {
                Ok::<usize, FieldElement>(self.value() as usize)
            } else {
                Err::<usize, FieldElement>(*self)
            }),
    {
        proof {
            reveal_with_fuel(pow256, 9);
            self.lemma_split(24);
        }
        if self.leading_zero(24) {
            let low = self.low_value(8);
            if low <= usize::MAX as u128 {
                Ok(low as usize)
            } else {
                Err(*self)
            }
        } else {
            Err(*self)
        }
    }

    /// Whether the first `count` bytes of the encoding are all zero.
    fn leading_zero(&self, count: usize) -> (r: bool)
        requires
            count <= 32,
        ensures
            r <==> self.value() < pow256((32 - count) as nat),
            r ==> self.value() == be_value(self.bytes().subrange(count as int, 32)),
    {
        let mut i: usize = 0;
        while i < count
            invariant
                i <= count <= 32,
                forall|j: int| 0 <= j < i ==> self.bytes@[j] == 0,
            decreases count - i,
        {
            if self.bytes[i] != 0 {
                proof {
                    self.lemma_leading_zero(count as int);
                }
                return false;
            }
            i += 1;
        }
        proof {
            self.lemma_leading_zero(count as int);
        }
        true
    }

    /// The integer that the last `width` bytes of the encoding denote.
    fn low_value(&self, width: usize) -> (r: u128)
        requires
            width <= 16,
        ensures
            r == be_value(self.bytes().subrange(32 - width, 32)),
    {
        let start: usize = 32 - width;
        let mut acc: u128 = 0;
        let mut k: usize = start;
        proof {
            reveal_with_fuel(pow256, 17);
        }
        while k < 32
            invariant
                start == 32 - width,
                width <= 16,
                start <= k <= 32,
                acc == be_value(self.bytes@.subrange(start as int, k as int)),
                acc < pow256((k - start) as nat),
                pow256(16) == 0x1_0000_0000_0000_0000_0000_0000_0000_0000,
            decreases 32 - k,
        {
            proof {
                let next = self.bytes@.subrange(start as int, k + 1);
                assert(next.drop_last() =~= self.bytes@.subrange(start as int, k as int));
                assert(next.last() == self.bytes@[k as int]);
                lemma_pow256_monotonic((k + 1 - start) as nat, 16);
            }
            acc = acc * 256 + self.bytes[k] as u128;
            k += 1;
        }
        acc
    }

    /// The encoding has 32 bytes.
    pub proof fn lemma_bytes_len(self)
        ensures
            self.bytes().len() == 32,
    {
    }

    /// Two elements that stand for the same integer are the same element.
    pub proof fn lemma_value_injective(a: FieldElement, b: FieldElement)
        requires
            a.value() == b.value(),
        ensures
            a == b,
    {
        lemma_be_value_injective(a.bytes@, b.bytes@);
        assert(a.bytes =~= b.bytes);
    }

    /// Reading back the encoding of an element gives the element: where
    /// `decoded` stands for what the bytes of a canonical `element` denote in
    /// the field, the two are the same.
    pub proof fn lemma_encoding_round_trip(element: FieldElement, decoded: FieldElement)
        requires
            element.is_canonical(),
            decoded.value() == be_value(element.bytes()) % field_modulus(),
        ensures
            decoded == element,
    {
        Self::lemma_value_injective(decoded, element);
    }

    /// The encoding read as its first `at` bytes followed by the rest.
    proof fn lemma_split(self, at: int)
        requires
            0 <= at <= 32,
        ensures
            self.value() == be_value(self.bytes@.subrange(0, at)) * pow256((32 - at) as nat)
                + be_value(self.bytes@.subrange(at, 32)),
    {
        let high = self.bytes@.subrange(0, at);
        let low = self.bytes@.subrange(at, 32);
        assert(self.bytes@ =~= high + low);
        lemma_be_value_concat(high, low);
    }

    /// The element is below `256^(32 - count)` exactly when the first `count`
    /// bytes of its encoding are zero, and then the remaining bytes denote it.
    pub proof fn lemma_leading_zero(self, count: int)
        requires
            0 <= count <= 32,
        ensures
            (forall|i: int| 0 <= i < count ==> self.bytes()[i] == 0) <==> self.value() < pow256(
                (32 - count) as nat,
            ),
            (forall|i: int| 0 <= i < count ==> self.bytes()[i] == 0) ==> self.value() == be_value(
                self.bytes().subrange(count, 32),
            ),
    {
        let high = self.bytes@.subrange(0, count);
        let low = self.bytes@.subrange(count, 32);
        let unit = pow256((32 - count) as nat);
        self.lemma_split(count);
        lemma_be_value_zero(high);
        lemma_be_value_bound(low);
        if forall|i: int| 0 <= i < count ==> self.bytes@[i] == 0 {
            assert forall|i: int| 0 <= i < high.len() implies high[i] == 0 by {
                assert(high[i] == self.bytes@[i]);
            }
            assert(be_value(high) * unit == 0) by (nonlinear_arith)
                requires
                    be_value(high) == 0,
            ;
        } else {
            let i = choose|i: int| 0 <= i < count && self.bytes@[i] != 0;
            assert(high[i] != 0);
            assert(be_value(high) * unit >= unit) by (nonlinear_arith)
                requires
                    be_value(high) >= 1,
            ;
        }
    }
}

impl PartialEq for FieldElement {
    fn eq(&self, other: &Self) -> (r: bool) {
        let mut i: usize = 0;
        while i < 32
            invariant
                i <= 32,
                forall|j: int| 0 <= j < i ==> self.bytes@[j] == other.bytes@[j],
            decreases 32 - i,
        {
            if self.bytes[i] != other.bytes[i] {
                return false;
            }
            i += 1;
        }
        assert(self.bytes =~= other.bytes);
        true
    }
}

impl vstd::std_specs::cmp::PartialEqSpecImpl for FieldElement {
    open spec fn obeys_eq_spec() -> bool {
        true
    }

    open spec fn eq_spec(&self, other: &Self) -> bool {
        *self == *other
    }
}

impl Eq for FieldElement {

}

} // verus!
