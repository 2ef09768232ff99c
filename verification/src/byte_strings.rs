//! Byte strings: comparing and copying them, and reading them as big endian numbers.

use vstd::prelude::*;

verus! {

/// The number that `s` spells in base 256, most significant byte first.
pub open spec fn be_nat(s: Seq<u8>) -> nat
    decreases s.len(),
{
    if s.len() == 0 {
        0
    } else {
        be_nat(s.drop_last()) * 256 + s.last() as nat
    }
}

/// Whether two byte strings hold the same bytes.
pub fn bytes_equal(a: &[u8], b: &[u8]) -> (same: bool)
    ensures
        same == (a@ == b@),
{
    if a.len() != b.len() {
        return false;
    }
    let mut i: usize = 0;
    while i < a.len()
        invariant
            i <= a@.len(),
            a@.len() == b@.len(),
            forall|j: int| 0 <= j < i ==> a@[j] == b@[j],
        decreases a@.len() - i,
    {
        if a[i] != b[i] {
            return false;
        }
        i += 1;
    }
    assert(a@ =~= b@);
    true
}

/// A copy of `bytes` on the heap.
pub fn bytes_to_vec(bytes: &[u8]) -> (copy: Vec<u8>)
    ensures
        copy@ == bytes@,
{
    let mut copy: Vec<u8> = Vec::new();
    let mut i: usize = 0;
    while i < bytes.len()
        invariant
            i <= bytes@.len(),
            copy@ == bytes@.take(i as int),
        decreases bytes@.len() - i,
    {
        copy.push(bytes[i]);
        assert(copy@ =~= bytes@.take(i + 1));
        i += 1;
    }
    assert(bytes@.take(bytes@.len() as int) =~= bytes@);
    copy
}

/// Of two strings of one length, the one with the smaller byte at the first difference spells
/// the smaller number.
pub proof fn lemma_be_nat_first_difference(a: Seq<u8>, b: Seq<u8>, k: int)
    requires
        a.len() == b.len(),
        0 <= k < a.len(),
        forall|j: int| 0 <= j < k ==> a[j] == b[j],
        a[k] < b[k],
    ensures
        be_nat(a) < be_nat(b),
    decreases a.len(),
{
    if k == a.len() - 1 {
        assert(a.drop_last() =~= b.drop_last());
    } else {
        lemma_be_nat_first_difference(a.drop_last(), b.drop_last(), k);
    }
}

/// Bytes in front count 256 times as much for each byte behind them.
pub proof fn law_big_endian(a: Seq<u8>, b: Seq<u8>, byte: u8)
    ensures
        be_nat(a + b) == be_nat(a) * vstd::arithmetic::power::pow(256, b.len()) + be_nat(b),
        be_nat(seq![byte]) == byte,
        be_nat(Seq::empty()) == 0,
    decreases b.len(),
{
    reveal_with_fuel(be_nat, 2);
    assert(seq![byte].drop_last() =~= Seq::<u8>::empty());
    reveal(vstd::arithmetic::power::pow);
    if b.len() == 0 {
        assert(a + b =~= a);
        assert(be_nat(a) * 1 == be_nat(a));
    } else {
        let shorter = b.drop_last();
        law_big_endian(a, shorter, byte);
        assert((a + b).drop_last() =~= a + shorter);
        let front = be_nat(a) as int;
        let scale = vstd::arithmetic::power::pow(256, shorter.len());
        assert(vstd::arithmetic::power::pow(256, b.len()) == 256 * scale);
        assert((front * scale) * 256 == front * (256 * scale)) by (nonlinear_arith);
    }
}

} // verus!
