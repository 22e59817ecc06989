//! Big-endian numbers: the number that a run of bytes spells, and the bytes that spell a number.

use vstd::prelude::*;

verus! {

/// The number that bytes spell, most significant byte first.
pub open spec fn be_number(bytes: Seq<u8>) -> nat
    decreases bytes.len(),
{
    if bytes.len() == 0 {
        0
    } else {
        be_number(bytes.drop_last()) * 256 + bytes.last() as nat
    }
}

/// The lowest `count` bytes of a number, most significant byte first.
pub open spec fn be_bytes(number: nat, count: nat) -> Seq<u8>
    decreases count,
{
    if count == 0 {
        Seq::empty()
    } else {
        be_bytes(number / 256, (count - 1) as nat).push((number % 256) as u8)
    }
}

/// How many numbers `count` bytes can spell.
pub open spec fn be_limit(count: nat) -> nat
    decreases count,
{
    if count == 0 {
        1
    } else {
        256 * be_limit((count - 1) as nat)
    }
}

/// Eight bytes spell the numbers below 2^64, sixteen those below 2^128.
pub proof fn lemma_be_limits()
    ensures
        be_limit(8) == 0x1_0000_0000_0000_0000,
        be_limit(16) == 0x1_0000_0000_0000_0000_0000_0000_0000_0000,
{
    reveal_with_fuel(be_limit, 17);
}

/// Bytes spell a number below the limit of their count.
pub proof fn lemma_be_number_bound(bytes: Seq<u8>)
    ensures
        be_number(bytes) < be_limit(bytes.len()),
    decreases bytes.len(),
{
    if bytes.len() > 0 {
        lemma_be_number_bound(bytes.drop_last());
    }
}

/// The bytes of the number that bytes spell are those bytes.
pub proof fn lemma_be_bytes_of_number(bytes: Seq<u8>)
    ensures
        be_bytes(be_number(bytes), bytes.len()) == bytes,
    decreases bytes.len(),
{
    if bytes.len() == 0 {
        assert(be_bytes(be_number(bytes), 0) =~= bytes);
    } else {
        lemma_be_bytes_of_number(bytes.drop_last());
        assert(bytes.drop_last().push(bytes.last()) =~= bytes);
    }
}

/// As many bytes as asked for come out.
pub proof fn lemma_be_bytes_len(number: nat, count: nat)
    ensures
        be_bytes(number, count).len() == count,
    decreases count,
{
    if count > 0 {
        lemma_be_bytes_len(number / 256, (count - 1) as nat);
    }
}

/// The number that the bytes of a number spell is that number, where the bytes can hold it.
pub proof fn lemma_be_number_of_bytes(number: nat, count: nat)
    requires
        number < be_limit(count),
    ensures
        be_number(be_bytes(number, count)) == number,
    decreases count,
{
    if count > 0 {
        lemma_be_number_of_bytes(number / 256, (count - 1) as nat);
        assert(be_bytes(number, count).drop_last() =~= be_bytes(
            number / 256,
            (count - 1) as nat,
        ));
    }
}

/// Reads eight bytes from `offset` on as one number.
pub fn read_u64(bytes: &[u8], offset: usize) -> (number: u64)
    requires
        offset + 8 <= bytes@.len(),
    ensures
        number == be_number(bytes@.subrange(offset as int, offset + 8)),
{
    let ghost window = bytes@.subrange(offset as int, offset + 8);
    let mut number: u64 = 0;
    let mut i: usize = 0;
    proof {
        reveal_with_fuel(be_limit, 9);
        assert(window.take(0) =~= Seq::<u8>::empty());
    }
    while i < 8
        invariant
            i <= 8,
            offset + 8 <= bytes.len(),
            window == bytes@.subrange(offset as int, offset + 8),
            number == be_number(window.take(i as int)),
            be_limit(8) == 0x1_0000_0000_0000_0000,
        decreases 8 - i,
    {
        proof {
            assert(window.take(i + 1).drop_last() =~= window.take(i as int));
            lemma_be_number_bound(window.take(i + 1));
            reveal_with_fuel(be_limit, 9);
            assert(be_limit((i + 1) as nat) <= be_limit(8));
        }
        number = number * 256 + bytes[offset + i] as u64;
        i = i + 1;
    }
    assert(window.take(8) =~= window);
    number
}

/// Appends the eight bytes of a number.
pub fn push_u64(bytes: &mut Vec<u8>, number: u64)
    ensures
        final(bytes)@ == old(bytes)@ + be_bytes(number as nat, 8),
{
    let ghost before = bytes@;
    let mut tail: [u8; 8] = [0u8; 8];
    let mut rest: u64 = number;
    let mut i: usize = 0;
    proof {
        lemma_be_bytes_len(number as nat, 8);
        assert(be_bytes(number as nat, 8).skip(8) =~= tail@.skip(8));
        assert(be_bytes(number as nat, 8).take(8) =~= be_bytes(number as nat, 8));
    }
    while i < 8
        invariant
            i <= 8,
            be_bytes(number as nat, 8).len() == 8,
            be_bytes(number as nat, 8).take(8 - i) == be_bytes(rest as nat, (8 - i) as nat),
            forall|j: int| 8 - i <= j < 8 ==> tail@[j] == be_bytes(number as nat, 8)[j],
        decreases 8 - i,
    {
        let ghost all = be_bytes(number as nat, 8);
        proof {
            let shorter = be_bytes((rest / 256) as nat, (7 - i) as nat);
            assert(be_bytes(rest as nat, (8 - i) as nat) == shorter.push((rest % 256) as u8));
            lemma_be_bytes_len((rest / 256) as nat, (7 - i) as nat);
            assert(all.take(7 - i) =~= all.take(8 - i).take(7 - i));
            assert(all.take(8 - i).take(7 - i) =~= shorter);
            assert(all[7 - i] == all.take(8 - i)[7 - i]);
        }
        tail[7 - i] = (rest % 256) as u8;
        rest = rest / 256;
        i = i + 1;
    }
    assert(tail@ =~= be_bytes(number as nat, 8));
    bytes.extend_from_slice(tail.as_slice());
    assert(bytes@ =~= before + be_bytes(number as nat, 8));
}

/// Reads sixteen bytes as one number.
pub fn read_u128(bytes: &[u8; 16]) -> (number: u128)
    ensures
        number == be_number(bytes@),
{
    let mut number: u128 = 0;
    let mut i: usize = 0;
    proof {
        reveal_with_fuel(be_limit, 17);
        assert(bytes@.take(0) =~= Seq::<u8>::empty());
    }
    while i < 16
        invariant
            i <= 16,
            number == be_number(bytes@.take(i as int)),
            be_limit(16) == 0x1_0000_0000_0000_0000_0000_0000_0000_0000,
        decreases 16 - i,
    {
        proof {
            assert(bytes@.take(i + 1).drop_last() =~= bytes@.take(i as int));
            lemma_be_number_bound(bytes@.take(i + 1));
            reveal_with_fuel(be_limit, 17);
            assert(be_limit((i + 1) as nat) <= be_limit(16));
        }
        number = number * 256 + bytes[i] as u128;
        i = i + 1;
    }
    assert(bytes@.take(16) =~= bytes@);
    number
}

/// The sixteen bytes of a number.
pub fn u128_bytes(number: u128) -> (bytes: [u8; 16])
    ensures
        bytes@ == be_bytes(number as nat, 16),
{
    let mut bytes: [u8; 16] = [0u8; 16];
    let mut rest: u128 = number;
    let mut i: usize = 0;
    proof {
        lemma_be_bytes_len(number as nat, 16);
        assert(be_bytes(number as nat, 16).take(16) =~= be_bytes(number as nat, 16));
    }
    while i < 16
        invariant
            i <= 16,
            be_bytes(number as nat, 16).len() == 16,
            be_bytes(number as nat, 16).take(16 - i) == be_bytes(rest as nat, (16 - i) as nat),
            forall|j: int| 16 - i <= j < 16 ==> bytes@[j] == be_bytes(number as nat, 16)[j],
        decreases 16 - i,
    {
        let ghost all = be_bytes(number as nat, 16);
        proof {
            let shorter = be_bytes((rest / 256) as nat, (15 - i) as nat);
            assert(be_bytes(rest as nat, (16 - i) as nat) == shorter.push((rest % 256) as u8));
            lemma_be_bytes_len((rest / 256) as nat, (15 - i) as nat);
            assert(all.take(15 - i) =~= all.take(16 - i).take(15 - i));
            assert(all.take(16 - i).take(15 - i) =~= shorter);
            assert(all[15 - i] == all.take(16 - i)[15 - i]);
        }
        bytes[15 - i] = (rest % 256) as u8;
        rest = rest / 256;
        i = i + 1;
    }
    assert(bytes@ =~= be_bytes(number as nat, 16));
    bytes
}

/// The first byte counts most: before some bytes it adds itself as often as those bytes can spell
/// numbers.
pub proof fn law_first_byte_counts_most(first: u8, rest: Seq<u8>)
    ensures
        be_number(seq![first] + rest) == first * be_limit(rest.len()) + be_number(rest),
        be_number(seq![first]) == first,
    decreases rest.len(),
{
    let all = seq![first] + rest;
    assert(seq![first].drop_last() =~= Seq::<u8>::empty());
    assert(be_number(seq![first]) == be_number(Seq::<u8>::empty()) * 256 + first as nat);
    if rest.len() == 0 {
        assert(all =~= seq![first]);
        assert(be_limit(rest.len()) == 1);
        assert(be_number(rest) == 0);
    } else {
        let shorter = rest.drop_last();
        law_first_byte_counts_most(first, shorter);
        assert(all.drop_last() =~= seq![first] + shorter);
        assert(all.last() == rest.last());
        let limit = be_limit(shorter.len());
        assert(be_limit(rest.len()) == 256 * limit);
        assert((first * limit) * 256 == first * (256 * limit)) by (nonlinear_arith);
        assert(be_number(all) == be_number(all.drop_last()) * 256 + all.last() as nat);
        assert(be_number(rest) == be_number(shorter) * 256 + rest.last() as nat);
    }
}

} // verus!
