//! BLAKE3 as the VM's standard library offers it: the hash procedures take and
//! return field elements, each of which carries four bytes, lowest byte first.
use vstd::prelude::*;

use super::felt::{felt_values, Felt};

verus! {

/// The integer that the four bytes from `at` on stand for, lowest byte first.
pub open spec fn le_u32(bytes: Seq<u8>, at: int) -> int {
    bytes[at] + 0x100 * bytes[at + 1] + 0x1_0000 * bytes[at + 2] + 0x100_0000 * bytes[at + 3]
}

/// `bytes`, four at a time.
pub open spec fn words_of(bytes: Seq<u8>) -> Seq<u64> {
    Seq::new(bytes.len() / 4, |i: int| le_u32(bytes, 4 * i) as u64)
}

/// Byte `k` of `value`, counted from the lowest.
pub open spec fn le_byte(value: u64, k: int) -> u8 {
    if k == 0 {
        (value % 0x100) as u8
    } else if k == 1 {
        (value / 0x100 % 0x100) as u8
    } else if k == 2 {
        (value / 0x1_0000 % 0x100) as u8
    } else {
        (value / 0x100_0000 % 0x100) as u8
    }
}

/// The four lowest bytes of each of `words`, one word after the other.
pub open spec fn bytes_of(words: Seq<u64>) -> Seq<u8> {
    Seq::new(4 * words.len(), |j: int| le_byte(words[j / 4], j % 4))
}

/// The four lowest bytes of a number that four bytes make up are those bytes.
proof fn lemma_le_bytes(b0: u8, b1: u8, b2: u8, b3: u8, word: u64)
    requires
        word == b0 + 0x100 * b1 + 0x1_0000 * b2 + 0x100_0000 * b3,
    ensures
        le_byte(word, 0) == b0,
        le_byte(word, 1) == b1,
        le_byte(word, 2) == b2,
        le_byte(word, 3) == b3,
{
}

/// Packing bytes into words and unpacking the words gives the bytes back.
pub proof fn unpacking_undoes_packing(bytes: Seq<u8>)
    requires
        bytes.len() % 4 == 0,
    ensures
        bytes_of(words_of(bytes)) == bytes,
{
    assert forall|j: int| 0 <= j < bytes.len() implies bytes_of(words_of(bytes))[j] == bytes[j] by {
        let at = 4 * (j / 4);
        lemma_le_bytes(
            bytes[at],
            bytes[at + 1],
            bytes[at + 2],
            bytes[at + 3],
            le_u32(bytes, at) as u64,
        );
        assert(j == at || j == at + 1 || j == at + 2 || j == at + 3);
    }
    assert(bytes_of(words_of(bytes)) =~= bytes);
}

/// Packing is the only thing that unpacks to the bytes: no two inputs are
/// handed to the VM as the same field elements.
pub proof fn packing_is_injective(a: Seq<u8>, b: Seq<u8>)
    requires
        a.len() % 4 == 0,
        b.len() % 4 == 0,
        words_of(a) == words_of(b),
    ensures
        a == b,
{
    unpacking_undoes_packing(a);
    unpacking_undoes_packing(b);
}

/// Each word that bytes are packed into carries the next four of them, the
/// lowest byte first, and no bit more.
pub proof fn a_word_carries_four_bytes(bytes: Seq<u8>, i: int)
    requires
        0 <= i < bytes.len() / 4,
    ensures
        words_of(bytes).len() == bytes.len() / 4,
        words_of(bytes)[i] == bytes[4 * i] + 0x100 * bytes[4 * i + 1] + 0x1_0000 * bytes[4 * i + 2]
            + 0x100_0000 * bytes[4 * i + 3],
{
}

/// The four bytes that a word is unpacked to are its low 32 bits, the lowest
/// byte first, in the place of the word.
pub proof fn a_word_unpacks_to_its_low_bits(words: Seq<u64>, i: int)
    requires
        0 <= i < words.len(),
    ensures
        bytes_of(words).len() == 4 * words.len(),
        bytes_of(words)[4 * i] + 0x100 * bytes_of(words)[4 * i + 1] + 0x1_0000 * bytes_of(words)[4
            * i + 2] + 0x100_0000 * bytes_of(words)[4 * i + 3] == words[i] as int % 0x1_0000_0000,
{
    lemma_low_bits(words[i]);
    assert((4 * i) / 4 == i && (4 * i) % 4 == 0);
    assert((4 * i + 1) / 4 == i && (4 * i + 1) % 4 == 1);
    assert((4 * i + 2) / 4 == i && (4 * i + 2) % 4 == 2);
    assert((4 * i + 3) / 4 == i && (4 * i + 3) % 4 == 3);
}

/// The four lowest bytes of a number are its low 32 bits.
proof fn lemma_low_bits(word: u64)
    ensures
        le_byte(word, 0) + 0x100 * le_byte(word, 1) + 0x1_0000 * le_byte(word, 2) + 0x100_0000
            * le_byte(word, 3) == word as int % 0x1_0000_0000,
{
    assert(word / 0x1_0000 == word / 0x100 / 0x100) by (bit_vector);
    assert(word / 0x100_0000 == word / 0x100 / 0x100 / 0x100) by (bit_vector);
    let first = word as int / 0x100;
    let second = first / 0x100;
    let third = second / 0x100;
    let fourth = third / 0x100;
    let low = le_byte(word, 0) + 0x100 * le_byte(word, 1) + 0x1_0000 * le_byte(word, 2)
        + 0x100_0000 * le_byte(word, 3);
    assert(word == 0x1_0000_0000 * fourth + low);
    assert(0 <= low < 0x1_0000_0000);
}

/// Field elements are taken for the integers that stand for them, in their order.
pub proof fn field_elements_are_taken_for_their_integers(felts: Seq<Felt>)
    ensures
        felt_values(felts).len() == felts.len(),
        forall|i: int| 0 <= i < felts.len() ==> #[trigger] felt_values(felts)[i] == felts[i]@,
{
}

/// The field element that carries the four bytes of `input` from `at` on.
fn pack_word(input: &[u8], at: usize) -> (felt: Felt)
    requires
        at + 4 <= input@.len(),
    ensures
        felt@ == le_u32(input@, at as int),
{
    let value: u64 = input[at] as u64 + 0x100 * (input[at + 1] as u64) + 0x1_0000 * (input[at
        + 2] as u64) + 0x100_0000 * (input[at + 3] as u64);
    Felt::from_u64_unchecked(value)
}

/// The operands of the one-block hash procedure: the 32 bytes of `input` as
/// eight field elements.
pub fn pack_1to1(input: [u8; 32]) -> (felts: [Felt; 8])
    ensures
        felt_values(felts@) == words_of(input@),
{
    let mut felts: [Felt; 8] = [Felt::from_u64_unchecked(0);8];
    for i in 0..8usize
        invariant
            forall|k: int| 0 <= k < i ==> (#[trigger] felts@[k])@ == le_u32(input@, 4 * k),
    {
        felts[i] = pack_word(&input, 4 * i);
    }
    assert(felt_values(felts@) =~= words_of(input@));
    felts
}

/// The operands of the two-block hash procedure: the 64 bytes of `input` as
/// sixteen field elements.
pub fn pack_2to1(input: [u8; 64]) -> (felts: [Felt; 16])
    ensures
        felt_values(felts@) == words_of(input@),
{
    let mut felts: [Felt; 16] = [Felt::from_u64_unchecked(0);16];
    for i in 0..16usize
        invariant
            forall|k: int| 0 <= k < i ==> (#[trigger] felts@[k])@ == le_u32(input@, 4 * k),
    {
        felts[i] = pack_word(&input, 4 * i);
    }
    assert(felt_values(felts@) =~= words_of(input@));
    felts
}

/// The digest that a hash procedure left behind: the four lowest bytes of each
/// of its eight field elements.
pub fn unpack_digest(felts: [Felt; 8]) -> (digest: [u8; 32])
    ensures
        digest@ == bytes_of(felt_values(felts@)),
{
    let mut digest: [u8; 32] = [0;32];
    for i in 0..8usize
        invariant
            forall|j: int|
                0 <= j < 4 * i ==> #[trigger] digest@[j] == le_byte(felts@[j / 4]@, j % 4),
    {
        let value: u64 = felts[i].as_u64();
        digest[4 * i] = (value % 0x100) as u8;
        digest[4 * i + 1] = (value / 0x100 % 0x100) as u8;
        digest[4 * i + 2] = (value / 0x1_0000 % 0x100) as u8;
        digest[4 * i + 3] = (value / 0x100_0000 % 0x100) as u8;
    }
    assert(digest@ =~= bytes_of(felt_values(felts@)));
    digest
}

/// Hashes a 32-byte input to a 32-byte output using the BLAKE3 hash function.
///
/// `procedure` is the VM's one-block hash procedure: it is called once, on the
/// field elements that carry `input`, and what it returns is the digest.
pub fn blake3_hash_1to1<P: Fn([Felt; 8]) -> [Felt; 8]>(input: [u8; 32], procedure: P) -> (digest:
    [u8; 32])
    requires
        forall|felts: [Felt; 8]|
            felt_values(felts@) == words_of(input@) ==> call_requires(procedure, (felts,)),
    ensures
        exists|felts: [Felt; 8], out: [Felt; 8]|
            #![trigger call_ensures(procedure, (felts,), out)]
            felt_values(felts@) == words_of(input@) && call_ensures(procedure, (felts,), out)
                && digest@ == bytes_of(felt_values(out@)),
{
    let felts: [Felt; 8] = pack_1to1(input);
    let out: [Felt; 8] = procedure(felts);
    unpack_digest(out)
}

/// Hashes a 64-byte input to a 32-byte output using the BLAKE3 hash function.
///
/// `procedure` is the VM's two-block hash procedure: it is called once, on the
/// field elements that carry `input`, and what it returns is the digest.
pub fn blake3_hash_2to1<P: Fn([Felt; 16]) -> [Felt; 8]>(input: [u8; 64], procedure: P) -> (digest:
    [u8; 32])
    requires
        forall|felts: [Felt; 16]|
            felt_values(felts@) == words_of(input@) ==> call_requires(procedure, (felts,)),
    ensures
        exists|felts: [Felt; 16], out: [Felt; 8]|
            #![trigger call_ensures(procedure, (felts,), out)]
            felt_values(felts@) == words_of(input@) && call_ensures(procedure, (felts,), out)
                && digest@ == bytes_of(felt_values(out@)),
{
    let felts: [Felt; 16] = pack_2to1(input);
    let out: [Felt; 8] = procedure(felts);
    unpack_digest(out)
}

} // verus!
