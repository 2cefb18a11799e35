use miden_frontend::sdk::felt::Felt;
use miden_frontend::sdk::hashes::{
    blake3_hash_1to1, blake3_hash_2to1, pack_1to1, pack_2to1, unpack_digest,
};
use miden_frontend::sdk::types::CoreAsset;

fn counting<const N: usize>() -> [u8; N] {
    let mut bytes = [0u8; N];
    for i in 0..N {
        bytes[i] = (7 * i + 3) as u8;
    }
    bytes
}

#[test]
fn packs_four_bytes_lowest_first() {
    let mut input = [0u8; 32];
    input[0] = 0x01;
    input[1] = 0x02;
    input[2] = 0x03;
    input[3] = 0x84;
    input[28] = 0xff;
    input[31] = 0xff;
    let felts = pack_1to1(input);
    assert_eq!(felts[0].as_u64(), 0x8403_0201);
    assert_eq!(felts[1].as_u64(), 0);
    assert_eq!(felts[7].as_u64(), 0xff00_00ff);
}

#[test]
fn packs_two_blocks() {
    let input = counting::<64>();
    let felts = pack_2to1(input);
    for i in 0..16 {
        let mut four = [0u8; 4];
        four.copy_from_slice(&input[4 * i..4 * i + 4]);
        assert_eq!(felts[i].as_u64(), u32::from_le_bytes(four) as u64);
    }
}

#[test]
fn unpacks_the_lowest_four_bytes() {
    let mut felts = [Felt::from_u64_unchecked(0); 8];
    felts[0] = Felt::from_u64_unchecked(0xaabb_ccdd_1122_3344);
    felts[7] = Felt::from_u64_unchecked(0x0102_0304);
    let digest = unpack_digest(felts);
    assert_eq!(digest[..4], [0x44, 0x33, 0x22, 0x11]);
    assert_eq!(digest[4..28], [0u8; 24]);
    assert_eq!(digest[28..], [0x04, 0x03, 0x02, 0x01]);
}

#[test]
fn unpacking_what_was_packed_gives_the_bytes_back() {
    let input = counting::<32>();
    assert_eq!(unpack_digest(pack_1to1(input)), input);
}

#[test]
fn different_inputs_are_packed_differently() {
    let a = counting::<32>();
    let mut b = a;
    b[17] ^= 0x80;
    let packed_a = pack_1to1(a);
    let packed_b = pack_1to1(b);
    assert!((0..8).any(|i| packed_a[i].as_u64() != packed_b[i].as_u64()));
}

#[test]
fn one_block_hash_calls_the_procedure_on_the_packed_input() {
    let input = counting::<32>();
    let digest = blake3_hash_1to1(input, |felts: [Felt; 8]| {
        let mut out = felts;
        out.reverse();
        out
    });
    for i in 0..8 {
        assert_eq!(digest[4 * i..4 * i + 4], input[4 * (7 - i)..4 * (7 - i) + 4]);
    }
}

#[test]
fn two_block_hash_calls_the_procedure_on_the_packed_input() {
    let input = counting::<64>();
    let digest = blake3_hash_2to1(input, |felts: [Felt; 16]| {
        let mut out = [Felt::from_u64_unchecked(0); 8];
        for i in 0..8 {
            out[i] = Felt::from_u64_unchecked(felts[i].as_u64() ^ felts[i + 8].as_u64());
        }
        out
    });
    for i in 0..32 {
        assert_eq!(digest[i], input[i] ^ input[i + 32]);
    }
}

#[test]
fn an_asset_is_its_word() {
    let word = [
        Felt::from_u64_unchecked(1),
        Felt::from_u64_unchecked(2),
        Felt::from_u64_unchecked(3),
        Felt::from_u64_unchecked(u64::MAX),
    ];
    let asset = CoreAsset::new(word);
    let back = asset.as_word();
    for i in 0..4 {
        assert_eq!(back[i].as_u64(), word[i].as_u64());
    }
}
