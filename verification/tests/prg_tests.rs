use aes::cipher::generic_array::GenericArray;
use aes::cipher::BlockEncrypt;
use aes::cipher::KeyInit;
use fss_prg::prg::{Aes128MatyasMeyerOseas, Aes256Hirose};
use fss_prg::Error;

fn aes128_encrypt(key: &[u8], block: &[u8]) -> Vec<u8> {
    let cipher = aes::Aes128::new(GenericArray::from_slice(key));
    let mut out = GenericArray::clone_from_slice(block);
    cipher.encrypt_block(&mut out);
    out.to_vec()
}

fn aes256_encrypt(key: &[u8], block: &[u8]) -> Vec<u8> {
    let cipher = aes::Aes256::new(GenericArray::from_slice(key));
    let mut out = GenericArray::clone_from_slice(block);
    cipher.encrypt_block(&mut out);
    out.to_vec()
}

fn xor_slices(a: &[u8], b: &[u8]) -> Vec<u8> {
    a.iter().zip(b.iter()).map(|(x, y)| x ^ y).collect()
}

#[test]
fn mmo_known_answer_zero_key_zero_block() {
    // AES-128 of the all-zero block under the all-zero key is the published
    // vector below; the MMO output XORs in the all-zero input, changing nothing.
    let prg = Aes128MatyasMeyerOseas::new(&vec![vec![0u8; 16]]).unwrap();
    let mut buf = vec![0u8; 16];
    prg.gen(&mut buf, &vec![0u8; 16]).unwrap();
    let expected = vec![
        0x66u8, 0xe9, 0x4b, 0xd4, 0xef, 0x8a, 0x2c, 0x3b, 0x88, 0x4c, 0xfa, 0x59, 0xca, 0x34,
        0x2b, 0x2e,
    ];
    assert_eq!(buf, expected);
}

#[test]
fn mmo_matches_independent_aes_with_feed_forward() {
    let key: Vec<u8> = (0u8..16).collect();
    let input = vec![0xaau8; 16];
    let prg = Aes128MatyasMeyerOseas::new(&vec![key.clone()]).unwrap();
    let mut buf = vec![0u8; 16];
    prg.gen(&mut buf, &input).unwrap();
    let expected = xor_slices(&aes128_encrypt(&key, &input), &input);
    assert_eq!(buf, expected);
}

#[test]
fn mmo_gen_is_deterministic() {
    let keys = vec![(0u8..16).collect::<Vec<u8>>(), vec![0x5au8; 16]];
    let seed: Vec<u8> = (0u8..32).collect();
    let prg = Aes128MatyasMeyerOseas::new(&keys).unwrap();
    let mut buf1 = vec![0u8; 32];
    let mut buf2 = vec![0xffu8; 32];
    prg.gen(&mut buf1, &seed).unwrap();
    prg.gen(&mut buf2, &seed).unwrap();
    assert_eq!(buf1, buf2);
    let prg2 = Aes128MatyasMeyerOseas::new(&keys).unwrap();
    let mut buf3 = vec![0u8; 32];
    prg2.gen(&mut buf3, &seed).unwrap();
    assert_eq!(buf1, buf3);
}

#[test]
fn mmo_chunks_are_independent() {
    let keys = vec![vec![1u8; 16], vec![2u8; 16]];
    let prg = Aes128MatyasMeyerOseas::new(&keys).unwrap();
    let mut seed1 = vec![0u8; 32];
    let mut seed2 = vec![0u8; 32];
    // The two seeds differ only in chunk 0.
    seed1[..16].copy_from_slice(&[0x11u8; 16]);
    seed2[..16].copy_from_slice(&[0x99u8; 16]);
    seed1[16..].copy_from_slice(&[0x42u8; 16]);
    seed2[16..].copy_from_slice(&[0x42u8; 16]);
    let mut out1 = vec![0u8; 32];
    let mut out2 = vec![0u8; 32];
    prg.gen(&mut out1, &seed1).unwrap();
    prg.gen(&mut out2, &seed2).unwrap();
    assert_eq!(out1[16..], out2[16..]);
}

#[test]
fn mmo_output_buffer_one_byte_short_rejected() {
    let prg = Aes128MatyasMeyerOseas::new(&vec![vec![0u8; 16], vec![1u8; 16]]).unwrap();
    let mut buf = vec![7u8; 31];
    let r = prg.gen(&mut buf, &vec![0u8; 32]);
    assert_eq!(r, Err(Error::LengthMismatch));
    // Nothing was written.
    assert_eq!(buf, vec![7u8; 31]);
}

#[test]
fn mmo_seed_of_wrong_length_rejected() {
    let prg = Aes128MatyasMeyerOseas::new(&vec![vec![0u8; 16]]).unwrap();
    let mut buf = vec![0u8; 16];
    assert_eq!(prg.gen(&mut buf, &vec![0u8; 15]), Err(Error::LengthMismatch));
    assert_eq!(prg.gen(&mut buf, &vec![0u8; 32]), Err(Error::LengthMismatch));
}

#[test]
fn mmo_new_rejects_bad_keys() {
    assert!(Aes128MatyasMeyerOseas::new(&Vec::new()).is_err());
    assert!(Aes128MatyasMeyerOseas::new(&vec![vec![0u8; 15]]).is_err());
    assert!(Aes128MatyasMeyerOseas::new(&vec![vec![0u8; 16], vec![0u8; 17]]).is_err());
}

#[test]
fn hirose_output_blocks_differ() {
    let prg = Aes256Hirose::new(&vec![vec![0u8; 32]]).unwrap();
    let mut buf = vec![0u8; 32];
    prg.gen(&mut buf, &vec![0u8; 16]).unwrap();
    assert_ne!(buf[..16], buf[16..]);
}

#[test]
fn hirose_matches_independent_aes_with_domain_separation() {
    let key: Vec<u8> = (0u8..32).collect();
    let input = vec![0x3cu8; 16];
    let prg = Aes256Hirose::new(&vec![key.clone()]).unwrap();
    let mut buf = vec![0u8; 32];
    prg.gen(&mut buf, &input).unwrap();
    let first = xor_slices(&aes256_encrypt(&key, &input), &input);
    let input2: Vec<u8> = input.iter().map(|b| b ^ 0xff).collect();
    let second = xor_slices(&aes256_encrypt(&key, &input2), &input2);
    assert_eq!(&buf[..16], &first[..]);
    assert_eq!(&buf[16..], &second[..]);
}

#[test]
fn hirose_gen_is_deterministic() {
    let keys = vec![(0u8..32).collect::<Vec<u8>>()];
    let seed = vec![0x77u8; 16];
    let prg = Aes256Hirose::new(&keys).unwrap();
    let mut buf1 = vec![0u8; 32];
    let mut buf2 = vec![1u8; 32];
    prg.gen(&mut buf1, &seed).unwrap();
    prg.gen(&mut buf2, &seed).unwrap();
    assert_eq!(buf1, buf2);
}

#[test]
fn hirose_chunks_are_independent() {
    let keys = vec![vec![1u8; 32], vec![2u8; 32]];
    let prg = Aes256Hirose::new(&keys).unwrap();
    let mut seed1 = vec![0x10u8; 32];
    let mut seed2 = vec![0x10u8; 32];
    // The two seeds differ only in chunk 1.
    seed2[16..].copy_from_slice(&[0x20u8; 16]);
    let mut out1 = vec![0u8; 64];
    let mut out2 = vec![0u8; 64];
    prg.gen(&mut out1, &seed1).unwrap();
    prg.gen(&mut out2, &seed2).unwrap();
    assert_eq!(out1[..32], out2[..32]);
}

#[test]
fn hirose_output_buffer_one_byte_short_rejected() {
    let prg = Aes256Hirose::new(&vec![vec![0u8; 32]]).unwrap();
    let mut buf = vec![9u8; 31];
    let r = prg.gen(&mut buf, &vec![0u8; 16]);
    assert_eq!(r, Err(Error::LengthMismatch));
    assert_eq!(buf, vec![9u8; 31]);
}

#[test]
fn hirose_new_rejects_bad_keys() {
    assert!(Aes256Hirose::new(&Vec::new()).is_err());
    assert!(Aes256Hirose::new(&vec![vec![0u8; 16]]).is_err());
}

#[test]
fn end_to_end_two_key_expansion_of_zero_seed() {
    // Two AES-128 keys, a 32-byte all-zero seed: the output is the two MMO
    // blocks Encrypt(K1, 0) XOR 0 and Encrypt(K2, 0) XOR 0, concatenated.
    let k1 = vec![0u8; 16];
    let k2: Vec<u8> = (0u8..16).collect();
    let prg = Aes128MatyasMeyerOseas::new(&vec![k1.clone(), k2.clone()]).unwrap();
    let seed = vec![0u8; 32];
    let mut out = vec![0u8; 32];
    prg.gen(&mut out, &seed).unwrap();
    let zero = vec![0u8; 16];
    let mut expected = xor_slices(&aes128_encrypt(&k1, &zero), &zero);
    expected.extend(xor_slices(&aes128_encrypt(&k2, &zero), &zero));
    assert_eq!(out, expected);
    // The first half is the published AES-128 zero-key, zero-block vector.
    assert_eq!(
        &out[..16],
        &[
            0x66u8, 0xe9, 0x4b, 0xd4, 0xef, 0x8a, 0x2c, 0x3b, 0x88, 0x4c, 0xfa, 0x59, 0xca, 0x34,
            0x2b, 0x2e
        ]
    );
}
