use aes::Aes128Enc;
use chuni_dump::ecb::{ecb_decrypt, open_payload, CipherError, Opened};
use chuni_dump::proto::KEY;
use cipher::generic_array::GenericArray;
use cipher::{BlockEncrypt, KeyInit};

fn encrypt(key: &[u8; 16], plain: &[u8]) -> Vec<u8> {
    assert_eq!(plain.len() % 16, 0);
    let aes = Aes128Enc::new(GenericArray::from_slice(key));
    let mut out = plain.to_vec();
    for chunk in out.chunks_mut(16) {
        aes.encrypt_block(GenericArray::from_mut_slice(chunk));
    }
    out
}

const FIPS_KEY: [u8; 16] = [
    0x00, 0x01, 0x02, 0x03, 0x04, 0x05, 0x06, 0x07, 0x08, 0x09, 0x0a, 0x0b, 0x0c, 0x0d, 0x0e, 0x0f,
];
const FIPS_PLAIN: [u8; 16] = [
    0x00, 0x11, 0x22, 0x33, 0x44, 0x55, 0x66, 0x77, 0x88, 0x99, 0xaa, 0xbb, 0xcc, 0xdd, 0xee, 0xff,
];
const FIPS_CIPHER: [u8; 16] = [
    0x69, 0xc4, 0xe0, 0xd8, 0x6a, 0x7b, 0x04, 0x30, 0xd8, 0xcd, 0xb7, 0x80, 0x70, 0xb4, 0xc5, 0x5a,
];

#[test]
fn key_is_the_cabinets_key() {
    assert_eq!(&KEY, b"CHUNICHUNICHUNIC");
}

#[test]
fn ecb_decrypts_the_standard_vector() {
    assert_eq!(ecb_decrypt(&FIPS_KEY, &FIPS_CIPHER), Some(FIPS_PLAIN.to_vec()));
}

#[test]
fn ecb_decrypts_each_block_on_its_own() {
    let mut cipher = FIPS_CIPHER.to_vec();
    cipher.extend_from_slice(&encrypt(&FIPS_KEY, &[0u8; 16]));
    cipher.extend_from_slice(&FIPS_CIPHER);
    let mut plain = FIPS_PLAIN.to_vec();
    plain.extend_from_slice(&[0u8; 16]);
    plain.extend_from_slice(&FIPS_PLAIN);
    assert_eq!(ecb_decrypt(&FIPS_KEY, &cipher), Some(plain));
}

#[test]
fn ecb_of_nothing_is_nothing() {
    assert_eq!(ecb_decrypt(&KEY, &[]), Some(Vec::new()));
}

#[test]
fn ecb_refuses_a_partial_block() {
    assert_eq!(ecb_decrypt(&KEY, &[0u8; 15]), None);
    assert_eq!(ecb_decrypt(&KEY, &[0u8; 17]), None);
    assert_eq!(ecb_decrypt(&KEY, &[0u8; 1]), None);
}

#[test]
fn ecb_undoes_encryption_under_the_cabinets_key() {
    let plain: Vec<u8> = (0u8..64).collect();
    let cipher = encrypt(&KEY, &plain);
    assert_ne!(cipher, plain);
    assert_eq!(ecb_decrypt(&KEY, &cipher), Some(plain));
}

#[test]
fn open_payload_splits_tag_and_plaintext() {
    let plain: Vec<u8> = (100u8..132).collect();
    let mut pkt = vec![0xde, 0xad, 0xbe, 0xef];
    pkt.extend_from_slice(&encrypt(&KEY, &plain));
    assert_eq!(
        open_payload(&KEY, &pkt),
        Ok(Opened { tag: vec![0xde, 0xad, 0xbe, 0xef], plaintext: plain })
    );
}

#[test]
fn open_payload_with_a_tag_alone_gives_empty_plaintext() {
    assert_eq!(
        open_payload(&KEY, &[1, 2, 3, 4]),
        Ok(Opened { tag: vec![1, 2, 3, 4], plaintext: Vec::new() })
    );
}

#[test]
fn open_payload_without_a_whole_tag_is_an_error() {
    assert_eq!(open_payload(&KEY, &[]), Err(CipherError::MissingTag));
    assert_eq!(open_payload(&KEY, &[1, 2, 3]), Err(CipherError::MissingTag));
}

#[test]
fn open_payload_with_truncated_ciphertext_is_an_error() {
    let mut pkt = vec![0u8; 4];
    pkt.extend_from_slice(&encrypt(&KEY, &[7u8; 32]));
    for cut in 1..16 {
        assert_eq!(open_payload(&KEY, &pkt[..pkt.len() - cut]), Err(CipherError::Misaligned));
    }
    assert!(open_payload(&KEY, &pkt[..pkt.len() - 16]).is_ok());
}
