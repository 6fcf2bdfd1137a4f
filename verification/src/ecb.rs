//! The payload cipher: AES-128 in electronic-codebook mode behind a four-byte
//! clear-text tag.

use aes::Aes128Dec;
use cipher::generic_array::GenericArray;
use cipher::{BlockDecrypt, KeyInit};
use vstd::prelude::*;
use vstd::slice::slice_subrange;

verus! {

/// The size of a cipher block, in bytes.
pub const BLOCK_LEN: usize = 16;

/// The size of the clear-text tag in front of the ciphertext, in bytes.
pub const TAG_LEN: usize = 4;

/// The AES-128 decryption of one 16-byte `block` under a 16-byte `key`.
pub uninterp spec fn aes128_decrypt(key: Seq<u8>, block: Seq<u8>) -> Seq<u8>;

/// `aes::Aes128Dec`, made with `KeyInit::new` and applied to one block with
/// `BlockDecrypt::decrypt_block`: the result is the AES-128 decryption of
/// `block` under `key`. `GenericArray::clone_from_slice` panics unless the
/// block has 16 bytes, which `requires` demands.
#[verifier::external_body]
fn decrypt_block(key: &[u8; 16], block: &[u8]) -> (out: [u8; 16])
    requires
        block@.len() == 16,
    ensures
        out@ == aes128_decrypt(key@, block@),
{
    let mut out = GenericArray::clone_from_slice(block);
    Aes128Dec::new(key.into()).decrypt_block(&mut out);
    out.into()
}

/// The `k`-th 16-byte block of `data`.
pub open spec fn block_of(data: Seq<u8>, k: int) -> Seq<u8> {
    data.subrange(16 * k, 16 * k + 16)
}

/// Electronic-codebook decryption of a whole number of blocks: byte `i` of
/// the plaintext is byte `i % 16` of the decryption of the block that holds
/// byte `i` of the ciphertext. No block depends on another.
pub open spec fn ecb_plaintext(key: Seq<u8>, data: Seq<u8>) -> Seq<u8> {
    Seq::new(data.len(), |i: int| aes128_decrypt(key, block_of(data, i / 16))[i % 16])
}

/// Decrypts `data` block by block. Nothing is decrypted unless `data` is a
/// whole number of blocks.
pub fn ecb_decrypt(key: &[u8; 16], data: &[u8]) -> (r: Option<Vec<u8>>)
    ensures
        match r {
            Some(plain) => data@.len() % 16 == 0 && plain@ == ecb_plaintext(key@, data@),
            None => data@.len() % 16 != 0,
        },
{
    let n = data.len();
    if n % BLOCK_LEN != 0 {
        return None;
    }
    let mut out: Vec<u8> = Vec::new();
    let mut k: usize = 0;
    while k < n
        invariant
            n == data@.len(),
            n % 16 == 0,
            k % 16 == 0,
            k <= n,
            out@.len() == k,
            forall|i: int|
                0 <= i < k ==> out@[i] == #[trigger] ecb_plaintext(key@, data@)[i],
        decreases n - k,
    {
        let block = slice_subrange(data, k, k + BLOCK_LEN);
        assert(block@ == block_of(data@, k as int / 16));
        let plain = decrypt_block(key, block);
        let mut j: usize = 0;
        while j < BLOCK_LEN
            invariant
                n == data@.len(),
                k % 16 == 0,
                k + 16 <= n,
                j <= 16,
                out@.len() == k + j,
                plain@ == aes128_decrypt(key@, block_of(data@, k as int / 16)),
                forall|i: int|
                    0 <= i < k + j ==> out@[i] == #[trigger] ecb_plaintext(key@, data@)[i],
            decreases 16 - j,
        {
            assert((k + j) / 16 == k / 16 && (k + j) % 16 == j);
            out.push(plain[j]);
            j = j + 1;
        }
        k = k + BLOCK_LEN;
    }
    assert(out@ =~= ecb_plaintext(key@, data@));
    Some(out)
}

/// Why a payload could not be opened.
#[derive(Clone, Copy, Debug, PartialEq, Eq, Structural)]
pub enum CipherError {
    /// The payload is shorter than the tag.
    MissingTag,
    /// What follows the tag is not a whole number of cipher blocks.
    Misaligned,
}

/// An opened payload: its clear-text tag and the decrypted bytes behind it.
#[derive(Clone, Debug, PartialEq, Eq)]
pub struct Opened {
    /// The four bytes in front of the ciphertext, as they came.
    pub tag: Vec<u8>,
    /// The decrypted bytes, as long as the ciphertext.
    pub plaintext: Vec<u8>,
}

/// What opening the payload `pkt` under `key` gives: the tag and the plaintext.
pub open spec fn opened_payload(key: Seq<u8>, pkt: Seq<u8>) -> Result<
    (Seq<u8>, Seq<u8>),
    CipherError,
> {
    if pkt.len() < 4 {
        Err(CipherError::MissingTag)
    } else if (pkt.len() - 4) % 16 != 0 {
        Err(CipherError::Misaligned)
    } else {
        Ok((pkt.subrange(0, 4), ecb_plaintext(key, pkt.skip(4))))
    }
}

/// Splits the tag off `pkt` and decrypts the rest under `key`.
pub fn open_payload(key: &[u8; 16], pkt: &[u8]) -> (r: Result<Opened, CipherError>)
    ensures
        match opened_payload(key@, pkt@) {
            Ok((tag, plaintext)) => r matches Ok(o) && o.tag@ == tag && o.plaintext@ == plaintext,
            Err(e) => r == Err::<Opened, CipherError>(e),
        },
{
    if pkt.len() < TAG_LEN {
        return Err(CipherError::MissingTag);
    }
    let tag = vstd::slice::slice_to_vec(slice_subrange(pkt, 0, TAG_LEN));
    let body = slice_subrange(pkt, TAG_LEN, pkt.len());
    match ecb_decrypt(key, body) {
        Some(plaintext) => Ok(Opened { tag, plaintext }),
        None => Err(CipherError::Misaligned),
    }
}

/// No block depends on another: the plaintext of two runs of whole blocks,
/// one after the other, is the plaintext of the first followed by the
/// plaintext of the second.
pub proof fn lemma_ecb_blocks_are_independent(key: Seq<u8>, head: Seq<u8>, rest: Seq<u8>)
    requires
        head.len() % 16 == 0,
        rest.len() % 16 == 0,
    ensures
        ecb_plaintext(key, head + rest) == ecb_plaintext(key, head) + ecb_plaintext(key, rest),
{
    let whole = head + rest;
    let n = head.len() as int;
    assert forall|i: int| 0 <= i < whole.len() implies ecb_plaintext(key, whole)[i] == (
    ecb_plaintext(key, head) + ecb_plaintext(key, rest))[i] by {
        if i < n {
            assert(16 * (i / 16) + 16 <= n);
            assert(block_of(whole, i / 16) == block_of(head, i / 16));
        } else {
            let j = i - n;
            assert(i / 16 == n / 16 + j / 16 && i % 16 == j % 16);
            assert(16 * (j / 16) + 16 <= rest.len());
            assert(block_of(whole, i / 16) == block_of(rest, j / 16));
        }
    }
    assert(ecb_plaintext(key, whole) =~= ecb_plaintext(key, head) + ecb_plaintext(key, rest));
}

/// The plaintext is as long as the ciphertext.
pub proof fn lemma_ecb_keeps_length(key: Seq<u8>, data: Seq<u8>)
    ensures
        ecb_plaintext(key, data).len() == data.len(),
{
}

} // verus!
