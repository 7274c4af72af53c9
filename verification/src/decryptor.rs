//! Decryption of a record body with the embedded key: a 128-bit block
//! cipher in cipher-block-chaining mode with PKCS#7 padding.

use vstd::prelude::*;
use crate::SaveError;
use cipher::{BlockDecryptMut, KeyIvInit};

verus! {

/// What AES-128-CBC decryption with PKCS#7 unpadding returns for a given
/// key, initialization vector and ciphertext: the unpadded plaintext, or
/// nothing when the ciphertext length or its trailing padding is invalid.
pub uninterp spec fn aes128_cbc_decrypt_of(key: Seq<u8>, iv: Seq<u8>, ct: Seq<u8>) -> Option<
    Seq<u8>,
>;

/// The fixed 16-byte decryption key embedded in the system.
pub open spec fn spec_key() -> Seq<u8> {
    seq![
        0xfdu8,
        0x46u8,
        0x4du8,
        0x69u8,
        0x5eu8,
        0x69u8,
        0xa3u8,
        0x9au8,
        0x10u8,
        0xe3u8,
        0x19u8,
        0xa7u8,
        0xacu8,
        0xe8u8,
        0xb7u8,
        0xfau8,
    ]
}

/// The embedded decryption key as bytes.
pub fn embedded_key() -> (r: Vec<u8>)
    ensures
        r@ == spec_key(),
{
    let mut k: Vec<u8> = Vec::new();
    k.push(0xfd);
    k.push(0x46);
    k.push(0x4d);
    k.push(0x69);
    k.push(0x5e);
    k.push(0x69);
    k.push(0xa3);
    k.push(0x9a);
    k.push(0x10);
    k.push(0xe3);
    k.push(0x19);
    k.push(0xa7);
    k.push(0xac);
    k.push(0xe8);
    k.push(0xb7);
    k.push(0xfa);
    proof {
        assert(k@ =~= spec_key());
    }
    k
}

/// Relies on `cbc::Decryptor::<aes::Aes128>` with
/// `cipher::BlockDecryptMut::decrypt_padded_vec_mut::<Pkcs7>`: the result
/// depends on the key, the initialization vector and the ciphertext alone,
/// and the call fails exactly when the ciphertext length is not a multiple
/// of the 16-byte block size or the trailing PKCS#7 padding of the decrypted
/// last block is malformed.
#[verifier::external_body]
fn aes128_cbc_decrypt(key: &[u8], iv: &[u8], ct: &[u8]) -> (r: Result<Vec<u8>, SaveError>)
    requires
        key@.len() == 16,
        iv@.len() == 16,
    ensures
        r is Ok ==> aes128_cbc_decrypt_of(key@, iv@, ct@) == Some(r->Ok_0@),
        r is Err ==> aes128_cbc_decrypt_of(key@, iv@, ct@) is None && r->Err_0
            == SaveError::Decrypt,
        ct@.len() % 16 != 0 ==> r is Err,
{
    let dec = cbc::Decryptor::<aes::Aes128>::new_from_slices(key, iv).expect("key and iv are 16 bytes");
    match dec.decrypt_padded_vec_mut::<cipher::block_padding::Pkcs7>(ct) {
        Ok(p) => Ok(p),
        Err(_) => Err(SaveError::Decrypt),
    }
}

/// Decrypts a record body with the embedded key and the record's
/// initialization vector, validating and stripping the PKCS#7 padding.
/// Succeeds exactly when the cipher accepts the buffer: in particular a
/// buffer whose length is not a multiple of 16 is always refused.
pub fn decrypt_file(raw: &[u8], iv: &[u8]) -> (r: Result<Vec<u8>, SaveError>)
    requires
        iv@.len() == 16,
    ensures
        r is Ok <==> aes128_cbc_decrypt_of(spec_key(), iv@, raw@) is Some,
        r is Ok ==> Some(r->Ok_0@) == aes128_cbc_decrypt_of(spec_key(), iv@, raw@),
        r is Err ==> r->Err_0 == SaveError::Decrypt,
        raw@.len() % 16 != 0 ==> r is Err,
{
    let key = embedded_key();
    aes128_cbc_decrypt(key.as_slice(), iv, raw)
}

} // verus!
