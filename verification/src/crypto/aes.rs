//! AES-128 in CBC mode with PKCS#7 padding, under a fixed key and IV.

use cbc::cipher::{block_padding::Pkcs7, BlockDecryptMut, BlockEncryptMut, KeyIvInit};
use vstd::prelude::*;

verus! {

pub type Key = [u8; 16];

pub type IV = [u8; 16];

/// The ciphertext that AES-128-CBC with PKCS#7 padding produces for
/// `plaintext` under `key` and `iv`.
pub uninterp spec fn aes128_cbc_encrypt(key: Seq<u8>, iv: Seq<u8>, plaintext: Seq<u8>) -> Seq<u8>;

/// The plaintext that AES-128-CBC decryption with PKCS#7 unpadding recovers
/// from `ciphertext` under `key` and `iv`, or `None` where the ciphertext is
/// not a whole number of blocks or its padding is malformed.
pub uninterp spec fn aes128_cbc_decrypt(key: Seq<u8>, iv: Seq<u8>, ciphertext: Seq<u8>) -> Option<
    Seq<u8>,
>;

/// The length of the PKCS#7 padding of `n` bytes to 16-byte blocks: at least
/// one byte of padding is always added.
pub open spec fn padded_len(n: nat) -> nat {
    (n / 16 + 1) * 16
}

/// `Encryptor::<Aes128>::new(key, iv).encrypt_padded_vec_mut::<Pkcs7>(data)`.
///
/// Claims: the result is the named ciphertext; PKCS#7 pads to the next whole
/// block, and CBC keeps the padded length; decrypting the result under the same
/// key and IV gives back `data` (the round trip that the `cbc` crate documents).
#[verifier::external_body]
fn cbc_encrypt(key: &Key, iv: &IV, data: &[u8]) -> (r: Vec<u8>)
    requires
        data@.len() + 16 <= isize::MAX,
    ensures
        r@ == aes128_cbc_encrypt(key@, iv@, data@),
        r@.len() == padded_len(data@.len()),
        aes128_cbc_decrypt(key@, iv@, r@) == Some(data@),
{
    cbc::Encryptor::<::aes::Aes128>::new(key.into(), iv.into()).encrypt_padded_vec_mut::<Pkcs7>(
        data,
    )
}

/// `Decryptor::<Aes128>::new(key, iv).decrypt_padded_vec_mut::<Pkcs7>(data)`,
/// with its `UnpadError` turned into `None`.
///
/// Claims: the result is the named plaintext; it fails where `data` is not a
/// whole number of 16-byte blocks (as the `cipher` crate documents), and a
/// plaintext is `data` less its PKCS#7 padding, which is 1 to 16 bytes of the
/// last block (`unpad_blocks` fails on no blocks, and `Pkcs7::unpad` rejects a
/// padding byte of 0 or above the block size).
#[verifier::external_body]
pub(crate) fn cbc_decrypt(key: &Key, iv: &IV, data: &[u8]) -> (r: Option<Vec<u8>>)
    ensures
        match r {
            Some(v) => aes128_cbc_decrypt(key@, iv@, data@) == Some(v@),
            None => aes128_cbc_decrypt(key@, iv@, data@) is None,
        },
        data@.len() % 16 != 0 ==> r is None,
        r matches Some(v) ==> v@.len() < data@.len() && data@.len() <= v@.len() + 16,
{
    cbc::Decryptor::<::aes::Aes128>::new(key.into(), iv.into()).decrypt_padded_vec_mut::<Pkcs7>(
        data,
    ).ok()
}

/// An AES-128-CBC cipher with a fixed key and IV.
pub struct Aes {
    key: Key,
    iv: IV,
}

impl Aes {
    /// The key of this cipher.
    pub closed spec fn key_bytes(&self) -> Seq<u8> {
        self.key@
    }

    /// The IV of this cipher.
    pub closed spec fn iv_bytes(&self) -> Seq<u8> {
        self.iv@
    }

    /// Whether `data` decrypts under this cipher.
    pub open spec fn decrypts(&self, data: Seq<u8>) -> bool {
        aes128_cbc_decrypt(self.key_bytes(), self.iv_bytes(), data) is Some
    }

    /// A cipher with the given key and IV.
    pub fn new(key: Key, iv: IV) -> (aes: Self)
        ensures
            aes.key_bytes() == key@,
            aes.iv_bytes() == iv@,
    {
        Self { key, iv }
    }

    /// Encrypts `data`, padding it with PKCS#7 to whole 16-byte blocks.
    pub fn encrypt(&self, data: &[u8]) -> (r: Vec<u8>)
        requires
            data@.len() + 16 <= isize::MAX,
        ensures
            r@ == aes128_cbc_encrypt(self.key_bytes(), self.iv_bytes(), data@),
            r@.len() == padded_len(data@.len()),
            aes128_cbc_decrypt(self.key_bytes(), self.iv_bytes(), r@) == Some(data@),
    {
        cbc_encrypt(&self.key, &self.iv, data)
    }

    /// Decrypts `data` and strips its PKCS#7 padding; `data` must decrypt.
    pub fn decrypt(&self, data: &[u8]) -> (r: Vec<u8>)
        requires
            self.decrypts(data@),
        ensures
            Some(r@) == aes128_cbc_decrypt(self.key_bytes(), self.iv_bytes(), data@),
            r@.len() < data@.len() <= r@.len() + 16,
    {
        match cbc_decrypt(&self.key, &self.iv, data) {
            Some(v) => v,
            None => {
                proof {
                    assert(false);
                }
                Vec::new()
            },
        }
    }

    /// Decrypts `data` where it decrypts, and gives `None` where it is not a
    /// whole number of blocks or its padding is malformed.
    pub fn try_decrypt(&self, data: &[u8]) -> (r: Option<Vec<u8>>)
        ensures
            r is Some <==> self.decrypts(data@),
            r matches Some(v) ==> Some(v@) == aes128_cbc_decrypt(
                self.key_bytes(),
                self.iv_bytes(),
                data@,
            ),
            data@.len() % 16 != 0 ==> r is None,
            r matches Some(v) ==> v@.len() < data@.len() <= v@.len() + 16,
    {
        match cbc_decrypt(&self.key, &self.iv, data) {
            Some(_) => Some(self.decrypt(data)),
            None => None,
        }
    }
}

} // verus!
