//! The primitives of the packet stream: X25519 key agreement and ChaCha20-Poly1305.

use vstd::prelude::*;

verus! {

/// Bytes that sealing adds to a plaintext.
pub const TAG_LEN: usize = 16;

/// The most bytes that ChaCha20-Poly1305 takes under one nonce.
pub const MAX_SEAL_LEN: u64 = 274_877_906_880;

/// The public key that belongs to the secret `secret`.
pub uninterp spec fn x25519_public(secret: Seq<u8>) -> Seq<u8>;

/// The secret that the holder of `secret` shares with the owner of the key `their_public`.
pub uninterp spec fn x25519_shared(secret: Seq<u8>, their_public: Seq<u8>) -> Seq<u8>;

/// `plaintext` encrypted under `key` and `nonce` without further authenticated data, and its tag.
pub uninterp spec fn aead_seal(key: Seq<u8>, nonce: Seq<u8>, plaintext: Seq<u8>) -> Seq<u8>;

/// What `sealed` holds, if its tag is right under `key` and `nonce`.
pub uninterp spec fn aead_open(key: Seq<u8>, nonce: Seq<u8>, sealed: Seq<u8>) -> Option<Seq<u8>>;

/// `x25519_dalek::PublicKey::from` on the secret key that the bytes hold. Two calls on the same
/// bytes give the same key.
#[verifier::external_body]
pub(crate) fn public_key(secret: &[u8; 32]) -> (r: [u8; 32])
    ensures
        r@ == x25519_public(secret@),
{
    x25519_dalek::PublicKey::from(&x25519_dalek::StaticSecret::from(*secret)).to_bytes()
}

/// `x25519_dalek::StaticSecret::diffie_hellman`. The result depends on the two keys alone, and the
/// owner of the other key computes the same from their secret and the public key of this one.
#[verifier::external_body]
pub(crate) fn diffie_hellman(secret: &[u8; 32], their_public: &[u8; 32]) -> (r: [u8; 32])
    ensures
        r@ == x25519_shared(secret@, their_public@),
        forall|other: Seq<u8>|
            other.len() == 32 && their_public@ == #[trigger] x25519_public(other) ==> r@
                == x25519_shared(other, x25519_public(secret@)),
{
    let theirs = x25519_dalek::PublicKey::from(*their_public);
    x25519_dalek::StaticSecret::from(*secret).diffie_hellman(&theirs).to_bytes()
}

/// `ring::aead::LessSafeKey::seal_in_place_append_tag` with ChaCha20-Poly1305 and no additional
/// data. The result depends on the arguments alone, is longer than the plaintext by the tag, and
/// opens to the plaintext under the same key and nonce.
#[verifier::external_body]
pub(crate) fn seal(key: &[u8; 32], nonce: &[u8; 12], plaintext: Vec<u8>) -> (r: Vec<u8>)
    requires
        plaintext@.len() <= MAX_SEAL_LEN,
    ensures
        r@ == aead_seal(key@, nonce@, plaintext@),
        r@.len() == plaintext@.len() + TAG_LEN,
        aead_open(key@, nonce@, r@) == Some(plaintext@),
{
    let unbound = ring::aead::UnboundKey::new(&ring::aead::CHACHA20_POLY1305, key).unwrap();
    let nonce = ring::aead::Nonce::assume_unique_for_key(*nonce);
    let mut in_out = plaintext;
    ring::aead::LessSafeKey::new(unbound).seal_in_place_append_tag(
        nonce,
        ring::aead::Aad::empty(),
        &mut in_out,
    ).unwrap();
    in_out
}

/// `ring::aead::LessSafeKey::open_in_place` with ChaCha20-Poly1305 and no additional data. The
/// result depends on the arguments alone; a plaintext is shorter than what was sealed by the tag.
#[verifier::external_body]
pub(crate) fn open(key: &[u8; 32], nonce: &[u8; 12], sealed: Vec<u8>) -> (r: Option<Vec<u8>>)
    ensures
        match r {
            Some(plaintext) => aead_open(key@, nonce@, sealed@) == Some(plaintext@)
                && plaintext@.len() + TAG_LEN == sealed@.len(),
            None => aead_open(key@, nonce@, sealed@) is None,
        },
{
    let unbound = ring::aead::UnboundKey::new(&ring::aead::CHACHA20_POLY1305, key).unwrap();
    let nonce = ring::aead::Nonce::assume_unique_for_key(*nonce);
    let mut in_out = sealed;
    let key = ring::aead::LessSafeKey::new(unbound);
    match key.open_in_place(nonce, ring::aead::Aad::empty(), &mut in_out) {
        Ok(plaintext) => Some(plaintext.to_vec()),
        Err(_) => None,
    }
}

} // verus!
