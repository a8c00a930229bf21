//! Ed25519 challenge-response helpers.
//!
//! The domain separator [`AUTH_DOMAIN_SEPARATOR`] stands before the nonce in
//! what is signed, so that a signature made for another version's challenge
//! is of no use here.

use crate::proto::ids::{Nonce, PubKey, Signature};
use vstd::prelude::*;

verus! {

/// Domain-separation prefix of every authentication signature: `krot-auth-v1`
/// and a NUL byte, which ends the version tag.
pub const AUTH_DOMAIN_SEPARATOR: [u8; 13] = [
    0x6b,
    0x72,
    0x6f,
    0x74,
    0x2d,
    0x61,
    0x75,
    0x74,
    0x68,
    0x2d,
    0x76,
    0x31,
    0x00,
];

/// The public key that belongs to a seed.
pub uninterp spec fn ed25519_public(seed: Seq<u8>) -> Seq<u8>;

/// The signature of a message under a seed.
pub uninterp spec fn ed25519_signature(seed: Seq<u8>, message: Seq<u8>) -> Seq<u8>;

/// Whether 32 bytes are the encoding of a public key.
pub uninterp spec fn ed25519_decodes(key: Seq<u8>) -> bool;

/// Whether a signature of a message is good under a public key.
pub uninterp spec fn ed25519_accepts(key: Seq<u8>, message: Seq<u8>, signature: Seq<u8>) -> bool;

/// `ed25519_dalek::SigningKey::generate` with the operating system's random
/// numbers. Nothing is promised of the seed.
#[verifier::external_body]
fn random_seed() -> (r: [u8; 32]) {
    ed25519_dalek::SigningKey::generate(&mut rand::rngs::OsRng).to_bytes()
}

/// `ed25519_dalek::SigningKey::verifying_key` of the key with this seed. The
/// result is the encoding of a key.
#[verifier::external_body]
fn public_of_seed(seed: &[u8; 32]) -> (r: [u8; 32])
    ensures
        r@ == ed25519_public(seed@),
        ed25519_decodes(r@),
{
    ed25519_dalek::SigningKey::from_bytes(seed).verifying_key().to_bytes()
}

/// `ed25519_dalek::Signer::sign` with the key that has this seed. The
/// signature is good under the seed's public key.
#[verifier::external_body]
fn sign_with_seed(seed: &[u8; 32], message: &[u8]) -> (r: [u8; 64])
    ensures
        r@ == ed25519_signature(seed@, message@),
        ed25519_accepts(ed25519_public(seed@), message@, r@),
{
    let key = ed25519_dalek::SigningKey::from_bytes(seed);
    ed25519_dalek::Signer::sign(&key, message).to_bytes()
}

/// `ed25519_dalek::VerifyingKey::from_bytes`: whether the bytes are a key.
#[verifier::external_body]
fn key_decodes(key: &[u8; 32]) -> (r: bool)
    ensures
        r == ed25519_decodes(key@),
{
    ed25519_dalek::VerifyingKey::from_bytes(key).is_ok()
}

/// `ed25519_dalek::Verifier::verify` under the key with this encoding.
#[verifier::external_body]
fn signature_accepted(key: &[u8; 32], message: &[u8], signature: &[u8; 64]) -> (r: bool)
    requires
        ed25519_decodes(key@),
    ensures
        r == ed25519_accepts(key@, message@, signature@),
{
    let vk = ed25519_dalek::VerifyingKey::from_bytes(key).unwrap();
    let sig = ed25519_dalek::Signature::from_bytes(signature);
    ed25519_dalek::Verifier::verify(&vk, message, &sig).is_ok()
}

/// An Ed25519 private key, held as its seed.
#[derive(Clone, Copy, PartialEq, Eq)]
pub struct SigningKey {
    pub seed: [u8; 32],
}

impl SigningKey {
    /// A fresh random key; any seed may come out.
    pub fn generate() -> (r: SigningKey) {
        SigningKey { seed: random_seed() }
    }

    /// The key with this seed.
    pub fn from_bytes(seed: &[u8; 32]) -> (r: SigningKey)
        ensures
            r.seed == *seed,
    {
        SigningKey { seed: *seed }
    }

    /// The seed.
    pub fn to_bytes(&self) -> (r: [u8; 32])
        ensures
            r == self.seed,
    {
        self.seed
    }

    /// The matching public key.
    pub fn verifying_key(&self) -> (r: PubKey)
        ensures
            r.0@ == ed25519_public(self.seed@),
            ed25519_decodes(r.0@),
    {
        PubKey(public_of_seed(&self.seed))
    }
}

/// What is signed for a challenge.
pub open spec fn signing_payload_spec(nonce: Nonce) -> Seq<u8> {
    AUTH_DOMAIN_SEPARATOR@ + nonce.0@
}

/// Whether `signature` answers the challenge `nonce` for `pubkey`.
pub open spec fn challenge_accepts(pubkey: PubKey, nonce: Nonce, signature: Signature) -> bool {
    ed25519_decodes(pubkey.0@) && ed25519_accepts(
        pubkey.0@,
        signing_payload_spec(nonce),
        signature.0@,
    )
}

fn signing_payload(nonce: &Nonce) -> (buf: Vec<u8>)
    ensures
        buf@ == signing_payload_spec(*nonce),
{
    let separator = AUTH_DOMAIN_SEPARATOR;
    let mut buf: Vec<u8> = Vec::new();
    buf.extend_from_slice(separator.as_slice());
    buf.extend_from_slice(nonce.0.as_slice());
    assert(buf@ =~= signing_payload_spec(*nonce));
    buf
}

/// Sign an authentication challenge with the client's private key.
///
/// The signature answers the challenge for the key's public half.
pub fn sign_challenge(key: &SigningKey, nonce: &Nonce) -> (r: Signature)
    ensures
        r.0@ == ed25519_signature(key.seed@, signing_payload_spec(*nonce)),
        forall|pubkey: PubKey|
            pubkey.0@ == ed25519_public(key.seed@) && ed25519_decodes(pubkey.0@)
                ==> #[trigger] challenge_accepts(pubkey, *nonce, r),
{
    let payload = signing_payload(nonce);
    Signature(sign_with_seed(&key.seed, payload.as_slice()))
}

/// Verify the signature of an authentication challenge: `true` iff `pubkey` is
/// a key and `signature` is good under it for the domain-separated `nonce`.
pub fn verify_challenge(pubkey: &PubKey, nonce: &Nonce, signature: &Signature) -> (r: bool)
    ensures
        r == challenge_accepts(*pubkey, *nonce, *signature),
{
    if !key_decodes(&pubkey.0) {
        return false;
    }
    let payload = signing_payload(nonce);
    signature_accepted(&pubkey.0, payload.as_slice(), &signature.0)
}

/// Different nonces are signed as different messages.
pub proof fn law_payload_injective(a: Nonce, b: Nonce)
    ensures
        signing_payload_spec(a) == signing_payload_spec(b) ==> a == b,
{
    if signing_payload_spec(a) == signing_payload_spec(b) {
        assert(a.0@ =~= signing_payload_spec(a).skip(13));
        assert(b.0@ =~= signing_payload_spec(b).skip(13));
        assert(a.0 =~= b.0);
    }
}

/// The message that is signed is the separator and the nonce, 45 bytes: the
/// bare nonce is another message.
pub proof fn law_payload_is_separated(nonce: Nonce, bare: Nonce)
    ensures
        signing_payload_spec(nonce).len() == 45,
        signing_payload_spec(nonce).take(13) == AUTH_DOMAIN_SEPARATOR@,
        signing_payload_spec(nonce).skip(13) == nonce.0@,
        signing_payload_spec(nonce) != bare.0@,
{
    assert(signing_payload_spec(nonce).take(13) =~= AUTH_DOMAIN_SEPARATOR@);
    assert(signing_payload_spec(nonce).skip(13) =~= nonce.0@);
}

/// Whether a signature is good for one message under one key and for nothing
/// else, as an unforgeable scheme has it.
pub open spec fn good_for_only(signature: Signature, key: Seq<u8>, message: Seq<u8>) -> bool {
    forall|k: Seq<u8>, m: Seq<u8>| #[trigger]
        ed25519_accepts(k, m, signature.0@) ==> k == key && m == message
}

/// The answer to a challenge is refused for another nonce and for another
/// key, and a signature over the bare nonce is refused, as far as the scheme
/// accepts a signature for nothing but the message and the key that it was
/// made for. Bytes that are no key are refused in any case.
pub proof fn law_other_challenge_refused(
    pubkey: PubKey,
    nonce: Nonce,
    signature: Signature,
    other_key: PubKey,
    other_nonce: Nonce,
)
    ensures
        good_for_only(signature, pubkey.0@, signing_payload_spec(nonce)) ==> {
            &&& other_nonce != nonce ==> !challenge_accepts(pubkey, other_nonce, signature)
            &&& other_key.0@ != pubkey.0@ ==> !challenge_accepts(other_key, nonce, signature)
            &&& other_key.0@ != pubkey.0@ ==> !challenge_accepts(other_key, other_nonce, signature)
        },
        good_for_only(signature, pubkey.0@, nonce.0@) ==> !challenge_accepts(
            pubkey,
            nonce,
            signature,
        ),
        !ed25519_decodes(other_key.0@) ==> !challenge_accepts(other_key, other_nonce, signature),
{
    law_payload_injective(nonce, other_nonce);
    law_payload_is_separated(nonce, nonce);
}

} // verus!
