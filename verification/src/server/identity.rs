//! The relay's TLS identity: a certificate, its key and the fingerprint that
//! clients pin.

use crate::codec::{base64_bytes, base64_decode, certificate_spki, hex_encode, hex_text, sha256, sha256_digest, spki_of};
use crate::server::error::ServerError;
use crate::text::{has_prefix, lines, lines_spec, starts_with, trim, trim_spec, views};
use vstd::prelude::*;
use vstd::string::*;

verus! {

/// A loaded server identity.
#[derive(Debug, Clone)]
pub struct ServerIdentity {
    pub cert_der: Vec<u8>,
    pub key_der: Vec<u8>,
    /// Hexadecimal SHA-256 of the certificate's public-key info.
    pub spki_sha256: String,
}

/// The base64 text of the first block of a PEM file: its lines, trimmed and
/// joined. `inside` says whether the block has begun.
pub open spec fn pem_body(ls: Seq<Seq<char>>, inside: bool) -> Seq<char>
    decreases ls.len(),
{
    if ls.len() == 0 {
        Seq::empty()
    } else if has_prefix(ls[0], "-----BEGIN"@) {
        pem_body(ls.skip(1), true)
    } else if has_prefix(ls[0], "-----END"@) {
        Seq::empty()
    } else if inside {
        trim_spec(ls[0]) + pem_body(ls.skip(1), true)
    } else {
        pem_body(ls.skip(1), false)
    }
}

/// The bytes of the first block of a PEM file.
pub open spec fn pem_spec(pem: Seq<char>) -> Result<Seq<u8>, Seq<char>> {
    match base64_bytes(pem_body(lines_spec(pem), false)) {
        Ok(der) => Ok(der),
        Err(e) => Err("bad PEM base64: "@ + e),
    }
}

/// The fingerprint of a certificate.
pub open spec fn fingerprint_spec(der: Seq<u8>) -> Result<Seq<char>, Seq<char>> {
    match certificate_spki(der) {
        Ok(spki) => Ok(hex_text(sha256_digest(spki))),
        Err(e) => Err("cert parse: "@ + e),
    }
}

/// Whether `e` is the key error with this message.
pub open spec fn is_keys(e: ServerError, message: Seq<char>) -> bool {
    e matches ServerError::Keys(m) && m@ == message
}

/// The base64 text of the first block of a PEM file.
pub fn pem_text(pem: &str) -> (r: String)
    ensures
        r@ == pem_body(lines_spec(pem@), false),
{
    let ls = lines(pem);
    let ghost all = lines_spec(pem@);
    let mut inside = false;
    let mut b64 = String::new();
    assert(all.skip(0) =~= all);
    assert(b64@ + pem_body(all, false) =~= pem_body(all, false));
    for i in 0..ls.len()
        invariant
            all == lines_spec(pem@),
            all == views(ls@),
            b64@ + pem_body(all.skip(i as int), inside) == pem_body(all, false),
    {
        let line = ls[i].as_str();
        assert(all.skip(i as int)[0] == line@);
        assert(all.skip(i as int).skip(1) =~= all.skip(i + 1));
        if starts_with(line, "-----BEGIN") {
            inside = true;
        } else if starts_with(line, "-----END") {
            assert(b64@ + Seq::<char>::empty() =~= b64@);
            return b64;
        } else if inside {
            let t = trim(line);
            let ghost before = b64@;
            b64.append(t.as_str());
            assert(before + (t@ + pem_body(all.skip(i + 1), true)) =~= b64@ + pem_body(
                all.skip(i + 1),
                true,
            ));
        }
    }
    assert(b64@ + Seq::<char>::empty() =~= b64@);
    b64
}

/// The bytes of the first block of a PEM file.
pub fn pem_to_der(pem: &str) -> (r: Result<Vec<u8>, ServerError>)
    ensures
        match pem_spec(pem@) {
            Ok(der) => r is Ok && r->Ok_0@ == der,
            Err(e) => r is Err && is_keys(r->Err_0, e),
        },
{
    let b64 = pem_text(pem);
    match base64_decode(b64.as_str()) {
        Ok(der) => Ok(der),
        Err(e) => Err(ServerError::Keys("bad PEM base64: ".to_owned().concat(e.as_str()))),
    }
}

/// The fingerprint of a certificate: SHA-256 of its public-key info, in hexadecimal.
pub fn compute_spki_fingerprint(cert_der: &[u8]) -> (r: Result<String, ServerError>)
    ensures
        match fingerprint_spec(cert_der@) {
            Ok(text) => r is Ok && r->Ok_0@ == text,
            Err(e) => r is Err && is_keys(r->Err_0, e),
        },
{
    match spki_of(cert_der) {
        Ok(spki) => {
            let digest = sha256(spki.as_slice());
            Ok(hex_encode(digest.as_slice()))
        },
        Err(e) => Err(ServerError::Keys("cert parse: ".to_owned().concat(e.as_str()))),
    }
}

impl ServerIdentity {
    /// An identity from the bytes of a certificate and its key.
    pub fn from_der(cert_der: Vec<u8>, key_der: Vec<u8>) -> (r: Result<ServerIdentity, ServerError>)
        ensures
            match fingerprint_spec(cert_der@) {
                Ok(text) => {
                    &&& r is Ok
                    &&& r->Ok_0.cert_der@ == cert_der@
                    &&& r->Ok_0.key_der@ == key_der@
                    &&& r->Ok_0.spki_sha256@ == text
                },
                Err(e) => r is Err && is_keys(r->Err_0, e),
            },
    {
        match compute_spki_fingerprint(cert_der.as_slice()) {
            Ok(spki_sha256) => Ok(ServerIdentity { cert_der, key_der, spki_sha256 }),
            Err(e) => Err(e),
        }
    }

    /// An identity from the PEM texts of a certificate and its key: the first
    /// of the two that cannot be decoded decides the error.
    pub fn from_pem(cert_pem: &str, key_pem: &str) -> (r: Result<ServerIdentity, ServerError>)
        ensures
            match (pem_spec(cert_pem@), pem_spec(key_pem@)) {
                (Err(e), _) => r is Err && is_keys(r->Err_0, e),
                (Ok(_), Err(e)) => r is Err && is_keys(r->Err_0, e),
                (Ok(cert), Ok(key)) => match fingerprint_spec(cert) {
                    Ok(text) => {
                        &&& r is Ok
                        &&& r->Ok_0.cert_der@ == cert
                        &&& r->Ok_0.key_der@ == key
                        &&& r->Ok_0.spki_sha256@ == text
                    },
                    Err(e) => r is Err && is_keys(r->Err_0, e),
                },
            },
    {
        let cert_der = match pem_to_der(cert_pem) {
            Ok(der) => der,
            Err(e) => return Err(e),
        };
        let key_der = match pem_to_der(key_pem) {
            Ok(der) => der,
            Err(e) => return Err(e),
        };
        ServerIdentity::from_der(cert_der, key_der)
    }
}

} // verus!
