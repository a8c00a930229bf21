//! The check of a server certificate against a pinned fingerprint.
//!
//! A server in IP mode has a self-signed certificate; the client keeps the
//! SHA-256 of its public-key info and refuses any other key from then on.

use crate::client::config::{law_fingerprint_reads_back, pin_spec};
use crate::codec::{certificate_spki, hex_encode, hex_text, sha256, sha256_digest, spki_of};
use crate::proto::ids::same_bytes;
use vstd::prelude::*;
use vstd::string::*;

verus! {

/// What the check of a certificate against a pin comes to.
pub open spec fn pin_verdict(cert: Seq<u8>, expected: Seq<u8>) -> Result<(), Seq<char>> {
    match certificate_spki(cert) {
        Err(e) => Err("cert parse: "@ + e),
        Ok(spki) => if sha256_digest(spki) == expected {
            Ok(())
        } else {
            Err("server SPKI fingerprint does not match pin"@)
        },
    }
}

/// The fingerprint of a certificate as it is pinned, `sha256:<hex>`.
pub open spec fn seen_fingerprint(cert: Seq<u8>) -> Result<Seq<char>, Seq<char>> {
    match certificate_spki(cert) {
        Err(e) => Err("cert parse: "@ + e),
        Ok(spki) => Ok("sha256:"@ + hex_text(sha256_digest(spki))),
    }
}

/// Check a certificate, given its public-key info, against the pinned digest.
pub fn check_spki(spki: &Result<Vec<u8>, String>, expected: &[u8; 32]) -> (r: Result<(), String>)
    ensures
        match spki {
            Err(e) => r is Err && r->Err_0@ == "cert parse: "@ + e@,
            Ok(spki) => if sha256_digest(spki@) == expected@ {
                r is Ok
            } else {
                r is Err && r->Err_0@ == "server SPKI fingerprint does not match pin"@
            },
        },
{
    match spki {
        Err(e) => Err("cert parse: ".to_owned().concat(e.as_str())),
        Ok(spki) => {
            let actual = sha256(spki.as_slice());
            if same_bytes(actual.as_slice(), expected.as_slice()) {
                Ok(())
            } else {
                Err("server SPKI fingerprint does not match pin".to_owned())
            }
        },
    }
}

/// Check a certificate against the pinned digest; the reason of a refusal.
pub fn verify_server_cert(cert: &[u8], expected: &[u8; 32]) -> (r: Result<(), String>)
    ensures
        match pin_verdict(cert@, expected@) {
            Ok(_) => r is Ok,
            Err(m) => r is Err && r->Err_0@ == m,
        },
{
    let spki = spki_of(cert);
    check_spki(&spki, expected)
}

/// The fingerprint of a certificate that is trusted on first use. Once it is
/// pinned, the same certificate passes the check.
pub fn learn_server_cert(cert: &[u8]) -> (r: Result<String, String>)
    ensures
        match seen_fingerprint(cert@) {
            Ok(text) => r is Ok && r->Ok_0@ == text,
            Err(m) => r is Err && r->Err_0@ == m,
        },
        r is Ok ==> pin_spec(r->Ok_0@) is Some && pin_verdict(cert@, pin_spec(r->Ok_0@)->0) is Ok,
{
    match spki_of(cert) {
        Err(e) => Err("cert parse: ".to_owned().concat(e.as_str())),
        Ok(spki) => {
            let hash = sha256(spki.as_slice());
            proof {
                law_fingerprint_reads_back(hash);
            }
            Ok("sha256:".to_owned().concat(hex_encode(hash.as_slice()).as_str()))
        },
    }
}

} // verus!
