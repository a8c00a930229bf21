//! Certificates and keys of the apex domain from PEM bundles.

use crate::codec::{base64_bytes, base64_decode};
use crate::server::domain::sni::byte_views;
use crate::server::error::ServerError;
use crate::server::identity::is_keys;
use crate::text::{has_prefix, lines, lines_spec, starts_with, trim, trim_spec, views};
use vstd::prelude::*;
use vstd::string::*;

verus! {

/// The blocks of a PEM bundle between lines that start with `begin` and `end`,
/// in order. `in_block` says whether one has begun, and `b64` is what it holds
/// so far. The first block that is no base64 refuses the bundle.
pub open spec fn bundle_spec(
    ls: Seq<Seq<char>>,
    begin: Seq<char>,
    end: Seq<char>,
    in_block: bool,
    b64: Seq<char>,
) -> Result<Seq<Seq<u8>>, Seq<char>>
    decreases ls.len(),
{
    if ls.len() == 0 {
        Ok(Seq::empty())
    } else if has_prefix(ls[0], begin) {
        bundle_spec(ls.skip(1), begin, end, true, Seq::empty())
    } else if has_prefix(ls[0], end) {
        match base64_bytes(b64) {
            Err(e) => Err("bad base64: "@ + e),
            Ok(der) => match bundle_spec(ls.skip(1), begin, end, false, b64) {
                Err(e) => Err(e),
                Ok(more) => Ok(seq![der] + more),
            },
        }
    } else if in_block {
        bundle_spec(ls.skip(1), begin, end, true, b64 + trim_spec(ls[0]))
    } else {
        bundle_spec(ls.skip(1), begin, end, false, b64)
    }
}

/// The line that begins a block.
pub open spec fn begin_line(tag: Seq<char>) -> Seq<char> {
    "-----BEGIN "@ + tag + "-----"@
}

/// The line that ends a block.
pub open spec fn end_line(tag: Seq<char>) -> Seq<char> {
    "-----END "@ + tag + "-----"@
}

/// The blocks of a PEM bundle with this tag.
pub open spec fn pem_blocks(pem: Seq<char>, tag: Seq<char>) -> Result<Seq<Seq<u8>>, Seq<char>> {
    bundle_spec(lines_spec(pem), begin_line(tag), end_line(tag), false, Seq::empty())
}

/// `out` put before blocks that are still to be read.
spec fn behind(
    out: Seq<Seq<u8>>,
    read: Result<Seq<Seq<u8>>, Seq<char>>,
) -> Result<Seq<Seq<u8>>, Seq<char>> {
    match read {
        Ok(more) => Ok(out + more),
        Err(e) => Err(e),
    }
}

/// The blocks of a PEM bundle with this tag.
pub fn pem_bundle(pem: &str, expected_tag: &str) -> (r: Result<Vec<Vec<u8>>, ServerError>)
    ensures
        match pem_blocks(pem@, expected_tag@) {
            Ok(blocks) => r is Ok && byte_views(r->Ok_0@) == blocks,
            Err(e) => r is Err && is_keys(r->Err_0, e),
        },
{
    let begin = "-----BEGIN ".to_owned().concat(expected_tag).concat("-----");
    let end = "-----END ".to_owned().concat(expected_tag).concat("-----");
    let ls = lines(pem);
    let ghost all = lines_spec(pem@);
    let mut out: Vec<Vec<u8>> = Vec::new();
    let mut in_block = false;
    let mut b64 = String::new();
    proof {
        assert(all.skip(0) =~= all);
        assert(byte_views(out@) =~= Seq::empty());
        let whole = pem_blocks(pem@, expected_tag@);
        if whole is Ok {
            assert(Seq::<Seq<u8>>::empty() + whole->Ok_0 =~= whole->Ok_0);
        }
    }
    for i in 0..ls.len()
        invariant
            all == views(ls@),
            begin@ == begin_line(expected_tag@),
            end@ == end_line(expected_tag@),
            behind(
                byte_views(out@),
                bundle_spec(all.skip(i as int), begin@, end@, in_block, b64@),
            ) == pem_blocks(pem@, expected_tag@),
    {
        let line = ls[i].as_str();
        assert(all.skip(i as int)[0] == line@);
        assert(all.skip(i as int).skip(1) =~= all.skip(i + 1));
        if starts_with(line, begin.as_str()) {
            in_block = true;
            b64 = String::new();
        } else if starts_with(line, end.as_str()) {
            in_block = false;
            match base64_decode(b64.as_str()) {
                Ok(der) => {
                    proof {
                        let more = bundle_spec(all.skip(i + 1), begin@, end@, false, b64@);
                        assert(byte_views(out@.push(der)) =~= byte_views(out@) + seq![der@]);
                        if more is Ok {
                            assert(byte_views(out@) + (seq![der@] + more->Ok_0) =~= (byte_views(out@)
                                + seq![der@]) + more->Ok_0);
                        }
                    }
                    out.push(der);
                },
                Err(e) => {
                    return Err(ServerError::Keys("bad base64: ".to_owned().concat(e.as_str())));
                },
            }
        } else if in_block {
            let t = trim(line);
            b64.append(t.as_str());
        }
    }
    assert(byte_views(out@) + Seq::<Seq<u8>>::empty() =~= byte_views(out@));
    Ok(out)
}

/// What a pair of PEM files holds: the certificates and the first key, or why
/// not. `cert_path` and `key_path` name the files.
pub open spec fn tls_spec(
    cert_pem: Seq<char>,
    key_pem: Seq<char>,
    cert_path: Seq<char>,
    key_path: Seq<char>,
) -> Result<(Seq<Seq<u8>>, Seq<u8>), Seq<char>> {
    match pem_blocks(cert_pem, "CERTIFICATE"@) {
        Err(e) => Err(e),
        Ok(certs) => if certs.len() == 0 {
            Err("no CERTIFICATE blocks in "@ + cert_path)
        } else {
            match pem_blocks(key_pem, "PRIVATE KEY"@) {
                Err(e) => Err(e),
                Ok(keys) => if keys.len() == 0 {
                    Err("no PRIVATE KEY block in "@ + key_path)
                } else {
                    Ok((certs, keys[0]))
                },
            }
        },
    }
}

/// The certificate chain and the key in a pair of PEM files.
pub fn load_tls_from_pem(cert_pem: &str, key_pem: &str, cert_path: &str, key_path: &str) -> (r:
    Result<(Vec<Vec<u8>>, Vec<u8>), ServerError>)
    ensures
        match tls_spec(cert_pem@, key_pem@, cert_path@, key_path@) {
            Ok((certs, key)) => r is Ok && byte_views(r->Ok_0.0@) == certs && r->Ok_0.1@ == key,
            Err(e) => r is Err && is_keys(r->Err_0, e),
        },
{
    let certs = match pem_bundle(cert_pem, "CERTIFICATE") {
        Ok(certs) => certs,
        Err(e) => return Err(e),
    };
    assert(byte_views(certs@).len() == certs@.len());
    if certs.len() == 0 {
        return Err(ServerError::Keys("no CERTIFICATE blocks in ".to_owned().concat(cert_path)));
    }
    let mut keys = match pem_bundle(key_pem, "PRIVATE KEY") {
        Ok(keys) => keys,
        Err(e) => return Err(e),
    };
    assert(byte_views(keys@).len() == keys@.len());
    if keys.len() == 0 {
        return Err(ServerError::Keys("no PRIVATE KEY block in ".to_owned().concat(key_path)));
    }
    assert(byte_views(keys@)[0] == keys@[0]@);
    let key = keys.remove(0);
    Ok((certs, key))
}

} // verus!
