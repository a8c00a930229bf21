//! Client configuration: the identity and the server pin.

use crate::client::error::ClientError;
use crate::codec::{hex_bytes, hex_decode, hex_encode, hex_error, hex_text, is_hex, law_hex_roundtrip};
use crate::proto::auth::{ed25519_public, SigningKey};
use crate::proto::consts::DEFAULT_UDP_PORT;
use crate::proto::ids::PubKey;
use crate::server::keys::array32;
use crate::text::{strip_prefix, strip_prefix_spec};
use vstd::prelude::*;
use vstd::string::*;

verus! {

/// Name of the configuration file inside the client's data directory.
pub const CONFIG_FILE: &'static str = "config.toml";

/// A key pair, as hexadecimal text.
#[derive(Debug, Clone)]
pub struct Identity {
    /// Ed25519 seed, 32 bytes.
    pub private_key: String,
    /// Ed25519 public key, 32 bytes.
    pub public_key: String,
}

/// The 32 bytes that a field of an identity holds, or the message of the error.
pub open spec fn key_field(name: Seq<char>, text: Seq<char>) -> Result<Seq<u8>, Seq<char>> {
    if !is_hex(text) {
        Err("bad "@ + name + " hex: "@ + hex_error(text))
    } else if hex_bytes(text).len() != 32 {
        Err(name + " not 32 bytes"@)
    } else {
        Ok(hex_bytes(text))
    }
}

/// Whether `e` is the configuration error with this message.
pub open spec fn is_config(e: ClientError, message: Seq<char>) -> bool {
    e matches ClientError::Config(m) && m@ == message
}

fn read_key(name: &str, text: &str) -> (r: Result<[u8; 32], ClientError>)
    ensures
        match key_field(name@, text@) {
            Ok(bytes) => r is Ok && r->Ok_0@ == bytes,
            Err(m) => r is Err && is_config(r->Err_0, m),
        },
{
    match hex_decode(text) {
        Err(e) => Err(
            ClientError::Config(
                "bad ".to_owned().concat(name).concat(" hex: ").concat(e.as_str()),
            ),
        ),
        Ok(raw) => match array32(&raw) {
            Some(bytes) => Ok(bytes),
            None => Err(ClientError::Config(name.to_owned().concat(" not 32 bytes"))),
        },
    }
}

impl Identity {
    /// The identity of a key.
    pub fn of_key(key: &SigningKey) -> (r: Identity)
        ensures
            r.private_key@ == hex_text(key.seed@),
            r.public_key@ == hex_text(ed25519_public(key.seed@)),
    {
        let vk = key.verifying_key();
        Identity {
            private_key: hex_encode(key.seed.as_slice()),
            public_key: hex_encode(vk.0.as_slice()),
        }
    }

    /// A fresh identity: that of some key.
    pub fn generate() -> (r: Identity)
        ensures
            exists|key: SigningKey|
                r.private_key@ == hex_text(#[trigger] key.seed@) && r.public_key@ == hex_text(
                    ed25519_public(key.seed@),
                ),
    {
        let key = SigningKey::generate();
        let r = Identity::of_key(&key);
        assert(r.private_key@ == hex_text(key.seed@));
        r
    }

    /// The private key.
    pub fn signing_key(&self) -> (r: Result<SigningKey, ClientError>)
        ensures
            match key_field("private_key"@, self.private_key@) {
                Ok(bytes) => r is Ok && r->Ok_0.seed@ == bytes,
                Err(m) => r is Err && is_config(r->Err_0, m),
            },
    {
        match read_key("private_key", self.private_key.as_str()) {
            Ok(seed) => Ok(SigningKey::from_bytes(&seed)),
            Err(e) => Err(e),
        }
    }

    /// The public key.
    pub fn pubkey(&self) -> (r: Result<PubKey, ClientError>)
        ensures
            match key_field("public_key"@, self.public_key@) {
                Ok(bytes) => r is Ok && (r->Ok_0).0@ == bytes,
                Err(m) => r is Err && is_config(r->Err_0, m),
            },
    {
        match read_key("public_key", self.public_key.as_str()) {
            Ok(raw) => Ok(PubKey(raw)),
            Err(e) => Err(e),
        }
    }
}

/// 32 bytes, a seed or a public key, are read back from the field that holds
/// their hexadecimal text.
pub proof fn law_identity_reads_back(name: Seq<char>, bytes: [u8; 32])
    ensures
        key_field(name, hex_text(bytes@)) == Ok::<Seq<u8>, Seq<char>>(bytes@),
{
    law_hex_roundtrip(bytes@);
}

/// The relay that a client talks to, and how it knows it again.
#[derive(Debug, Clone)]
pub struct ServerPin {
    pub host: String,
    pub quic_port: u16,
    /// TCP port of the fallback; `quic_port` when unset.
    pub tcp_port: Option<u16>,
    pub sni: Option<String>,
    /// `sha256:<hex>` of the server's public-key info.
    pub fingerprint: Option<String>,
}

/// The QUIC port of a configuration that names none.
pub fn default_quic_port() -> (r: u16)
    ensures
        r == DEFAULT_UDP_PORT,
{
    DEFAULT_UDP_PORT
}

/// The digest that a fingerprint names, if it is well-formed.
pub open spec fn pin_spec(fingerprint: Seq<char>) -> Option<Seq<u8>> {
    match strip_prefix_spec(fingerprint, "sha256:"@) {
        None => None,
        Some(hex) => if is_hex(hex) && hex_bytes(hex).len() == 32 {
            Some(hex_bytes(hex))
        } else {
            None
        },
    }
}

/// The digest that a fingerprint of the form `sha256:<hex>` names.
pub fn parse_pin(fingerprint: &str) -> (r: Option<[u8; 32]>)
    ensures
        match pin_spec(fingerprint@) {
            Some(bytes) => r is Some && r->0@ == bytes,
            None => r is None,
        },
{
    match strip_prefix(fingerprint, "sha256:") {
        None => None,
        Some(hex) => match hex_decode(hex.as_str()) {
            Err(_) => None,
            Ok(raw) => array32(&raw),
        },
    }
}

impl ServerPin {
    /// The SNI to present: the host when none is set.
    pub fn effective_sni(&self) -> (r: &str)
        ensures
            r@ == match self.sni {
                Some(s) => s@,
                None => self.host@,
            },
    {
        match &self.sni {
            Some(s) => s.as_str(),
            None => self.host.as_str(),
        }
    }

    /// The TCP port of the fallback.
    pub fn effective_tcp_port(&self) -> (r: u16)
        ensures
            r == match self.tcp_port {
                Some(p) => p,
                None => self.quic_port,
            },
    {
        match self.tcp_port {
            Some(p) => p,
            None => self.quic_port,
        }
    }

    /// The pinned digest, if there is a pin.
    pub fn fingerprint_bytes(&self) -> (r: Result<Option<[u8; 32]>, ClientError>)
        ensures
            match self.fingerprint {
                None => r is Ok && r->Ok_0 is None,
                Some(fp) => match pin_spec(fp@) {
                    Some(bytes) => r is Ok && r->Ok_0 is Some && r->Ok_0->0@ == bytes,
                    None => r is Err && r->Err_0 is BadFingerprint,
                },
            },
    {
        match &self.fingerprint {
            None => Ok(None),
            Some(fp) => match parse_pin(fp.as_str()) {
                Some(raw) => Ok(Some(raw)),
                None => Err(ClientError::BadFingerprint),
            },
        }
    }
}

/// What an enrolled client keeps.
#[derive(Debug, Clone)]
pub struct ClientConfig {
    pub identity: Identity,
    pub server: ServerPin,
}

/// The fingerprint of a digest names that digest.
pub proof fn law_fingerprint_reads_back(digest: [u8; 32])
    ensures
        pin_spec("sha256:"@ + hex_text(digest@)) == Some(digest@),
{
    law_hex_roundtrip(digest@);
    let hex = hex_text(digest@);
    let text = "sha256:"@ + hex;
    assert(text.take("sha256:"@.len() as int) =~= "sha256:"@);
    assert(text.skip("sha256:"@.len() as int) =~= hex);
}

} // verus!
