//! What a client is set up with: server names, flags, pins and secrets.

use crate::client::cli::{
    env_secret, file_secret, hex8, host_port, is_flag_error, is_login, login_result, AuthChoice, AuthFlags, EnvSecret,
    FileSecret,
};
use crate::client::config::{key_field, pin_spec, ServerPin};
use crate::client::enroll::{pin_of, EnrollOptions};
use crate::client::error::ClientError;
use crate::client::local_auth::{without_line_breaks, AuthPolicy};
use crate::client::session::target_spec;
use crate::client::tls::{pin_verdict, seen_fingerprint};
use crate::client::tunnel::registration;
use crate::codec::{
    certificate_spki, hex_bytes, hex_text, hex_value, is_hex, law_hex_roundtrip, sha256_digest,
};
use crate::proto::frames::{ClientFrameView, TunnelKind};
use crate::proto::ids::SessionId;
use crate::server::identity::fingerprint_spec;
use crate::text::{dec, has_prefix, lower_hex, uint_spec};
use crate::text_laws::{law_cut_first, law_cut_first_of_joined, law_cut_last, law_cut_last_of_joined, law_number_reads_back, law_strip};
use vstd::prelude::*;

verus! {

/// A host and a port are read back from their text, whatever the host holds:
/// only the last colon counts. A name without a port gets 7853, and so does
/// one whose last colon is followed by no port.
pub proof fn law_host_and_port(host: Seq<char>, port: u16, tail: Seq<char>)
    ensures
        host_port(host + seq![':'] + dec(port as nat)) == (host, port),
        !host.contains(':') ==> host_port(host) == (host, 7853u16),
        !tail.contains(':') && uint_spec(tail, 65535) is None ==> host_port(host + seq![':'] + tail) == (
            host + seq![':'] + tail,
            7853u16,
        ),
{
    let d = dec(port as nat);
    crate::text::lemma_dec_roundtrip(port as nat);
    assert(!d.contains(':')) by {
        if d.contains(':') {
            let i = choose|i: int| 0 <= i < d.len() && d[i] == ':';
            assert(crate::text::is_digit_spec(d[i]));
        }
    }
    law_cut_last_of_joined(host, ':', d);
    law_number_reads_back(port as nat, u16::MAX as nat);
    law_cut_last(host, ':');
    if !tail.contains(':') {
        law_cut_last_of_joined(host, ':', tail);
    }
}

/// The name that a server is looked up by is its host and the port.
pub proof fn law_target_names_host_and_port(pin: ServerPin, port: u16)
    ensures
        host_port(target_spec(pin, port)) == (pin.host@, port),
{
    reveal_strlit(":");
    assert(target_spec(pin, port) =~= pin.host@ + seq![':'] + dec(port as nat));
    law_host_and_port(pin.host@, port, Seq::empty());
}

/// The value of the digit at `i`.
pub open spec fn digit_at(text: Seq<char>, i: int) -> int {
    hex_value(text[i])->0 as int
}

/// The number in a label is written in eight lower-case digits, the high ones
/// first, so that labels with different numbers differ.
pub proof fn law_label_number(n: u32)
    ensures
        hex8(n).len() == 8,
        forall|i: int|
            0 <= i < 8 ==> hex_value(#[trigger] hex8(n)[i]) is Some && !('A' <= hex8(n)[i] <= 'F'),
        0x1000_0000 * digit_at(hex8(n), 0) + 0x100_0000 * digit_at(hex8(n), 1) + 0x10_0000 * digit_at(
            hex8(n),
            2,
        ) + 0x1_0000 * digit_at(hex8(n), 3) + 0x1000 * digit_at(hex8(n), 4) + 0x100 * digit_at(
            hex8(n),
            5,
        ) + 0x10 * digit_at(hex8(n), 6) + digit_at(hex8(n), 7) == n,
{
    lemma_lower_hex(n as int / 0x1000_0000);
    lemma_lower_hex(n as int / 0x100_0000 % 16);
    lemma_lower_hex(n as int / 0x10_0000 % 16);
    lemma_lower_hex(n as int / 0x1_0000 % 16);
    lemma_lower_hex(n as int / 0x1000 % 16);
    lemma_lower_hex(n as int / 0x100 % 16);
    lemma_lower_hex(n as int / 0x10 % 16);
    lemma_lower_hex(n as int % 16);
    lemma_digits_sum(n);
}

proof fn lemma_digits_sum(n: u32)
    ensures
        0x1000_0000 * (n as int / 0x1000_0000) + 0x100_0000 * (n as int / 0x100_0000 % 16) + 0x10_0000 * (
        n as int / 0x10_0000 % 16) + 0x1_0000 * (n as int / 0x1_0000 % 16) + 0x1000 * (n as int / 0x1000 % 16)
            + 0x100 * (n as int / 0x100 % 16) + 0x10 * (n as int / 0x10 % 16) + n as int % 16 == n,
{
    assert(n / 0x1000_0000 == (n / 0x100_0000) / 16) by (bit_vector);
    assert(n / 0x100_0000 == (n / 0x10_0000) / 16) by (bit_vector);
    assert(n / 0x10_0000 == (n / 0x1_0000) / 16) by (bit_vector);
    assert(n / 0x1_0000 == (n / 0x1000) / 16) by (bit_vector);
    assert(n / 0x1000 == (n / 0x100) / 16) by (bit_vector);
    assert(n / 0x100 == (n / 0x10) / 16) by (bit_vector);
}

proof fn lemma_lower_hex(n: int)
    requires
        0 <= n < 16,
    ensures
        hex_value(lower_hex(n)) == Some(n as u8),
        !('A' <= lower_hex(n) <= 'F'),
{
}

/// A secret loses the line breaks at its end and nothing else.
pub proof fn law_line_breaks_at_the_end_go(s: Seq<char>)
    ensures
        s.len() > 0 && s.last() != '\r' && s.last() != '\n' ==> without_line_breaks(s) == s,
        without_line_breaks(s + seq!['\n']) == without_line_breaks(s),
        without_line_breaks(s + seq!['\r']) == without_line_breaks(s),
        without_line_breaks(s + seq!['\r', '\n']) == without_line_breaks(s),
        without_line_breaks(Seq::empty()) == Seq::<char>::empty(),
{
    let n = s + seq!['\n'];
    let r = s + seq!['\r'];
    let rn = s + seq!['\r', '\n'];
    assert(n.drop_last() =~= s);
    assert(r.drop_last() =~= s);
    assert(rn.drop_last() =~= r);
    assert(n.last() == '\n' && r.last() == '\r' && rn.last() == '\n');
    assert(without_line_breaks(rn) == without_line_breaks(r));
}

/// A secret from a file is the file without the line breaks at its end; a file
/// with nothing else is refused, and so is one that cannot be read. A secret
/// from the environment is the value, which must not be empty.
pub proof fn law_secrets(f: FileSecret, e: EnvSecret)
    ensures
        file_secret(f) is Ok <==> f.contents is Ok && without_line_breaks(f.contents->Ok_0@).len() > 0,
        file_secret(f) is Ok ==> file_secret(f)->Ok_0 == without_line_breaks(f.contents->Ok_0@),
        f.contents is Err ==> file_secret(f) == Err::<Seq<char>, Seq<char>>(
            "cannot read `"@ + f.path@ + "`: "@ + f.contents->Err_0@,
        ),
        f.contents is Ok && without_line_breaks(f.contents->Ok_0@).len() == 0 ==> file_secret(f) == Err::<
            Seq<char>,
            Seq<char>,
        >("file `"@ + f.path@ + "` is empty"@),
        env_secret(e) is Ok <==> e.value is Some && e.value->0@.len() > 0,
        env_secret(e) is Ok ==> env_secret(e)->Ok_0 == e.value->0@,
        env_secret(e) is Err ==> env_secret(e)->Err_0 == "env var `"@ + e.var@ + "` is unset or empty"@,
{
}

/// The first flag that is given decides, in this order: the three of a login,
/// then the three of a key. Flags behind it do not count.
pub proof fn law_first_flag_decides(a: AuthFlags)
    ensures
        a.choice() is Open <==> a.auth is None && a.auth_env is None && a.auth_file is None && a.api_key is None
            && a.api_key_env is None && a.api_key_file is None,
        a.choice() is Login <==> a.auth is Some || a.auth_env is Some || a.auth_file is Some,
        a.auth is Some ==> a.choice() == AuthChoice::Login(Ok(a.auth->0@)),
        a.auth is None && a.auth_env is Some ==> a.choice() == AuthChoice::Login(
            env_secret(a.auth_env->0),
        ),
        a.auth is None && a.auth_env is None && a.auth_file is Some ==> a.choice() == AuthChoice::Login(
            file_secret(a.auth_file->0),
        ),
        !(a.choice() is Login) && a.api_key is Some ==> a.choice() == AuthChoice::Key(Ok(a.api_key->0@)),
        !(a.choice() is Login) && a.api_key is None && a.api_key_env is Some ==> a.choice()
            == AuthChoice::Key(env_secret(a.api_key_env->0)),
        !(a.choice() is Login) && a.api_key is None && a.api_key_env is None && a.api_key_file is Some
            ==> a.choice() == AuthChoice::Key(file_secret(a.api_key_file->0)),
        a.auth_realm is Some ==> a.realm() == a.auth_realm->0@,
        a.auth_realm is None ==> a.realm() == "KROT Protected Tunnel"@,
{
}

/// A fingerprint is `sha256:` and the 64 digits of a digest, in either case;
/// nothing else is one.
pub proof fn law_fingerprint_form(text: Seq<char>, hex: Seq<char>)
    ensures
        pin_spec("sha256:"@ + hex) is Some <==> is_hex(hex) && hex.len() == 64,
        pin_spec("sha256:"@ + hex) is Some ==> pin_spec("sha256:"@ + hex)->0 == hex_bytes(hex),
        !has_prefix(text, "sha256:"@) ==> pin_spec(text) is None,
{
    law_strip("sha256:"@, hex);
    law_strip("sha256:"@, text);
}

/// A key is 64 digits, in either case; the error names the field.
pub proof fn law_key_form(name: Seq<char>, text: Seq<char>)
    ensures
        key_field(name, text) is Ok <==> is_hex(text) && text.len() == 64,
        key_field(name, text) is Ok ==> key_field(name, text)->Ok_0 == hex_bytes(text),
        is_hex(text) && text.len() != 64 ==> key_field(name, text) == Err::<Seq<u8>, Seq<char>>(
            name + " not 32 bytes"@,
        ),
{
}

/// Digits of either case stand for the same byte.
pub proof fn law_hex_of_either_case(d: int)
    requires
        0 <= d < 16,
    ensures
        hex_value(lower_hex(d)) == Some(d as u8),
        hex_value(crate::text::upper_hex(d)) == Some(d as u8),
{
}

/// A certificate passes the pin exactly when the digest of its key is the one
/// that was pinned: another certificate of the same key passes, and one of
/// another key does not, as far as digests tell them apart.
pub proof fn law_pin_is_the_key(seen: Seq<u8>, other: Seq<u8>, expected: Seq<u8>)
    requires
        certificate_spki(seen) is Ok,
        certificate_spki(other) is Ok,
        sha256_digest(certificate_spki(seen)->Ok_0).len() == 32,
    ensures
        seen_fingerprint(seen) is Ok,
        pin_spec(seen_fingerprint(seen)->Ok_0) == Some(sha256_digest(certificate_spki(seen)->Ok_0)),
        pin_verdict(seen, expected) is Ok <==> sha256_digest(certificate_spki(seen)->Ok_0) == expected,
        certificate_spki(other) == certificate_spki(seen) ==> pin_verdict(other, expected) == pin_verdict(
            seen,
            expected,
        ),
        sha256_digest(certificate_spki(other)->Ok_0) != sha256_digest(certificate_spki(seen)->Ok_0)
            ==> pin_verdict(other, sha256_digest(certificate_spki(seen)->Ok_0)) is Err,
{
    let digest = sha256_digest(certificate_spki(seen)->Ok_0);
    law_hex_roundtrip(digest);
    law_fingerprint_form(Seq::empty(), hex_text(digest));
}

/// A certificate that cannot be read is never accepted.
pub proof fn law_unreadable_certificate_refused(cert: Seq<u8>, expected: Seq<u8>)
    requires
        certificate_spki(cert) is Err,
    ensures
        pin_verdict(cert, expected) == Err::<(), Seq<char>>(
            "cert parse: "@ + certificate_spki(cert)->Err_0,
        ),
        seen_fingerprint(cert) is Err,
{
}

/// Relay and client name the same key by the same digits: a client that pins
/// what the relay shows as its fingerprint accepts the relay's certificate.
pub proof fn law_shown_fingerprint_can_be_pinned(cert: Seq<u8>)
    requires
        certificate_spki(cert) is Ok,
        sha256_digest(certificate_spki(cert)->Ok_0).len() == 32,
    ensures
        fingerprint_spec(cert) is Ok,
        seen_fingerprint(cert) == Ok::<Seq<char>, Seq<char>>("sha256:"@ + fingerprint_spec(cert)->Ok_0),
        pin_spec("sha256:"@ + fingerprint_spec(cert)->Ok_0) is Some,
        pin_verdict(cert, pin_spec("sha256:"@ + fingerprint_spec(cert)->Ok_0)->0) is Ok,
{
    law_pin_is_the_key(cert, cert, Seq::empty());
}

/// Credentials are split at the first colon: a password may hold more of
/// them. A text without one, or without a user, is refused.
pub proof fn law_credentials_split_at_first_colon(
    user: Seq<char>,
    pass: Seq<char>,
    r: Result<AuthPolicy, ClientError>,
)
    requires
        !user.contains(':'),
    ensures
        user.len() > 0 && login_result(user + seq![':'] + pass, r) ==> r is Ok && is_login(
            r->Ok_0,
            user,
            pass,
        ),
        login_result(seq![':'] + pass, r) ==> r is Err && is_flag_error(
            r->Err_0,
            "--auth username is empty"@,
        ),
        login_result(user, r) ==> r is Err && is_flag_error(
            r->Err_0,
            "--auth value missing the `:` separator"@,
        ),
{
    law_cut_first_of_joined(user, ':', pass);
    law_cut_first(user, ':');
    let none = Seq::<char>::empty();
    law_cut_first_of_joined(none, ':', pass);
    assert(none + seq![':'] + pass =~= seq![':'] + pass);
}

/// An enrolled client keeps the server that it enrolled with, under the
/// fingerprint that it was given or saw.
pub proof fn law_enrolled_server(opts: EnrollOptions, fingerprint: Option<Seq<char>>, pin: ServerPin)
    requires
        pin_of(opts, fingerprint, pin),
    ensures
        target_spec(pin, pin.quic_port) == opts.server_host@ + ":"@ + dec(opts.server_quic_port as nat),
        pin.tcp_port is None,
        pin.fingerprint is Some <==> fingerprint is Some,
        pin.fingerprint is Some ==> pin.fingerprint->0@ == fingerprint->0,
        pin.sni is Some <==> opts.sni is Some,
{
}

/// A registration asks for what it is given: the label, the kind, the session
/// to resume and, where there is an inspector, the preludes.
pub proof fn law_registration(label: Seq<char>, kind: TunnelKind, inspector: bool, id: SessionId)
    ensures
        registration(label, kind, inspector, None) == (ClientFrameView::RegisterTunnel {
            label,
            kind,
            resume_session_id: None,
            inspect: inspector,
        }),
        registration(label, kind, inspector, Some(id)) == (ClientFrameView::RegisterTunnel {
            label,
            kind,
            resume_session_id: Some(id.0@),
            inspect: inspector,
        }),
{
}

} // verus!
