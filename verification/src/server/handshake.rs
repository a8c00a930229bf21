//! Control-stream handshake: authenticated sessions and bootstrap enrollment.
//!
//! Each function takes what was read from the peer and says what to send and
//! how to go on; the streams and the file are the caller's.

use crate::clock::max_nanos;
use crate::codec::{base64_bytes, base64_encode, base64_text, is_base64_char, random16, random32};
use crate::proto::auth::{challenge_accepts, verify_challenge};
use crate::proto::error::ErrorCode;
use crate::proto::frames::{ClientFrame, ServerFrame, ServerFrameView};
use crate::proto::ids::{Nonce, PubKey, SessionId};
use crate::proto::stream::{kind_of, StreamKind};
use crate::server::admin::{token_hash, AdminTokenStore};
use crate::server::error::ServerError;
use crate::server::keys::{
    comment_spec, entry_of, entry_spec, join_commas, line_words, options_of, AuthorizedEntry, EntryView, KeyRegistry,
    PendingEntry,
};
use crate::text::{all_space, has_prefix, is_space_spec, lemma_first_at_is, lemma_trim_pad, lemma_words_cons, lemma_words_skip_space, no_space, opt_view, same_str, split_spec, trim_end_spec, trim_spec, trim_start_spec, words_spec};
use crate::text_laws::{law_cut_first_of_joined, law_trim_is_tight};
use vstd::prelude::*;
use vstd::string::*;

verus! {

/// Data captured from a successful authentication.
pub struct HandshakeOk {
    pub pubkey: PubKey,
    pub session_id: SessionId,
    pub entry: AuthorizedEntry,
}

/// Outcome of the first frames on the Control stream.
pub enum HandshakeOutcome {
    /// The peer authenticated and is ready for a session loop.
    Auth(HandshakeOk),
    /// An enrollment ran to completion; the connection is to be closed.
    EnrollmentDone { success: bool },
    /// The handshake failed; the code with which to close the connection.
    Failed(ErrorCode),
}

/// The code with which a connection is closed whose first byte is `byte`;
/// `None` when a Control stream follows.
pub open spec fn first_byte_spec(byte: u8) -> Option<ErrorCode> {
    match kind_of(byte) {
        Err(_) => Some(ErrorCode(ErrorCode::UNKNOWN_STREAM_KIND)),
        Ok(StreamKind::Control) => None,
        Ok(_) => Some(ErrorCode(ErrorCode::UNEXPECTED_STREAM)),
    }
}

/// Check the first byte of the first stream.
pub fn check_first_byte(byte: u8) -> (r: Option<ErrorCode>)
    ensures
        r == first_byte_spec(byte),
{
    match StreamKind::try_from(byte) {
        Err(_) => Some(ErrorCode(ErrorCode::UNKNOWN_STREAM_KIND)),
        Ok(kind) => if matches!(kind, StreamKind::Control) {
            None
        } else {
            Some(ErrorCode(ErrorCode::UNEXPECTED_STREAM))
        },
    }
}

/// How a handshake goes on after its first frame.
pub enum FirstStep {
    /// Enroll a new identity.
    Enroll { admin_token: String, pubkey: PubKey, label_hint: Option<String> },
    /// Authenticate a known identity.
    Auth { pubkey: PubKey },
    /// Send `reply`, finish the stream and fail with `code`.
    Reject { reply: ServerFrame, code: ErrorCode },
}

/// How a handshake goes on after this frame.
pub open spec fn first_step(first: ClientFrame) -> FirstStep {
    match first {
        ClientFrame::Enroll { admin_token, pubkey, label_hint } => FirstStep::Enroll {
            admin_token,
            pubkey,
            label_hint,
        },
        ClientFrame::AuthRequest { pubkey } => FirstStep::Auth { pubkey },
        _ => FirstStep::Reject {
            reply: ServerFrame::AuthReject { code: ErrorCode(ErrorCode::PROTOCOL_VIOLATION) },
            code: ErrorCode(ErrorCode::AUTHENTICATION_FAILED),
        },
    }
}

/// Dispatch on the first frame: only an enrollment or an authentication
/// request may come first.
pub fn perform(first: ClientFrame) -> (r: FirstStep)
    ensures
        r == first_step(first),
        match first {
            ClientFrame::Enroll { admin_token, pubkey, label_hint } => r == (FirstStep::Enroll {
                admin_token,
                pubkey,
                label_hint,
            }),
            ClientFrame::AuthRequest { pubkey } => r == (FirstStep::Auth { pubkey }),
            _ => r == (FirstStep::Reject {
                reply: ServerFrame::AuthReject { code: ErrorCode(ErrorCode::PROTOCOL_VIOLATION) },
                code: ErrorCode(ErrorCode::AUTHENTICATION_FAILED),
            }),
        },
{
    match first {
        ClientFrame::Enroll { admin_token, pubkey, label_hint } => FirstStep::Enroll {
            admin_token,
            pubkey,
            label_hint,
        },
        ClientFrame::AuthRequest { pubkey } => FirstStep::Auth { pubkey },
        _ => FirstStep::Reject {
            reply: ServerFrame::AuthReject { code: ErrorCode(ErrorCode::PROTOCOL_VIOLATION) },
            code: ErrorCode(ErrorCode::AUTHENTICATION_FAILED),
        },
    }
}

/// A challenge that has been sent.
pub struct PendingAuth {
    pub pubkey: PubKey,
    pub nonce: Nonce,
    pub entry: AuthorizedEntry,
}

/// How an authentication goes on.
pub enum AuthStep {
    /// Send `reply` and wait for the response.
    Challenge { pending: PendingAuth, reply: ServerFrame },
    /// Send `reply`, finish the stream and fail with `code`.
    Reject { reply: ServerFrame, code: ErrorCode },
}

/// What an authentication request for `pubkey` leads to when `nonce` is drawn.
pub open spec fn auth_begun(
    keys: Map<Seq<u8>, EntryView>,
    pubkey: PubKey,
    nonce: Nonce,
    r: AuthStep,
) -> bool {
    if keys.contains_key(pubkey@) {
        &&& r is Challenge
        &&& r->Challenge_pending.pubkey == pubkey
        &&& r->Challenge_pending.nonce == nonce
        &&& r->Challenge_pending.entry@ == keys[pubkey@]
        &&& r->Challenge_reply == (ServerFrame::AuthChallenge { nonce })
    } else {
        r == (AuthStep::Reject {
            reply: ServerFrame::AuthReject { code: ErrorCode(ErrorCode::UNKNOWN_IDENTITY) },
            code: ErrorCode(ErrorCode::AUTHENTICATION_FAILED),
        })
    }
}

/// Begin an authentication: a listed key is challenged with a random nonce.
pub fn handle_auth(pubkey: PubKey, keys: &KeyRegistry) -> (r: AuthStep)
    requires
        keys.wf(),
    ensures
        exists|nonce: Nonce| auth_begun(keys@, pubkey, nonce, r),
{
    challenge_with(pubkey, keys, Nonce(random32()))
}

/// Begin an authentication with this nonce.
pub fn challenge_with(pubkey: PubKey, keys: &KeyRegistry, nonce: Nonce) -> (r: AuthStep)
    requires
        keys.wf(),
    ensures
        auth_begun(keys@, pubkey, nonce, r),
{
    match keys.get(&pubkey) {
        None => AuthStep::Reject {
            reply: ServerFrame::AuthReject { code: ErrorCode(ErrorCode::UNKNOWN_IDENTITY) },
            code: ErrorCode(ErrorCode::AUTHENTICATION_FAILED),
        },
        Some(entry) => AuthStep::Challenge {
            pending: PendingAuth { pubkey, nonce, entry },
            reply: ServerFrame::AuthChallenge { nonce },
        },
    }
}

/// What the response to a challenge leads to when `session_id` is drawn: the
/// frame to send and the outcome.
pub open spec fn auth_finished(
    pending: PendingAuth,
    response: ClientFrame,
    session_id: SessionId,
    r: (ServerFrame, HandshakeOutcome),
) -> bool {
    match response {
        ClientFrame::AuthResponse { signature } => if challenge_accepts(
            pending.pubkey,
            pending.nonce,
            signature,
        ) {
            &&& r.0 == (ServerFrame::AuthOk { session_id })
            &&& r.1 == HandshakeOutcome::Auth(
                HandshakeOk { pubkey: pending.pubkey, session_id, entry: pending.entry },
            )
        } else {
            &&& r.0 == (ServerFrame::AuthReject {
                code: ErrorCode(ErrorCode::AUTHENTICATION_FAILED),
            })
            &&& r.1 == HandshakeOutcome::Failed(ErrorCode(ErrorCode::AUTHENTICATION_FAILED))
        },
        _ => {
            &&& r.0 == (ServerFrame::AuthReject { code: ErrorCode(ErrorCode::PROTOCOL_VIOLATION) })
            &&& r.1 == HandshakeOutcome::Failed(ErrorCode(ErrorCode::AUTHENTICATION_FAILED))
        },
    }
}

/// Finish an authentication with the response to its challenge. The session
/// id of a good response is random.
pub fn finish_auth(pending: PendingAuth, response: ClientFrame) -> (r: (
    ServerFrame,
    HandshakeOutcome,
))
    ensures
        exists|session_id: SessionId| auth_finished(pending, response, session_id, r),
{
    finish_auth_with(pending, response, SessionId(random16()))
}

/// Finish an authentication with this session id.
pub fn finish_auth_with(pending: PendingAuth, response: ClientFrame, session_id: SessionId) -> (r: (
    ServerFrame,
    HandshakeOutcome,
))
    ensures
        auth_finished(pending, response, session_id, r),
{
    let failed = HandshakeOutcome::Failed(ErrorCode(ErrorCode::AUTHENTICATION_FAILED));
    match response {
        ClientFrame::AuthResponse { signature } => {
            if !verify_challenge(&pending.pubkey, &pending.nonce, &signature) {
                return (
                    ServerFrame::AuthReject { code: ErrorCode(ErrorCode::AUTHENTICATION_FAILED) },
                    failed,
                );
            }
            (
                ServerFrame::AuthOk { session_id },
                HandshakeOutcome::Auth(
                    HandshakeOk { pubkey: pending.pubkey, session_id, entry: pending.entry },
                ),
            )
        },
        _ => (
            ServerFrame::AuthReject { code: ErrorCode(ErrorCode::PROTOCOL_VIOLATION) },
            failed,
        ),
    }
}

/// A session is only ever granted to a key that is listed, for an answer to
/// its challenge that verifies under that key, with that key's entry.
pub proof fn law_session_needs_signature(
    keys: Map<Seq<u8>, EntryView>,
    pubkey: PubKey,
    nonce: Nonce,
    step: AuthStep,
    response: ClientFrame,
    session_id: SessionId,
    r: (ServerFrame, HandshakeOutcome),
)
    requires
        auth_begun(keys, pubkey, nonce, step),
        step is Challenge,
        auth_finished(step->Challenge_pending, response, session_id, r),
        r.1 is Auth,
    ensures
        keys.contains_key(pubkey@),
        response is AuthResponse,
        challenge_accepts(pubkey, nonce, response->AuthResponse_signature),
        r.1->Auth_0.pubkey == pubkey,
        r.1->Auth_0.entry@ == keys[pubkey@],
{
}

/// The code that answers an enrollment whose token was refused.
pub open spec fn enroll_code(e: ServerError) -> u16 {
    match e {
        ServerError::AdminToken(m) => if m@ == "admin token expired"@ {
            ErrorCode::TOKEN_EXPIRED
        } else if m@ == "no admin token issued"@ {
            ErrorCode::ENROLL_DISABLED
        } else {
            ErrorCode::AUTHENTICATION_FAILED
        },
        _ => ErrorCode::AUTHENTICATION_FAILED,
    }
}

fn enroll_rejection(e: &ServerError) -> (r: ErrorCode)
    ensures
        r.0 == enroll_code(*e),
{
    match e {
        ServerError::AdminToken(m) => if same_str(m, "admin token expired") {
            ErrorCode(ErrorCode::TOKEN_EXPIRED)
        } else if same_str(m, "no admin token issued") {
            ErrorCode(ErrorCode::ENROLL_DISABLED)
        } else {
            ErrorCode(ErrorCode::AUTHENTICATION_FAILED)
        },
        _ => ErrorCode(ErrorCode::AUTHENTICATION_FAILED),
    }
}

/// `time::OffsetDateTime::now_utc` in ISO 8601. Nothing is promised of the text.
#[verifier::external_body]
fn iso8601_now() -> (r: Option<String>) {
    time::OffsetDateTime::now_utc().format(
        &time::format_description::well_known::Iso8601::DEFAULT,
    ).ok()
}

/// How an enrollment goes on.
pub enum EnrollStep {
    /// Append this line to the key file, then answer with it.
    Append { line: String },
    /// Send `reply`, finish the stream; the enrollment has failed.
    Reject { reply: ServerFrame },
}

/// What a refused token is answered.
pub open spec fn enroll_refused(e: ServerError, r: EnrollStep) -> bool {
    r == (EnrollStep::Reject {
        reply: ServerFrame::EnrollRejected { code: ErrorCode(enroll_code(e)) },
    })
}

/// The entry of an identity that enrolled: any subdomain, and a comment.
pub open spec fn enrolled_entry(line: Seq<char>) -> EntryView {
    EntryView { allow_any_subdomain: true, comment: comment_spec(line), ..EntryView::blank() }
}

/// The line that enrolls a key: its base64 text `b64`, the time and the hint.
pub open spec fn enroll_line_spec(b64: Seq<char>, now: Seq<char>, hint: Seq<char>) -> Seq<char> {
    "ed25519 "@ + b64 + " subdomain=* # enrolled "@ + now + " "@ + hint
}

/// What an enrollment comes to once the token was presented: `stamp` is the
/// time as it is written into the line.
pub open spec fn enroll_answered(
    consumed: Result<(), ServerError>,
    pubkey: PubKey,
    stamp: Seq<char>,
    label_hint: Option<Seq<char>>,
    r: EnrollStep,
) -> bool {
    match consumed {
        Err(e) => enroll_refused(e, r),
        Ok(_) => {
            &&& r is Append
            &&& r->Append_line@ == enroll_line_spec(
                base64_text(pubkey@),
                stamp,
                match label_hint {
                    Some(hint) => hint,
                    None => Seq::empty(),
                },
            )
            &&& entry_spec(r->Append_line@) == Some((pubkey@, enrolled_entry(r->Append_line@)))
        },
    }
}

/// Enroll a key for the token that its owner presents. The token is consumed,
/// and the line to append grants the key any subdomain.
pub fn handle_enroll(
    token: &str,
    pubkey: PubKey,
    label_hint: Option<String>,
    admin: &mut AdminTokenStore,
) -> (r: EnrollStep)
    ensures
        exists|now: u128, consumed: Result<(), ServerError>, stamp: Seq<char>|
            {
                &&& now <= max_nanos()
                &&& #[trigger] old(admin).consumed(*final(admin), token@, now, consumed)
                &&& #[trigger] enroll_answered(consumed, pubkey, stamp, opt_view(label_hint), r)
            },
{
    let consumed = admin.consume(token);
    let stamp = match iso8601_now() {
        Some(stamp) => stamp,
        None => "unknown".to_owned(),
    };
    enroll_with(consumed, pubkey, stamp.as_str(), label_hint)
}

/// Go on with an enrollment whose token was presented, at the time that `stamp` writes.
pub fn enroll_with(
    consumed: Result<(), ServerError>,
    pubkey: PubKey,
    stamp: &str,
    label_hint: Option<String>,
) -> (r: EnrollStep)
    ensures
        enroll_answered(consumed, pubkey, stamp@, opt_view(label_hint), r),
{
    match consumed {
        Err(e) => {
            let code = enroll_rejection(&e);
            EnrollStep::Reject { reply: ServerFrame::EnrollRejected { code } }
        },
        Ok(_) => {
            let hint = match label_hint {
                Some(hint) => hint,
                None => String::new(),
            };
            EnrollStep::Append { line: enroll_line(&pubkey, stamp, hint.as_str()) }
        },
    }
}

/// The line that enrolls a key. It is read back as an entry for that key,
/// whatever the time and the hint say.
pub fn enroll_line(pubkey: &PubKey, now: &str, hint: &str) -> (r: String)
    ensures
        r@ == enroll_line_spec(base64_text(pubkey@), now@, hint@),
        entry_spec(r@) == Some((pubkey@, enrolled_entry(r@))),
{
    let b64 = base64_encode(pubkey.0.as_slice());
    let mut line = "ed25519 ".to_owned();
    line.append(b64.as_str());
    line.append(" subdomain=* # enrolled ");
    line.append(now);
    line.append(" ");
    line.append(hint);
    proof {
        lemma_enroll_line(pubkey@, b64@, now@, hint@);
    }
    line
}

proof fn lemma_enroll_line(key: Seq<u8>, b64: Seq<char>, now: Seq<char>, hint: Seq<char>)
    requires
        key.len() == 32,
        b64.len() > 0,
        base64_bytes(b64) == Ok::<Seq<u8>, Seq<char>>(key),
        forall|i: int| 0 <= i < b64.len() ==> is_base64_char(#[trigger] b64[i]),
    ensures
        entry_spec(enroll_line_spec(b64, now, hint)) == Some(
            (key, enrolled_entry(enroll_line_spec(b64, now, hint))),
        ),
{
    reveal_strlit("ed25519 ");
    reveal_strlit("ed25519");
    reveal_strlit(" subdomain=* # enrolled ");
    reveal_strlit(" ");
    reveal_strlit("subdomain");
    reveal_strlit("conns");
    reveal_strlit("bw");
    reveal_strlit("quota");
    reveal_strlit("ports");
    reveal_strlit("federation");
    reveal_strlit("*");
    let line = enroll_line_spec(b64, now, hint);
    let algo = "ed25519"@;
    let option = seq!['s', 'u', 'b', 'd', 'o', 'm', 'a', 'i', 'n', '=', '*'];
    let space = seq![' '];
    let bare = algo + (space + (b64 + (space + option)));
    let front = bare + space;
    // The comment starts behind the option.
    let at = front.len() as int;
    assert(line[at] == '#');
    assert forall|j: int| 0 <= j < at implies line[j] != '#' by {
        if 8 <= j < 8 + b64.len() {
            assert(line[j] == b64[j - 8]);
            assert(is_base64_char(b64[j - 8]));
        }
    }
    lemma_first_at_is(line, '#', at);
    assert(line.take(at) =~= front);
    assert(split_spec(line, '#')[0] == front);
    // Trimmed, the part before it is three words.
    let none = Seq::<char>::empty();
    assert(all_space(none));
    assert(all_space(space));
    lemma_trim_pad(none, bare, space);
    assert(none + bare + space =~= front);
    assert(bare[0] == 'e' && bare.last() == '*');
    assert(trim_start_spec(bare) == bare);
    assert(trim_end_spec(bare) == bare);
    assert(no_space(b64)) by {
        assert forall|i: int| 0 <= i < b64.len() implies !is_space_spec(#[trigger] b64[i]) by {
            assert(is_base64_char(b64[i]));
        }
    }
    assert(no_space(algo));
    assert(no_space(option));
    lemma_words_cons(algo, space + (b64 + (space + option)));
    lemma_words_skip_space(space, b64 + (space + option));
    lemma_words_cons(b64, space + option);
    lemma_words_skip_space(space, option);
    assert(option + none =~= option);
    lemma_words_cons(option, none);
    assert(words_spec(none) =~= Seq::empty());
    let words = line_words(line);
    assert(words =~= seq![algo, b64, option]);
    // The one option is `subdomain=*`.
    assert(words.skip(2) =~= seq![option]);
    assert(join_commas(words.skip(2)) == option);
    lemma_first_at_is(option, ',', option.len() as int);
    let toks = split_spec(option, ',');
    assert(toks == seq![option]);
    lemma_first_at_is(option, '=', 9);
    assert(option.take(9) =~= "subdomain"@);
    assert(option.skip(10) =~= "*"@);
    let pair = ("subdomain"@, "*"@);
    assert(toks.drop_last() =~= Seq::empty());
    assert(options_of(toks.drop_last()) =~= Seq::empty());
    assert(options_of(toks) =~= seq![pair]);
    let pairs = options_of(toks);
    assert(pairs.drop_last() =~= Seq::empty());
    assert(entry_of(pairs.drop_last()) == EntryView::blank());
    assert(entry_of(pairs) == EntryView { allow_any_subdomain: true, ..EntryView::blank() });
}

/// Answer an enrollment once its line is on disk: the index gains the key.
pub fn finish_enroll(keys: &mut KeyRegistry, pending: PendingEntry) -> (r: (
    ServerFrame,
    HandshakeOutcome,
))
    requires
        old(keys).wf(),
    ensures
        final(keys).wf(),
        old(keys).inserted(*final(keys), pending.pubkey@, pending.entry@),
        r.0@ == (ServerFrameView::EnrollOk { authorized_line: pending.line@ }),
        r.1 == (HandshakeOutcome::EnrollmentDone { success: true }),
{
    let authorized_line = keys.insert(pending);
    (
        ServerFrame::EnrollOk { authorized_line },
        HandshakeOutcome::EnrollmentDone { success: true },
    )
}

/// The first stream must be a control stream: its byte is 1. A data stream is
/// unexpected, and any other byte is of no kind.
pub proof fn law_control_stream_comes_first(byte: u8)
    ensures
        first_byte_spec(byte) is None <==> byte == 1,
        first_byte_spec(byte) == Some(ErrorCode(0x0004)) <==> byte == 2 || byte == 3,
        first_byte_spec(byte) == Some(ErrorCode(0x0003)) <==> byte == 0 || byte > 3,
{
}

/// A key that is not listed is refused without a challenge, and one that is
/// listed is never refused before it was challenged.
pub proof fn law_only_listed_keys_are_challenged(
    keys: Map<Seq<u8>, EntryView>,
    pubkey: PubKey,
    nonce: Nonce,
    r: AuthStep,
)
    requires
        auth_begun(keys, pubkey, nonce, r),
    ensures
        r is Challenge <==> keys.contains_key(pubkey@),
        r is Challenge ==> r->Challenge_reply == (ServerFrame::AuthChallenge { nonce })
            && r->Challenge_pending.nonce == nonce,
        r is Reject ==> r->Reject_reply == (ServerFrame::AuthReject { code: ErrorCode(0x0011) })
            && r->Reject_code == ErrorCode(0x0010),
{
}

/// A challenge that is not answered by a good signature fails, whatever was
/// sent; the answer says whether it was no signature or a bad one.
pub proof fn law_failed_challenge_is_refused(
    pending: PendingAuth,
    response: ClientFrame,
    session_id: SessionId,
    r: (ServerFrame, HandshakeOutcome),
)
    requires
        auth_finished(pending, response, session_id, r),
    ensures
        r.1 is Auth <==> r.0 is AuthOk,
        r.1 is Auth ==> r.0 == (ServerFrame::AuthOk { session_id }) && r.1->Auth_0.session_id == session_id,
        response is AuthResponse && !challenge_accepts(
            pending.pubkey,
            pending.nonce,
            response->AuthResponse_signature,
        ) ==> r.0 == (ServerFrame::AuthReject { code: ErrorCode(0x0010) }),
        !(response is AuthResponse) ==> r.0 == (ServerFrame::AuthReject { code: ErrorCode(0x0001) }),
        !(r.1 is Auth) ==> r.1 == HandshakeOutcome::Failed(ErrorCode(0x0010)),
        response is AuthResponse && challenge_accepts(
            pending.pubkey,
            pending.nonce,
            response->AuthResponse_signature,
        ) ==> r.1 is Auth,
{
}

/// What an enrollment is answered follows from the token: an expired token,
/// no token at all and a wrong token have a code each, and only a good token
/// enrolls.
pub proof fn law_enrollment_needs_the_token(
    store: AdminTokenStore,
    post: AdminTokenStore,
    token: Seq<char>,
    now: u128,
    consumed: Result<(), ServerError>,
    pubkey: PubKey,
    stamp: Seq<char>,
    hint: Option<Seq<char>>,
    r: EnrollStep,
)
    requires
        store.consumed(post, token, now, consumed),
        enroll_answered(consumed, pubkey, stamp, hint, r),
    ensures
        store.state is None ==> r == (EnrollStep::Reject {
            reply: ServerFrame::EnrollRejected { code: ErrorCode(0x0014) },
        }),
        store.state is Some && now >= store.state->0.expires_at ==> r == (EnrollStep::Reject {
            reply: ServerFrame::EnrollRejected { code: ErrorCode(0x0013) },
        }),
        store.state is Some && now < store.state->0.expires_at && token_hash(token) != store.state->0.hash@
            ==> r == (EnrollStep::Reject {
            reply: ServerFrame::EnrollRejected { code: ErrorCode(0x0010) },
        }),
        store.state is Some && now < store.state->0.expires_at && token_hash(token) == store.state->0.hash@
            ==> r is Append,
        r is Append ==> entry_spec(r->Append_line@) is Some && (entry_spec(r->Append_line@)->0).0 == pubkey@
            && (entry_spec(r->Append_line@)->0).1.allow_any_subdomain,
{
    reveal_strlit("admin token expired");
    reveal_strlit("no admin token issued");
    reveal_strlit("admin token mismatch");
    assert("admin token expired"@.len() == 19);
    assert("no admin token issued"@.len() == 21);
    assert("admin token mismatch"@.len() == 20);
}

/// An enrolled key may use any subdomain and is granted nothing else; its
/// comment tells when it enrolled and with which hint.
pub proof fn law_enrolled_key_gets_any_subdomain(b64: Seq<char>, now: Seq<char>, hint: Seq<char>)
    requires
        !b64.contains('#'),
    ensures
        ({
            let line = enroll_line_spec(b64, now, hint);
            let e = enrolled_entry(line);
            &&& e.allow_any_subdomain && e.allowed_subdomains.len() == 0
            &&& e.max_conns is None && e.allowed_ports is None && e.bw is None && e.quota is None
            &&& e.federation.len() == 0
            &&& e.comment == Some(trim_spec(" enrolled "@ + now + " "@ + hint))
            &&& has_prefix(line, "ed25519 "@ + b64 + " "@)
        }),
{
    reveal_strlit("ed25519 ");
    reveal_strlit(" subdomain=* # enrolled ");
    reveal_strlit(" enrolled ");
    reveal_strlit(" ");
    let line = enroll_line_spec(b64, now, hint);
    let front = "ed25519 "@ + b64 + seq![' ', 's', 'u', 'b', 'd', 'o', 'm', 'a', 'i', 'n', '=', '*', ' '];
    let note = " enrolled "@ + now + " "@ + hint;
    assert(line =~= front + seq!['#'] + note);
    assert(!front.contains('#')) by {
        if front.contains('#') {
            let k = choose|k: int| 0 <= k < front.len() && front[k] == '#';
            if 8 <= k < 8 + b64.len() {
                assert(b64[k - 8] == '#');
            }
        }
    }
    law_cut_first_of_joined(front, '#', note);
    let p = "ed25519 "@ + b64 + " "@;
    assert(line.take(p.len() as int) =~= p);
    let t = trim_spec(note);
    law_trim_is_tight(note);
    let (a, b) = choose|a: Seq<char>, b: Seq<char>|
        #![trigger all_space(a), all_space(b)]
        all_space(a) && all_space(b) && note == a + t + b;
    if t.len() == 0 {
        assert(note[1] == 'e');
        if 1 < a.len() {
            assert(is_space_spec(a[1]));
        } else {
            assert(is_space_spec(b[1 - a.len()]));
        }
    }
}

/// Only an enrollment or an authentication request may come first, and each
/// goes on with what it says; any other frame is a violation of the protocol.
pub proof fn law_first_frame_decides(first: ClientFrame)
    ensures
        first_step(first) is Enroll <==> first is Enroll,
        first_step(first) is Auth <==> first is AuthRequest,
        first is AuthRequest ==> first_step(first)->Auth_pubkey == first->AuthRequest_pubkey,
        first is Enroll ==> first_step(first)->Enroll_pubkey == first->Enroll_pubkey
            && first_step(first)->admin_token == first->admin_token && first_step(first)->label_hint
            == first->label_hint,
        first_step(first) is Reject ==> first_step(first)->reply == (ServerFrame::AuthReject {
            code: ErrorCode(0x0001),
        }) && first_step(first)->code == ErrorCode(0x0010),
{
}

} // verus!
