//! What a scrape of the counters looks like, line by line.

use crate::server::metrics::{
    counter_text, gauges_text, identities_head, identities_text, samples_text, ServerMetrics, VERSION,
};
use crate::text::{
    dec, has_prefix, is_digit_spec, lemma_dec_roundtrip, lemma_split_joined, lemma_split_whole, split_spec,
};
use vstd::prelude::*;

verus! {

/// Whether `c` does not occur in `s`.
pub open spec fn lacks(s: Seq<char>, c: char) -> bool {
    forall|k: int| 0 <= k < s.len() ==> #[trigger] s[k] != c
}

/// The lines, each with a newline behind it.
pub open spec fn unlines(ls: Seq<Seq<char>>) -> Seq<char>
    decreases ls.len(),
{
    if ls.len() == 0 {
        Seq::empty()
    } else {
        unlines(ls.drop_last()) + ls.last() + seq!['\n']
    }
}

proof fn lemma_unlines_joined(a: Seq<Seq<char>>, b: Seq<Seq<char>>)
    ensures
        unlines(a + b) == unlines(a) + unlines(b),
    decreases b.len(),
{
    if b.len() == 0 {
        assert(a + b =~= a);
        assert(unlines(a) + unlines(b) =~= unlines(a));
    } else {
        assert((a + b).drop_last() =~= a + b.drop_last());
        assert((a + b).last() == b.last());
        lemma_unlines_joined(a, b.drop_last());
        assert(unlines(a + b) =~= unlines(a) + unlines(b));
    }
}

proof fn lemma_unlines_three(a: Seq<char>, b: Seq<char>, c: Seq<char>)
    ensures
        unlines(seq![a, b, c]) == a + seq!['\n'] + b + seq!['\n'] + c + seq!['\n'],
{
    let s3 = seq![a, b, c];
    let s2 = seq![a, b];
    let s1 = seq![a];
    assert(s3.drop_last() =~= s2);
    assert(s2.drop_last() =~= s1);
    assert(s1.drop_last() =~= Seq::empty());
    assert(unlines(Seq::empty()) =~= Seq::empty());
    assert(unlines(s1) =~= a + seq!['\n']);
    assert(unlines(s2) == unlines(s1) + b + seq!['\n']);
    assert(unlines(s3) == unlines(s2) + c + seq!['\n']);
}

proof fn lemma_unlines_split(ls: Seq<Seq<char>>, last: Seq<char>)
    requires
        forall|i: int| 0 <= i < ls.len() ==> lacks(#[trigger] ls[i], '\n'),
        lacks(last, '\n'),
    ensures
        split_spec(unlines(ls) + last, '\n') == ls.push(last),
    decreases ls.len(),
{
    if ls.len() == 0 {
        assert(unlines(ls) + last =~= last);
        lemma_split_whole(last, '\n');
        assert(seq![last] =~= ls.push(last));
    } else {
        let front = ls.drop_last();
        let l = ls[ls.len() - 1];
        assert forall|i: int| 0 <= i < front.len() implies lacks(#[trigger] front[i], '\n') by {
            assert(front[i] == ls[i]);
        }
        lemma_unlines_split(front, l);
        lemma_split_joined(unlines(front) + l, '\n', last);
        lemma_split_whole(last, '\n');
        assert(front.push(l) =~= ls);
        assert(ls + seq![last] =~= ls.push(last));
    }
}

/// The line that explains a counter.
pub open spec fn help_line(name: Seq<char>, help: Seq<char>) -> Seq<char> {
    "# HELP "@ + name + " "@ + help
}

/// The line that gives a counter's type.
pub open spec fn type_line(name: Seq<char>) -> Seq<char> {
    "# TYPE "@ + name + " counter"@
}

/// The line that gives a counter's value.
pub open spec fn value_line(name: Seq<char>, value: u64) -> Seq<char> {
    name + " "@ + dec(value as nat)
}

/// The line of one identity's byte count.
pub open spec fn identity_line(used: (String, u64)) -> Seq<char> {
    "krot_bytes_period_used{pubkey=\""@ + used.0@ + "\"} "@ + dec(used.1 as nat)
}

spec fn part_of(sample: (Seq<char>, Seq<char>, u64), k: int) -> Seq<char> {
    if k == 0 {
        help_line(sample.0, sample.1)
    } else if k == 1 {
        type_line(sample.0)
    } else {
        value_line(sample.0, sample.2)
    }
}

spec fn sample_lines(samples: Seq<(Seq<char>, Seq<char>, u64)>) -> Seq<Seq<char>> {
    Seq::new(3 * samples.len(), |k: int| part_of(samples[k / 3], k % 3))
}

spec fn identity_lines(used: Seq<(String, u64)>) -> Seq<Seq<char>> {
    Seq::new(used.len(), |j: int| identity_line(used[j]))
}

spec fn uptime_lines(uptime: nat) -> Seq<Seq<char>> {
    seq![
        "# HELP krot_uptime_seconds Seconds since the server process started."@,
        "# TYPE krot_uptime_seconds gauge"@,
        "krot_uptime_seconds "@ + dec(uptime),
    ]
}

spec fn build_lines() -> Seq<Seq<char>> {
    seq![
        "# HELP krot_build_info Static build metadata as labels; value is always 1."@,
        "# TYPE krot_build_info gauge"@,
        "krot_build_info{version=\""@ + VERSION@ + "\"} 1"@,
    ]
}

spec fn tunnels_lines(live: nat, dangling: nat) -> Seq<Seq<char>> {
    seq![
        "# HELP krot_tunnels_total Tunnels currently in the registry (live + dangling)."@,
        "# TYPE krot_tunnels_total gauge"@,
        "krot_tunnels_total "@ + dec(live + dangling),
    ]
}

spec fn dangling_lines(dangling: nat) -> Seq<Seq<char>> {
    seq![
        "# HELP krot_tunnels_dangling_total Dangling tunnels in the §7.3 grace window."@,
        "# TYPE krot_tunnels_dangling_total gauge"@,
        "krot_tunnels_dangling_total "@ + dec(dangling),
    ]
}

spec fn gauge_lines(uptime: nat, live: nat, dangling: nat) -> Seq<Seq<char>> {
    uptime_lines(uptime) + build_lines() + tunnels_lines(live, dangling) + dangling_lines(dangling)
}

spec fn head_lines() -> Seq<Seq<char>> {
    seq![
        "# HELP krot_bytes_period_used Bytes counted against the identity's period quota."@,
        "# TYPE krot_bytes_period_used counter"@,
    ]
}


proof fn lemma_gauges(uptime: nat, live: nat, dangling: nat)
    ensures
        unlines(gauge_lines(uptime, live, dangling)) == gauges_text(uptime, live, dangling),
{
    reveal_strlit("\n");
    reveal_strlit("\"} 1");
    reveal_strlit("\"} 1\n");
    assert("\n"@ =~= seq!['\n']);
    assert("\"} 1\n"@ =~= "\"} 1"@ + seq!['\n']);
    reveal_strlit("# HELP krot_uptime_seconds Seconds since the server process started.");
    reveal_strlit("# HELP krot_uptime_seconds Seconds since the server process started.\n");
    assert("# HELP krot_uptime_seconds Seconds since the server process started.\n"@ =~= "# HELP krot_uptime_seconds Seconds since the server process started."@ + seq!['\n']);
    reveal_strlit("# TYPE krot_uptime_seconds gauge");
    reveal_strlit("# TYPE krot_uptime_seconds gauge\n");
    assert("# TYPE krot_uptime_seconds gauge\n"@ =~= "# TYPE krot_uptime_seconds gauge"@ + seq!['\n']);
    reveal_strlit("# HELP krot_build_info Static build metadata as labels; value is always 1.");
    reveal_strlit("# HELP krot_build_info Static build metadata as labels; value is always 1.\n");
    assert("# HELP krot_build_info Static build metadata as labels; value is always 1.\n"@ =~= "# HELP krot_build_info Static build metadata as labels; value is always 1."@ + seq!['\n']);
    reveal_strlit("# TYPE krot_build_info gauge");
    reveal_strlit("# TYPE krot_build_info gauge\n");
    assert("# TYPE krot_build_info gauge\n"@ =~= "# TYPE krot_build_info gauge"@ + seq!['\n']);
    reveal_strlit("# HELP krot_tunnels_total Tunnels currently in the registry (live + dangling).");
    reveal_strlit("# HELP krot_tunnels_total Tunnels currently in the registry (live + dangling).\n");
    assert("# HELP krot_tunnels_total Tunnels currently in the registry (live + dangling).\n"@ =~= "# HELP krot_tunnels_total Tunnels currently in the registry (live + dangling)."@ + seq!['\n']);
    reveal_strlit("# TYPE krot_tunnels_total gauge");
    reveal_strlit("# TYPE krot_tunnels_total gauge\n");
    assert("# TYPE krot_tunnels_total gauge\n"@ =~= "# TYPE krot_tunnels_total gauge"@ + seq!['\n']);
    reveal_strlit("# HELP krot_tunnels_dangling_total Dangling tunnels in the §7.3 grace window.");
    reveal_strlit("# HELP krot_tunnels_dangling_total Dangling tunnels in the §7.3 grace window.\n");
    assert("# HELP krot_tunnels_dangling_total Dangling tunnels in the §7.3 grace window.\n"@ =~= "# HELP krot_tunnels_dangling_total Dangling tunnels in the §7.3 grace window."@ + seq!['\n']);
    reveal_strlit("# TYPE krot_tunnels_dangling_total gauge");
    reveal_strlit("# TYPE krot_tunnels_dangling_total gauge\n");
    assert("# TYPE krot_tunnels_dangling_total gauge\n"@ =~= "# TYPE krot_tunnels_dangling_total gauge"@ + seq!['\n']);
    let a = uptime_lines(uptime);
    let b = build_lines();
    let c = tunnels_lines(live, dangling);
    let d = dangling_lines(dangling);
    lemma_unlines_three(a[0], a[1], a[2]);
    lemma_unlines_three(b[0], b[1], b[2]);
    lemma_unlines_three(c[0], c[1], c[2]);
    lemma_unlines_three(d[0], d[1], d[2]);
    lemma_unlines_joined(a, b);
    lemma_unlines_joined(a + b, c);
    lemma_unlines_joined(a + b + c, d);
    assert(gauges_text(uptime, live, dangling) =~= unlines(a) + unlines(b) + unlines(c) + unlines(d));
}

proof fn lemma_head()
    ensures
        unlines(head_lines()) == identities_head(),
{
    reveal_strlit("# HELP krot_bytes_period_used Bytes counted against the identity's period quota.");
    reveal_strlit("# HELP krot_bytes_period_used Bytes counted against the identity's period quota.\n");
    assert("# HELP krot_bytes_period_used Bytes counted against the identity's period quota.\n"@ =~= "# HELP krot_bytes_period_used Bytes counted against the identity's period quota."@ + seq!['\n']);
    reveal_strlit("# TYPE krot_bytes_period_used counter");
    reveal_strlit("# TYPE krot_bytes_period_used counter\n");
    assert("# TYPE krot_bytes_period_used counter\n"@ =~= "# TYPE krot_bytes_period_used counter"@ + seq!['\n']);
    let h = head_lines();
    let one = seq![h[0]];
    assert(h.drop_last() =~= one);
    assert(one.drop_last() =~= Seq::empty());
    assert(unlines(Seq::empty()) =~= Seq::empty());
    assert(unlines(one) =~= h[0] + seq!['\n']);
    assert(unlines(h) =~= identities_head());
}

proof fn lemma_samples(samples: Seq<(Seq<char>, Seq<char>, u64)>)
    ensures
        unlines(sample_lines(samples)) == samples_text(samples),
    decreases samples.len(),
{
    if samples.len() > 0 {
        let front = samples.drop_last();
        let (name, help, value) = samples.last();
        let three = seq![help_line(name, help), type_line(name), value_line(name, value)];
        lemma_samples(front);
        let all = sample_lines(samples);
        let both = sample_lines(front) + three;
        assert forall|k: int| 0 <= k < all.len() implies all[k] == both[k] by {
            if k < 3 * front.len() {
                assert(samples[k / 3] == front[k / 3]);
            }
        }
        assert(all =~= both);
        lemma_unlines_joined(sample_lines(front), three);
        lemma_unlines_three(help_line(name, help), type_line(name), value_line(name, value));
        reveal_strlit("\n");
        reveal_strlit(" counter");
        reveal_strlit(" counter\n");
        assert("\n"@ =~= seq!['\n']);
        assert(" counter\n"@ =~= " counter"@ + seq!['\n']);
        assert(counter_text(name, help, value) =~= unlines(three));
    }
}

proof fn lemma_identities(used: Seq<(String, u64)>)
    ensures
        unlines(identity_lines(used)) == identities_text(used),
    decreases used.len(),
{
    if used.len() > 0 {
        let front = used.drop_last();
        lemma_identities(front);
        assert(identity_lines(used).drop_last() =~= identity_lines(front));
        reveal_strlit("\n");
        assert("\n"@ =~= seq!['\n']);
        assert(unlines(identity_lines(used)) =~= identities_text(used));
    }
}

spec fn scrape_lines(
    m: ServerMetrics,
    uptime: nat,
    live: nat,
    dangling: nat,
    used: Seq<(String, u64)>,
) -> Seq<Seq<char>> {
    gauge_lines(uptime, live, dangling) + sample_lines(m.catalog()) + head_lines() + identity_lines(
        used,
    )
}

spec fn uptime_of(m: ServerMetrics, now: u64) -> nat {
    if now >= m.process_start_unix_secs {
        (now - m.process_start_unix_secs) as nat
    } else {
        0
    }
}

/// A counter's name holds no space, brace or newline.
spec fn plain(name: Seq<char>) -> bool {
    lacks(name, ' ') && lacks(name, '{') && lacks(name, '\n') && name.len() > 0 && name[0] == 'k'
}

proof fn lemma_names(m: ServerMetrics)
    ensures
        m.catalog().len() == 29,
        forall|i: int| 0 <= i < 29 ==> plain((#[trigger] m.catalog()[i]).0),
{
    reveal_strlit("krot_handshake_auth_ok_total");
    assert(plain("krot_handshake_auth_ok_total"@));
    reveal_strlit("krot_handshake_unknown_identity_total");
    assert(plain("krot_handshake_unknown_identity_total"@));
    reveal_strlit("krot_handshake_signature_invalid_total");
    assert(plain("krot_handshake_signature_invalid_total"@));
    reveal_strlit("krot_handshake_timed_out_total");
    assert(plain("krot_handshake_timed_out_total"@));
    reveal_strlit("krot_handshake_protocol_violation_total");
    assert(plain("krot_handshake_protocol_violation_total"@));
    reveal_strlit("krot_enrollment_ok_total");
    assert(plain("krot_enrollment_ok_total"@));
    reveal_strlit("krot_enrollment_rejected_total");
    assert(plain("krot_enrollment_rejected_total"@));
    reveal_strlit("krot_session_bye_total");
    assert(plain("krot_session_bye_total"@));
    reveal_strlit("krot_session_dropped_total");
    assert(plain("krot_session_dropped_total"@));
    reveal_strlit("krot_session_terminal_total");
    assert(plain("krot_session_terminal_total"@));
    reveal_strlit("krot_resume_reattached_total");
    assert(plain("krot_resume_reattached_total"@));
    reveal_strlit("krot_resume_identity_mismatch_total");
    assert(plain("krot_resume_identity_mismatch_total"@));
    reveal_strlit("krot_resume_unknown_total");
    assert(plain("krot_resume_unknown_total"@));
    reveal_strlit("krot_tunnel_registered_http_total");
    assert(plain("krot_tunnel_registered_http_total"@));
    reveal_strlit("krot_tunnel_registered_tcp_total");
    assert(plain("krot_tunnel_registered_tcp_total"@));
    reveal_strlit("krot_tunnel_rejected_label_total");
    assert(plain("krot_tunnel_rejected_label_total"@));
    reveal_strlit("krot_tunnel_rejected_conns_total");
    assert(plain("krot_tunnel_rejected_conns_total"@));
    reveal_strlit("krot_tunnel_rejected_ports_total");
    assert(plain("krot_tunnel_rejected_ports_total"@));
    reveal_strlit("krot_tunnel_rejected_pool_total");
    assert(plain("krot_tunnel_rejected_pool_total"@));
    reveal_strlit("krot_tunnel_rejected_peer_collision_total");
    assert(plain("krot_tunnel_rejected_peer_collision_total"@));
    reveal_strlit("krot_rate_limit_quota_exceeded_total");
    assert(plain("krot_rate_limit_quota_exceeded_total"@));
    reveal_strlit("krot_transport_quic_accepted_total");
    assert(plain("krot_transport_quic_accepted_total"@));
    reveal_strlit("krot_transport_tcp_fallback_accepted_total");
    assert(plain("krot_transport_tcp_fallback_accepted_total"@));
    reveal_strlit("krot_admin_api_session_minted_total");
    assert(plain("krot_admin_api_session_minted_total"@));
    reveal_strlit("krot_admin_api_session_rejected_total");
    assert(plain("krot_admin_api_session_rejected_total"@));
    reveal_strlit("krot_admin_api_key_appended_total");
    assert(plain("krot_admin_api_key_appended_total"@));
    reveal_strlit("krot_admin_api_key_removed_total");
    assert(plain("krot_admin_api_key_removed_total"@));
    reveal_strlit("krot_admin_api_key_remove_not_found_total");
    assert(plain("krot_admin_api_key_remove_not_found_total"@));
    reveal_strlit("krot_admin_api_auth_failed_total");
    assert(plain("krot_admin_api_auth_failed_total"@));
}

proof fn lemma_helps(m: ServerMetrics)
    ensures
        forall|i: int| 0 <= i < 29 ==> lacks((#[trigger] m.catalog()[i]).1, '\n'),
{
    reveal_strlit("Successful `AuthOk` responses (§7.1).");
    assert(lacks("Successful `AuthOk` responses (§7.1)."@, '\n'));
    reveal_strlit("Handshakes rejected because the presented pubkey is not in authorized_keys.");
    assert(lacks("Handshakes rejected because the presented pubkey is not in authorized_keys."@, '\n'));
    reveal_strlit("Handshakes rejected due to bad Ed25519 signature.");
    assert(lacks("Handshakes rejected due to bad Ed25519 signature."@, '\n'));
    reveal_strlit("Handshakes that exceeded the §10 auth deadline.");
    assert(lacks("Handshakes that exceeded the §10 auth deadline."@, '\n'));
    reveal_strlit("First-stream protocol violations (unknown StreamKind, etc.).");
    assert(lacks("First-stream protocol violations (unknown StreamKind, etc.)."@, '\n'));
    reveal_strlit("Successful enrollments (§14).");
    assert(lacks("Successful enrollments (§14)."@, '\n'));
    reveal_strlit("Enrollments rejected (bad / expired / consumed admin token).");
    assert(lacks("Enrollments rejected (bad / expired / consumed admin token)."@, '\n'));
    reveal_strlit("Sessions that ended with an explicit client `Bye` (§7.5).");
    assert(lacks("Sessions that ended with an explicit client `Bye` (§7.5)."@, '\n'));
    reveal_strlit("Sessions that ended without a `Bye` — tunnels marked Dangling.");
    assert(lacks("Sessions that ended without a `Bye` — tunnels marked Dangling."@, '\n'));
    reveal_strlit("Sessions terminated by shutdown / revocation / protocol violation.");
    assert(lacks("Sessions terminated by shutdown / revocation / protocol violation."@, '\n'));
    reveal_strlit("Successful §7.3 resume — same tunnel_id reused.");
    assert(lacks("Successful §7.3 resume — same tunnel_id reused."@, '\n'));
    reveal_strlit("Resume attempts rejected because the presenting pubkey does not own the lease.");
    assert(lacks("Resume attempts rejected because the presenting pubkey does not own the lease."@, '\n'));
    reveal_strlit("Resume attempts against expired / never-registered leases.");
    assert(lacks("Resume attempts against expired / never-registered leases."@, '\n'));
    reveal_strlit("HTTP tunnels successfully registered.");
    assert(lacks("HTTP tunnels successfully registered."@, '\n'));
    reveal_strlit("TCP tunnels successfully registered.");
    assert(lacks("TCP tunnels successfully registered."@, '\n'));
    reveal_strlit("Tunnels rejected because the requested label is forbidden or already taken.");
    assert(lacks("Tunnels rejected because the requested label is forbidden or already taken."@, '\n'));
    reveal_strlit("Tunnels rejected by the §13 `conns=` cap.");
    assert(lacks("Tunnels rejected by the §13 `conns=` cap."@, '\n'));
    reveal_strlit("Tunnels rejected by the §13 `ports=` allowlist.");
    assert(lacks("Tunnels rejected by the §13 `ports=` allowlist."@, '\n'));
    reveal_strlit("Tunnels rejected because the TCP port pool was exhausted.");
    assert(lacks("Tunnels rejected because the TCP port pool was exhausted."@, '\n'));
    reveal_strlit("Tunnels rejected by §16.3.4 cross-relay collision detection.");
    assert(lacks("Tunnels rejected by §16.3.4 cross-relay collision detection."@, '\n'));
    reveal_strlit("Data-path chunks that tripped the §9 period quota.");
    assert(lacks("Data-path chunks that tripped the §9 period quota."@, '\n'));
    reveal_strlit("QUIC (`krot/1`) connections that reached handle_connection.");
    assert(lacks("QUIC (`krot/1`) connections that reached handle_connection."@, '\n'));
    reveal_strlit("`krot-tcp/1` connections that reached handle_connection.");
    assert(lacks("`krot-tcp/1` connections that reached handle_connection."@, '\n'));
    reveal_strlit("Sessions minted via POST /admin/v1/session.");
    assert(lacks("Sessions minted via POST /admin/v1/session."@, '\n'));
    reveal_strlit("POST /session calls rejected — bad admin token.");
    assert(lacks("POST /session calls rejected — bad admin token."@, '\n'));
    reveal_strlit("authorized_keys entries appended via POST /admin/v1/keys.");
    assert(lacks("authorized_keys entries appended via POST /admin/v1/keys."@, '\n'));
    reveal_strlit("authorized_keys entries removed via DELETE /admin/v1/keys/*.");
    assert(lacks("authorized_keys entries removed via DELETE /admin/v1/keys/*."@, '\n'));
    reveal_strlit("DELETE /admin/v1/keys/* against a pubkey that isn't present.");
    assert(lacks("DELETE /admin/v1/keys/* against a pubkey that isn't present."@, '\n'));
    reveal_strlit("Unauthenticated hits to the admin API.");
    assert(lacks("Unauthenticated hits to the admin API."@, '\n'));
}

/// What tells the names apart: the length and a few characters.
spec fn key_of(name: Seq<char>) -> (nat, char) {
    (name.len(), name[name.len() - 11])
}

proof fn lemma_names_distinct(m: ServerMetrics, i: int, j: int)
    requires
        0 <= i < 29,
        0 <= j < 29,
        m.catalog()[i].0 == m.catalog()[j].0,
    ensures
        i == j,
{
    reveal_strlit("krot_handshake_auth_ok_total");
    assert(key_of("krot_handshake_auth_ok_total"@) == (28nat, 't'));
    reveal_strlit("krot_handshake_unknown_identity_total");
    assert(key_of("krot_handshake_unknown_identity_total"@) == (37nat, 'n'));
    reveal_strlit("krot_handshake_signature_invalid_total");
    assert(key_of("krot_handshake_signature_invalid_total"@) == (38nat, 'v'));
    reveal_strlit("krot_handshake_timed_out_total");
    assert(key_of("krot_handshake_timed_out_total"@) == (30nat, 'd'));
    reveal_strlit("krot_handshake_protocol_violation_total");
    assert(key_of("krot_handshake_protocol_violation_total"@) == (39nat, 'a'));
    reveal_strlit("krot_enrollment_ok_total");
    assert(key_of("krot_enrollment_ok_total"@) == (24nat, 'n'));
    reveal_strlit("krot_enrollment_rejected_total");
    assert(key_of("krot_enrollment_rejected_total"@) == (30nat, 'e'));
    reveal_strlit("krot_session_bye_total");
    assert(key_of("krot_session_bye_total"@) == (22nat, 'n'));
    reveal_strlit("krot_session_dropped_total");
    assert(key_of("krot_session_dropped_total"@) == (26nat, 'o'));
    reveal_strlit("krot_session_terminal_total");
    assert(key_of("krot_session_terminal_total"@) == (27nat, 'm'));
    reveal_strlit("krot_resume_reattached_total");
    assert(key_of("krot_resume_reattached_total"@) == (28nat, 'a'));
    reveal_strlit("krot_resume_identity_mismatch_total");
    assert(key_of("krot_resume_identity_mismatch_total"@) == (35nat, 'm'));
    reveal_strlit("krot_resume_unknown_total");
    assert(key_of("krot_resume_unknown_total"@) == (25nat, 'k'));
    reveal_strlit("krot_tunnel_registered_http_total");
    assert(key_of("krot_tunnel_registered_http_total"@) == (33nat, '_'));
    reveal_strlit("krot_tunnel_registered_tcp_total");
    assert(key_of("krot_tunnel_registered_tcp_total"@) == (32nat, 'd'));
    reveal_strlit("krot_tunnel_rejected_label_total");
    assert(key_of("krot_tunnel_rejected_label_total"@) == (32nat, 'l'));
    reveal_strlit("krot_tunnel_rejected_conns_total");
    assert(key_of("krot_tunnel_rejected_conns_total"@) == (32nat, 'c'));
    reveal_strlit("krot_tunnel_rejected_ports_total");
    assert(key_of("krot_tunnel_rejected_ports_total"@) == (32nat, 'p'));
    reveal_strlit("krot_tunnel_rejected_pool_total");
    assert(key_of("krot_tunnel_rejected_pool_total"@) == (31nat, '_'));
    reveal_strlit("krot_tunnel_rejected_peer_collision_total");
    assert(key_of("krot_tunnel_rejected_peer_collision_total"@) == (41nat, 'i'));
    reveal_strlit("krot_rate_limit_quota_exceeded_total");
    assert(key_of("krot_rate_limit_quota_exceeded_total"@) == (36nat, 'e'));
    reveal_strlit("krot_transport_quic_accepted_total");
    assert(key_of("krot_transport_quic_accepted_total"@) == (34nat, 'e'));
    reveal_strlit("krot_transport_tcp_fallback_accepted_total");
    assert(key_of("krot_transport_tcp_fallback_accepted_total"@) == (42nat, 'e'));
    reveal_strlit("krot_admin_api_session_minted_total");
    assert(key_of("krot_admin_api_session_minted_total"@) == (35nat, 'i'));
    reveal_strlit("krot_admin_api_session_rejected_total");
    assert(key_of("krot_admin_api_session_rejected_total"@) == (37nat, 'e'));
    reveal_strlit("krot_admin_api_key_appended_total");
    assert(key_of("krot_admin_api_key_appended_total"@) == (33nat, 'e'));
    reveal_strlit("krot_admin_api_key_removed_total");
    assert(key_of("krot_admin_api_key_removed_total"@) == (32nat, 'm'));
    reveal_strlit("krot_admin_api_key_remove_not_found_total");
    assert(key_of("krot_admin_api_key_remove_not_found_total"@) == (41nat, 'f'));
    reveal_strlit("krot_admin_api_auth_failed_total");
    assert(key_of("krot_admin_api_auth_failed_total"@) == (32nat, 'a'));
}

proof fn lemma_not_a_gauge(m: ServerMetrics, i: int)
    requires
        0 <= i < 29,
    ensures
        m.catalog()[i].0 != "krot_uptime_seconds"@,
        m.catalog()[i].0 != "krot_tunnels_total"@,
        m.catalog()[i].0 != "krot_tunnels_dangling_total"@,
{
    reveal_strlit("krot_uptime_seconds");
    assert(key_of("krot_uptime_seconds"@) == (19nat, 'i'));
    reveal_strlit("krot_tunnels_total");
    assert(key_of("krot_tunnels_total"@) == (18nat, 'n'));
    reveal_strlit("krot_tunnels_dangling_total");
    assert(key_of("krot_tunnels_dangling_total"@) == (27nat, 'g'));
    reveal_strlit("krot_handshake_auth_ok_total");
    assert(key_of("krot_handshake_auth_ok_total"@) == (28nat, 't'));
    reveal_strlit("krot_handshake_unknown_identity_total");
    assert(key_of("krot_handshake_unknown_identity_total"@) == (37nat, 'n'));
    reveal_strlit("krot_handshake_signature_invalid_total");
    assert(key_of("krot_handshake_signature_invalid_total"@) == (38nat, 'v'));
    reveal_strlit("krot_handshake_timed_out_total");
    assert(key_of("krot_handshake_timed_out_total"@) == (30nat, 'd'));
    reveal_strlit("krot_handshake_protocol_violation_total");
    assert(key_of("krot_handshake_protocol_violation_total"@) == (39nat, 'a'));
    reveal_strlit("krot_enrollment_ok_total");
    assert(key_of("krot_enrollment_ok_total"@) == (24nat, 'n'));
    reveal_strlit("krot_enrollment_rejected_total");
    assert(key_of("krot_enrollment_rejected_total"@) == (30nat, 'e'));
    reveal_strlit("krot_session_bye_total");
    assert(key_of("krot_session_bye_total"@) == (22nat, 'n'));
    reveal_strlit("krot_session_dropped_total");
    assert(key_of("krot_session_dropped_total"@) == (26nat, 'o'));
    reveal_strlit("krot_session_terminal_total");
    assert(key_of("krot_session_terminal_total"@) == (27nat, 'm'));
    reveal_strlit("krot_resume_reattached_total");
    assert(key_of("krot_resume_reattached_total"@) == (28nat, 'a'));
    reveal_strlit("krot_resume_identity_mismatch_total");
    assert(key_of("krot_resume_identity_mismatch_total"@) == (35nat, 'm'));
    reveal_strlit("krot_resume_unknown_total");
    assert(key_of("krot_resume_unknown_total"@) == (25nat, 'k'));
    reveal_strlit("krot_tunnel_registered_http_total");
    assert(key_of("krot_tunnel_registered_http_total"@) == (33nat, '_'));
    reveal_strlit("krot_tunnel_registered_tcp_total");
    assert(key_of("krot_tunnel_registered_tcp_total"@) == (32nat, 'd'));
    reveal_strlit("krot_tunnel_rejected_label_total");
    assert(key_of("krot_tunnel_rejected_label_total"@) == (32nat, 'l'));
    reveal_strlit("krot_tunnel_rejected_conns_total");
    assert(key_of("krot_tunnel_rejected_conns_total"@) == (32nat, 'c'));
    reveal_strlit("krot_tunnel_rejected_ports_total");
    assert(key_of("krot_tunnel_rejected_ports_total"@) == (32nat, 'p'));
    reveal_strlit("krot_tunnel_rejected_pool_total");
    assert(key_of("krot_tunnel_rejected_pool_total"@) == (31nat, '_'));
    reveal_strlit("krot_tunnel_rejected_peer_collision_total");
    assert(key_of("krot_tunnel_rejected_peer_collision_total"@) == (41nat, 'i'));
    reveal_strlit("krot_rate_limit_quota_exceeded_total");
    assert(key_of("krot_rate_limit_quota_exceeded_total"@) == (36nat, 'e'));
    reveal_strlit("krot_transport_quic_accepted_total");
    assert(key_of("krot_transport_quic_accepted_total"@) == (34nat, 'e'));
    reveal_strlit("krot_transport_tcp_fallback_accepted_total");
    assert(key_of("krot_transport_tcp_fallback_accepted_total"@) == (42nat, 'e'));
    reveal_strlit("krot_admin_api_session_minted_total");
    assert(key_of("krot_admin_api_session_minted_total"@) == (35nat, 'i'));
    reveal_strlit("krot_admin_api_session_rejected_total");
    assert(key_of("krot_admin_api_session_rejected_total"@) == (37nat, 'e'));
    reveal_strlit("krot_admin_api_key_appended_total");
    assert(key_of("krot_admin_api_key_appended_total"@) == (33nat, 'e'));
    reveal_strlit("krot_admin_api_key_removed_total");
    assert(key_of("krot_admin_api_key_removed_total"@) == (32nat, 'm'));
    reveal_strlit("krot_admin_api_key_remove_not_found_total");
    assert(key_of("krot_admin_api_key_remove_not_found_total"@) == (41nat, 'f'));
    reveal_strlit("krot_admin_api_auth_failed_total");
    assert(key_of("krot_admin_api_auth_failed_total"@) == (32nat, 'a'));
}

proof fn lemma_same_word(a: Seq<char>, x: Seq<char>, b: Seq<char>)
    requires
        lacks(a, ' '),
        lacks(b, ' '),
        has_prefix(a + " "@ + x, b + " "@),
    ensures
        a == b,
{
    reveal_strlit(" ");
    let s = a + " "@ + x;
    let p = b + " "@;
    let w = s.take(p.len() as int);
    assert(w == p);
    assert(w[b.len() as int] == ' ');
    if a.len() < b.len() {
        assert(w[a.len() as int] == b[a.len() as int]);
    } else if b.len() < a.len() {
        assert(w[b.len() as int] == a[b.len() as int]);
    }
    assert forall|k: int| 0 <= k < a.len() implies a[k] == b[k] by {
        assert(w[k] == p[k]);
    }
    assert(a =~= b);
}

/// A name with a brace behind it does not begin like a name with a space
/// behind it, nor the other way round.
proof fn lemma_brace_or_space(a: Seq<char>, x: Seq<char>, y: Seq<char>, b: Seq<char>)
    requires
        lacks(a, ' '),
        lacks(b, '{'),
    ensures
        !has_prefix(a + seq!['{'] + x, b + " "@),
        !has_prefix(b + " "@ + y, a + seq!['{']),
{
    reveal_strlit(" ");
    let s = a + seq!['{'] + x;
    let p = b + " "@;
    if has_prefix(s, p) {
        let w = s.take(p.len() as int);
        assert(w == p);
        assert(w[b.len() as int] == ' ');
        if a.len() < b.len() {
            assert(w[a.len() as int] == b[a.len() as int]);
        }
    }
    let s2 = b + " "@ + y;
    let p2 = a + seq!['{'];
    if has_prefix(s2, p2) {
        let w = s2.take(p2.len() as int);
        assert(w == p2);
        assert(w[a.len() as int] == '{');
        if b.len() < a.len() {
            assert(w[b.len() as int] == a[b.len() as int]);
        }
    }
}


/// Whether `l` is a comment of one line.
spec fn comment(l: Seq<char>) -> bool {
    l.len() > 0 && l[0] == '#' && lacks(l, '\n')
}

proof fn lemma_comment(l: Seq<char>, p: Seq<char>)
    requires
        comment(l),
        p.len() > 0,
        p[0] == 'k',
    ensures
        !has_prefix(l, p),
{
    if has_prefix(l, p) {
        assert(l.take(p.len() as int)[0] == l[0]);
    }
}

proof fn lemma_lacks_joined(a: Seq<char>, b: Seq<char>, c: char)
    requires
        lacks(a, c),
        lacks(b, c),
    ensures
        lacks(a + b, c),
{
    assert forall|k: int| 0 <= k < (a + b).len() implies #[trigger] (a + b)[k] != c by {
        if k < a.len() {
            assert((a + b)[k] == a[k]);
        } else {
            assert((a + b)[k] == b[k - a.len()]);
        }
    }
}

proof fn lemma_dec_lacks(n: nat)
    ensures
        lacks(dec(n), '\n'),
{
    lemma_dec_roundtrip(n);
    assert forall|k: int| 0 <= k < dec(n).len() implies #[trigger] dec(n)[k] != '\n' by {
        assert(is_digit_spec(dec(n)[k]));
    }
}

/// The beginning of the lines with the identities' byte counts.
pub open spec fn identity_prefix() -> Seq<char> {
    "krot_bytes_period_used{"@
}

/// Whether `l` is one line, and neither begins like the value of the counter
/// `name` nor like the byte count of an identity.
spec fn unrelated(l: Seq<char>, name: Seq<char>) -> bool {
    &&& lacks(l, '\n')
    &&& !has_prefix(l, name + " "@)
    &&& !has_prefix(l, identity_prefix())
}

proof fn lemma_identity_prefix()
    ensures
        identity_prefix() == "krot_bytes_period_used"@ + seq!['{'],
        lacks("krot_bytes_period_used"@, ' '),
        identity_prefix().len() == 23,
        identity_prefix()[0] == 'k',
        identity_prefix()[6] == 'y',
{
    reveal_strlit("krot_bytes_period_used");
    reveal_strlit("krot_bytes_period_used{");
    assert(identity_prefix() =~= "krot_bytes_period_used"@ + seq!['{']);
}

proof fn lemma_named_value(own: Seq<char>, value: nat, name: Seq<char>)
    requires
        lacks(own, ' '),
        lacks(own, '{'),
        lacks(own, '\n'),
        plain(name),
        own != name,
    ensures
        unrelated(own + " "@ + dec(value), name),
{
    reveal_strlit(" ");
    let l = own + " "@ + dec(value);
    lemma_dec_lacks(value);
    lemma_lacks_joined(own, " "@, '\n');
    lemma_lacks_joined(own + " "@, dec(value), '\n');
    if has_prefix(l, name + " "@) {
        lemma_same_word(own, dec(value), name);
    }
    lemma_identity_prefix();
    lemma_brace_or_space("krot_bytes_period_used"@, Seq::empty(), dec(value), own);
}

proof fn lemma_build_line(name: Seq<char>)
    requires
        plain(name),
    ensures
        unrelated(build_lines()[2], name),
{
    let l = build_lines()[2];
    reveal_strlit("krot_build_info");
    reveal_strlit("krot_build_info{version=\"");
    reveal_strlit("0.1.0");
    reveal_strlit("\"} 1");
    let rest = l.skip(16);
    assert(l =~= "krot_build_info"@ + seq!['{'] + rest);
    lemma_brace_or_space("krot_build_info"@, rest, Seq::empty(), name);
    lemma_lacks_joined("krot_build_info{version=\""@, VERSION@, '\n');
    lemma_lacks_joined("krot_build_info{version=\""@ + VERSION@, "\"} 1"@, '\n');
    lemma_identity_prefix();
    if has_prefix(l, identity_prefix()) {
        assert(l.take(23)[6] == l[6]);
    }
}

proof fn lemma_gauge_line(uptime: nat, live: nat, dangling: nat, m: ServerMetrics, i: int, q: int)
    requires
        0 <= i < 29,
        0 <= q < 12,
    ensures
        unrelated(gauge_lines(uptime, live, dangling)[q], m.catalog()[i].0),
{
    let name = m.catalog()[i].0;
    let l = gauge_lines(uptime, live, dangling)[q];
    lemma_names(m);
    lemma_not_a_gauge(m, i);
    lemma_identity_prefix();
    if q % 3 != 2 {
        reveal_strlit("# HELP krot_uptime_seconds Seconds since the server process started.");
        assert(comment("# HELP krot_uptime_seconds Seconds since the server process started."@));
        reveal_strlit("# TYPE krot_uptime_seconds gauge");
        assert(comment("# TYPE krot_uptime_seconds gauge"@));
        reveal_strlit("# HELP krot_build_info Static build metadata as labels; value is always 1.");
        assert(comment("# HELP krot_build_info Static build metadata as labels; value is always 1."@));
        reveal_strlit("# TYPE krot_build_info gauge");
        assert(comment("# TYPE krot_build_info gauge"@));
        reveal_strlit("# HELP krot_tunnels_total Tunnels currently in the registry (live + dangling).");
        assert(comment("# HELP krot_tunnels_total Tunnels currently in the registry (live + dangling)."@));
        reveal_strlit("# TYPE krot_tunnels_total gauge");
        assert(comment("# TYPE krot_tunnels_total gauge"@));
        reveal_strlit("# HELP krot_tunnels_dangling_total Dangling tunnels in the §7.3 grace window.");
        assert(comment("# HELP krot_tunnels_dangling_total Dangling tunnels in the §7.3 grace window."@));
        reveal_strlit("# TYPE krot_tunnels_dangling_total gauge");
        assert(comment("# TYPE krot_tunnels_dangling_total gauge"@));
        assert(comment(l));
        reveal_strlit(" ");
        lemma_comment(l, name + " "@);
        lemma_comment(l, identity_prefix());
    } else {
        reveal_strlit(" ");
        reveal_strlit("krot_uptime_seconds");
        reveal_strlit("krot_uptime_seconds ");
        reveal_strlit("krot_tunnels_total");
        reveal_strlit("krot_tunnels_total ");
        reveal_strlit("krot_tunnels_dangling_total");
        reveal_strlit("krot_tunnels_dangling_total ");
        assert("krot_uptime_seconds "@ =~= "krot_uptime_seconds"@ + " "@);
        assert("krot_tunnels_total "@ =~= "krot_tunnels_total"@ + " "@);
        assert("krot_tunnels_dangling_total "@ =~= "krot_tunnels_dangling_total"@ + " "@);
        lemma_named_value("krot_uptime_seconds"@, uptime, name);
        lemma_named_value("krot_tunnels_total"@, live + dangling, name);
        lemma_named_value("krot_tunnels_dangling_total"@, dangling, name);
        lemma_build_line(name);
    }
}

proof fn lemma_head_line(m: ServerMetrics, i: int, q: int)
    requires
        0 <= i < 29,
        0 <= q < 2,
    ensures
        unrelated(head_lines()[q], m.catalog()[i].0),
{
    let l = head_lines()[q];
    lemma_names(m);
    lemma_identity_prefix();
    reveal_strlit("# HELP krot_bytes_period_used Bytes counted against the identity's period quota.");
    assert(comment("# HELP krot_bytes_period_used Bytes counted against the identity's period quota."@));
    reveal_strlit("# TYPE krot_bytes_period_used counter");
    assert(comment("# TYPE krot_bytes_period_used counter"@));
    reveal_strlit(" ");
    lemma_comment(l, m.catalog()[i].0 + " "@);
    lemma_comment(l, identity_prefix());
}

proof fn lemma_sample_line(m: ServerMetrics, i: int, q: int)
    requires
        0 <= i < 29,
        0 <= q < 87,
    ensures
        q != 3 * i + 2 ==> unrelated(sample_lines(m.catalog())[q], m.catalog()[i].0),
        lacks(sample_lines(m.catalog())[q], '\n'),
        !has_prefix(sample_lines(m.catalog())[q], identity_prefix()),
{
    lemma_names(m);
    lemma_helps(m);
    lemma_identity_prefix();
    let j = q / 3;
    let name = m.catalog()[i].0;
    let (own, help, value) = m.catalog()[j];
    let l = sample_lines(m.catalog())[q];
    reveal_strlit(" ");
    reveal_strlit("# HELP ");
    reveal_strlit("# TYPE ");
    reveal_strlit(" counter");
    assert(plain(m.catalog()[j].0));
    assert(lacks(m.catalog()[j].1, '\n'));
    if q % 3 == 0 {
        lemma_lacks_joined("# HELP "@, own, '\n');
        lemma_lacks_joined("# HELP "@ + own, " "@, '\n');
        lemma_lacks_joined("# HELP "@ + own + " "@, help, '\n');
        assert(comment(l));
        lemma_comment(l, name + " "@);
        lemma_comment(l, identity_prefix());
    } else if q % 3 == 1 {
        lemma_lacks_joined("# TYPE "@, own, '\n');
        lemma_lacks_joined("# TYPE "@ + own, " counter"@, '\n');
        assert(comment(l));
        lemma_comment(l, name + " "@);
        lemma_comment(l, identity_prefix());
    } else {
        assert(l == own + " "@ + dec(value as nat));
        lemma_dec_lacks(value as nat);
        lemma_lacks_joined(own, " "@, '\n');
        lemma_lacks_joined(own + " "@, dec(value as nat), '\n');
        lemma_brace_or_space("krot_bytes_period_used"@, Seq::empty(), dec(value as nat), own);
        if j != i {
            if own == name {
                lemma_names_distinct(m, i, j);
            }
            lemma_named_value(own, value as nat, name);
        }
    }
}

proof fn lemma_identity_line(used: (String, u64), name: Seq<char>)
    requires
        lacks(used.0@, '\n'),
        plain(name),
    ensures
        lacks(identity_line(used), '\n'),
        !has_prefix(identity_line(used), name + " "@),
        has_prefix(identity_line(used), identity_prefix()),
{
    reveal_strlit("krot_bytes_period_used");
    reveal_strlit("krot_bytes_period_used{");
    reveal_strlit("krot_bytes_period_used{pubkey=\"");
    reveal_strlit("\"} ");
    lemma_identity_prefix();
    let l = identity_line(used);
    let head = "krot_bytes_period_used{pubkey=\""@;
    lemma_dec_lacks(used.1 as nat);
    lemma_lacks_joined(head, used.0@, '\n');
    lemma_lacks_joined(head + used.0@, "\"} "@, '\n');
    lemma_lacks_joined(head + used.0@ + "\"} "@, dec(used.1 as nat), '\n');
    assert(l.take(23) =~= identity_prefix());
    let rest = l.skip(23);
    assert(l =~= "krot_bytes_period_used"@ + seq!['{'] + rest);
    lemma_brace_or_space("krot_bytes_period_used"@, rest, Seq::empty(), name);
}

/// The lines of a scrape, and what each of them is.
proof fn lemma_scrape(
    m: ServerMetrics,
    now: u64,
    live: usize,
    dangling: usize,
    used: Seq<(String, u64)>,
    i: int,
)
    requires
        0 <= i < 29,
        forall|j: int| 0 <= j < used.len() ==> lacks((#[trigger] used[j]).0@, '\n'),
    ensures
        ({
            let lines = split_spec(m.exposition(now, live, dangling, used), '\n');
            let (name, help, value) = m.catalog()[i];
            &&& lines.len() == 102 + used.len()
            &&& lines[12 + 3 * i] == help_line(name, help)
            &&& lines[12 + 3 * i + 1] == type_line(name)
            &&& lines[12 + 3 * i + 2] == value_line(name, value)
            &&& forall|q: int|
                0 <= q < lines.len() && q != 12 + 3 * i + 2 ==> !has_prefix(
                    #[trigger] lines[q],
                    name + " "@,
                )
            &&& forall|j: int|
                0 <= j < used.len() ==> #[trigger] lines[101 + j] == identity_line(used[j])
            &&& forall|q: int|
                0 <= q < lines.len() ==> (has_prefix(#[trigger] lines[q], identity_prefix())
                    <==> 101 <= q < 101 + used.len())
        }),
{
    let uptime = uptime_of(m, now);
    let g = gauge_lines(uptime, live as nat, dangling as nat);
    let sm = sample_lines(m.catalog());
    let h = head_lines();
    let d = identity_lines(used);
    let ls = scrape_lines(m, uptime, live as nat, dangling as nat, used);
    let (name, help, value) = m.catalog()[i];
    let text = m.exposition(now, live, dangling, used);
    lemma_gauges(uptime, live as nat, dangling as nat);
    lemma_samples(m.catalog());
    lemma_head();
    lemma_identities(used);
    lemma_unlines_joined(g, sm);
    lemma_unlines_joined(g + sm, h);
    lemma_unlines_joined(g + sm + h, d);
    assert(text == unlines(ls));
    lemma_names(m);
    lemma_identity_prefix();
    assert(plain(name));
    assert(g.len() == 12 && sm.len() == 87 && h.len() == 2 && d.len() == used.len());
    assert forall|q: int| 0 <= q < ls.len() implies lacks(#[trigger] ls[q], '\n') && (q != 12 + 3 * i
        + 2 ==> !has_prefix(ls[q], name + " "@)) && (has_prefix(ls[q], identity_prefix()) <==> 101
        <= q) by {
        if q < 12 {
            assert(ls[q] == g[q]);
            lemma_gauge_line(uptime, live as nat, dangling as nat, m, i, q);
        } else if q < 99 {
            assert(ls[q] == sm[q - 12]);
            lemma_sample_line(m, i, q - 12);
        } else if q < 101 {
            assert(ls[q] == h[q - 99]);
            lemma_head_line(m, i, q - 99);
        } else {
            assert(ls[q] == identity_line(used[q - 101]));
            lemma_identity_line(used[q - 101], name);
        }
    }
    let none = Seq::<char>::empty();
    lemma_unlines_split(ls, none);
    assert(unlines(ls) + none =~= text);
    let lines = split_spec(text, '\n');
    assert(lines =~= ls.push(none));
    reveal_strlit(" ");
    assert(lines[12 + 3 * i] == sm[3 * i]);
    assert(lines[12 + 3 * i + 1] == sm[3 * i + 1]);
    assert(lines[12 + 3 * i + 2] == sm[3 * i + 2]);
    assert((3 * i) / 3 == i && (3 * i + 1) / 3 == i && (3 * i + 2) / 3 == i);
    assert forall|q: int| 0 <= q < lines.len() && q != 12 + 3 * i + 2 implies !has_prefix(
        #[trigger] lines[q],
        name + " "@,
    ) by {
        if q < ls.len() {
            assert(lines[q] == ls[q]);
        }
    }
    assert forall|j: int| 0 <= j < used.len() implies #[trigger] lines[101 + j] == identity_line(
        used[j],
    ) by {
        assert(lines[101 + j] == d[j]);
    }
    assert forall|q: int| 0 <= q < lines.len() implies (has_prefix(
        #[trigger] lines[q],
        identity_prefix(),
    ) <==> 101 <= q < 101 + used.len()) by {
        if q < ls.len() {
            assert(lines[q] == ls[q]);
        }
    }
}

/// Whether line `k` gives the value of a counter, with its help and its type
/// on the two lines before it, and is the only line that gives a value of it.
pub open spec fn counter_shown_at(
    lines: Seq<Seq<char>>,
    k: int,
    name: Seq<char>,
    help: Seq<char>,
    value: u64,
) -> bool {
    &&& 2 <= k < lines.len()
    &&& lines[k - 2] == help_line(name, help)
    &&& lines[k - 1] == type_line(name)
    &&& lines[k] == value_line(name, value)
    &&& forall|q: int|
        0 <= q < lines.len() && has_prefix(#[trigger] lines[q], name + " "@) ==> q == k
}

/// Each of the 29 counters has one line in a scrape that gives its value,
/// behind its help and its type.
pub proof fn law_counter_shown_once(
    m: ServerMetrics,
    now: u64,
    live: usize,
    dangling: usize,
    used: Seq<(String, u64)>,
    i: int,
)
    requires
        0 <= i < m.catalog().len(),
        forall|j: int| 0 <= j < used.len() ==> lacks((#[trigger] used[j]).0@, '\n'),
    ensures
        m.catalog().len() == 29,
        exists|k: int| #[trigger]
            counter_shown_at(
                split_spec(m.exposition(now, live, dangling, used), '\n'),
                k,
                m.catalog()[i].0,
                m.catalog()[i].1,
                m.catalog()[i].2,
            ),
{
    lemma_names(m);
    lemma_scrape(m, now, live, dangling, used, i);
    let lines = split_spec(m.exposition(now, live, dangling, used), '\n');
    let (name, help, value) = m.catalog()[i];
    assert(counter_shown_at(lines, 12 + 3 * i + 2, name, help, value));
}

/// Whether the identities' byte counts stand from line `k` on, in their
/// order, and nowhere else.
pub open spec fn identities_shown_at(
    lines: Seq<Seq<char>>,
    k: int,
    used: Seq<(String, u64)>,
) -> bool {
    &&& 0 <= k && k + used.len() <= lines.len()
    &&& forall|j: int| 0 <= j < used.len() ==> #[trigger] lines[k + j] == identity_line(used[j])
    &&& forall|q: int|
        0 <= q < lines.len() ==> (has_prefix(#[trigger] lines[q], identity_prefix()) <==> k <= q < k
            + used.len())
}

/// A scrape has one line for each identity's byte count, in the order in which
/// they were given, and no other line that begins like one.
pub proof fn law_identities_shown_in_order(
    m: ServerMetrics,
    now: u64,
    live: usize,
    dangling: usize,
    used: Seq<(String, u64)>,
)
    requires
        forall|j: int| 0 <= j < used.len() ==> lacks((#[trigger] used[j]).0@, '\n'),
    ensures
        exists|k: int| #[trigger]
            identities_shown_at(
                split_spec(m.exposition(now, live, dangling, used), '\n'),
                k,
                used,
            ),
{
    lemma_scrape(m, now, live, dangling, used, 0);
    let lines = split_spec(m.exposition(now, live, dangling, used), '\n');
    assert(identities_shown_at(lines, 101, used));
}

} // verus!
