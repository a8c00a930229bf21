//! Process-wide counters and gauges in Prometheus text-exposition format.
//!
//! Counters only grow and never reset. The gauges on live and dangling tunnels
//! and the per-identity byte counts come from the caller on each scrape.

use crate::clock::unix_secs;
use crate::text::{dec, push_u64};
use vstd::prelude::*;
use vstd::string::*;

verus! {

/// The version reported in the build information.
pub const VERSION: &'static str = "0.1.0";

/// Every process-lifetime counter.
#[derive(Debug, Clone, Copy)]
pub struct ServerMetrics {
    /// Successful handshakes.
    pub handshake_auth_ok: u64,
    /// Unknown public key: not in `authorized_keys`.
    pub handshake_unknown_identity: u64,
    /// Signature verification failed.
    pub handshake_signature_invalid: u64,
    /// Handshake exceeded the authentication deadline.
    pub handshake_timed_out: u64,
    /// Protocol violation on the initial stream.
    pub handshake_protocol_violation: u64,
    /// Successful enrollments.
    pub enrollment_ok: u64,
    /// Admin token was wrong, expired or already consumed.
    pub enrollment_rejected: u64,
    /// Session ended with an explicit client `Bye`.
    pub session_bye: u64,
    /// Session ended without a `Bye`; its tunnels are dangling.
    pub session_dropped: u64,
    /// Session ended by shutdown, revocation or protocol violation.
    pub session_terminal: u64,
    pub resume_reattached: u64,
    pub resume_identity_mismatch: u64,
    pub resume_unknown: u64,
    pub tunnel_registered_http: u64,
    pub tunnel_registered_tcp: u64,
    pub tunnel_rejected_label: u64,
    pub tunnel_rejected_conns: u64,
    pub tunnel_rejected_ports: u64,
    pub tunnel_rejected_pool: u64,
    pub tunnel_rejected_peer_collision: u64,
    /// Data-path chunks that went over the period quota.
    pub rate_limit_quota_exceeded: u64,
    /// QUIC connections handed on.
    pub transport_quic_accepted: u64,
    /// `krot-tcp/1` connections handed on.
    pub transport_tcp_fallback_accepted: u64,
    pub admin_api_session_minted: u64,
    pub admin_api_session_rejected: u64,
    pub admin_api_key_appended: u64,
    pub admin_api_key_removed: u64,
    pub admin_api_key_remove_not_found: u64,
    /// Unauthenticated hits: missing header, bad token, expired session.
    pub admin_api_auth_failed: u64,
    /// UNIX second at which the server started.
    pub process_start_unix_secs: u64,
}

/// One counter of a scrape: its name, its help text and its value.
pub struct Sample {
    pub name: &'static str,
    pub help: &'static str,
    pub value: u64,
}

/// The lines of one counter: help, type and value.
pub open spec fn counter_text(name: Seq<char>, help: Seq<char>, value: u64) -> Seq<char> {
    "# HELP "@ + name + " "@ + help + "\n"@ + "# TYPE "@ + name + " counter\n"@ + sample_line(
        name,
        value,
    )
}

/// The line that gives a counter's value.
pub open spec fn sample_line(name: Seq<char>, value: u64) -> Seq<char> {
    name + " "@ + dec(value as nat) + "\n"@
}

/// The counters of a scrape, in order.
pub open spec fn samples_text(samples: Seq<(Seq<char>, Seq<char>, u64)>) -> Seq<char>
    decreases samples.len(),
{
    if samples.len() == 0 {
        Seq::empty()
    } else {
        let last = samples.last();
        samples_text(samples.drop_last()) + counter_text(last.0, last.1, last.2)
    }
}

/// The lines of the per-identity byte counts, in order.
pub open spec fn identities_text(used: Seq<(String, u64)>) -> Seq<char>
    decreases used.len(),
{
    if used.len() == 0 {
        Seq::empty()
    } else {
        identities_text(used.drop_last()) + "krot_bytes_period_used{pubkey=\""@ + used.last().0@
            + "\"} "@ + dec(used.last().1 as nat) + "\n"@
    }
}

/// The gauges at the head of a scrape.
pub open spec fn gauges_text(uptime: nat, live: nat, dangling: nat) -> Seq<char> {
    "# HELP krot_uptime_seconds Seconds since the server process started.\n"@
        + "# TYPE krot_uptime_seconds gauge\n"@ + "krot_uptime_seconds "@ + dec(uptime) + "\n"@
        + "# HELP krot_build_info Static build metadata as labels; value is always 1.\n"@
        + "# TYPE krot_build_info gauge\n"@ + "krot_build_info{version=\""@ + VERSION@ + "\"} 1\n"@
        + "# HELP krot_tunnels_total Tunnels currently in the registry (live + dangling).\n"@
        + "# TYPE krot_tunnels_total gauge\n"@ + "krot_tunnels_total "@ + dec(live + dangling)
        + "\n"@
        + "# HELP krot_tunnels_dangling_total Dangling tunnels in the §7.3 grace window.\n"@
        + "# TYPE krot_tunnels_dangling_total gauge\n"@ + "krot_tunnels_dangling_total "@ + dec(
        dangling,
    ) + "\n"@
}

/// The head of the per-identity section.
pub open spec fn identities_head() -> Seq<char> {
    "# HELP krot_bytes_period_used Bytes counted against the identity's period quota.\n"@
        + "# TYPE krot_bytes_period_used counter\n"@
}

impl ServerMetrics {
    /// The counters, each with its name and help text.
    pub open spec fn catalog(self) -> Seq<(Seq<char>, Seq<char>, u64)> {
        seq![
            (
                "krot_handshake_auth_ok_total"@,
                "Successful `AuthOk` responses (§7.1)."@,
                self.handshake_auth_ok,
            ),
            (
                "krot_handshake_unknown_identity_total"@,
                "Handshakes rejected because the presented pubkey is not in authorized_keys."@,
                self.handshake_unknown_identity,
            ),
            (
                "krot_handshake_signature_invalid_total"@,
                "Handshakes rejected due to bad Ed25519 signature."@,
                self.handshake_signature_invalid,
            ),
            (
                "krot_handshake_timed_out_total"@,
                "Handshakes that exceeded the §10 auth deadline."@,
                self.handshake_timed_out,
            ),
            (
                "krot_handshake_protocol_violation_total"@,
                "First-stream protocol violations (unknown StreamKind, etc.)."@,
                self.handshake_protocol_violation,
            ),
            (
                "krot_enrollment_ok_total"@,
                "Successful enrollments (§14)."@,
                self.enrollment_ok,
            ),
            (
                "krot_enrollment_rejected_total"@,
                "Enrollments rejected (bad / expired / consumed admin token)."@,
                self.enrollment_rejected,
            ),
            (
                "krot_session_bye_total"@,
                "Sessions that ended with an explicit client `Bye` (§7.5)."@,
                self.session_bye,
            ),
            (
                "krot_session_dropped_total"@,
                "Sessions that ended without a `Bye` — tunnels marked Dangling."@,
                self.session_dropped,
            ),
            (
                "krot_session_terminal_total"@,
                "Sessions terminated by shutdown / revocation / protocol violation."@,
                self.session_terminal,
            ),
            (
                "krot_resume_reattached_total"@,
                "Successful §7.3 resume — same tunnel_id reused."@,
                self.resume_reattached,
            ),
            (
                "krot_resume_identity_mismatch_total"@,
                "Resume attempts rejected because the presenting pubkey does not own the lease."@,
                self.resume_identity_mismatch,
            ),
            (
                "krot_resume_unknown_total"@,
                "Resume attempts against expired / never-registered leases."@,
                self.resume_unknown,
            ),
            (
                "krot_tunnel_registered_http_total"@,
                "HTTP tunnels successfully registered."@,
                self.tunnel_registered_http,
            ),
            (
                "krot_tunnel_registered_tcp_total"@,
                "TCP tunnels successfully registered."@,
                self.tunnel_registered_tcp,
            ),
            (
                "krot_tunnel_rejected_label_total"@,
                "Tunnels rejected because the requested label is forbidden or already taken."@,
                self.tunnel_rejected_label,
            ),
            (
                "krot_tunnel_rejected_conns_total"@,
                "Tunnels rejected by the §13 `conns=` cap."@,
                self.tunnel_rejected_conns,
            ),
            (
                "krot_tunnel_rejected_ports_total"@,
                "Tunnels rejected by the §13 `ports=` allowlist."@,
                self.tunnel_rejected_ports,
            ),
            (
                "krot_tunnel_rejected_pool_total"@,
                "Tunnels rejected because the TCP port pool was exhausted."@,
                self.tunnel_rejected_pool,
            ),
            (
                "krot_tunnel_rejected_peer_collision_total"@,
                "Tunnels rejected by §16.3.4 cross-relay collision detection."@,
                self.tunnel_rejected_peer_collision,
            ),
            (
                "krot_rate_limit_quota_exceeded_total"@,
                "Data-path chunks that tripped the §9 period quota."@,
                self.rate_limit_quota_exceeded,
            ),
            (
                "krot_transport_quic_accepted_total"@,
                "QUIC (`krot/1`) connections that reached handle_connection."@,
                self.transport_quic_accepted,
            ),
            (
                "krot_transport_tcp_fallback_accepted_total"@,
                "`krot-tcp/1` connections that reached handle_connection."@,
                self.transport_tcp_fallback_accepted,
            ),
            (
                "krot_admin_api_session_minted_total"@,
                "Sessions minted via POST /admin/v1/session."@,
                self.admin_api_session_minted,
            ),
            (
                "krot_admin_api_session_rejected_total"@,
                "POST /session calls rejected — bad admin token."@,
                self.admin_api_session_rejected,
            ),
            (
                "krot_admin_api_key_appended_total"@,
                "authorized_keys entries appended via POST /admin/v1/keys."@,
                self.admin_api_key_appended,
            ),
            (
                "krot_admin_api_key_removed_total"@,
                "authorized_keys entries removed via DELETE /admin/v1/keys/*."@,
                self.admin_api_key_removed,
            ),
            (
                "krot_admin_api_key_remove_not_found_total"@,
                "DELETE /admin/v1/keys/* against a pubkey that isn't present."@,
                self.admin_api_key_remove_not_found,
            ),
            (
                "krot_admin_api_auth_failed_total"@,
                "Unauthenticated hits to the admin API."@,
                self.admin_api_auth_failed,
            ),
        ]
    }

    /// The scrape of these counters at the UNIX second `now`.
    pub open spec fn exposition(
        self,
        now: u64,
        live: usize,
        dangling: usize,
        per_identity_bytes: Seq<(String, u64)>,
    ) -> Seq<char> {
        let uptime: nat = if now >= self.process_start_unix_secs {
            (now - self.process_start_unix_secs) as nat
        } else {
            0
        };
        gauges_text(uptime, live as nat, dangling as nat) + samples_text(self.catalog())
            + identities_head() + identities_text(per_identity_bytes)
    }

    /// Counters at zero, started at the UNIX second `now`.
    pub fn started_at(now: u64) -> (m: ServerMetrics)
        ensures
            m.process_start_unix_secs == now,
            forall|i: int| 0 <= i < m.catalog().len() ==> (#[trigger] m.catalog()[i]).2 == 0,
    {
        ServerMetrics {
            handshake_auth_ok: 0,
            handshake_unknown_identity: 0,
            handshake_signature_invalid: 0,
            handshake_timed_out: 0,
            handshake_protocol_violation: 0,
            enrollment_ok: 0,
            enrollment_rejected: 0,
            session_bye: 0,
            session_dropped: 0,
            session_terminal: 0,
            resume_reattached: 0,
            resume_identity_mismatch: 0,
            resume_unknown: 0,
            tunnel_registered_http: 0,
            tunnel_registered_tcp: 0,
            tunnel_rejected_label: 0,
            tunnel_rejected_conns: 0,
            tunnel_rejected_ports: 0,
            tunnel_rejected_pool: 0,
            tunnel_rejected_peer_collision: 0,
            rate_limit_quota_exceeded: 0,
            transport_quic_accepted: 0,
            transport_tcp_fallback_accepted: 0,
            admin_api_session_minted: 0,
            admin_api_session_rejected: 0,
            admin_api_key_appended: 0,
            admin_api_key_removed: 0,
            admin_api_key_remove_not_found: 0,
            admin_api_auth_failed: 0,
            process_start_unix_secs: now,
        }
    }

    /// Counters at zero, started now.
    pub fn new() -> (m: ServerMetrics)
        ensures
            forall|i: int| 0 <= i < m.catalog().len() ==> (#[trigger] m.catalog()[i]).2 == 0,
    {
        ServerMetrics::started_at(unix_secs())
    }

    fn samples(&self) -> (r: Vec<Sample>)
        ensures
            sample_views(r@) == self.catalog(),
    {
        let mut out: Vec<Sample> = Vec::new();
        out.push(
            Sample {
                name: "krot_handshake_auth_ok_total",
                help: "Successful `AuthOk` responses (§7.1).",
                value: self.handshake_auth_ok,
            },
        );
        out.push(
            Sample {
                name: "krot_handshake_unknown_identity_total",
                help: "Handshakes rejected because the presented pubkey is not in authorized_keys.",
                value: self.handshake_unknown_identity,
            },
        );
        out.push(
            Sample {
                name: "krot_handshake_signature_invalid_total",
                help: "Handshakes rejected due to bad Ed25519 signature.",
                value: self.handshake_signature_invalid,
            },
        );
        out.push(
            Sample {
                name: "krot_handshake_timed_out_total",
                help: "Handshakes that exceeded the §10 auth deadline.",
                value: self.handshake_timed_out,
            },
        );
        out.push(
            Sample {
                name: "krot_handshake_protocol_violation_total",
                help: "First-stream protocol violations (unknown StreamKind, etc.).",
                value: self.handshake_protocol_violation,
            },
        );
        out.push(
            Sample {
                name: "krot_enrollment_ok_total",
                help: "Successful enrollments (§14).",
                value: self.enrollment_ok,
            },
        );
        out.push(
            Sample {
                name: "krot_enrollment_rejected_total",
                help: "Enrollments rejected (bad / expired / consumed admin token).",
                value: self.enrollment_rejected,
            },
        );
        out.push(
            Sample {
                name: "krot_session_bye_total",
                help: "Sessions that ended with an explicit client `Bye` (§7.5).",
                value: self.session_bye,
            },
        );
        out.push(
            Sample {
                name: "krot_session_dropped_total",
                help: "Sessions that ended without a `Bye` — tunnels marked Dangling.",
                value: self.session_dropped,
            },
        );
        out.push(
            Sample {
                name: "krot_session_terminal_total",
                help: "Sessions terminated by shutdown / revocation / protocol violation.",
                value: self.session_terminal,
            },
        );
        out.push(
            Sample {
                name: "krot_resume_reattached_total",
                help: "Successful §7.3 resume — same tunnel_id reused.",
                value: self.resume_reattached,
            },
        );
        out.push(
            Sample {
                name: "krot_resume_identity_mismatch_total",
                help: "Resume attempts rejected because the presenting pubkey does not own the lease.",
                value: self.resume_identity_mismatch,
            },
        );
        out.push(
            Sample {
                name: "krot_resume_unknown_total",
                help: "Resume attempts against expired / never-registered leases.",
                value: self.resume_unknown,
            },
        );
        out.push(
            Sample {
                name: "krot_tunnel_registered_http_total",
                help: "HTTP tunnels successfully registered.",
                value: self.tunnel_registered_http,
            },
        );
        out.push(
            Sample {
                name: "krot_tunnel_registered_tcp_total",
                help: "TCP tunnels successfully registered.",
                value: self.tunnel_registered_tcp,
            },
        );
        out.push(
            Sample {
                name: "krot_tunnel_rejected_label_total",
                help: "Tunnels rejected because the requested label is forbidden or already taken.",
                value: self.tunnel_rejected_label,
            },
        );
        out.push(
            Sample {
                name: "krot_tunnel_rejected_conns_total",
                help: "Tunnels rejected by the §13 `conns=` cap.",
                value: self.tunnel_rejected_conns,
            },
        );
        out.push(
            Sample {
                name: "krot_tunnel_rejected_ports_total",
                help: "Tunnels rejected by the §13 `ports=` allowlist.",
                value: self.tunnel_rejected_ports,
            },
        );
        out.push(
            Sample {
                name: "krot_tunnel_rejected_pool_total",
                help: "Tunnels rejected because the TCP port pool was exhausted.",
                value: self.tunnel_rejected_pool,
            },
        );
        out.push(
            Sample {
                name: "krot_tunnel_rejected_peer_collision_total",
                help: "Tunnels rejected by §16.3.4 cross-relay collision detection.",
                value: self.tunnel_rejected_peer_collision,
            },
        );
        out.push(
            Sample {
                name: "krot_rate_limit_quota_exceeded_total",
                help: "Data-path chunks that tripped the §9 period quota.",
                value: self.rate_limit_quota_exceeded,
            },
        );
        out.push(
            Sample {
                name: "krot_transport_quic_accepted_total",
                help: "QUIC (`krot/1`) connections that reached handle_connection.",
                value: self.transport_quic_accepted,
            },
        );
        out.push(
            Sample {
                name: "krot_transport_tcp_fallback_accepted_total",
                help: "`krot-tcp/1` connections that reached handle_connection.",
                value: self.transport_tcp_fallback_accepted,
            },
        );
        out.push(
            Sample {
                name: "krot_admin_api_session_minted_total",
                help: "Sessions minted via POST /admin/v1/session.",
                value: self.admin_api_session_minted,
            },
        );
        out.push(
            Sample {
                name: "krot_admin_api_session_rejected_total",
                help: "POST /session calls rejected — bad admin token.",
                value: self.admin_api_session_rejected,
            },
        );
        out.push(
            Sample {
                name: "krot_admin_api_key_appended_total",
                help: "authorized_keys entries appended via POST /admin/v1/keys.",
                value: self.admin_api_key_appended,
            },
        );
        out.push(
            Sample {
                name: "krot_admin_api_key_removed_total",
                help: "authorized_keys entries removed via DELETE /admin/v1/keys/*.",
                value: self.admin_api_key_removed,
            },
        );
        out.push(
            Sample {
                name: "krot_admin_api_key_remove_not_found_total",
                help: "DELETE /admin/v1/keys/* against a pubkey that isn't present.",
                value: self.admin_api_key_remove_not_found,
            },
        );
        out.push(
            Sample {
                name: "krot_admin_api_auth_failed_total",
                help: "Unauthenticated hits to the admin API.",
                value: self.admin_api_auth_failed,
            },
        );
        assert(sample_views(out@) =~= self.catalog());
        out
    }

    /// The scrape of these counters, with the gauges that the caller provides.
    ///
    /// The uptime line depends on when the clock is read; the rest does not.
    pub fn to_prometheus_text(
        &self,
        tunnels_live: usize,
        tunnels_dangling: usize,
        per_identity_bytes: &[(String, u64)],
    ) -> (r: String)
        requires
            tunnels_live + tunnels_dangling <= usize::MAX,
        ensures
            exists|now: u64|
                r@ == self.exposition(
                    now,
                    tunnels_live,
                    tunnels_dangling,
                    per_identity_bytes@,
                ),
    {
        let now = unix_secs();
        self.to_prometheus_text_at(now, tunnels_live, tunnels_dangling, per_identity_bytes)
    }

    /// The scrape of these counters at the UNIX second `now`.
    pub fn to_prometheus_text_at(
        &self,
        now: u64,
        tunnels_live: usize,
        tunnels_dangling: usize,
        per_identity_bytes: &[(String, u64)],
    ) -> (r: String)
        requires
            tunnels_live + tunnels_dangling <= usize::MAX,
        ensures
            r@ == self.exposition(now, tunnels_live, tunnels_dangling, per_identity_bytes@),
    {
        let uptime: u64 = if now >= self.process_start_unix_secs {
            now - self.process_start_unix_secs
        } else {
            0
        };
        let mut out = String::new();
        push_gauges(&mut out, uptime, tunnels_live, tunnels_dangling);
        push_samples(&mut out, &self.samples());
        out.append(
            "# HELP krot_bytes_period_used Bytes counted against the identity's period quota.\n",
        );
        out.append("# TYPE krot_bytes_period_used counter\n");
        proof {
            let g = gauges_text(uptime as nat, tunnels_live as nat, tunnels_dangling as nat);
            assert(Seq::<char>::empty() + g =~= g);
            let a = g + samples_text(self.catalog());
            let h1 =
                "# HELP krot_bytes_period_used Bytes counted against the identity's period quota.\n"@;
            let h2 = "# TYPE krot_bytes_period_used counter\n"@;
            assert((a + h1) + h2 =~= a + (h1 + h2));
        }
        push_identities(&mut out, per_identity_bytes);
        out
    }
}

/// What a list of samples says.
pub open spec fn sample_views(samples: Seq<Sample>) -> Seq<(Seq<char>, Seq<char>, u64)> {
    Seq::new(samples.len(), |i: int| (samples[i].name@, samples[i].help@, samples[i].value))
}

fn push_gauges(out: &mut String, uptime: u64, live: usize, dangling: usize)
    requires
        live + dangling <= usize::MAX,
    ensures
        final(out)@ == old(out)@ + gauges_text(uptime as nat, live as nat, dangling as nat),
{
    let mut g = "# HELP krot_uptime_seconds Seconds since the server process started.\n".to_owned();
    g.append("# TYPE krot_uptime_seconds gauge\n");
    g.append("krot_uptime_seconds ");
    push_u64(&mut g, uptime);
    g.append("\n");
    g.append("# HELP krot_build_info Static build metadata as labels; value is always 1.\n");
    g.append("# TYPE krot_build_info gauge\n");
    g.append("krot_build_info{version=\"");
    g.append(VERSION);
    g.append("\"} 1\n");
    g.append("# HELP krot_tunnels_total Tunnels currently in the registry (live + dangling).\n");
    g.append("# TYPE krot_tunnels_total gauge\n");
    g.append("krot_tunnels_total ");
    push_u64(&mut g, (live + dangling) as u64);
    g.append("\n");
    g.append("# HELP krot_tunnels_dangling_total Dangling tunnels in the §7.3 grace window.\n");
    g.append("# TYPE krot_tunnels_dangling_total gauge\n");
    g.append("krot_tunnels_dangling_total ");
    push_u64(&mut g, dangling as u64);
    g.append("\n");
    out.append(g.as_str());
}

fn counter(out: &mut String, name: &str, help: &str, value: u64)
    ensures
        final(out)@ == old(out)@ + counter_text(name@, help@, value),
{
    let mut line = name.to_owned();
    line.append(" ");
    push_u64(&mut line, value);
    line.append("\n");
    let mut c = "# HELP ".to_owned();
    c.append(name);
    c.append(" ");
    c.append(help);
    c.append("\n");
    c.append("# TYPE ");
    c.append(name);
    c.append(" counter\n");
    c.append(line.as_str());
    out.append(c.as_str());
}

fn push_samples(out: &mut String, samples: &Vec<Sample>)
    ensures
        final(out)@ == old(out)@ + samples_text(sample_views(samples@)),
{
    let ghost start = out@;
    let ghost all = sample_views(samples@);
    assert(start + samples_text(all.take(0)) =~= start);
    for i in 0..samples.len()
        invariant
            all == sample_views(samples@),
            out@ == start + samples_text(all.take(i as int)),
    {
        let s = &samples[i];
        counter(out, s.name, s.help, s.value);
        proof {
            let t = all.take(i + 1);
            assert(t.drop_last() =~= all.take(i as int));
            assert(out@ =~= start + samples_text(t));
        }
    }
    assert(all.take(all.len() as int) =~= all);
}

fn push_identities(out: &mut String, used: &[(String, u64)])
    ensures
        final(out)@ == old(out)@ + identities_text(used@),
{
    let ghost start = out@;
    assert(start + identities_text(used@.take(0)) =~= start);
    for i in 0..used.len()
        invariant
            out@ == start + identities_text(used@.take(i as int)),
    {
        let (pubkey, bytes) = &used[i];
        out.append("krot_bytes_period_used{pubkey=\"");
        out.append(pubkey.as_str());
        out.append("\"} ");
        push_u64(out, *bytes);
        out.append("\n");
        proof {
            let t = used@.take(i + 1);
            assert(t.drop_last() =~= used@.take(i as int));
            assert(out@ =~= start + identities_text(t));
        }
    }
    assert(used@.take(used@.len() as int) =~= used@);
}

} // verus!
