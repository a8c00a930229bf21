//! What the texts of limits mean, and what the limits do over time.

use crate::proto::frames::ServerFrame;
use crate::proto::ids::TunnelId;
use crate::server::rate::{
    bytes_spec, digits_len, per_core_rate, period_spec, rate_spec, unit_spec, Charge, Period, RateLimitState,
    RatePer,
};
use crate::text::{all_space, dec, is_digit_spec, is_space_spec, lemma_dec_roundtrip, trim_spec, uint_spec};
use crate::text_laws::{law_cut_last, law_cut_last_of_joined, law_trim_keeps_tight, tight};
use vstd::prelude::*;

verus! {

/// The decimal units, each a thousand of the one before.
pub open spec fn decimal_unit(k: int) -> Seq<char> {
    if k == 0 {
        "B"@
    } else if k == 1 {
        "KB"@
    } else if k == 2 {
        "MB"@
    } else if k == 3 {
        "GB"@
    } else {
        "TB"@
    }
}

/// The binary units, each 1024 of the one before.
pub open spec fn binary_unit(k: int) -> Seq<char> {
    if k == 0 {
        "B"@
    } else if k == 1 {
        "KiB"@
    } else if k == 2 {
        "MiB"@
    } else if k == 3 {
        "GiB"@
    } else {
        "TiB"@
    }
}

/// A power.
pub open spec fn power(base: nat, k: nat) -> nat
    decreases k,
{
    if k == 0 {
        1
    } else {
        base * power(base, (k - 1) as nat)
    }
}

proof fn lemma_unit_texts()
    ensures
        ""@.len() == 0,
        "B"@ == seq!['B'],
        "KB"@ == seq!['K', 'B'],
        "kB"@ == seq!['k', 'B'],
        "KiB"@ == seq!['K', 'i', 'B'],
        "MB"@ == seq!['M', 'B'],
        "MiB"@ == seq!['M', 'i', 'B'],
        "GB"@ == seq!['G', 'B'],
        "GiB"@ == seq!['G', 'i', 'B'],
        "TB"@ == seq!['T', 'B'],
        "TiB"@ == seq!['T', 'i', 'B'],
{
    reveal_strlit("");
    reveal_strlit("B");
    reveal_strlit("KB");
    reveal_strlit("kB");
    reveal_strlit("KiB");
    reveal_strlit("MB");
    reveal_strlit("MiB");
    reveal_strlit("GB");
    reveal_strlit("GiB");
    reveal_strlit("TB");
    reveal_strlit("TiB");
    assert("B"@ =~= seq!['B']);
    assert("KB"@ =~= seq!['K', 'B']);
    assert("kB"@ =~= seq!['k', 'B']);
    assert("KiB"@ =~= seq!['K', 'i', 'B']);
    assert("MB"@ =~= seq!['M', 'B']);
    assert("MiB"@ =~= seq!['M', 'i', 'B']);
    assert("GB"@ =~= seq!['G', 'B']);
    assert("GiB"@ =~= seq!['G', 'i', 'B']);
    assert("TB"@ =~= seq!['T', 'B']);
    assert("TiB"@ =~= seq!['T', 'i', 'B']);
}

/// Whether a text is a unit of bytes.
pub open spec fn is_unit(u: Seq<char>) -> bool {
    ||| u.len() == 0
    ||| u == "kB"@
    ||| exists|k: int| 0 <= k <= 4 && u == #[trigger] decimal_unit(k)
    ||| exists|k: int| 0 <= k <= 4 && u == #[trigger] binary_unit(k)
}

/// The units form two ladders that start at one byte: the decimal ones climb
/// by 1000, the binary ones by 1024. Nothing else is a unit.
pub proof fn law_units_form_ladders(k: nat, u: Seq<char>)
    requires
        k <= 4,
    ensures
        unit_spec(decimal_unit(k as int)) == Some(power(1000, k) as u64),
        unit_spec(binary_unit(k as int)) == Some(power(1024, k) as u64),
        power(1000, k) <= u64::MAX && power(1024, k) <= u64::MAX,
        unit_spec("kB"@) == unit_spec("KB"@),
        u.len() == 0 ==> unit_spec(u) == unit_spec("B"@),
        unit_spec(u) is Some <==> is_unit(u),
{
    lemma_unit_texts();
    reveal_with_fuel(power, 6);
    assert(power(1000, 4) == 1_000_000_000_000) by {
        assert(power(1000, 1) == 1000);
        assert(power(1000, 2) == 1_000_000);
        assert(power(1000, 3) == 1_000_000_000);
    }
    assert(power(1024, 4) == 1_099_511_627_776) by {
        assert(power(1024, 1) == 1024);
        assert(power(1024, 2) == 1_048_576);
        assert(power(1024, 3) == 1_073_741_824);
    }
    let d = decimal_unit(k as int);
    let b = binary_unit(k as int);
    assert(d.len() <= 3 && b.len() <= 3);
    assert(k == 1 ==> d[0] == 'K' && b[0] == 'K');
    assert(k == 2 ==> d[0] == 'M' && b[0] == 'M');
    assert(k == 3 ==> d[0] == 'G' && b[0] == 'G');
    assert(k == 4 ==> d[0] == 'T' && b[0] == 'T');
    assert("KB"@[0] == 'K' && "MB"@[0] == 'M' && "GB"@[0] == 'G' && "TB"@[0] == 'T' && "kB"@[0]
        == 'k');
    assert("KiB"@[0] == 'K' && "MiB"@[0] == 'M' && "GiB"@[0] == 'G' && "TiB"@[0] == 'T');
    if u.len() == 0 {
        assert(u =~= ""@);
    }
    assert(u == "B"@ ==> u == decimal_unit(0));
    assert(u == "KB"@ ==> u == decimal_unit(1));
    assert(u == "MB"@ ==> u == decimal_unit(2));
    assert(u == "GB"@ ==> u == decimal_unit(3));
    assert(u == "TB"@ ==> u == decimal_unit(4));
    assert(u == "KiB"@ ==> u == binary_unit(1));
    assert(u == "MiB"@ ==> u == binary_unit(2));
    assert(u == "GiB"@ ==> u == binary_unit(3));
    assert(u == "TiB"@ ==> u == binary_unit(4));
}

/// The words for a period.
pub open spec fn period_words(p: Period) -> Seq<Seq<char>> {
    match p {
        Period::Second => seq!["second"@, "sec"@, "s"@],
        Period::Minute => seq!["minute"@, "min"@, "m"@],
        Period::Hour => seq!["hour"@, "hr"@, "h"@],
        Period::Day => seq!["day"@, "d"@],
        Period::Week => seq!["week"@, "w"@],
        Period::Month => seq!["month"@, "mo"@],
    }
}

/// Each word names one period, and no other text names any.
pub proof fn law_words_name_periods(p: Period, w: Seq<char>)
    ensures
        period_spec(w) == Some(p) <==> period_words(p).contains(w),
{
    reveal_strlit("s");
    reveal_strlit("sec");
    reveal_strlit("second");
    reveal_strlit("m");
    reveal_strlit("min");
    reveal_strlit("minute");
    reveal_strlit("h");
    reveal_strlit("hr");
    reveal_strlit("hour");
    reveal_strlit("d");
    reveal_strlit("day");
    reveal_strlit("w");
    reveal_strlit("week");
    reveal_strlit("mo");
    reveal_strlit("month");
    assert("s"@[0] == 's' && "sec"@[0] == 's' && "second"@[0] == 's');
    assert("m"@[0] == 'm' && "min"@[1] == 'i' && "minute"@[1] == 'i');
    assert("h"@[0] == 'h' && "hr"@[0] == 'h' && "hour"@[0] == 'h');
    assert("d"@[0] == 'd' && "day"@[0] == 'd' && "w"@[0] == 'w' && "week"@[0] == 'w');
    assert("mo"@[1] == 'o' && "month"@[1] == 'o' && "mo"@[0] == 'm' && "month"@[0] == 'm');
    assert("min"@[0] == 'm' && "minute"@[0] == 'm');
    assert(period_spec("s"@) == Some(Period::Second));
    assert(period_spec("sec"@) == Some(Period::Second));
    assert(period_spec("second"@) == Some(Period::Second));
    assert(period_spec("m"@) == Some(Period::Minute));
    assert(period_spec("min"@) == Some(Period::Minute));
    assert(period_spec("minute"@) == Some(Period::Minute));
    assert(period_spec("h"@) == Some(Period::Hour));
    assert(period_spec("hr"@) == Some(Period::Hour));
    assert(period_spec("hour"@) == Some(Period::Hour));
    assert(period_spec("d"@) == Some(Period::Day));
    assert(period_spec("day"@) == Some(Period::Day));
    assert(period_spec("w"@) == Some(Period::Week));
    assert(period_spec("week"@) == Some(Period::Week));
    assert("s"@.len() == 1 && "sec"@.len() == 3 && "second"@.len() == 6 && "m"@.len() == 1);
    assert("min"@.len() == 3 && "minute"@.len() == 6 && "h"@.len() == 1 && "hr"@.len() == 2);
    assert("hour"@.len() == 4 && "d"@.len() == 1 && "day"@.len() == 3 && "w"@.len() == 1);
    assert("week"@.len() == 4 && "mo"@.len() == 2 && "month"@.len() == 5);
    assert(period_spec("mo"@) == Some(Period::Month));
    assert(period_spec("month"@) == Some(Period::Month));
    let ws = period_words(p);
    if period_spec(w) == Some(p) {
        assert(ws[0] == w || ws[1] == w || (ws.len() == 3 && ws[2] == w));
    }
    if ws.contains(w) {
        let i = choose|i: int| 0 <= i < ws.len() && ws[i] == w;
        assert(w == ws[0] || w == ws[1] || (ws.len() == 3 && w == ws[2]));
    }
}

/// The periods by their lengths: a minute is sixty seconds, an hour sixty
/// minutes, a day 24 hours, a week seven days, and a month thirty.
pub proof fn law_periods_by_length()
    ensures
        Period::Second.secs() == 1,
        Period::Minute.secs() == 60 * Period::Second.secs(),
        Period::Hour.secs() == 60 * Period::Minute.secs(),
        Period::Day.secs() == 24 * Period::Hour.secs(),
        Period::Week.secs() == 7 * Period::Day.secs(),
        Period::Month.secs() == 30 * Period::Day.secs(),
{
}

proof fn lemma_digits_then(d: Seq<char>, rest: Seq<char>)
    requires
        forall|i: int| 0 <= i < d.len() ==> is_digit_spec(#[trigger] d[i]),
        rest.len() == 0 || !is_digit_spec(rest[0]),
    ensures
        digits_len(d + rest) == d.len(),
    decreases d.len(),
{
    if d.len() == 0 {
        assert(d + rest =~= rest);
    } else {
        assert(is_digit_spec(d[0]));
        assert((d + rest).drop_first() =~= d.drop_first() + rest);
        assert forall|i: int| 0 <= i < d.drop_first().len() implies is_digit_spec(
            #[trigger] d.drop_first()[i],
        ) by {
            assert(d.drop_first()[i] == d[i + 1]);
        }
        lemma_digits_then(d.drop_first(), rest);
    }
}

proof fn lemma_unit_shape(u: Seq<char>)
    requires
        is_unit(u),
    ensures
        tight(u),
        u.len() > 0 ==> !is_digit_spec(u[0]),
        !u.contains('/'),
{
    lemma_unit_texts();
    if u.contains('/') {
        let k = choose|k: int| 0 <= k < u.len() && u[k] == '/';
        assert(u.len() <= 3);
        assert(k == 0 || k == 1 || k == 2);
    }
}

proof fn lemma_word_shape(p: Period, w: Seq<char>)
    requires
        period_words(p).contains(w),
    ensures
        tight(w),
        !w.contains('/'),
{
    reveal_strlit("s");
    reveal_strlit("sec");
    reveal_strlit("second");
    reveal_strlit("m");
    reveal_strlit("min");
    reveal_strlit("minute");
    reveal_strlit("h");
    reveal_strlit("hr");
    reveal_strlit("hour");
    reveal_strlit("d");
    reveal_strlit("day");
    reveal_strlit("w");
    reveal_strlit("week");
    reveal_strlit("mo");
    reveal_strlit("month");
    let ws = period_words(p);
    let i = choose|i: int| 0 <= i < ws.len() && ws[i] == w;
    assert(i == 0 || i == 1 || i == 2);
    if w.contains('/') {
        let k = choose|k: int| 0 <= k < w.len() && w[k] == '/';
        assert(w.len() <= 6);
        assert(k == 0 || k == 1 || k == 2 || k == 3 || k == 4 || k == 5);
    }
}

proof fn lemma_amount(n: nat, gap: Seq<char>, u: Seq<char>)
    requires
        all_space(gap),
        is_unit(u),
        gap.len() > 0 ==> u.len() > 0,
    ensures
        tight(dec(n) + gap + u),
        !(dec(n) + gap + u).contains('/'),
        bytes_spec(dec(n) + gap + u) == (if n <= u64::MAX && n * unit_spec(u)->0 <= u64::MAX {
            Some((n * unit_spec(u)->0) as u64)
        } else {
            None
        }),
{
    let d = dec(n);
    let s = d + gap + u;
    lemma_dec_roundtrip(n);
    law_units_form_ladders(0, u);
    lemma_unit_shape(u);
    let rest = gap + u;
    assert(s =~= d + rest);
    assert(is_digit_spec(d[0]));
    assert(rest.len() == 0 || !is_digit_spec(rest[0])) by {
        if gap.len() > 0 {
            assert(is_space_spec(gap[0]));
        }
    }
    lemma_digits_then(d, rest);
    assert(s.take(d.len() as int) =~= d);
    assert(s.skip(d.len() as int) =~= rest);
    assert(rest =~= gap + u + Seq::<char>::empty());
    law_trim_keeps_tight(gap, u, Seq::empty());
    assert(uint_spec(d, u64::MAX as nat) == (if n <= u64::MAX {
        Some(n)
    } else {
        None
    }));
    assert(s[0] == d[0]);
    if rest.len() > 0 {
        assert(u.len() > 0);
        assert(s.last() == u.last());
    } else {
        assert(s =~= d);
        assert(is_digit_spec(d[d.len() - 1]));
    }
    if s.contains('/') {
        let k = choose|k: int| 0 <= k < s.len() && s[k] == '/';
        if k < d.len() {
            assert(is_digit_spec(d[k]));
        } else if k < d.len() + gap.len() {
            assert(is_space_spec(gap[k - d.len()]));
        } else {
            assert(u[k - d.len() - gap.len()] == '/');
        }
    }
}

/// A rate is written as a number, a unit, a slash and a word for a period,
/// with white space between them or not: it stands for that many units in
/// each period, as long as the bytes can be counted, and else for nothing.
pub proof fn law_rate_is_units_per_period(
    a: Seq<char>,
    n: nat,
    gap: Seq<char>,
    u: Seq<char>,
    b: Seq<char>,
    c: Seq<char>,
    p: Period,
    w: Seq<char>,
    e: Seq<char>,
)
    requires
        all_space(a) && all_space(gap) && all_space(b) && all_space(c) && all_space(e),
        is_unit(u),
        gap.len() > 0 ==> u.len() > 0,
        period_words(p).contains(w),
    ensures
        rate_spec(a + (dec(n) + gap + u) + b + seq!['/'] + (c + w + e)) == (if n <= u64::MAX && n
            * unit_spec(u)->0 <= u64::MAX {
            Some(RatePer { bytes: (n * unit_spec(u)->0) as u64, period: p })
        } else {
            None
        }),
{
    let amount = dec(n) + gap + u;
    lemma_amount(n, gap, u);
    law_words_name_periods(p, w);
    lemma_word_shape(p, w);
    let back = c + w + e;
    assert(!back.contains('/')) by {
        if back.contains('/') {
            let k = choose|k: int| 0 <= k < back.len() && back[k] == '/';
            if k < c.len() {
                assert(is_space_spec(c[k]));
            } else if k < c.len() + w.len() {
                assert(w[k - c.len()] == '/');
            } else {
                assert(is_space_spec(e[k - c.len() - w.len()]));
            }
        }
    }
    law_cut_last_of_joined(a + amount + b, '/', back);
    law_trim_keeps_tight(a, amount, b);
    law_trim_keeps_tight(c, w, e);
}

/// The same in powers: `n` of the unit at step `k` of a ladder is `n` times
/// 1000 or 1024 to the power `k`.
pub proof fn law_rate_in_powers(n: nat, k: nat, p: Period, w: Seq<char>)
    requires
        k <= 4,
        period_words(p).contains(w),
    ensures
        rate_spec(dec(n) + decimal_unit(k as int) + seq!['/'] + w) == (if n * power(1000, k)
            <= u64::MAX {
            Some(RatePer { bytes: (n * power(1000, k)) as u64, period: p })
        } else {
            None
        }),
        rate_spec(dec(n) + binary_unit(k as int) + seq!['/'] + w) == (if n * power(1024, k)
            <= u64::MAX {
            Some(RatePer { bytes: (n * power(1024, k)) as u64, period: p })
        } else {
            None
        }),
        rate_spec(dec(n) + seq!['/'] + w) == (if n <= u64::MAX {
            Some(RatePer { bytes: n as u64, period: p })
        } else {
            None
        }),
{
    let o = Seq::<char>::empty();
    let d = decimal_unit(k as int);
    let b = binary_unit(k as int);
    law_units_form_ladders(k, d);
    law_units_form_ladders(0, o);
    reveal_with_fuel(power, 2);
    lemma_power_positive(1000, k);
    lemma_power_positive(1024, k);
    let m = power(1000, k);
    let m2 = power(1024, k);
    assert(n <= n * m) by (nonlinear_arith)
        requires
            m >= 1,
    ;
    assert(n <= n * m2) by (nonlinear_arith)
        requires
            m2 >= 1,
    ;
    assert(is_unit(d) && is_unit(b) && is_unit(o));
    law_rate_is_units_per_period(o, n, o, d, o, o, p, w, o);
    law_rate_is_units_per_period(o, n, o, b, o, o, p, w, o);
    law_rate_is_units_per_period(o, n, o, o, o, o, p, w, o);
    assert(o + (dec(n) + o + d) + o + seq!['/'] + (o + w + o) =~= dec(n) + d + seq!['/'] + w);
    assert(o + (dec(n) + o + b) + o + seq!['/'] + (o + w + o) =~= dec(n) + b + seq!['/'] + w);
    assert(o + (dec(n) + o + o) + o + seq!['/'] + (o + w + o) =~= dec(n) + seq!['/'] + w);
    assert(unit_spec(o) == Some(1u64)) by {
        law_units_form_ladders(0, o);
        assert(decimal_unit(0) == "B"@);
    }
    let one = 1u64;
    assert(n * one == n) by (nonlinear_arith)
        requires
            one == 1,
    ;
}

proof fn lemma_power_positive(base: nat, k: nat)
    requires
        base >= 1,
    ensures
        power(base, k) >= 1,
    decreases k,
{
    if k > 0 {
        lemma_power_positive(base, (k - 1) as nat);
        let q = power(base, (k - 1) as nat);
        assert(base * q >= 1) by (nonlinear_arith)
            requires
                base >= 1,
                q >= 1,
        ;
    }
}

/// What reads as a rate holds a slash; behind the last one stands a word for
/// the rate's period, and before it digits and a unit.
pub proof fn law_rate_names_its_period(s: Seq<char>)
    requires
        rate_spec(s) is Some,
    ensures
        exists|a: Seq<char>, b: Seq<char>|
            s == #[trigger] (a + seq!['/'] + b) && period_words((rate_spec(s)->0).period).contains(
                trim_spec(b),
            ) && trim_spec(a).len() > 0 && is_unit(
                trim_spec(trim_spec(a).skip(digits_len(trim_spec(a)))),
            ),
{
    law_cut_last(s, '/');
    let (a, b) = crate::text::cut_last(s, '/')->0;
    law_words_name_periods((rate_spec(s)->0).period, trim_spec(b));
    let t = trim_spec(a);
    law_units_form_ladders(0, trim_spec(t.skip(digits_len(t))));
    if t.len() == 0 {
        assert(t.take(0) =~= Seq::empty());
    }
    assert(s == a + seq!['/'] + b);
}

/// Before the deadline a charge adds to the counter and leaves the deadline;
/// at or after it, the counter starts from the charge alone, and the deadline
/// lies one period on. The charge is accepted exactly when the counter then
/// stays within the quota.
pub proof fn law_counter_sums_within_a_period(
    pre: RateLimitState,
    post: RateLimitState,
    tunnel_id: TunnelId,
    n: u64,
    now: u128,
    later: u128,
    r: Charge,
)
    requires
        pre.quota_cap is Some,
        now <= crate::clock::max_nanos(),
        pre.charged(post, tunnel_id, n, now, later, r),
    ensures
        now < pre.quota_reset_at ==> {
            &&& post.quota_reset_at == pre.quota_reset_at
            &&& pre.quota_used + n <= u64::MAX ==> post.quota_used == pre.quota_used + n
            &&& r is Accepted <==> pre.quota_used + n <= pre.quota_cap->0
        },
        now >= pre.quota_reset_at ==> {
            &&& post.quota_used == n
            &&& post.quota_reset_at == now + pre.quota_period.secs() * 1_000_000_000
            &&& r is Accepted <==> n <= pre.quota_cap->0
        },
        post.quota_cap == pre.quota_cap,
        post.quota_period == pre.quota_period,
{
}

/// A breach tells how long to wait: to the millisecond, rounded down, until
/// the deadline, as far as 32 bits can say. A live session is told the same,
/// in a frame behind those that already wait, and an accepted charge tells nothing.
pub proof fn law_breach_tells_the_wait(
    pre: RateLimitState,
    post: RateLimitState,
    tunnel_id: TunnelId,
    n: u64,
    now: u128,
    later: u128,
    r: Charge,
)
    requires
        pre.charged(post, tunnel_id, n, now, later, r),
    ensures
        r matches Charge::QuotaExceeded { retry_after_ms } ==> {
            let left = post.quota_reset_at - later;
            &&& left <= 0 ==> retry_after_ms == 0
            &&& 0 < left < 4_294_967_296_000_000 ==> retry_after_ms * 1_000_000 <= left < (
            retry_after_ms + 1) * 1_000_000
            &&& left >= 4_294_967_296_000_000 ==> retry_after_ms == u32::MAX
            &&& pre.ctrl matches Some(q) ==> post.ctrl is Some && post.ctrl->0@.len() == q@.len() + 1
                && post.ctrl->0@.drop_last() == q@ && post.ctrl->0@.last()
                == (ServerFrame::RateLimit { tunnel_id: Some(tunnel_id), retry_after_ms })
            &&& pre.ctrl is None ==> post.ctrl is None
        },
        r is Accepted ==> post.ctrl == pre.ctrl,
{
    if r is QuotaExceeded && pre.ctrl is Some {
        assert(post.ctrl->0@.drop_last() =~= pre.ctrl->0@);
    }
}

/// The buckets share the declared rate: together they stay within it, and
/// within what 32 bits can say, unless each has the least rate there is; one
/// more byte per second in each would exceed it.
pub proof fn law_buckets_use_the_cap(rate: RatePer, partitions: nat)
    requires
        partitions > 0,
    ensures
        per_core_rate(rate, partitions) >= 1,
        per_core_rate(rate, partitions) == 1 || per_core_rate(rate, partitions) * partitions
            <= rate.bytes_per_second(),
        per_core_rate(rate, partitions) == 1 || per_core_rate(rate, partitions) * partitions <= u32::MAX,
        (per_core_rate(rate, partitions) + 1) * partitions > rate.bytes_per_second() || (per_core_rate(
            rate,
            partitions,
        ) + 1) * partitions > u32::MAX,
{
    let total = if rate.bytes_per_second() <= u32::MAX {
        rate.bytes_per_second()
    } else {
        u32::MAX as int
    };
    let p = partitions as int;
    vstd::arithmetic::div_mod::lemma_fundamental_div_mod(total, p);
    vstd::arithmetic::div_mod::lemma_mod_bound(total, p);
    let q = total / p;
    let r = per_core_rate(rate, partitions);
    assert((r + 1) * p > total) by (nonlinear_arith)
        requires
            total == p * q + total % p,
            0 <= total % p < p,
            r >= q,
            p > 0,
    ;
    if r != 1 {
        assert(r * p <= total) by (nonlinear_arith)
            requires
                total == p * q + total % p,
                0 <= total % p,
                r == q,
        ;
    }
}

/// Fresh limits are the declared ones: the first charge of the first period is
/// accepted exactly when the quota holds it, the period begins with the state,
/// and the bandwidth is split over the workers, of which there is at least one.
pub proof fn law_fresh_limits_are_the_declared_ones(
    s: RateLimitState,
    post: RateLimitState,
    bw: Option<RatePer>,
    quota: Option<RatePer>,
    workers: usize,
    tunnel_id: TunnelId,
    n: u64,
    now: u128,
    later: u128,
    r: Charge,
    i: int,
)
    requires
        s.fresh(bw, quota, workers),
        s.charged(post, tunnel_id, n, now, later, r),
    ensures
        quota is None ==> r == Charge::Accepted,
        quota matches Some(q) ==> (r == Charge::Accepted <==> n <= q.bytes),
        quota matches Some(q) ==> s.quota_reset_at == q.period.secs() * 1_000_000_000,
        quota is Some && now < s.quota_reset_at ==> post.quota_used == n && post.quota_reset_at
            == s.quota_reset_at,
        bw is Some <==> s.bw is Some,
        bw is Some && workers > 0 ==> s.bw->0@.len() == workers,
        bw is Some && workers == 0 ==> s.bw->0@.len() == 1,
        bw is Some && 0 <= i < s.bw->0@.len() ==> s.bw->0@[i] == 1 || s.bw->0@[i] * s.bw->0@.len()
            <= bw->0.bytes_per_second(),
        bw is Some && 0 <= i < s.bw->0@.len() && bw->0.bytes_per_second() <= u32::MAX ==> (s.bw->0@[i] + 1)
            * s.bw->0@.len() > bw->0.bytes_per_second(),
        s.ctrl is None,
{
    if bw is Some {
        let k = s.bw->0@.len();
        law_buckets_use_the_cap(bw->0, k);
        if 0 <= i < k {
            let c = s.bw->0@[i] as int;
            assert(c == per_core_rate(bw->0, k));
            if bw->0.bytes_per_second() <= u32::MAX {
                assert((c + 1) * (k as int) > bw->0.bytes_per_second());
            }
        }
    }
}

} // verus!
