//! What a `ClientHello` says, whatever else it carries.

use crate::server::domain::sni::{
    alpn_bytes, alpn_list, be_bytes, be_value, byte_views, client_hello, extension, extensions_spec, first_host,
    hello_body, hello_extensions, hello_spec, is_protocol, lemma_alpn_data, lemma_be_len, lemma_be_value,
    lemma_hello_body, lemma_hello_read, lemma_sni_data, lemma_take_extension, lemma_take_vec, lowered, peek_spec,
    prefixed, PeekStep, MAX_HELLO,
};
use vstd::prelude::*;
use vstd::utf8::{decode_utf8, valid_utf8};

verus! {

/// Extensions one behind the other, each by its kind and its data.
pub open spec fn joined_extensions(exts: Seq<(nat, Seq<u8>)>) -> Seq<u8>
    decreases exts.len(),
{
    if exts.len() == 0 {
        Seq::empty()
    } else {
        extension(exts[0].0, exts[0].1) + joined_extensions(exts.skip(1))
    }
}

/// Whether the kind and the length of each extension fit two bytes.
pub open spec fn writable(exts: Seq<(nat, Seq<u8>)>) -> bool {
    forall|i: int|
        0 <= i < exts.len() ==> (#[trigger] exts[i]).0 < 65536 && exts[i].1.len() < 65536
}

/// The data of an SNI extension with one host name.
pub open spec fn sni_data(name: Seq<u8>) -> Seq<u8> {
    prefixed(seq![0u8] + prefixed(name, 2), 2)
}

/// The data of an ALPN extension with these identifiers.
pub open spec fn alpn_data(ids: Seq<Seq<u8>>) -> Seq<u8> {
    prefixed(alpn_bytes(ids), 2)
}

/// An extension of another kind than SNI and ALPN changes nothing, whatever
/// its data and whatever stands behind it.
pub proof fn law_other_extension_changes_nothing(
    kind: nat,
    data: Seq<u8>,
    rest: Seq<u8>,
    name: Option<Seq<char>>,
    alpn: Seq<Seq<u8>>,
)
    requires
        kind < 65536,
        data.len() < 65536,
        kind != 0x0000,
        kind != 0x0010,
    ensures
        extensions_spec(extension(kind, data) + rest, name, alpn) == extensions_spec(rest, name, alpn),
{
    lemma_take_extension(kind, data, rest);
}

/// An SNI extension gives the name, and an ALPN extension the identifiers, in
/// place of those of an earlier one, whatever stands behind it.
pub proof fn law_extension_gives_its_part(
    host: Seq<u8>,
    ids: Seq<Seq<u8>>,
    rest: Seq<u8>,
    name: Option<Seq<char>>,
    alpn: Seq<Seq<u8>>,
)
    requires
        valid_utf8(host),
        sni_data(host).len() < 65536,
        forall|i: int| 0 <= i < ids.len() ==> (#[trigger] ids[i]).len() < 256,
        alpn_data(ids).len() < 65536,
    ensures
        extensions_spec(extension(0x0000, sni_data(host)) + rest, name, alpn) == extensions_spec(
            rest,
            Some(decode_utf8(host)),
            alpn,
        ),
        extensions_spec(extension(0x0010, alpn_data(ids)) + rest, name, alpn) == extensions_spec(
            rest,
            name,
            ids,
        ),
{
    lemma_be_len(host.len(), 2);
    lemma_be_len((seq![0u8] + prefixed(host, 2)).len(), 2);
    lemma_be_len(alpn_bytes(ids).len(), 2);
    lemma_take_extension(0x0000, sni_data(host), rest);
    lemma_sni_data(host);
    lemma_take_extension(0x0010, alpn_data(ids), rest);
    lemma_alpn_data(ids);
}

/// Whether an extension of this kind is among `exts`.
pub open spec fn has_kind(exts: Seq<(nat, Seq<u8>)>, kind: nat) -> bool {
    exists|i: int| 0 <= i < exts.len() && (#[trigger] exts[i]).0 == kind
}

proof fn lemma_joined_reads(
    exts: Seq<(nat, Seq<u8>)>,
    host: Seq<u8>,
    ids: Seq<Seq<u8>>,
    name: Option<Seq<char>>,
    alpn: Seq<Seq<u8>>,
)
    requires
        writable(exts),
        valid_utf8(host),
        forall|i: int| 0 <= i < ids.len() ==> (#[trigger] ids[i]).len() < 256,
        forall|i: int|
            0 <= i < exts.len() && (#[trigger] exts[i]).0 == 0x0000 ==> exts[i].1 == sni_data(host),
        forall|i: int|
            0 <= i < exts.len() && (#[trigger] exts[i]).0 == 0x0010 ==> exts[i].1 == alpn_data(ids),
    ensures
        extensions_spec(joined_extensions(exts), name, alpn) == Ok::<
            (Option<Seq<char>>, Seq<Seq<u8>>),
            Seq<char>,
        >(
            (
                if has_kind(exts, 0x0000) {
                    Some(decode_utf8(host))
                } else {
                    name
                },
                if has_kind(exts, 0x0010) {
                    ids
                } else {
                    alpn
                },
            ),
        ),
    decreases exts.len(),
{
    if exts.len() > 0 {
        let (kind, data) = exts[0];
        let rest = exts.skip(1);
        assert forall|i: int| 0 <= i < rest.len() implies (#[trigger] rest[i]) == exts[i + 1] by {}
        assert(writable(rest)) by {
            assert forall|i: int| 0 <= i < rest.len() implies (#[trigger] rest[i]).0 < 65536
                && rest[i].1.len() < 65536 by {
                assert(rest[i] == exts[i + 1]);
            }
        }
        let next_name = if kind == 0x0000 {
            Some(decode_utf8(host))
        } else {
            name
        };
        let next_alpn = if kind == 0x0010 {
            ids
        } else {
            alpn
        };
        lemma_joined_reads(rest, host, ids, next_name, next_alpn);
        let tail = joined_extensions(rest);
        if kind == 0x0000 {
            lemma_be_len(host.len(), 2);
            lemma_be_len((seq![0u8] + prefixed(host, 2)).len(), 2);
            lemma_take_extension(0x0000, data, tail);
            lemma_sni_data(host);
        } else if kind == 0x0010 {
            lemma_be_len(alpn_bytes(ids).len(), 2);
            lemma_take_extension(0x0010, data, tail);
            lemma_alpn_data(ids);
        } else {
            law_other_extension_changes_nothing(kind, data, tail, name, alpn);
        }
        assert(has_kind(exts, 0x0000) == (kind == 0x0000 || has_kind(rest, 0x0000))) by {
            lemma_has_kind(exts, 0x0000);
        }
        assert(has_kind(exts, 0x0010) == (kind == 0x0010 || has_kind(rest, 0x0010))) by {
            lemma_has_kind(exts, 0x0010);
        }
    }
}

proof fn lemma_has_kind(exts: Seq<(nat, Seq<u8>)>, kind: nat)
    requires
        exts.len() > 0,
    ensures
        has_kind(exts, kind) == (exts[0].0 == kind || has_kind(exts.skip(1), kind)),
{
    let rest = exts.skip(1);
    if has_kind(exts, kind) {
        let i = choose|i: int| 0 <= i < exts.len() && (#[trigger] exts[i]).0 == kind;
        if i > 0 {
            assert(rest[i - 1] == exts[i]);
        }
    }
    if has_kind(rest, kind) {
        let i = choose|i: int| 0 <= i < rest.len() && (#[trigger] rest[i]).0 == kind;
        assert(exts[i + 1] == rest[i]);
    }
    if exts[0].0 == kind {
        assert(exts[0].0 == kind);
    }
}

/// A hello reads back with any extensions around SNI and ALPN, in any order:
/// with one SNI extension for `host` and at most one for `ids`, it gives this
/// name and these identifiers.
pub proof fn law_hello_reads_back_among_others(
    front: Seq<u8>,
    sid: Seq<u8>,
    suites: Seq<u8>,
    methods: Seq<u8>,
    exts: Seq<(nat, Seq<u8>)>,
    s: int,
    host: Seq<u8>,
    ids: Seq<Seq<u8>>,
)
    requires
        front.len() == 34,
        sid.len() < 256,
        suites.len() < 65536,
        methods.len() < 256,
        writable(exts),
        joined_extensions(exts).len() < 65536,
        valid_utf8(host),
        0 <= s < exts.len(),
        exts[s] == (0x0000nat, sni_data(host)),
        forall|i: int| 0 <= i < exts.len() && i != s ==> (#[trigger] exts[i]).0 != 0x0000,
        forall|i: int| 0 <= i < ids.len() ==> (#[trigger] ids[i]).len() < 256,
        forall|i: int|
            0 <= i < exts.len() && (#[trigger] exts[i]).0 == 0x0010 ==> exts[i].1 == alpn_data(ids),
        !has_kind(exts, 0x0010) ==> ids.len() == 0,
    ensures
        hello_spec(client_hello(front, sid, suites, methods, joined_extensions(exts))) == Ok::<
            (Seq<char>, Seq<Seq<u8>>),
            Seq<char>,
        >((decode_utf8(host), ids)),
{
    let all = joined_extensions(exts);
    lemma_joined_reads(exts, host, ids, None, Seq::empty());
    assert(exts[s].0 == 0x0000);
    assert(has_kind(exts, 0x0000));
    if !has_kind(exts, 0x0010) {
        assert(ids =~= Seq::empty());
    }
    lemma_hello_body(front, sid, suites, methods, all);
    lemma_hello_read(hello_body(front, sid, suites, methods, all), all, decode_utf8(host), ids);
}

/// A hello without an SNI extension is refused for that reason, whatever other
/// extensions it has.
pub proof fn law_hello_without_name_refused(
    front: Seq<u8>,
    sid: Seq<u8>,
    suites: Seq<u8>,
    methods: Seq<u8>,
    exts: Seq<(nat, Seq<u8>)>,
    ids: Seq<Seq<u8>>,
)
    requires
        front.len() == 34,
        sid.len() < 256,
        suites.len() < 65536,
        methods.len() < 256,
        writable(exts),
        joined_extensions(exts).len() < 65536,
        !has_kind(exts, 0x0000),
        forall|i: int| 0 <= i < ids.len() ==> (#[trigger] ids[i]).len() < 256,
        forall|i: int|
            0 <= i < exts.len() && (#[trigger] exts[i]).0 == 0x0010 ==> exts[i].1 == alpn_data(ids),
    ensures
        hello_spec(client_hello(front, sid, suites, methods, joined_extensions(exts))) == Err::<
            (Seq<char>, Seq<Seq<u8>>),
            Seq<char>,
        >("no SNI extension in ClientHello"@),
{
    broadcast use vstd::utf8::encode_utf8_valid_utf8;

    let all = joined_extensions(exts);
    let none = Seq::<u8>::empty();
    let host = vstd::utf8::encode_utf8(Seq::empty());
    assert forall|i: int| 0 <= i < exts.len() && (#[trigger] exts[i]).0 == 0x0000 implies exts[i].1
        == sni_data(host) by {
        assert(has_kind(exts, 0x0000));
    }
    lemma_joined_reads(exts, host, ids, None, Seq::empty());
    lemma_hello_body(front, sid, suites, methods, all);
    let body = hello_body(front, sid, suites, methods, all);
    lemma_nameless(body, all);
}

proof fn lemma_nameless(body: Seq<u8>, exts: Seq<u8>)
    requires
        body.len() < 0x100_0000,
        hello_extensions(body) == Ok::<Seq<u8>, Seq<char>>(exts),
        extensions_spec(exts, None, Seq::empty()) matches Ok((name, _)) && name is None,
    ensures
        hello_spec(seq![1u8] + prefixed(body, 3)) == Err::<(Seq<char>, Seq<Seq<u8>>), Seq<char>>(
            "no SNI extension in ClientHello"@,
        ),
{
    reveal_with_fuel(crate::bytes::pow256, 4);
    let none = Seq::<u8>::empty();
    let whole = seq![1u8] + prefixed(body, 3);
    assert(whole.skip(1) =~= prefixed(body, 3) + none);
    lemma_take_vec(body, 3, none);
}

/// In a list of server names the first host name counts: names of other kinds
/// before it are passed over, and what stands behind it is not looked at.
pub proof fn law_first_host_name_counts(kind: u8, other: Seq<u8>, name: Seq<u8>, rest: Seq<u8>)
    requires
        kind != 0,
        other.len() < 65536,
        name.len() < 65536,
    ensures
        first_host(seq![kind] + prefixed(other, 2) + rest) == first_host(rest),
        valid_utf8(name) ==> first_host(seq![0u8] + prefixed(name, 2) + rest) == Ok::<
            Seq<char>,
            Seq<char>,
        >(decode_utf8(name)),
        !valid_utf8(name) ==> first_host(seq![0u8] + prefixed(name, 2) + rest) == Err::<
            Seq<char>,
            Seq<char>,
        >("non-utf8 SNI"@),
        first_host(Seq::empty()) is Err,
{
    reveal_with_fuel(crate::bytes::pow256, 3);
    let a = seq![kind] + prefixed(other, 2) + rest;
    assert(a.skip(1) =~= prefixed(other, 2) + rest);
    lemma_take_vec(other, 2, rest);
    let b = seq![0u8] + prefixed(name, 2) + rest;
    assert(b.skip(1) =~= prefixed(name, 2) + rest);
    lemma_take_vec(name, 2, rest);
}

/// Each identifier of an ALPN list stands behind its length, and they are
/// given in their order; one that is cut short makes the list malformed.
pub proof fn law_alpn_list_in_order(id: Seq<u8>, rest: Seq<u8>, cut: Seq<u8>)
    requires
        id.len() < 256,
        cut.len() > 0,
        cut.len() <= cut[0],
    ensures
        alpn_list(rest) matches Ok(ids) ==> alpn_list(prefixed(id, 1) + rest) == Ok::<
            Seq<Seq<u8>>,
            Seq<char>,
        >(seq![id] + ids),
        alpn_list(rest) is Err ==> alpn_list(prefixed(id, 1) + rest) is Err,
        alpn_list(cut) is Err,
        alpn_list(Seq::empty()) == Ok::<Seq<Seq<u8>>, Seq<char>>(Seq::empty()),
{
    reveal_with_fuel(crate::bytes::pow256, 2);
    lemma_be_len(id.len(), 1);
    lemma_take_vec(id, 1, rest);
    let b = cut.take(1);
    assert(b.drop_last() =~= Seq::empty());
    assert(be_value(b.drop_last()) == 0);
    assert(be_value(b) == cut[0]);
}

/// An extension that is cut short makes the hello malformed.
pub proof fn law_cut_extension_refused(kind: nat, data: Seq<u8>, n: int, name: Option<Seq<char>>, alpn: Seq<Seq<u8>>)
    requires
        kind < 65536,
        data.len() < 65536,
        0 < n < extension(kind, data).len(),
    ensures
        extensions_spec(extension(kind, data).take(n), name, alpn) is Err,
{
    reveal_with_fuel(crate::bytes::pow256, 3);
    let e = extension(kind, data);
    let s = e.take(n);
    lemma_be_value(kind, 2);
    lemma_be_value(data.len(), 2);
    if n >= 2 {
        assert(s.take(2) =~= be_bytes(kind, 2));
        let s1 = s.skip(2);
        if n >= 4 {
            assert(s1.take(2) =~= be_bytes(data.len(), 2));
        }
    }
}

/// A TLS record that holds `fragment`.
pub open spec fn record(version: Seq<u8>, fragment: Seq<u8>) -> Seq<u8> {
    seq![0x16u8] + version + be_bytes(fragment.len(), 2) + fragment
}

/// A hello in its record is read once the record is complete, and gives its
/// name in lower case and its identifiers; until then more bytes of the record
/// are asked for, and never one behind it.
pub proof fn law_record_is_read_whole(
    version: Seq<u8>,
    fragment: Seq<u8>,
    more: Seq<u8>,
    n: int,
    cut: PeekStep,
    whole: PeekStep,
)
    requires
        version.len() == 2,
        0 < fragment.len() <= MAX_HELLO,
        hello_spec(fragment) is Ok,
        0 <= n < record(version, fragment).len(),
        peek_spec(record(version, fragment).take(n), cut),
        peek_spec(record(version, fragment) + more, whole),
    ensures
        cut matches PeekStep::Need(m) && n < m <= record(version, fragment).len(),
        whole is Done,
        lowered((hello_spec(fragment)->Ok_0).0, whole->Done_0.server_name@),
        byte_views(whole->Done_0.alpn@) == (hello_spec(fragment)->Ok_0).1,
        whole->Done_0.buffered@ == record(version, fragment) + more,
{
    reveal_with_fuel(crate::bytes::pow256, 3);
    let r = record(version, fragment);
    lemma_be_value(fragment.len(), 2);
    let len = be_bytes(fragment.len(), 2);
    assert(r.len() == 5 + fragment.len());
    let all = r + more;
    assert(all.subrange(3, 5) =~= len);
    assert(all.subrange(5, 5 + fragment.len() as int) =~= fragment);
    assert(all[0] == 0x16);
    let part = r.take(n);
    if n >= 5 {
        assert(part.subrange(3, 5) =~= len);
        assert(part[0] == 0x16);
    }
}

/// What does not begin as a handshake record, or announces no bytes or too
/// many, is refused as soon as its header is there.
pub proof fn law_other_records_refused(buf: Seq<u8>, r: PeekStep)
    requires
        buf.len() >= 5,
        peek_spec(buf, r),
        buf[0] != 0x16 || 256 * buf[3] + buf[4] == 0 || 256 * buf[3] + buf[4] > 16384,
    ensures
        r is Fail,
        buf[0] != 0x16 ==> is_protocol(r->Fail_0, "not a TLS handshake record"@),
{
    let b = buf.subrange(3, 5);
    assert(b.drop_last().drop_last() =~= Seq::empty());
    assert(be_value(b.drop_last().drop_last()) == 0);
    assert(be_value(b.drop_last()) == buf[3]);
    assert(be_value(b) == 256 * buf[3] + buf[4]);
}

} // verus!
