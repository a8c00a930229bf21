//! What the blocks of a PEM file hold.

use crate::codec::base64_bytes;
use crate::server::domain::tls_source::{begin_line, bundle_spec, end_line, pem_blocks, tls_spec};
use crate::server::identity::pem_body;
use crate::text::{has_prefix, lines_spec, trim_spec};
use vstd::prelude::*;

verus! {

/// The trimmed lines of a block, one behind the other.
pub open spec fn joined_lines(ls: Seq<Seq<char>>) -> Seq<char>
    decreases ls.len(),
{
    if ls.len() == 0 {
        Seq::empty()
    } else {
        trim_spec(ls[0]) + joined_lines(ls.skip(1))
    }
}

/// Whether none of the lines begins or ends a block.
pub open spec fn are_plain(ls: Seq<Seq<char>>, begin: Seq<char>, end: Seq<char>) -> bool {
    forall|i: int|
        0 <= i < ls.len() ==> !has_prefix(#[trigger] ls[i], begin) && !has_prefix(ls[i], end)
}

proof fn lemma_plain_rest(ls: Seq<Seq<char>>, begin: Seq<char>, end: Seq<char>)
    requires
        ls.len() > 0,
        are_plain(ls, begin, end),
    ensures
        are_plain(ls.skip(1), begin, end),
        !has_prefix(ls[0], begin) && !has_prefix(ls[0], end),
{
    let rest = ls.skip(1);
    assert forall|i: int| 0 <= i < rest.len() implies !has_prefix(#[trigger] rest[i], begin)
        && !has_prefix(rest[i], end) by {
        assert(rest[i] == ls[i + 1]);
    }
}

proof fn lemma_body_inside(lines: Seq<Seq<char>>, last: Seq<char>, after: Seq<Seq<char>>)
    requires
        are_plain(lines, "-----BEGIN"@, "-----END"@),
        has_prefix(last, "-----END"@),
        !has_prefix(last, "-----BEGIN"@),
    ensures
        pem_body(lines + seq![last] + after, true) == joined_lines(lines),
        pem_body(lines, true) == joined_lines(lines),
    decreases lines.len(),
{
    let all = lines + seq![last] + after;
    if lines.len() > 0 {
        lemma_plain_rest(lines, "-----BEGIN"@, "-----END"@);
        lemma_body_inside(lines.skip(1), last, after);
        assert(all.skip(1) =~= lines.skip(1) + seq![last] + after);
        assert(all[0] == lines[0]);
    } else {
        assert(all[0] == last);
    }
}

/// A certificate's text is what stands between the first line that begins a
/// block and the line that ends it: what is before and behind does not count.
/// A block without an end goes on to the end of the file.
pub proof fn law_first_block_is_read(
    before: Seq<Seq<char>>,
    first: Seq<char>,
    lines: Seq<Seq<char>>,
    last: Seq<char>,
    after: Seq<Seq<char>>,
)
    requires
        are_plain(before, "-----BEGIN"@, "-----END"@),
        has_prefix(first, "-----BEGIN"@),
        are_plain(lines, "-----BEGIN"@, "-----END"@),
        has_prefix(last, "-----END"@),
    ensures
        pem_body(before + seq![first] + (lines + seq![last] + after), false) == joined_lines(lines),
        pem_body(before + seq![first] + lines, false) == joined_lines(lines),
    decreases before.len(),
{
    reveal_strlit("-----BEGIN");
    reveal_strlit("-----END");
    if has_prefix(last, "-----BEGIN"@) {
        assert(last.take(10)[5] == 'B');
        assert(last.take(8)[5] == 'E');
    }
    let tail = lines + seq![last] + after;
    let all = before + seq![first] + tail;
    let open = before + seq![first] + lines;
    if before.len() > 0 {
        lemma_plain_rest(before, "-----BEGIN"@, "-----END"@);
        law_first_block_is_read(before.skip(1), first, lines, last, after);
        assert(all.skip(1) =~= before.skip(1) + seq![first] + tail);
        assert(open.skip(1) =~= before.skip(1) + seq![first] + lines);
        assert(all[0] == before[0] && open[0] == before[0]);
    } else {
        lemma_body_inside(lines, last, after);
        assert(all[0] == first && open[0] == first);
        assert(all.skip(1) =~= tail);
        assert(open.skip(1) =~= lines);
    }
}

proof fn lemma_bundle_outside(
    before: Seq<Seq<char>>,
    rest: Seq<Seq<char>>,
    begin: Seq<char>,
    end: Seq<char>,
    b64: Seq<char>,
)
    requires
        are_plain(before, begin, end),
    ensures
        bundle_spec(before + rest, begin, end, false, b64) == bundle_spec(rest, begin, end, false, b64),
    decreases before.len(),
{
    let all = before + rest;
    if before.len() > 0 {
        lemma_plain_rest(before, begin, end);
        lemma_bundle_outside(before.skip(1), rest, begin, end, b64);
        assert(all.skip(1) =~= before.skip(1) + rest);
        assert(all[0] == before[0]);
    } else {
        assert(all =~= rest);
    }
}

proof fn lemma_bundle_inside(
    lines: Seq<Seq<char>>,
    rest: Seq<Seq<char>>,
    begin: Seq<char>,
    end: Seq<char>,
    b64: Seq<char>,
)
    requires
        are_plain(lines, begin, end),
    ensures
        bundle_spec(lines + rest, begin, end, true, b64) == bundle_spec(
            rest,
            begin,
            end,
            true,
            b64 + joined_lines(lines),
        ),
    decreases lines.len(),
{
    let all = lines + rest;
    if lines.len() > 0 {
        lemma_plain_rest(lines, begin, end);
        lemma_bundle_inside(lines.skip(1), rest, begin, end, b64 + trim_spec(lines[0]));
        assert(all.skip(1) =~= lines.skip(1) + rest);
        assert(all[0] == lines[0]);
        assert(b64 + trim_spec(lines[0]) + joined_lines(lines.skip(1)) =~= b64 + joined_lines(lines));
    } else {
        assert(all =~= rest);
        assert(b64 + joined_lines(lines) =~= b64);
    }
}

/// A block of a bundle.
pub struct Block {
    /// The lines before it.
    pub before: Seq<Seq<char>>,
    /// The line that begins it.
    pub first: Seq<char>,
    /// Its lines.
    pub lines: Seq<Seq<char>>,
    /// The line that ends it.
    pub last: Seq<char>,
}

/// Whether a block is written as blocks of this kind are.
pub open spec fn is_block(b: Block, begin: Seq<char>, end: Seq<char>) -> bool {
    &&& are_plain(b.before, begin, end)
    &&& has_prefix(b.first, begin)
    &&& are_plain(b.lines, begin, end)
    &&& has_prefix(b.last, end) && !has_prefix(b.last, begin)
}

/// The lines of a block.
pub open spec fn block_lines(b: Block) -> Seq<Seq<char>> {
    b.before + seq![b.first] + b.lines + seq![b.last]
}

/// The lines of blocks, one block behind the other.
pub open spec fn blocks_lines(bs: Seq<Block>) -> Seq<Seq<char>>
    decreases bs.len(),
{
    if bs.len() == 0 {
        Seq::empty()
    } else {
        block_lines(bs[0]) + blocks_lines(bs.skip(1))
    }
}

/// A bundle holds the bytes of each of its blocks, in order; what stands
/// between, before and behind them does not count. One block that is no
/// base64 refuses the bundle.
pub proof fn law_every_block_is_read(
    bs: Seq<Block>,
    ders: Seq<Seq<u8>>,
    after: Seq<Seq<char>>,
    begin: Seq<char>,
    end: Seq<char>,
    b64: Seq<char>,
)
    requires
        are_plain(after, begin, end),
        forall|i: int| 0 <= i < bs.len() ==> is_block(#[trigger] bs[i], begin, end),
        ders.len() == bs.len(),
        forall|i: int|
            0 <= i < bs.len() ==> base64_bytes(joined_lines((#[trigger] bs[i]).lines)) == Ok::<
                Seq<u8>,
                Seq<char>,
            >(ders[i]),
    ensures
        bundle_spec(blocks_lines(bs) + after, begin, end, false, b64) == Ok::<Seq<Seq<u8>>, Seq<char>>(
            ders,
        ),
    decreases bs.len(),
{
    if bs.len() == 0 {
        assert(blocks_lines(bs) + after =~= after + Seq::<Seq<char>>::empty());
        lemma_bundle_outside(after, Seq::empty(), begin, end, b64);
        assert(ders =~= Seq::empty());
    } else {
        let b = bs[0];
        let more = bs.skip(1);
        assert(is_block(bs[0], begin, end));
        let rest = blocks_lines(more) + after;
        let text = joined_lines(b.lines);
        assert forall|i: int| 0 <= i < more.len() implies is_block(#[trigger] more[i], begin, end)
            && base64_bytes(joined_lines(more[i].lines)) == Ok::<Seq<u8>, Seq<char>>(
            ders.skip(1)[i],
        ) by {
            assert(more[i] == bs[i + 1]);
            assert(is_block(bs[i + 1], begin, end));
        }
        law_every_block_is_read(more, ders.skip(1), after, begin, end, text);
        lemma_one_block(b, rest, begin, end, b64);
        assert(blocks_lines(bs) + after =~= block_lines(b) + rest);
        assert(seq![ders[0]] + ders.skip(1) =~= ders);
    }
}

/// What a block adds to the bundle that follows it.
proof fn lemma_one_block(
    b: Block,
    rest: Seq<Seq<char>>,
    begin: Seq<char>,
    end: Seq<char>,
    b64: Seq<char>,
)
    requires
        is_block(b, begin, end),
    ensures
        bundle_spec(block_lines(b) + rest, begin, end, false, b64) == (match base64_bytes(
            joined_lines(b.lines),
        ) {
            Err(e) => Err::<Seq<Seq<u8>>, Seq<char>>("bad base64: "@ + e),
            Ok(der) => match bundle_spec(rest, begin, end, false, joined_lines(b.lines)) {
                Err(e) => Err(e),
                Ok(more) => Ok(seq![der] + more),
            },
        }),
{
    let tail = seq![b.last] + rest;
    let inner = b.lines + tail;
    let opened = seq![b.first] + inner;
    assert(block_lines(b) + rest =~= b.before + opened);
    lemma_bundle_outside(b.before, opened, begin, end, b64);
    assert(opened[0] == b.first && opened.skip(1) =~= inner);
    lemma_bundle_inside(b.lines, tail, begin, end, Seq::empty());
    assert(Seq::<char>::empty() + joined_lines(b.lines) =~= joined_lines(b.lines));
    assert(tail[0] == b.last && tail.skip(1) =~= rest);
}

/// A bundle with a block that is no base64 is refused.
pub proof fn law_bad_block_refuses_the_bundle(
    b: Block,
    rest: Seq<Seq<char>>,
    begin: Seq<char>,
    end: Seq<char>,
    b64: Seq<char>,
)
    requires
        is_block(b, begin, end),
        base64_bytes(joined_lines(b.lines)) is Err,
    ensures
        bundle_spec(block_lines(b) + rest, begin, end, false, b64) is Err,
{
    lemma_one_block(b, rest, begin, end, b64);
}

/// A chain and a key are loaded when each file has a block of its kind; the
/// key is that of the first block. A file without a block is named.
pub proof fn law_chain_and_first_key_are_loaded(
    cert_pem: Seq<char>,
    key_pem: Seq<char>,
    cert_path: Seq<char>,
    key_path: Seq<char>,
    certs: Seq<Seq<u8>>,
    keys: Seq<Seq<u8>>,
)
    requires
        bundle_spec(
            lines_spec(cert_pem),
            "-----BEGIN "@ + "CERTIFICATE"@ + "-----"@,
            "-----END "@ + "CERTIFICATE"@ + "-----"@,
            false,
            Seq::empty(),
        ) == Ok::<Seq<Seq<u8>>, Seq<char>>(certs),
        bundle_spec(
            lines_spec(key_pem),
            "-----BEGIN "@ + "PRIVATE KEY"@ + "-----"@,
            "-----END "@ + "PRIVATE KEY"@ + "-----"@,
            false,
            Seq::empty(),
        ) == Ok::<Seq<Seq<u8>>, Seq<char>>(keys),
    ensures
        certs.len() > 0 && keys.len() > 0 ==> tls_spec(cert_pem, key_pem, cert_path, key_path) == Ok::<
            (Seq<Seq<u8>>, Seq<u8>),
            Seq<char>,
        >((certs, keys[0])),
        certs.len() == 0 ==> tls_spec(cert_pem, key_pem, cert_path, key_path) == Err::<
            (Seq<Seq<u8>>, Seq<u8>),
            Seq<char>,
        >("no CERTIFICATE blocks in "@ + cert_path),
        certs.len() > 0 && keys.len() == 0 ==> tls_spec(cert_pem, key_pem, cert_path, key_path) == Err::<
            (Seq<Seq<u8>>, Seq<u8>),
            Seq<char>,
        >("no PRIVATE KEY block in "@ + key_path),
{
    assert(begin_line("CERTIFICATE"@) == "-----BEGIN "@ + "CERTIFICATE"@ + "-----"@);
    assert(end_line("CERTIFICATE"@) == "-----END "@ + "CERTIFICATE"@ + "-----"@);
    assert(pem_blocks(cert_pem, "CERTIFICATE"@) is Ok);
    assert(pem_blocks(key_pem, "PRIVATE KEY"@) is Ok);
}

} // verus!
