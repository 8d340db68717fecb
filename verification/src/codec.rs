//! The byte encoding of stored records.
//!
//! A record is written as a format tag followed by its fields in a fixed
//! order. Every text is length-prefixed UTF-8, every list is a count followed
//! by its texts, and every number is eight little-endian bytes. Decoding
//! accepts exactly the byte strings that encoding produces: a truncated
//! record, trailing bytes, an unknown tag or ill-formed UTF-8 are rejected.

use crate::storage::{StoredSummary, StoredSummaryView};
use crate::summary::{texts, Summary, SummaryView};
use vstd::bytes::*;
use vstd::prelude::*;
use vstd::slice::*;
use vstd::string::*;
use vstd::utf8::*;

verus! {

/// The tag that opens every encoded record.
pub const FORMAT_TAG: u8 = 1;

/// A number as eight little-endian bytes.
pub open spec fn encode_number(n: u64) -> Seq<u8> {
    spec_u64_to_le_bytes(n)
}

/// A text as the length of its UTF-8 form followed by that form.
pub open spec fn encode_text(t: Seq<char>) -> Seq<u8> {
    encode_number(encode_utf8(t).len() as u64) + encode_utf8(t)
}

/// The texts of a list, each encoded, one after the other.
pub open spec fn encode_items(ts: Seq<Seq<char>>) -> Seq<u8>
    decreases ts.len(),
{
    if ts.len() == 0 {
        Seq::empty()
    } else {
        encode_items(ts.drop_last()) + encode_text(ts.last())
    }
}

/// A list as its length followed by its texts.
pub open spec fn encode_list(ts: Seq<Seq<char>>) -> Seq<u8> {
    encode_number(ts.len() as u64) + encode_items(ts)
}

/// The fields of a summary, in the order they are written.
pub open spec fn encode_summary(s: SummaryView) -> Seq<u8> {
    encode_text(s.title) + encode_text(s.conclusion) + encode_list(s.key_points) + encode_list(
        s.entities,
    ) + encode_list(s.action_items)
}

/// The bytes under which a record is stored.
pub open spec fn encode_record(r: StoredSummaryView) -> Seq<u8> {
    seq![FORMAT_TAG] + encode_text(r.url) + encode_number(r.created_at as u64) + encode_summary(
        r.summary,
    )
}

/// Reads a number from the front of `s`; the second component is what follows it.
pub open spec fn decode_number(s: Seq<u8>) -> Option<(u64, Seq<u8>)> {
    if s.len() >= 8 {
        Some((spec_u64_from_le_bytes(s.subrange(0, 8)), s.subrange(8, s.len() as int)))
    } else {
        None
    }
}

/// Reads a text from the front of `s`.
pub open spec fn decode_text(s: Seq<u8>) -> Option<(Seq<char>, Seq<u8>)> {
    match decode_number(s) {
        Some((n, rest)) => if n <= rest.len() && valid_utf8(rest.subrange(0, n as int)) {
            Some((decode_utf8(rest.subrange(0, n as int)), rest.subrange(n as int, rest.len() as int)))
        } else {
            None
        },
        None => None,
    }
}

/// Reads `count` texts from the front of `s`.
pub open spec fn decode_items(s: Seq<u8>, count: nat) -> Option<(Seq<Seq<char>>, Seq<u8>)>
    decreases count,
{
    if count == 0 {
        Some((Seq::empty(), s))
    } else {
        match decode_text(s) {
            Some((t, rest)) => match decode_items(rest, (count - 1) as nat) {
                Some((ts, after)) => Some((seq![t] + ts, after)),
                None => None,
            },
            None => None,
        }
    }
}

/// Reads a list from the front of `s`.
pub open spec fn decode_list(s: Seq<u8>) -> Option<(Seq<Seq<char>>, Seq<u8>)> {
    match decode_number(s) {
        Some((n, rest)) => decode_items(rest, n as nat),
        None => None,
    }
}

/// Reads the fields of a summary from the front of `s`.
pub open spec fn decode_summary(s: Seq<u8>) -> Option<(SummaryView, Seq<u8>)> {
    match decode_text(s) {
        Some((title, s1)) => match decode_text(s1) {
            Some((conclusion, s2)) => match decode_list(s2) {
                Some((key_points, s3)) => match decode_list(s3) {
                    Some((entities, s4)) => match decode_list(s4) {
                        Some((action_items, s5)) => Some(
                            (
                                SummaryView { title, conclusion, key_points, entities, action_items },
                                s5,
                            ),
                        ),
                        None => None,
                    },
                    None => None,
                },
                None => None,
            },
            None => None,
        },
        None => None,
    }
}

/// The record that `s` encodes, if it encodes one.
pub open spec fn decode_record(s: Seq<u8>) -> Option<StoredSummaryView> {
    if s.len() == 0 || s[0] != FORMAT_TAG {
        None
    } else {
        match decode_text(s.subrange(1, s.len() as int)) {
            Some((url, s1)) => match decode_number(s1) {
                Some((stamp, s2)) => match decode_summary(s2) {
                    Some((summary, s3)) => if s3.len() == 0 {
                        Some(StoredSummaryView { url, created_at: stamp as i64, summary })
                    } else {
                        None
                    },
                    None => None,
                },
                None => None,
            },
            None => None,
        }
    }
}

/// Whether every length in the record fits the eight bytes it is written in.
/// Every record held in memory does.
pub open spec fn text_fits(t: Seq<char>) -> bool {
    encode_utf8(t).len() <= u64::MAX
}

pub open spec fn list_fits(ts: Seq<Seq<char>>) -> bool {
    &&& ts.len() <= u64::MAX
    &&& forall|i: int| 0 <= i < ts.len() ==> text_fits(#[trigger] ts[i])
}

pub open spec fn summary_fits(s: SummaryView) -> bool {
    &&& text_fits(s.title)
    &&& text_fits(s.conclusion)
    &&& list_fits(s.key_points)
    &&& list_fits(s.entities)
    &&& list_fits(s.action_items)
}

pub open spec fn record_fits(r: StoredSummaryView) -> bool {
    &&& text_fits(r.url)
    &&& summary_fits(r.summary)
}

/// A number is read back from its encoding, whatever follows it.
pub proof fn lemma_number_round_trip(n: u64, tail: Seq<u8>)
    ensures
        decode_number(encode_number(n) + tail) == Some((n, tail)),
{
    lemma_auto_spec_u64_to_from_le_bytes();
    let s = encode_number(n) + tail;
    assert(s.subrange(0, 8) =~= encode_number(n));
    assert(s.subrange(8, s.len() as int) =~= tail);
}

/// A text is read back from its encoding, whatever follows it.
pub proof fn lemma_text_round_trip(t: Seq<char>, tail: Seq<u8>)
    requires
        text_fits(t),
    ensures
        decode_text(encode_text(t) + tail) == Some((t, tail)),
{
    broadcast use encode_utf8_valid_utf8, encode_utf8_decode_utf8;

    let body = encode_utf8(t);
    let n = body.len() as u64;
    assert(encode_text(t) + tail =~= encode_number(n) + (body + tail));
    lemma_number_round_trip(n, body + tail);
    let rest = body + tail;
    assert(rest.subrange(0, n as int) =~= body);
    assert(rest.subrange(n as int, rest.len() as int) =~= tail);
}

/// The texts of a list are read back from their encodings, whatever follows them.
pub proof fn lemma_items_round_trip(ts: Seq<Seq<char>>, tail: Seq<u8>)
    requires
        forall|i: int| 0 <= i < ts.len() ==> text_fits(#[trigger] ts[i]),
    ensures
        decode_items(encode_items(ts) + tail, ts.len()) == Some((ts, tail)),
    decreases ts.len(),
{
    if ts.len() == 0 {
        assert(encode_items(ts) + tail =~= tail);
    } else {
        let first = ts[0];
        let others = ts.drop_first();
        lemma_items_split_first(ts);
        assert(encode_items(ts) + tail =~= encode_text(first) + (encode_items(others) + tail));
        lemma_text_round_trip(first, encode_items(others) + tail);
        lemma_items_round_trip(others, tail);
        assert(seq![first] + others =~= ts);
    }
}

/// The encoding of a list's texts begins with the encoding of the first.
pub proof fn lemma_items_split_first(ts: Seq<Seq<char>>)
    requires
        ts.len() > 0,
    ensures
        encode_items(ts) == encode_text(ts[0]) + encode_items(ts.drop_first()),
    decreases ts.len(),
{
    if ts.len() == 1 {
        assert(ts.drop_last() =~= Seq::<Seq<char>>::empty());
        assert(ts.drop_first() =~= Seq::<Seq<char>>::empty());
        assert(encode_items(ts.drop_last()) =~= Seq::<u8>::empty());
        assert(encode_items(ts) =~= encode_text(ts[0]) + encode_items(ts.drop_first()));
    } else {
        let front = ts.drop_last();
        lemma_items_split_first(front);
        assert(front.drop_first() =~= ts.drop_first().drop_last());
        assert(ts.drop_first().last() == ts.last());
        assert(front[0] == ts[0]);
        assert(encode_items(ts) =~= encode_text(ts[0]) + encode_items(ts.drop_first()));
    }
}

/// A list is read back from its encoding, whatever follows it.
pub proof fn lemma_list_round_trip(ts: Seq<Seq<char>>, tail: Seq<u8>)
    requires
        list_fits(ts),
    ensures
        decode_list(encode_list(ts) + tail) == Some((ts, tail)),
{
    let n = ts.len() as u64;
    assert(encode_list(ts) + tail =~= encode_number(n) + (encode_items(ts) + tail));
    lemma_number_round_trip(n, encode_items(ts) + tail);
    lemma_items_round_trip(ts, tail);
}

/// A summary is read back from its encoding, whatever follows it.
pub proof fn lemma_summary_round_trip(s: SummaryView, tail: Seq<u8>)
    requires
        summary_fits(s),
    ensures
        decode_summary(encode_summary(s) + tail) == Some((s, tail)),
{
    let t5 = tail;
    let t4 = encode_list(s.action_items) + t5;
    let t3 = encode_list(s.entities) + t4;
    let t2 = encode_list(s.key_points) + t3;
    let t1 = encode_text(s.conclusion) + t2;
    assert(encode_summary(s) + tail =~= encode_text(s.title) + t1);
    lemma_text_round_trip(s.title, t1);
    lemma_text_round_trip(s.conclusion, t2);
    lemma_list_round_trip(s.key_points, t3);
    lemma_list_round_trip(s.entities, t4);
    lemma_list_round_trip(s.action_items, t5);
}

/// Decoding undoes encoding: every field of a record comes back as it was written.
pub proof fn lemma_record_round_trip(r: StoredSummaryView)
    requires
        record_fits(r),
    ensures
        decode_record(encode_record(r)) == Some(r),
{
    let stamp = r.created_at as u64;
    let s = encode_record(r);
    let t2 = encode_summary(r.summary);
    let t1 = encode_number(stamp) + t2;
    assert(s.subrange(1, s.len() as int) =~= encode_text(r.url) + t1);
    lemma_text_round_trip(r.url, t1);
    lemma_number_round_trip(stamp, t2);
    assert(t2 =~= t2 + Seq::<u8>::empty());
    lemma_summary_round_trip(r.summary, Seq::empty());
    let at = r.created_at;
    assert(stamp as i64 == at) by (bit_vector)
        requires
            stamp == at as u64,
    ;
}

/// The bytes of `bytes` from `pos` on.
pub open spec fn remaining(bytes: Seq<u8>, pos: int) -> Seq<u8> {
    bytes.subrange(pos, bytes.len() as int)
}

/// `String::from_utf8` of the standard library: the text that `bytes` spell
/// in UTF-8, and `None` exactly when they are not well-formed UTF-8.
#[verifier::external_body]
pub(crate) fn utf8_to_string(bytes: Vec<u8>) -> (r: Option<String>)
    ensures
        r is Some <==> valid_utf8(bytes@),
        r is Some ==> r->0@ == decode_utf8(bytes@),
{
    String::from_utf8(bytes).ok()
}

fn put_number(out: &mut Vec<u8>, n: u64)
    ensures
        final(out)@ == old(out)@ + encode_number(n),
{
    let mut b = u64_to_le_bytes(n);
    out.append(&mut b);
}

fn put_text(out: &mut Vec<u8>, t: &str)
    ensures
        final(out)@ == old(out)@ + encode_text(t@),
{
    let b = t.as_bytes();
    put_number(out, b.len() as u64);
    let mut body = slice_to_vec(b);
    out.append(&mut body);
    assert(out@ =~= old(out)@ + encode_text(t@));
}

fn put_list(out: &mut Vec<u8>, items: &Vec<String>)
    ensures
        final(out)@ == old(out)@ + encode_list(texts(items@)),
{
    put_number(out, items.len() as u64);
    let ghost start = out@;
    let mut i: usize = 0;
    while i < items.len()
        invariant
            i <= items.len(),
            out@ == start + encode_items(texts(items@).take(i as int)),
        decreases items.len() - i,
    {
        put_text(out, items[i].as_str());
        proof {
            let all = texts(items@);
            assert(all.take(i + 1).drop_last() =~= all.take(i as int));
            assert(all.take(i + 1).last() == items@[i as int]@);
            assert(out@ =~= start + encode_items(all.take(i + 1)));
        }
        i = i + 1;
    }
    proof {
        let all = texts(items@);
        assert(all.take(items.len() as int) =~= all);
        assert(out@ =~= old(out)@ + encode_list(all));
    }
}

/// Encodes the record of `url`, created at `created_at`, with the given summary.
pub fn encode_parts(url: &str, created_at: i64, summary: &Summary) -> (bytes: Vec<u8>)
    ensures
        bytes@ == encode_record(StoredSummaryView { url: url@, created_at, summary: summary@ }),
{
    let mut out: Vec<u8> = Vec::new();
    out.push(FORMAT_TAG);
    put_text(&mut out, url);
    put_number(&mut out, created_at as u64);
    put_text(&mut out, summary.title.as_str());
    put_text(&mut out, summary.conclusion.as_str());
    put_list(&mut out, &summary.key_points);
    put_list(&mut out, &summary.entities);
    put_list(&mut out, &summary.action_items);
    assert(out@ =~= encode_record(
        StoredSummaryView { url: url@, created_at, summary: summary@ },
    ));
    out
}

/// Encodes a record for storage.
pub fn encode(record: &StoredSummary) -> (bytes: Vec<u8>)
    ensures
        bytes@ == encode_record(record@),
{
    encode_parts(record.url.as_str(), record.created_at, &record.summary)
}

fn take_number(bytes: &[u8], pos: usize) -> (r: Option<(u64, usize)>)
    requires
        pos <= bytes@.len(),
    ensures
        match r {
            Some((n, next)) => pos <= next <= bytes@.len() && decode_number(remaining(bytes@, pos as int))
                == Some((n, remaining(bytes@, next as int))),
            None => decode_number(remaining(bytes@, pos as int)) is None,
        },
{
    if bytes.len() - pos < 8 {
        return None;
    }
    let n = u64_from_le_bytes(slice_subrange(bytes, pos, pos + 8));
    proof {
        let rest = remaining(bytes@, pos as int);
        assert(rest.subrange(0, 8) =~= bytes@.subrange(pos as int, pos + 8));
        assert(rest.subrange(8, rest.len() as int) =~= remaining(bytes@, pos + 8));
    }
    Some((n, pos + 8))
}

fn take_text(bytes: &[u8], pos: usize) -> (r: Option<(String, usize)>)
    requires
        pos <= bytes@.len(),
    ensures
        match r {
            Some((t, next)) => pos <= next <= bytes@.len() && decode_text(remaining(bytes@, pos as int))
                == Some((t@, remaining(bytes@, next as int))),
            None => decode_text(remaining(bytes@, pos as int)) is None,
        },
{
    let (n, start) = match take_number(bytes, pos) {
        Some(found) => found,
        None => { return None; },
    };
    if n > (bytes.len() - start) as u64 {
        return None;
    }
    let end = start + n as usize;
    let body = slice_to_vec(slice_subrange(bytes, start, end));
    proof {
        let rest = remaining(bytes@, start as int);
        assert(rest.subrange(0, n as int) =~= body@);
        assert(rest.subrange(n as int, rest.len() as int) =~= remaining(bytes@, end as int));
    }
    match utf8_to_string(body) {
        Some(t) => Some((t, end)),
        None => None,
    }
}

fn take_list(bytes: &[u8], pos: usize) -> (r: Option<(Vec<String>, usize)>)
    requires
        pos <= bytes@.len(),
    ensures
        match r {
            Some((ts, next)) => pos <= next <= bytes@.len() && decode_list(remaining(bytes@, pos as int))
                == Some((texts(ts@), remaining(bytes@, next as int))),
            None => decode_list(remaining(bytes@, pos as int)) is None,
        },
{
    let (n, start) = match take_number(bytes, pos) {
        Some(found) => found,
        None => { return None; },
    };
    let mut items: Vec<String> = Vec::new();
    let mut at = start;
    let mut i: u64 = 0;
    while i < n
        invariant
            i <= n,
            pos <= start <= at <= bytes@.len(),
            decode_number(remaining(bytes@, pos as int)) == Some(
                (n, remaining(bytes@, start as int)),
            ),
            decode_items(remaining(bytes@, start as int), n as nat) == (match decode_items(
                remaining(bytes@, at as int),
                (n - i) as nat,
            ) {
                Some((ts, after)) => Some((texts(items@) + ts, after)),
                None => None,
            }),
        decreases n - i,
    {
        match take_text(bytes, at) {
            Some((t, next)) => {
                proof {
                    let tail = decode_items(remaining(bytes@, next as int), (n - i - 1) as nat);
                    if let Some((ts, _)) = tail {
                        assert(texts(items@.push(t)) + ts =~= texts(items@) + (seq![t@] + ts));
                    }
                }
                items.push(t);
                at = next;
            },
            None => { return None; },
        }
        i = i + 1;
    }
    assert(texts(items@) + Seq::<Seq<char>>::empty() =~= texts(items@));
    Some((items, at))
}

fn take_summary(bytes: &[u8], pos: usize) -> (r: Option<(Summary, usize)>)
    requires
        pos <= bytes@.len(),
    ensures
        match r {
            Some((s, next)) => pos <= next <= bytes@.len() && decode_summary(
                remaining(bytes@, pos as int),
            ) == Some((s@, remaining(bytes@, next as int))),
            None => decode_summary(remaining(bytes@, pos as int)) is None,
        },
{
    let (title, at1) = match take_text(bytes, pos) {
        Some(found) => found,
        None => { return None; },
    };
    let (conclusion, at2) = match take_text(bytes, at1) {
        Some(found) => found,
        None => { return None; },
    };
    let (key_points, at3) = match take_list(bytes, at2) {
        Some(found) => found,
        None => { return None; },
    };
    let (entities, at4) = match take_list(bytes, at3) {
        Some(found) => found,
        None => { return None; },
    };
    let (action_items, at5) = match take_list(bytes, at4) {
        Some(found) => found,
        None => { return None; },
    };
    Some((Summary { title, conclusion, key_points, entities, action_items }, at5))
}

/// Decodes stored bytes. The result is `None` exactly when the bytes are not
/// the encoding of a record.
pub fn decode(bytes: &[u8]) -> (r: Option<StoredSummary>)
    ensures
        match r {
            Some(record) => decode_record(bytes@) == Some(record@),
            None => decode_record(bytes@) is None,
        },
{
    if bytes.len() == 0 || bytes[0] != FORMAT_TAG {
        return None;
    }
    let (url, at1) = match take_text(bytes, 1) {
        Some(found) => found,
        None => { return None; },
    };
    let (stamp, at2) = match take_number(bytes, at1) {
        Some(found) => found,
        None => { return None; },
    };
    let (summary, at3) = match take_summary(bytes, at2) {
        Some(found) => found,
        None => { return None; },
    };
    if at3 != bytes.len() {
        return None;
    }
    Some(StoredSummary { url, created_at: stamp as i64, summary })
}

} // verus!
