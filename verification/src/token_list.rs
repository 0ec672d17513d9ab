//! The codec of an owner's token list: the ordered list of the document ids
//! that the owner holds, written as a 64-bit count and then each id as a byte
//! string with a 64-bit length before it.

use crate::codec::{lemma_text_field, text_field};
use crate::fields::{lemma_parse_field_written, parse_field, FieldKind};
use crate::text::{text_bytes, text_from_bytes};
use crate::wire::{
    get_run, get_u64, lemma_read_u64_written, put_run, put_u64, read_u64, u64_bytes,
};
use vstd::bytes::*;
use vstd::prelude::*;
use vstd::utf8::*;

verus! {

/// What a list of texts holds.
pub open spec fn texts_view(texts: Seq<String>) -> Seq<Seq<char>> {
    Seq::new(texts.len(), |i: int| texts[i]@)
}

/// The bytes of a run of texts, in order.
pub open spec fn texts_bytes(texts: Seq<Seq<char>>) -> Seq<u8>
    decreases texts.len(),
{
    if texts.len() == 0 {
        Seq::empty()
    } else {
        texts_bytes(texts.drop_last()) + text_field(texts.last()).bytes()
    }
}

/// The bytes of a token list.
pub open spec fn encode_token_list_spec(ids: Seq<Seq<char>>) -> Seq<u8> {
    u64_bytes(ids.len() as u64) + texts_bytes(ids)
}

/// Whether a token list can be written: the count and every length fit 64
/// bits.
pub open spec fn token_list_fits(ids: Seq<Seq<char>>) -> bool {
    ids.len() <= u64::MAX && forall|i: int|
        0 <= i < ids.len() ==> encode_utf8(#[trigger] ids[i]).len() <= u64::MAX
}

/// The `count` texts that start at `start`, and the place after them.
pub open spec fn read_texts(bytes: Seq<u8>, start: int, count: nat) -> Option<
    (Seq<Seq<char>>, int),
>
    decreases count,
{
    if count == 0 {
        Some((Seq::empty(), start))
    } else {
        match read_texts(bytes, start, (count - 1) as nat) {
            None => None,
            Some((texts, pos)) => match parse_field(bytes, pos, FieldKind::Blob) {
                None => None,
                Some((field, end)) => if field.is_text() {
                    Some((texts.push(field.text()), end))
                } else {
                    None
                },
            },
        }
    }
}

/// The token list that `bytes` encode, if they encode one: the count, that
/// many texts, and nothing after them.
pub open spec fn parse_token_list(bytes: Seq<u8>) -> Option<Seq<Seq<char>>> {
    match read_u64(bytes, 0) {
        None => None,
        Some(count) => if count > bytes.len() {
            None
        } else {
            match read_texts(bytes, 8, count as nat) {
                Some((texts, end)) => if end == bytes.len() {
                    Some(texts)
                } else {
                    None
                },
                None => None,
            }
        },
    }
}

/// The token list that `bytes` decode to: the one they encode, or the empty
/// list.
pub open spec fn decode_token_list_spec(bytes: Seq<u8>) -> Seq<Seq<char>> {
    match parse_token_list(bytes) {
        Some(ids) => ids,
        None => Seq::empty(),
    }
}

/// Encodes a token list.
pub fn encode_token_list(ids: &Vec<String>) -> (bytes: Vec<u8>)
    ensures
        bytes@ == encode_token_list_spec(texts_view(ids@)),
        token_list_fits(texts_view(ids@)),
{
    let ghost texts = texts_view(ids@);
    let mut out: Vec<u8> = Vec::new();
    let count: u64 = ids.len() as u64;
    put_u64(&mut out, count);
    let ghost head = out@;
    let mut i: usize = 0;
    while i < ids.len()
        invariant
            i <= ids@.len(),
            texts == texts_view(ids@),
            out@ == head + texts_bytes(texts.take(i as int)),
            forall|j: int| 0 <= j < i ==> encode_utf8(#[trigger] texts[j]).len() <= u64::MAX,
        decreases ids@.len() - i,
    {
        let encoded = text_bytes(ids[i].as_str());
        let len: u64 = encoded.len() as u64;
        proof {
            assert(texts.take(i + 1).drop_last() =~= texts.take(i as int));
            assert(texts.take(i + 1).last() == ids@[i as int]@);
        }
        put_u64(&mut out, len);
        put_run(&mut out, encoded.as_slice());
        assert(out@ =~= head + (texts_bytes(texts.take(i as int)) + (u64_bytes(len) + encoded@)));
        i += 1;
    }
    assert(texts.take(i as int) =~= texts);
    out
}

/// Once some texts cannot be read, more of them cannot either.
pub proof fn lemma_read_texts_stops(bytes: Seq<u8>, start: int, reached: nat, count: nat)
    requires
        reached <= count,
        read_texts(bytes, start, reached).is_none(),
    ensures
        read_texts(bytes, start, count).is_none(),
    decreases count,
{
    if reached < count {
        lemma_read_texts_stops(bytes, start, reached, (count - 1) as nat);
    }
}

/// Reads a token list, if the bytes encode one.
pub fn try_decode_token_list(bytes: &[u8]) -> (ids: Option<Vec<String>>)
    ensures
        match ids {
            Some(list) => parse_token_list(bytes@) == Some(texts_view(list@)),
            None => parse_token_list(bytes@).is_none(),
        },
{
    let total = bytes.len();
    let count = match get_u64(bytes, 0) {
        Some(count) => count,
        None => { return None; },
    };
    if count > total as u64 {
        return None;
    }
    let mut out: Vec<String> = Vec::new();
    let mut pos: usize = 8;
    let mut done: u64 = 0;
    while done < count
        invariant
            done <= count,
            total == bytes@.len(),
            read_u64(bytes@, 0) == Some(count),
            count <= total,
            8 <= pos <= total,
            out@.len() == done,
            read_texts(bytes@, 8, done as nat) == Some((texts_view(out@), pos as int)),
        decreases count - done,
    {
        let ghost earlier = texts_view(out@);
        let len = match get_u64(bytes, pos) {
            Some(len) => len,
            None => {
                proof {
                    lemma_read_texts_stops(bytes@, 8, (done + 1) as nat, count as nat);
                }
                return None;
            },
        };
        if len > (total - pos - 8) as u64 {
            proof {
                lemma_read_texts_stops(bytes@, 8, (done + 1) as nat, count as nat);
            }
            return None;
        }
        let run = match get_run(bytes, pos + 8, len as usize) {
            Some(run) => run,
            None => {
                proof {
                    lemma_read_texts_stops(bytes@, 8, (done + 1) as nat, count as nat);
                }
                return None;
            },
        };
        let text = match text_from_bytes(run) {
            Some(text) => text,
            None => {
                proof {
                    lemma_read_texts_stops(bytes@, 8, (done + 1) as nat, count as nat);
                }
                return None;
            },
        };
        out.push(text);
        pos = pos + 8 + len as usize;
        assert(texts_view(out@) =~= earlier.push(out@[done as int]@));
        done += 1;
    }
    if pos == total {
        Some(out)
    } else {
        None
    }
}

/// Decodes a token list; bytes that encode none give the empty list.
pub fn decode_token_list(bytes: &[u8]) -> (ids: Vec<String>)
    ensures
        texts_view(ids@) == decode_token_list_spec(bytes@),
{
    match try_decode_token_list(bytes) {
        Some(ids) => ids,
        None => {
            let empty: Vec<String> = Vec::new();
            assert(texts_view(empty@) =~= Seq::<Seq<char>>::empty());
            empty
        },
    }
}

/// Every text takes at least the eight bytes of its length.
pub proof fn lemma_texts_bytes_len(texts: Seq<Seq<char>>)
    ensures
        texts_bytes(texts).len() >= 8 * texts.len(),
    decreases texts.len(),
{
    lemma_auto_spec_u64_to_from_le_bytes();
    if texts.len() > 0 {
        lemma_texts_bytes_len(texts.drop_last());
    }
}

/// Texts written after `before` are read back from there.
pub proof fn lemma_read_texts_written(before: Seq<u8>, texts: Seq<Seq<char>>, after: Seq<u8>)
    requires
        forall|i: int| 0 <= i < texts.len() ==> encode_utf8(#[trigger] texts[i]).len() <= u64::MAX,
    ensures
        read_texts(before + texts_bytes(texts) + after, before.len() as int, texts.len()) == Some(
            (texts, (before.len() + texts_bytes(texts).len()) as int),
        ),
    decreases texts.len(),
{
    let whole = before + texts_bytes(texts) + after;
    if texts.len() > 0 {
        let init = texts.drop_last();
        let last = texts.last();
        let field = text_field(last);
        assert forall|i: int| 0 <= i < init.len() implies encode_utf8(#[trigger] init[i]).len()
            <= u64::MAX by {
            assert(init[i] == texts[i]);
        }
        assert(texts[texts.len() - 1] == last);
        lemma_read_texts_written(before, init, field.bytes() + after);
        assert(before + texts_bytes(init) + (field.bytes() + after) =~= whole);
        lemma_text_field(last);
        lemma_parse_field_written(before + texts_bytes(init), field, after);
        assert((before + texts_bytes(init)) + field.bytes() + after =~= whole);
        assert(init.push(last) =~= texts);
    } else {
        assert(texts =~= Seq::<Seq<char>>::empty());
    }
}

/// Round trip: an encoded token list decodes to itself.
pub proof fn law_token_list_round_trip(ids: Seq<Seq<char>>)
    requires
        token_list_fits(ids),
    ensures
        parse_token_list(encode_token_list_spec(ids)) == Some(ids),
        decode_token_list_spec(encode_token_list_spec(ids)) == ids,
{
    let count = ids.len() as u64;
    let bytes = encode_token_list_spec(ids);
    lemma_auto_spec_u64_to_from_le_bytes();
    lemma_read_u64_written(Seq::empty(), count, texts_bytes(ids));
    assert(Seq::<u8>::empty() + u64_bytes(count) + texts_bytes(ids) =~= bytes);
    lemma_texts_bytes_len(ids);
    lemma_read_texts_written(u64_bytes(count), ids, Seq::empty());
    assert(u64_bytes(count) + texts_bytes(ids) + Seq::<u8>::empty() =~= bytes);
}

} // verus!
