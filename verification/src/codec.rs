//! The persisted binary format of a cached value.
//!
//! A file starts with the format version and a tag for the variant. Texts
//! are stored as UTF-8, and every text or byte payload is preceded by its
//! length in bytes as a 64-bit little-endian number. An identifier is one
//! text; an emote set is its emotes one after the other up to the end of the
//! file, each a text (the name) and a payload (the image). Within an emote
//! set every name occurs once: a file in which one occurs twice is read as no
//! value.

use crate::value::{
    has_unique_names,
    raw_emotes_view,
    raw_view,
    RawCacheValue,
    RawEmote,
    RawEmoteView,
    RawView,
};
use vstd::bytes::*;
use vstd::prelude::*;
use vstd::slice::*;
use vstd::string::*;
use vstd::utf8::*;

verus! {

/// The version of the format that `encode` writes and `decode` reads.
pub const WIRE_VERSION: u8 = 1;

pub const TAG_CLIENT_ID: u8 = 0;

pub const TAG_USER_ID: u8 = 1;

pub const TAG_EMOTE_SET: u8 = 2;

/// A length that the format can record.
pub open spec fn fits(len: nat) -> bool {
    len <= u64::MAX
}

pub open spec fn representable_emote(emote: RawEmoteView) -> bool {
    fits(encode_utf8(emote.name).len()) && fits(emote.data.len())
}

/// A value whose texts and payloads all have lengths that the format can
/// record. Every value held in memory is of this kind.
pub open spec fn representable(value: RawView) -> bool {
    match value {
        RawView::ClientId(id) => fits(encode_utf8(id).len()),
        RawView::UserId(id) => fits(encode_utf8(id).len()),
        RawView::EmoteSet(emotes) => forall|i: int|
            0 <= i < emotes.len() ==> representable_emote(#[trigger] emotes[i]),
    }
}

/// A payload on the wire: its length, then its bytes.
pub open spec fn wire_blob(bytes: Seq<u8>) -> Seq<u8> {
    spec_u64_to_le_bytes(bytes.len() as u64) + bytes
}

/// A text on the wire: its UTF-8 bytes as a payload.
pub open spec fn wire_text(text: Seq<char>) -> Seq<u8> {
    wire_blob(encode_utf8(text))
}

pub open spec fn wire_emote(emote: RawEmoteView) -> Seq<u8> {
    wire_text(emote.name) + wire_blob(emote.data)
}

pub open spec fn wire_emotes(emotes: Seq<RawEmoteView>) -> Seq<u8>
    decreases emotes.len(),
{
    if emotes.len() == 0 {
        Seq::empty()
    } else {
        wire_emote(emotes.first()) + wire_emotes(emotes.drop_first())
    }
}

/// The file that stands for a value.
pub open spec fn wire(value: RawView) -> Seq<u8> {
    match value {
        RawView::ClientId(id) => seq![WIRE_VERSION, TAG_CLIENT_ID] + wire_text(id),
        RawView::UserId(id) => seq![WIRE_VERSION, TAG_USER_ID] + wire_text(id),
        RawView::EmoteSet(emotes) => seq![WIRE_VERSION, TAG_EMOTE_SET] + wire_emotes(emotes),
    }
}

/// A value that a file can stand for: one that the format can record and
/// that is well formed, so that no emote set among them has a name twice.
pub open spec fn storable(value: RawView) -> bool {
    representable(value) && value.well_formed()
}

/// The value that a file stands for: the one whose file it is, if there is
/// one. `lemma_wire_injective` shows that there is at most one. The file of
/// an emote set with a name twice stands for no value.
pub open spec fn unwired(bytes: Seq<u8>) -> Option<RawView> {
    if exists|value: RawView| storable(value) && wire(value) == bytes {
        Some(choose|value: RawView| storable(value) && wire(value) == bytes)
    } else {
        None
    }
}

spec fn checked(input: Seq<u8>) -> Option<RawView> {
    match parse(input) {
        Some(value) => if value.well_formed() {
            Some(value)
        } else {
            None
        },
        None => None,
    }
}

spec fn parse_blob(input: Seq<u8>) -> Option<(Seq<u8>, Seq<u8>)> {
    if input.len() < 8 {
        None
    } else {
        let len = spec_u64_from_le_bytes(input.subrange(0, 8)) as int;
        if input.len() - 8 < len {
            None
        } else {
            Some((input.subrange(8, 8 + len), input.skip(8 + len)))
        }
    }
}

spec fn parse_text(input: Seq<u8>) -> Option<(Seq<char>, Seq<u8>)> {
    match parse_blob(input) {
        Some((bytes, rest)) => if valid_utf8(bytes) {
            Some((decode_utf8(bytes), rest))
        } else {
            None
        },
        None => None,
    }
}

spec fn parse_emote(input: Seq<u8>) -> Option<(RawEmoteView, Seq<u8>)> {
    match parse_text(input) {
        Some((name, rest)) => match parse_blob(rest) {
            Some((data, rest)) => Some((RawEmoteView { name, data }, rest)),
            None => None,
        },
        None => None,
    }
}

spec fn parse_emotes(input: Seq<u8>) -> Option<Seq<RawEmoteView>>
    decreases input.len(),
{
    if input.len() == 0 {
        Some(Seq::empty())
    } else {
        match parse_emote(input) {
            Some((emote, rest)) => if rest.len() < input.len() {
                match parse_emotes(rest) {
                    Some(emotes) => Some(seq![emote] + emotes),
                    None => None,
                }
            } else {
                None
            },
            None => None,
        }
    }
}

spec fn parse(input: Seq<u8>) -> Option<RawView> {
    if input.len() < 2 || input[0] != WIRE_VERSION {
        None
    } else if input[1] == TAG_CLIENT_ID {
        match parse_text(input.skip(2)) {
            Some((id, rest)) => if rest.len() == 0 {
                Some(RawView::ClientId(id))
            } else {
                None
            },
            None => None,
        }
    } else if input[1] == TAG_USER_ID {
        match parse_text(input.skip(2)) {
            Some((id, rest)) => if rest.len() == 0 {
                Some(RawView::UserId(id))
            } else {
                None
            },
            None => None,
        }
    } else if input[1] == TAG_EMOTE_SET {
        match parse_emotes(input.skip(2)) {
            Some(emotes) => Some(RawView::EmoteSet(emotes)),
            None => None,
        }
    } else {
        None
    }
}

proof fn lemma_blob_parses(bytes: Seq<u8>, rest: Seq<u8>)
    requires
        fits(bytes.len()),
    ensures
        parse_blob(wire_blob(bytes) + rest) == Some((bytes, rest)),
        wire_blob(bytes).len() == 8 + bytes.len(),
{
    lemma_auto_spec_u64_to_from_le_bytes();
    let head = spec_u64_to_le_bytes(bytes.len() as u64);
    let input = wire_blob(bytes) + rest;
    assert(input.subrange(0, 8) =~= head);
    assert(input.subrange(8, 8 + bytes.len() as int) =~= bytes);
    assert(input.skip(8 + bytes.len() as int) =~= rest);
}

proof fn lemma_blob_parsed(input: Seq<u8>)
    requires
        parse_blob(input) is Some,
    ensures
        ({
            let (bytes, rest) = parse_blob(input)->0;
            &&& input == wire_blob(bytes) + rest
            &&& fits(bytes.len())
            &&& input.len() == 8 + bytes.len() + rest.len()
        }),
{
    lemma_auto_spec_u64_to_from_le_bytes();
    let (bytes, rest) = parse_blob(input)->0;
    assert(input =~= wire_blob(bytes) + rest);
}

proof fn lemma_text_parses(text: Seq<char>, rest: Seq<u8>)
    requires
        fits(encode_utf8(text).len()),
    ensures
        parse_text(wire_text(text) + rest) == Some((text, rest)),
        wire_text(text).len() >= 8,
{
    lemma_blob_parses(encode_utf8(text), rest);
    encode_utf8_valid_utf8(text);
    encode_utf8_decode_utf8(text);
}

proof fn lemma_text_parsed(input: Seq<u8>)
    requires
        parse_text(input) is Some,
    ensures
        ({
            let (text, rest) = parse_text(input)->0;
            &&& input == wire_text(text) + rest
            &&& fits(encode_utf8(text).len())
            &&& input.len() >= 8 + rest.len()
        }),
{
    lemma_blob_parsed(input);
    let (bytes, rest) = parse_blob(input)->0;
    decode_utf8_encode_utf8(bytes);
}

proof fn lemma_emote_parses(emote: RawEmoteView, rest: Seq<u8>)
    requires
        representable_emote(emote),
    ensures
        parse_emote(wire_emote(emote) + rest) == Some((emote, rest)),
        wire_emote(emote).len() >= 16,
{
    let tail = wire_blob(emote.data) + rest;
    lemma_text_parses(emote.name, tail);
    lemma_blob_parses(emote.data, rest);
    assert(wire_emote(emote) + rest =~= wire_text(emote.name) + tail);
}

proof fn lemma_emote_parsed(input: Seq<u8>)
    requires
        parse_emote(input) is Some,
    ensures
        ({
            let (emote, rest) = parse_emote(input)->0;
            &&& input == wire_emote(emote) + rest
            &&& representable_emote(emote)
            &&& input.len() >= 16 + rest.len()
        }),
{
    lemma_text_parsed(input);
    let (name, tail) = parse_text(input)->0;
    lemma_blob_parsed(tail);
    let (data, rest) = parse_blob(tail)->0;
    assert(input =~= wire_text(name) + wire_blob(data) + rest);
}

proof fn lemma_emotes_parse(emotes: Seq<RawEmoteView>)
    requires
        forall|i: int| 0 <= i < emotes.len() ==> representable_emote(#[trigger] emotes[i]),
    ensures
        parse_emotes(wire_emotes(emotes)) == Some(emotes),
    decreases emotes.len(),
{
    if emotes.len() > 0 {
        let first = emotes.first();
        let others = emotes.drop_first();
        assert forall|i: int| 0 <= i < others.len() implies representable_emote(
            #[trigger] others[i],
        ) by {
            assert(others[i] == emotes[i + 1]);
        }
        lemma_emotes_parse(others);
        lemma_emote_parses(first, wire_emotes(others));
        assert(seq![first] + others =~= emotes);
    }
}

proof fn lemma_emotes_parsed(input: Seq<u8>)
    requires
        parse_emotes(input) is Some,
    ensures
        ({
            let emotes = parse_emotes(input)->0;
            &&& input == wire_emotes(emotes)
            &&& forall|i: int| 0 <= i < emotes.len() ==> representable_emote(#[trigger] emotes[i])
        }),
    decreases input.len(),
{
    if input.len() > 0 {
        lemma_emote_parsed(input);
        let (emote, rest) = parse_emote(input)->0;
        lemma_emotes_parsed(rest);
        let others = parse_emotes(rest)->0;
        let emotes = seq![emote] + others;
        assert(emotes.drop_first() =~= others);
        assert forall|i: int| 0 <= i < emotes.len() implies representable_emote(
            #[trigger] emotes[i],
        ) by {
            if i > 0 {
                assert(emotes[i] == others[i - 1]);
            }
        }
    }
}

proof fn lemma_parses(value: RawView)
    requires
        representable(value),
    ensures
        parse(wire(value)) == Some(value),
{
    let input = wire(value);
    match value {
        RawView::ClientId(id) => {
            lemma_text_parses(id, Seq::empty());
            assert(input.skip(2) =~= wire_text(id) + Seq::<u8>::empty());
        },
        RawView::UserId(id) => {
            lemma_text_parses(id, Seq::empty());
            assert(input.skip(2) =~= wire_text(id) + Seq::<u8>::empty());
        },
        RawView::EmoteSet(emotes) => {
            lemma_emotes_parse(emotes);
            assert(input.skip(2) =~= wire_emotes(emotes));
        },
    }
}

proof fn lemma_parsed(input: Seq<u8>)
    requires
        parse(input) is Some,
    ensures
        wire(parse(input)->0) == input,
        representable(parse(input)->0),
{
    let body = input.skip(2);
    assert(input =~= seq![input[0], input[1]] + body);
    if input[1] == TAG_EMOTE_SET {
        lemma_emotes_parsed(body);
    } else {
        lemma_text_parsed(body);
        let (id, rest) = parse_text(body)->0;
        assert(body =~= wire_text(id));
    }
}

/// No two values have the same file.
pub proof fn lemma_wire_injective(a: RawView, b: RawView)
    requires
        representable(a),
        representable(b),
        wire(a) == wire(b),
    ensures
        a == b,
{
    lemma_parses(a);
    lemma_parses(b);
}

proof fn lemma_parse_is_unwired(input: Seq<u8>)
    ensures
        checked(input) == unwired(input),
{
    if parse(input) is Some {
        lemma_parsed(input);
    }
    if exists|value: RawView| storable(value) && wire(value) == input {
        let value = choose|value: RawView| storable(value) && wire(value) == input;
        lemma_parses(value);
    }
}

/// Reading back what was written gives the value that was written, for
/// every well-formed value.
pub proof fn lemma_round_trip(value: RawView)
    requires
        storable(value),
    ensures
        unwired(wire(value)) == Some(value),
{
    lemma_parses(value);
    lemma_parse_is_unwired(wire(value));
}

/// A file that is read as a value is the file of that value: there is one
/// file per value, and `decode` accepts no other.
pub proof fn lemma_unwired_is_canonical(bytes: Seq<u8>)
    requires
        unwired(bytes) is Some,
    ensures
        wire(unwired(bytes)->0) == bytes,
        storable(unwired(bytes)->0),
{
}

/// The file of a value that is not well formed, an emote set with a name
/// twice, is read as no value.
pub proof fn lemma_ill_formed_is_refused(value: RawView)
    requires
        representable(value),
        !value.well_formed(),
    ensures
        unwired(wire(value)) is None,
{
    lemma_parses(value);
    lemma_parse_is_unwired(wire(value));
}

/// Calls `String::from_utf8`. Trusted: it succeeds exactly on valid UTF-8,
/// and the text it gives is the one that the bytes encode.
#[verifier::external_body]
fn string_from_utf8(bytes: Vec<u8>) -> (text: Option<String>)
    ensures
        text is Some <==> valid_utf8(bytes@),
        text matches Some(s) ==> s@ == decode_utf8(bytes@),
{
    String::from_utf8(bytes).ok()
}

fn put_blob(out: &mut Vec<u8>, bytes: &[u8])
    ensures
        final(out)@ == old(out)@ + wire_blob(bytes@),
        fits(bytes@.len()),
{
    let mut head = u64_to_le_bytes(bytes.len() as u64);
    out.append(&mut head);
    out.extend_from_slice(bytes);
}

fn put_text(out: &mut Vec<u8>, text: &str)
    ensures
        final(out)@ == old(out)@ + wire_text(text@),
        fits(encode_utf8(text@).len()),
{
    put_blob(out, text.as_bytes());
}

/// Writes the file that stands for `value`.
pub fn encode(value: &RawCacheValue) -> (bytes: Vec<u8>)
    ensures
        bytes@ == wire(value@),
        representable(value@),
{
    let mut out: Vec<u8> = Vec::new();
    out.push(WIRE_VERSION);
    match value {
        RawCacheValue::ClientId(id) => {
            out.push(TAG_CLIENT_ID);
            put_text(&mut out, id.as_str());
        },
        RawCacheValue::UserId(id) => {
            out.push(TAG_USER_ID);
            put_text(&mut out, id.as_str());
        },
        RawCacheValue::EmoteSet(emotes) => {
            out.push(TAG_EMOTE_SET);
            let ghost views = raw_emotes_view(emotes@);
            let ghost head = out@;
            assert(views.skip(0) =~= views);
            let mut i: usize = 0;
            while i < emotes.len()
                invariant
                    i <= emotes.len(),
                    views == raw_emotes_view(emotes@),
                    head == seq![WIRE_VERSION, TAG_EMOTE_SET],
                    out@ + wire_emotes(views.skip(i as int)) == head + wire_emotes(views),
                    forall|j: int| 0 <= j < i ==> representable_emote(#[trigger] views[j]),
                decreases emotes.len() - i,
            {
                let emote = &emotes[i];
                put_text(&mut out, emote.name());
                put_blob(&mut out, emote.data());
                assert(views.skip(i as int).drop_first() =~= views.skip(i + 1));
                i = i + 1;
            }
        },
    }
    out
}

fn take_blob<'a>(input: &'a [u8], at: usize) -> (found: Option<(&'a [u8], usize)>)
    requires
        at <= input@.len(),
    ensures
        match found {
            Some((blob, next)) => at <= next <= input@.len() && parse_blob(input@.skip(at as int))
                == Some((blob@, input@.skip(next as int))),
            None => parse_blob(input@.skip(at as int)) is None,
        },
{
    let ghost rest = input@.skip(at as int);
    let left = input.len() - at;
    if left < 8 {
        return None;
    }
    let len = u64_from_le_bytes(slice_subrange(input, at, at + 8));
    assert(rest.subrange(0, 8) =~= input@.subrange(at as int, at + 8));
    if ((left - 8) as u64) < len {
        return None;
    }
    let start = at + 8;
    let end = start + len as usize;
    let blob = slice_subrange(input, start, end);
    Some((blob, end))
}

fn take_text(input: &[u8], at: usize) -> (found: Option<(String, usize)>)
    requires
        at <= input@.len(),
    ensures
        match found {
            Some((text, next)) => at <= next <= input@.len() && parse_text(input@.skip(at as int))
                == Some((text@, input@.skip(next as int))),
            None => parse_text(input@.skip(at as int)) is None,
        },
{
    match take_blob(input, at) {
        Some((blob, next)) => match string_from_utf8(slice_to_vec(blob)) {
            Some(text) => Some((text, next)),
            None => None,
        },
        None => None,
    }
}

fn take_emote(input: &[u8], at: usize) -> (found: Option<(RawEmote, usize)>)
    requires
        at <= input@.len(),
    ensures
        match found {
            Some((emote, next)) => at <= next <= input@.len() && parse_emote(
                input@.skip(at as int),
            ) == Some((emote@, input@.skip(next as int))),
            None => parse_emote(input@.skip(at as int)) is None,
        },
{
    match take_text(input, at) {
        Some((name, next)) => match take_blob(input, next) {
            Some((data, next)) => Some((RawEmote::new(name, slice_to_vec(data)), next)),
            None => None,
        },
        None => None,
    }
}

fn take_id(input: &[u8]) -> (id: Option<String>)
    requires
        input@.len() >= 2,
    ensures
        match id {
            Some(text) => parse_text(input@.skip(2)) == Some((text@, Seq::<u8>::empty())),
            None => !(parse_text(input@.skip(2)) matches Some((_, rest)) && rest.len() == 0),
        },
{
    match take_text(input, 2) {
        Some((text, next)) => if next == input.len() {
            Some(text)
        } else {
            None
        },
        None => None,
    }
}

/// Reads a file. Gives the value whose file it is, and nothing for any
/// other input: an unknown version or tag, a length that runs past the end,
/// a text that is not UTF-8, bytes left over, or an emote set with a name
/// twice.
pub fn decode(bytes: &[u8]) -> (value: Option<RawCacheValue>)
    ensures
        raw_view(value) == unwired(bytes@),
{
    proof {
        lemma_parse_is_unwired(bytes@);
    }
    if bytes.len() < 2 || bytes[0] != WIRE_VERSION {
        return None;
    }
    let tag = bytes[1];
    if tag == TAG_CLIENT_ID {
        match take_id(bytes) {
            Some(id) => Some(RawCacheValue::ClientId(id)),
            None => None,
        }
    } else if tag == TAG_USER_ID {
        match take_id(bytes) {
            Some(id) => Some(RawCacheValue::UserId(id)),
            None => None,
        }
    } else if tag == TAG_EMOTE_SET {
        let ghost body = bytes@.skip(2);
        let mut emotes: Vec<RawEmote> = Vec::new();
        let mut at: usize = 2;
        while at < bytes.len()
            invariant
                2 <= at <= bytes@.len(),
                body == bytes@.skip(2),
                bytes@[0] == WIRE_VERSION,
                bytes@[1] == TAG_EMOTE_SET,
                checked(bytes@) == unwired(bytes@),
                parse_emotes(body) == match parse_emotes(bytes@.skip(at as int)) {
                    Some(more) => Some(raw_emotes_view(emotes@) + more),
                    None => None,
                },
            decreases bytes@.len() - at,
        {
            let ghost rest = bytes@.skip(at as int);
            let ghost seen = raw_emotes_view(emotes@);
            match take_emote(bytes, at) {
                Some((emote, next)) => {
                    proof {
                        lemma_emote_parsed(rest);
                    }
                    emotes.push(emote);
                    assert(raw_emotes_view(emotes@) =~= seen + seq![emote@]);
                    at = next;
                },
                None => {
                    return None;
                },
            }
        }
        if has_unique_names(&emotes) {
            Some(RawCacheValue::EmoteSet(emotes))
        } else {
            None
        }
    } else {
        None
    }
}

} // verus!
