//! Cache keys. A key that depends on a credential carries the BLAKE3 digest
//! of the credential in lowercase hexadecimal, never the credential itself.

use crate::text::{occurs_at, occurs_in};
use vstd::prelude::*;
use vstd::string::*;
use vstd::utf8::*;

verus! {

/// The BLAKE3 digest of `input`, as `blake3::hash` computes it.
pub uninterp spec fn blake3_digest(input: Seq<u8>) -> Seq<u8>;

/// Calls `blake3::hash` and copies the 32 digest bytes out of the `Hash`.
/// Trusted: the result is the BLAKE3 digest of `input`, a function of the
/// input bytes alone.
#[verifier::external_body]
fn blake3_hash(input: &[u8]) -> (out: [u8; 32])
    ensures
        out@ == blake3_digest(input@),
{
    *blake3::hash(input).as_bytes()
}

/// The sixteen lowercase hexadecimal digits, in order of value.
pub open spec fn hex_digits() -> Seq<char> {
    seq!['0', '1', '2', '3', '4', '5', '6', '7', '8', '9', 'a', 'b', 'c', 'd', 'e', 'f']
}

/// Lowercase hexadecimal text of `bytes`: two digits per byte, high nibble first.
pub open spec fn lower_hex(bytes: Seq<u8>) -> Seq<char> {
    Seq::new(
        2 * bytes.len(),
        |i: int|
            if i % 2 == 0 {
                hex_digits()[bytes[i / 2] as int / 16]
            } else {
                hex_digits()[bytes[i / 2] as int % 16]
            },
    )
}

fn digit_str(n: u8) -> (s: &'static str)
    requires
        n < 16,
    ensures
        s@ == seq![hex_digits()[n as int]],
{
    proof {
        reveal_strlit("0");
        reveal_strlit("1");
        reveal_strlit("2");
        reveal_strlit("3");
        reveal_strlit("4");
        reveal_strlit("5");
        reveal_strlit("6");
        reveal_strlit("7");
        reveal_strlit("8");
        reveal_strlit("9");
        reveal_strlit("a");
        reveal_strlit("b");
        reveal_strlit("c");
        reveal_strlit("d");
        reveal_strlit("e");
        reveal_strlit("f");
    }
    let s = match n {
        0 => "0",
        1 => "1",
        2 => "2",
        3 => "3",
        4 => "4",
        5 => "5",
        6 => "6",
        7 => "7",
        8 => "8",
        9 => "9",
        10 => "a",
        11 => "b",
        12 => "c",
        13 => "d",
        14 => "e",
        _ => "f",
    };
    s
}

/// Appends the lowercase hexadecimal text of `bytes` to `out`.
pub fn push_hex(out: &mut String, bytes: &[u8])
    ensures
        final(out)@ == old(out)@ + lower_hex(bytes@),
{
    let ghost start = out@;
    let mut i: usize = 0;
    while i < bytes.len()
        invariant
            i <= bytes.len(),
            out@ == start + lower_hex(bytes@).take(2 * i),
        decreases bytes.len() - i,
    {
        let b = bytes[i];
        out.append(digit_str(b / 16));
        out.append(digit_str(b % 16));
        i = i + 1;
    }
}

/// The key under which a result that depends on `secret` is cached for
/// `endpoint`: the endpoint, a slash, and the digest of the secret in hex.
pub open spec fn secret_key(endpoint: Seq<char>, secret: Seq<char>) -> Seq<char> {
    endpoint + seq!['/'] + lower_hex(blake3_digest(encode_utf8(secret)))
}

/// Derives the cache key for a result of `endpoint` that depends on `secret`.
pub fn derive_key(endpoint: &str, secret: &str) -> (key: String)
    ensures
        key@ == secret_key(endpoint@, secret@),
{
    proof {
        reveal_strlit("/");
    }
    let digest = blake3_hash(secret.as_bytes());
    let mut key = String::from_str(endpoint);
    key.append("/");
    push_hex(&mut key, digest.as_slice());
    key
}

/// Hexadecimal text has two characters per byte, all of them hexadecimal
/// digits.
pub proof fn lemma_hex_is_digits(bytes: Seq<u8>)
    ensures
        lower_hex(bytes).len() == 2 * bytes.len(),
        forall|i: int|
            0 <= i < lower_hex(bytes).len() ==> hex_digits().contains(
                #[trigger] lower_hex(bytes)[i],
            ),
{
    let hex = lower_hex(bytes);
    assert forall|i: int| 0 <= i < hex.len() implies hex_digits().contains(#[trigger] hex[i]) by {
        let b = bytes[i / 2] as int;
        let n = if i % 2 == 0 { b / 16 } else { b % 16 };
        assert(hex[i] == hex_digits()[n]);
    }
}

/// Different byte strings have different hexadecimal texts.
pub proof fn lemma_hex_injective(a: Seq<u8>, b: Seq<u8>)
    requires
        lower_hex(a) == lower_hex(b),
    ensures
        a == b,
{
    assert(lower_hex(a).len() == 2 * a.len());
    assert(lower_hex(b).len() == 2 * b.len());
    assert forall|i: int| 0 <= i < a.len() implies a[i] == b[i] by {
        let x = a[i] as int;
        let y = b[i] as int;
        assert(lower_hex(a)[2 * i] == hex_digits()[x / 16]);
        assert(lower_hex(b)[2 * i] == hex_digits()[y / 16]);
        assert(lower_hex(a)[2 * i + 1] == hex_digits()[x % 16]);
        assert(lower_hex(b)[2 * i + 1] == hex_digits()[y % 16]);
        assert(x / 16 == y / 16 && x % 16 == y % 16);
    }
}

/// Two secrets get the same key for an endpoint only if BLAKE3 gives them
/// the same digest.
pub proof fn lemma_keys_collide_with_digests(
    endpoint: Seq<char>,
    first: Seq<char>,
    second: Seq<char>,
)
    ensures
        secret_key(endpoint, first) == secret_key(endpoint, second) <==> blake3_digest(
            encode_utf8(first),
        ) == blake3_digest(encode_utf8(second)),
{
    let a = lower_hex(blake3_digest(encode_utf8(first)));
    let b = lower_hex(blake3_digest(encode_utf8(second)));
    let head = endpoint + seq!['/'];
    if secret_key(endpoint, first) == secret_key(endpoint, second) {
        assert((head + a).skip(head.len() as int) =~= a);
        assert((head + b).skip(head.len() as int) =~= b);
        lemma_hex_injective(blake3_digest(encode_utf8(first)), blake3_digest(encode_utf8(second)));
    }
}

/// The secret, laid over a key at place `start`, clashes with the key at
/// its character `at`, whatever the digest in the key is: the character
/// falls on another character of `head`, the part of the key before the
/// digest, or it falls behind `head` and is no hexadecimal digit.
pub open spec fn clashes(head: Seq<char>, secret: Seq<char>, start: int, at: int) -> bool {
    &&& 0 <= at < secret.len()
    &&& if start + at < head.len() {
        head[start + at] != secret[at]
    } else {
        !hex_digits().contains(secret[at])
    }
}

/// The secret, laid over a key at place `start`, clashes with it somewhere.
pub open spec fn clashes_at(head: Seq<char>, secret: Seq<char>, start: int) -> bool {
    exists|at: int| #[trigger] clashes(head, secret, start, at)
}

/// A key does not show a secret that clashes with it at every place where
/// it could lie. The premise speaks of the endpoint and the secret alone, so
/// this holds of the key of that secret and of the key of any other. A
/// secret that meets no such clash is a run of characters of the endpoint
/// and the slash, followed by hexadecimal digits only; whether a key shows
/// such a secret depends on the digest.
pub proof fn lemma_key_hides_secret(endpoint: Seq<char>, secret: Seq<char>, hashed: Seq<char>)
    requires
        forall|start: int| 0 <= start ==> #[trigger] clashes_at(endpoint + seq!['/'], secret, start),
    ensures
        !occurs_in(secret, secret_key(endpoint, hashed)),
{
    let head = endpoint + seq!['/'];
    let key = secret_key(endpoint, hashed);
    let hex = lower_hex(blake3_digest(encode_utf8(hashed)));
    lemma_hex_is_digits(blake3_digest(encode_utf8(hashed)));
    if occurs_in(secret, key) {
        let start = choose|start: int| #[trigger] occurs_at(secret, key, start);
        assert(clashes_at(head, secret, start));
        let at = choose|at: int| #[trigger] clashes(head, secret, start, at);
        let place = start + at;
        assert(key.subrange(start, start + secret.len())[at] == key[place]);
        if place < head.len() {
            assert(key[place] == head[place]);
        } else {
            assert(key[place] == hex[place - head.len()]);
        }
    }
}

/// A key does not show a secret with a character that is no hexadecimal
/// digit and that, where the secret lies, cannot fall on the same character
/// of the endpoint or on the slash: the character at `at` falls at place
/// `at` of the key or behind it.
pub proof fn lemma_key_hides_marked_secret(
    endpoint: Seq<char>,
    secret: Seq<char>,
    hashed: Seq<char>,
    at: int,
)
    requires
        0 <= at < secret.len(),
        !hex_digits().contains(secret[at]),
        forall|place: int|
            at <= place < endpoint.len() + 1 ==> (endpoint + seq!['/'])[place] != secret[at],
    ensures
        !occurs_in(secret, secret_key(endpoint, hashed)),
{
    let head = endpoint + seq!['/'];
    assert forall|start: int| 0 <= start implies #[trigger] clashes_at(head, secret, start) by {
        assert(clashes(head, secret, start, at));
    }
    lemma_key_hides_secret(endpoint, secret, hashed);
}

} // verus!
