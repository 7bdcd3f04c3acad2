use vstd::prelude::*;
use vstd::string::*;
use vstd::utf8::*;

verus! {

/// Index of the first NUL byte of `b`, or its length when it holds none.
pub open spec fn first_nul(b: Seq<u8>) -> int
    decreases b.len(),
{
    if b.len() == 0 {
        0
    } else if b[0] == 0 {
        0
    } else {
        1 + first_nul(b.drop_first())
    }
}

/// What a C reader sees of `b`: the bytes before its first NUL.
pub open spec fn before_nul(b: Seq<u8>) -> Seq<u8> {
    b.take(first_nul(b))
}

/// The NUL-terminated bytes that stand for `text` on the C side: its UTF-8
/// encoding cut at the first NUL, then one NUL.
pub open spec fn c_string_bytes(text: Seq<char>) -> Seq<u8> {
    before_nul(encode_utf8(text)).push(0u8)
}

/// The text that a received payload `raw` carries: the bytes before its first
/// NUL, decoded as UTF-8, or `None` when they are not valid UTF-8.
pub open spec fn received_text(raw: Seq<u8>) -> Option<Seq<char>> {
    if valid_utf8(before_nul(raw)) {
        Some(decode_utf8(before_nul(raw)))
    } else {
        None
    }
}

/// `k` is the first NUL position of `b` exactly when the bytes before `k`
/// are not NUL and `k` is either the end or a NUL.
pub proof fn lemma_first_nul_at(b: Seq<u8>, k: int)
    requires
        0 <= k <= b.len(),
        forall|j: int| 0 <= j < k ==> b[j] != 0,
        k == b.len() || b[k] == 0,
    ensures
        first_nul(b) == k,
    decreases b.len(),
{
    if b.len() > 0 && k > 0 {
        let rest = b.drop_first();
        assert forall|j: int| 0 <= j < k - 1 implies rest[j] != 0 by {
            assert(rest[j] == b[j + 1]);
        }
        if k < b.len() {
            assert(rest[k - 1] == b[k]);
        }
        lemma_first_nul_at(rest, k - 1);
    }
}

/// Index of the first NUL character of `s`, or its length when it holds none.
pub open spec fn first_nul_char(s: Seq<char>) -> int
    decreases s.len(),
{
    if s.len() == 0 {
        0
    } else if s[0] == '\0' {
        0
    } else {
        1 + first_nul_char(s.drop_first())
    }
}

/// The characters of `s` before its first NUL character.
pub open spec fn text_before_nul(s: Seq<char>) -> Seq<char> {
    s.take(first_nul_char(s))
}

/// The first NUL character position lies within `s`, no character before it
/// is NUL, and the character there, if any, is NUL.
pub proof fn lemma_first_nul_char_props(s: Seq<char>)
    ensures
        0 <= first_nul_char(s) <= s.len(),
        forall|j: int| 0 <= j < first_nul_char(s) ==> s[j] != '\0',
        first_nul_char(s) < s.len() ==> s[first_nul_char(s)] == '\0',
    decreases s.len(),
{
    if s.len() > 0 && s[0] != '\0' {
        let rest = s.drop_first();
        lemma_first_nul_char_props(rest);
        assert forall|j: int| 0 <= j < first_nul_char(s) implies s[j] != '\0' by {
            if j > 0 {
                assert(s[j] == rest[j - 1]);
            }
        }
    }
}

/// The UTF-8 encoding of one character holds a zero byte exactly when the
/// character is NUL, which encodes as the single byte zero.
pub proof fn lemma_encode_scalar_zero(c: char)
    ensures
        encode_scalar(c as u32).len() >= 1,
        c == '\0' ==> encode_scalar(c as u32) == seq![0u8],
        c != '\0' ==> forall|i: int|
            0 <= i < encode_scalar(c as u32).len() ==> #[trigger] encode_scalar(c as u32)[i] != 0,
{
    let v = c as u32;
    char_is_scalar(c);
    char_u32_cast(c, v);
    assert((v & 0x7F) as u8 == 0 ==> v == 0 || !has_width_1_encoding(v)) by (bit_vector);
    assert(0xC0u8 | ((v >> 6) & 0x1F) as u8 != 0) by (bit_vector);
    assert(0xE0u8 | ((v >> 12) & 0x0F) as u8 != 0) by (bit_vector);
    assert(0xF0u8 | ((v >> 18) & 0x7) as u8 != 0) by (bit_vector);
    assert(0x80u8 | (v & 0x3F) as u8 != 0) by (bit_vector);
    assert(0x80u8 | ((v >> 6) & 0x3F) as u8 != 0) by (bit_vector);
    assert(0x80u8 | ((v >> 12) & 0x3F) as u8 != 0) by (bit_vector);
    if c == '\0' {
        assert(v == 0);
        assert((0u32 & 0x7F) as u8 == 0) by (bit_vector);
    }
}

/// Encoding distributes over concatenation.
pub proof fn lemma_encode_utf8_concat(a: Seq<char>, b: Seq<char>)
    ensures
        encode_utf8(a + b) == encode_utf8(a) + encode_utf8(b),
    decreases a.len(),
{
    if a.len() == 0 {
        assert(a + b =~= b);
        assert(encode_utf8(a) + encode_utf8(b) =~= encode_utf8(b));
    } else {
        assert((a + b)[0] == a[0]);
        assert((a + b).drop_first() =~= a.drop_first() + b);
        lemma_encode_utf8_concat(a.drop_first(), b);
        assert(encode_utf8(a + b) =~= encode_scalar(a[0] as u32) + (encode_utf8(a.drop_first())
            + encode_utf8(b)));
    }
}

/// A text without NUL characters encodes to bytes without zero bytes.
pub proof fn lemma_encode_utf8_nul_free(t: Seq<char>)
    requires
        forall|j: int| 0 <= j < t.len() ==> t[j] != '\0',
    ensures
        forall|k: int| 0 <= k < encode_utf8(t).len() ==> #[trigger] encode_utf8(t)[k] != 0,
    decreases t.len(),
{
    if t.len() > 0 {
        let rest = t.drop_first();
        assert forall|j: int| 0 <= j < rest.len() implies rest[j] != '\0' by {
            assert(rest[j] == t[j + 1]);
        }
        lemma_encode_utf8_nul_free(rest);
        lemma_encode_scalar_zero(t[0]);
        let first = encode_scalar(t[0] as u32);
        assert forall|k: int| 0 <= k < encode_utf8(t).len() implies #[trigger] encode_utf8(t)[k]
            != 0 by {
            if k < first.len() {
                assert(encode_utf8(t)[k] == first[k]);
            } else {
                assert(encode_utf8(t)[k] == encode_utf8(rest)[k - first.len()]);
            }
        }
    }
}

/// What a string goes through on its way to zenoh-pico and back: framing it
/// as a C string and reading the received bytes gives back the text before
/// its first NUL character, so every text without NUL comes back unchanged.
pub proof fn lemma_c_string_round_trip(s: Seq<char>)
    ensures
        received_text(c_string_bytes(s)) == Some(text_before_nul(s)),
{
    lemma_first_nul_char_props(s);
    let j = first_nul_char(s);
    let pre = s.take(j);
    let post = s.skip(j);
    assert(s =~= pre + post);
    lemma_encode_utf8_concat(pre, post);
    let ep = encode_utf8(pre);
    let es = encode_utf8(s);
    assert forall|i: int| 0 <= i < pre.len() implies pre[i] != '\0' by {
        assert(pre[i] == s[i]);
    }
    lemma_encode_utf8_nul_free(pre);
    assert forall|i: int| 0 <= i < ep.len() implies es[i] != 0 by {
        assert(es[i] == ep[i]);
    }
    if j < s.len() {
        assert(post[0] == '\0');
        lemma_encode_scalar_zero(post[0]);
        assert(encode_utf8(post)[0] == 0);
        assert(es[ep.len() as int] == encode_utf8(post)[0]);
    } else {
        assert(post.len() == 0);
        assert(es =~= ep);
    }
    lemma_first_nul_at(es, ep.len() as int);
    assert(before_nul(es) =~= ep);
    let framed = ep.push(0u8);
    assert forall|i: int| 0 <= i < ep.len() implies framed[i] != 0 by {
        assert(framed[i] == ep[i]);
    }
    lemma_first_nul_at(framed, ep.len() as int);
    assert(before_nul(framed) =~= ep);
    encode_utf8_valid_utf8(pre);
    encode_utf8_decode_utf8(pre);
}

/// `std::str::from_utf8`: the string slice whose bytes are `bytes`, or
/// `None` when they are not valid UTF-8. Trusted: std documents that the
/// call succeeds exactly on valid UTF-8 and then returns a `str` over the
/// same bytes; vstd's `valid_utf8` and `encode_utf8` state those notions.
#[verifier::external_body]
fn utf8_str(bytes: &[u8]) -> (res: Option<&str>)
    ensures
        res.is_some() == valid_utf8(bytes@),
        res matches Some(s) ==> encode_utf8(s@) == bytes@,
{
    std::str::from_utf8(bytes).ok()
}

/// The bytes of `bytes` before its first NUL, copied.
fn copy_before_nul(bytes: &[u8]) -> (res: Vec<u8>)
    ensures
        res@ == before_nul(bytes@),
{
    let mut res: Vec<u8> = Vec::new();
    let mut i: usize = 0;
    while i < bytes.len() && bytes[i] != 0
        invariant
            i <= bytes@.len(),
            res@ == bytes@.take(i as int),
            forall|j: int| 0 <= j < i ==> bytes@[j] != 0,
        decreases bytes.len() - i,
    {
        res.push(bytes[i]);
        i = i + 1;
        assert(res@ =~= bytes@.take(i as int));
    }
    proof {
        lemma_first_nul_at(bytes@, i as int);
    }
    res
}

/// The NUL-terminated form of `text` that the examples hand to zenoh-pico
/// for key expressions, configuration values and payloads: the bytes of
/// `text` up to its first NUL, then a NUL.
pub fn to_c_string(text: &str) -> (res: Vec<u8>)
    ensures
        res@ == c_string_bytes(text@),
{
    let bytes = text.as_bytes();
    let mut res = copy_before_nul(bytes);
    res.push(0u8);
    res
}

/// The text of a sample's payload: the payload decoded as UTF-8, or `None`
/// when it is not valid UTF-8.
pub fn sample_text(payload: &[u8]) -> (res: Option<String>)
    ensures
        res.is_some() == valid_utf8(payload@),
        res matches Some(s) ==> encode_utf8(s@) == payload@,
{
    match utf8_str(payload) {
        Some(s) => Some(String::from_str(s)),
        None => None,
    }
}

/// The text of a payload received from zenoh-pico: the bytes before the
/// first NUL, decoded as UTF-8; `None` when they are not valid UTF-8.
pub fn payload_text(raw: &[u8]) -> (res: Option<String>)
    ensures
        res.is_some() == received_text(raw@).is_some(),
        res matches Some(s) ==> received_text(raw@) == Some(s@),
        res.is_some() == valid_utf8(before_nul(raw@)),
        res matches Some(s) ==> encode_utf8(s@) == before_nul(raw@),
{
    let bytes = copy_before_nul(raw);
    let res = sample_text(bytes.as_slice());
    proof {
        if let Some(s) = &res {
            encode_utf8_decode_utf8(s@);
        }
    }
    res
}

/// What a C reader takes from any byte sequence: when `k` is the position of
/// its first NUL (or its length when it holds none), the bytes before `k`.
pub proof fn lemma_before_nul_reads_to_first_nul(b: Seq<u8>, k: int)
    requires
        0 <= k <= b.len(),
        forall|j: int| 0 <= j < k ==> b[j] != 0,
        k == b.len() || b[k] == 0,
    ensures
        before_nul(b) == b.take(k),
        forall|j: int| 0 <= j < before_nul(b).len() ==> #[trigger] before_nul(b)[j] != 0,
{
    lemma_first_nul_at(b, k);
}

/// The text of every received payload: when `k` is the position of its first
/// NUL (or its length when it holds none), the payload reads as the UTF-8
/// decoding of the bytes before `k`, and as nothing when they are not valid
/// UTF-8; the decoded text encodes back to exactly those bytes.
pub proof fn lemma_received_text_reads_to_first_nul(raw: Seq<u8>, k: int)
    requires
        0 <= k <= raw.len(),
        forall|j: int| 0 <= j < k ==> raw[j] != 0,
        k == raw.len() || raw[k] == 0,
    ensures
        received_text(raw) is Some <==> valid_utf8(raw.take(k)),
        received_text(raw) matches Some(s) ==> encode_utf8(s) == raw.take(k) && s == decode_utf8(
            raw.take(k),
        ),
{
    lemma_first_nul_at(raw, k);
    if valid_utf8(raw.take(k)) {
        decode_utf8_encode_utf8(raw.take(k));
    }
}

/// A payload without NUL bytes is read whole: when it is valid UTF-8 its
/// text encodes back to every byte of it, and otherwise it reads as nothing.
pub proof fn lemma_nul_free_payload_read_whole(raw: Seq<u8>)
    requires
        forall|j: int| 0 <= j < raw.len() ==> raw[j] != 0,
    ensures
        received_text(raw) is Some <==> valid_utf8(raw),
        received_text(raw) matches Some(s) ==> encode_utf8(s) == raw,
{
    lemma_received_text_reads_to_first_nul(raw, raw.len() as int);
    assert(raw.take(raw.len() as int) =~= raw);
}

} // verus!
