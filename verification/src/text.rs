//! Text conversions that the documents go through: lossy UTF-8 decoding,
//! whitespace trimming and standard base64 decoding.
use vstd::prelude::*;
use vstd::utf8::decode_utf8;
use vstd::utf8::encode_utf8;
use vstd::utf8::valid_utf8;

verus! {

/// What `String::from_utf8_lossy` makes of a byte sequence that is not valid
/// UTF-8 (each invalid sequence becomes U+FFFD).
pub uninterp spec fn utf8_lossy_of_invalid(bytes: Seq<u8>) -> Seq<char>;

/// What `String::from_utf8_lossy` makes of a byte sequence: valid UTF-8 is
/// decoded as it is.
pub open spec fn utf8_lossy(bytes: Seq<u8>) -> Seq<char> {
    if valid_utf8(bytes) {
        decode_utf8(bytes)
    } else {
        utf8_lossy_of_invalid(bytes)
    }
}

/// The character has the Unicode property `White_Space`, as `char::is_whitespace` tells.
pub open spec fn is_white_space(c: char) -> bool {
    let u = c as u32;
    ||| 0x09 <= u <= 0x0d
    ||| u == 0x20
    ||| u == 0x85
    ||| u == 0xa0
    ||| u == 0x1680
    ||| 0x2000 <= u <= 0x200a
    ||| u == 0x2028
    ||| u == 0x2029
    ||| u == 0x202f
    ||| u == 0x205f
    ||| u == 0x3000
}

/// Every character is white space.
pub open spec fn all_white_space(s: Seq<char>) -> bool {
    forall|i: int| 0 <= i < s.len() ==> is_white_space(#[trigger] s[i])
}

/// The text without its leading white space.
pub open spec fn trim_start(s: Seq<char>) -> Seq<char>
    decreases s.len(),
{
    if s.len() > 0 && is_white_space(s[0]) {
        trim_start(s.drop_first())
    } else {
        s
    }
}

/// The text without its trailing white space.
pub open spec fn trim_end(s: Seq<char>) -> Seq<char>
    decreases s.len(),
{
    if s.len() > 0 && is_white_space(s.last()) {
        trim_end(s.drop_last())
    } else {
        s
    }
}

/// The text without its leading and trailing white space.
pub open spec fn trimmed(s: Seq<char>) -> Seq<char> {
    trim_end(trim_start(s))
}

/// What `BASE64_STANDARD.decode` of the `base64` crate gives back for a text:
/// the decoded bytes, or `None` where it returns an error.
pub uninterp spec fn base64_standard_decode(text: Seq<char>) -> Option<Seq<u8>>;

/// The view of an optional string.
pub open spec fn opt_view(s: Option<String>) -> Option<Seq<char>> {
    match s {
        Some(s) => Some(s@),
        None => None,
    }
}

/// The `DecodeError` of the `base64` crate.
#[verifier::external_type_specification]
#[verifier::external_body]
pub struct ExBase64DecodeError(base64::DecodeError);

/// Calls `String::from_utf8_lossy` and takes the result as an owned string.
/// Claimed: valid UTF-8 is decoded as it is, as the function's documentation
/// says; what it makes of other bytes is named `utf8_lossy_of_invalid`.
#[verifier::external_body]
pub(crate) fn from_utf8_lossy(bytes: &[u8]) -> (text: String)
    ensures
        valid_utf8(bytes@) ==> text@ == decode_utf8(bytes@),
        !valid_utf8(bytes@) ==> text@ == utf8_lossy_of_invalid(bytes@),
        text@ == utf8_lossy(bytes@),
{
    String::from_utf8_lossy(bytes).into_owned()
}

/// Calls `str::trim`. Claimed: the result is the text without its leading
/// and trailing characters of the Unicode property `White_Space`, as the
/// function's documentation says.
#[verifier::external_body]
pub(crate) fn trim(text: &str) -> (r: &str)
    ensures
        r@ == trimmed(text@),
{
    text.trim()
}

/// Calls `Engine::decode` of the `base64` crate with its `STANDARD` engine.
/// Claimed: it succeeds exactly where `base64_standard_decode` is `Some`, and
/// then gives back those bytes.
#[verifier::external_body]
pub(crate) fn decode_base64(text: &str) -> (r: Result<Vec<u8>, base64::DecodeError>)
    ensures
        r is Ok <==> base64_standard_decode(text@) is Some,
        r matches Ok(bytes) ==> base64_standard_decode(text@) == Some(bytes@),
{
    base64::Engine::decode(&base64::prelude::BASE64_STANDARD, text)
}

/// Leading white space does not change what trimming the start leaves.
proof fn lemma_trim_start_skips_white_space(w: Seq<char>, s: Seq<char>)
    requires
        all_white_space(w),
    ensures
        trim_start(w + s) == trim_start(s),
    decreases w.len(),
{
    if w.len() > 0 {
        assert((w + s).drop_first() =~= w.drop_first() + s);
        assert((w + s)[0] == w[0]);
        lemma_trim_start_skips_white_space(w.drop_first(), s);
    } else {
        assert(w + s =~= s);
    }
}

/// Trailing white space does not change what trimming the end leaves.
proof fn lemma_trim_end_skips_white_space(s: Seq<char>, w: Seq<char>)
    requires
        all_white_space(w),
    ensures
        trim_end(s + w) == trim_end(s),
    decreases w.len(),
{
    if w.len() > 0 {
        assert((s + w).drop_last() =~= s + w.drop_last());
        assert((s + w).last() == w.last());
        lemma_trim_end_skips_white_space(s, w.drop_last());
    } else {
        assert(s + w =~= s);
    }
}

/// Trimming the start of a text followed by more text: either the text
/// keeps a character that is not white space, and the rest follows it, or
/// trimming goes on into the rest.
proof fn lemma_trim_start_append(s: Seq<char>, w: Seq<char>)
    ensures
        trim_start(s).len() > 0 ==> trim_start(s + w) == trim_start(s) + w,
        trim_start(s).len() == 0 ==> trim_start(s + w) == trim_start(w),
    decreases s.len(),
{
    if s.len() == 0 {
        assert(s + w =~= w);
    } else {
        assert((s + w)[0] == s[0]);
        if is_white_space(s[0]) {
            assert((s + w).drop_first() =~= s.drop_first() + w);
            lemma_trim_start_append(s.drop_first(), w);
        }
    }
}

/// A text of white space trims to nothing.
proof fn lemma_trim_start_all_white_space(w: Seq<char>)
    requires
        all_white_space(w),
    ensures
        trim_start(w).len() == 0,
    decreases w.len(),
{
    if w.len() > 0 {
        assert(is_white_space(w[0]));
        lemma_trim_start_all_white_space(w.drop_first());
    }
}

/// White space around a text does not change what trimming leaves.
pub proof fn lemma_trimmed_ignores_white_space(w1: Seq<char>, s: Seq<char>, w2: Seq<char>)
    requires
        all_white_space(w1),
        all_white_space(w2),
    ensures
        trimmed(w1 + s + w2) == trimmed(s),
{
    assert(w1 + s + w2 =~= w1 + (s + w2));
    lemma_trim_start_skips_white_space(w1, s + w2);
    lemma_trim_start_append(s, w2);
    if trim_start(s).len() > 0 {
        lemma_trim_end_skips_white_space(trim_start(s), w2);
    } else {
        lemma_trim_start_all_white_space(w2);
        assert(trim_start(w2) =~= trim_start(s));
    }
}

/// The UTF-8 encoding of two texts one after the other is their encodings
/// one after the other.
pub proof fn lemma_encode_utf8_concat(a: Seq<char>, b: Seq<char>)
    ensures
        encode_utf8(a + b) == encode_utf8(a) + encode_utf8(b),
    decreases a.len(),
{
    if a.len() == 0 {
        assert(a + b =~= b);
        assert(encode_utf8(a) + encode_utf8(b) =~= encode_utf8(b));
    } else {
        assert((a + b)[0] == a[0]);
        assert((a + b).drop_first() =~= a.drop_first() + b);
        lemma_encode_utf8_concat(a.drop_first(), b);
        assert(encode_utf8(a + b) =~= encode_utf8(a) + encode_utf8(b));
    }
}

/// Valid UTF-8 between two encoded texts is read lossily as those texts
/// around its decoding.
pub proof fn lemma_utf8_lossy_between(w1: Seq<char>, raw: Seq<u8>, w2: Seq<char>)
    requires
        valid_utf8(raw),
    ensures
        utf8_lossy(encode_utf8(w1) + raw + encode_utf8(w2)) == w1 + utf8_lossy(raw) + w2,
{
    let t = decode_utf8(raw);
    vstd::utf8::decode_utf8_encode_utf8(raw);
    lemma_encode_utf8_concat(w1, t);
    lemma_encode_utf8_concat(w1 + t, w2);
    let all = w1 + t + w2;
    assert(encode_utf8(w1) + raw + encode_utf8(w2) == encode_utf8(all));
    vstd::utf8::encode_utf8_valid_utf8(all);
    vstd::utf8::encode_utf8_decode_utf8(all);
}

} // verus!
