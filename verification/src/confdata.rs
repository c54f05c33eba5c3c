//! The confdata that the KBS hands out: a base64 encoded `confdata.toml`
//! document that holds the LUKS passphrase.
//!
//! ```toml
//! version = "0.1.0"
//!
//! [data]
//! "io.cryptsetup.key.text.root" = "my-luks-passphrase"
//! ```
use vstd::prelude::*;
use vstd::utf8::encode_utf8;
use vstd::utf8::valid_utf8;
use crate::error::result_kind;
use crate::error::KbsError;
use crate::initdata::is_supported_version;
use crate::initdata::supported_version;
use crate::initdata::table_doc;
use crate::text::all_white_space;
use crate::text::base64_standard_decode;
use crate::text::decode_base64;
use crate::text::from_utf8_lossy;
use crate::text::lemma_trimmed_ignores_white_space;
use crate::text::lemma_utf8_lossy_between;
use crate::text::opt_view;
use crate::text::trim;
use crate::text::trimmed;
use crate::text::utf8_lossy;
use crate::toml_doc::bytes_lt;
use crate::toml_doc::has_key;
use crate::toml_doc::keys_sorted;
use crate::toml_doc::parse_toml_table;
use crate::toml_doc::str_value;
use crate::toml_doc::subtable;
use crate::toml_doc::toml_contains_key;
use crate::toml_doc::toml_document;
use crate::toml_doc::toml_get_str;
use crate::toml_doc::toml_get_table;
use crate::toml_doc::toml_str_entries;
use crate::toml_doc::toml_table_entries;
use crate::toml_doc::toml_table_subtables;
use crate::toml_doc::TomlEntries;
use crate::toml_doc::TomlSubtables;

verus! {

/// The UTF-8 bytes that the key of a LUKS passphrase entry starts with.
pub open spec fn luks_key_prefix() -> Seq<u8> {
    encode_utf8("io.cryptsetup.key.text."@)
}

/// An entry of the `data` table holds a LUKS passphrase: its key starts with
/// `io.cryptsetup.key.text.` and its value is a string.
pub open spec fn is_luks_entry(entry: (Seq<char>, Option<Seq<char>>)) -> bool {
    luks_key_prefix().is_prefix_of(encode_utf8(entry.0)) && entry.1 is Some
}

/// The passphrase of the first LUKS passphrase entry, in table order.
pub open spec fn first_luks_value(d: TomlEntries) -> Option<Seq<char>>
    decreases d.len(),
{
    if d.len() == 0 {
        None
    } else if is_luks_entry(d[0]) {
        d[0].1
    } else {
        first_luks_value(d.drop_first())
    }
}

/// What the passphrase lookup in a parsed confdata document gives: the UTF-8
/// bytes of the passphrase, or the error.
pub open spec fn luks_key_spec(doc: (TomlEntries, TomlSubtables)) -> Result<Seq<u8>, KbsError> {
    if str_value(doc.0, "version"@) != Some(supported_version()) {
        Err(KbsError::ConfdataVersion)
    } else {
        match subtable(doc.1, "data"@) {
            None => Err(KbsError::ConfdataDataNotTable),
            Some(d) => match first_luks_value(d) {
                Some(key) => Ok(encode_utf8(key)),
                None => Err(KbsError::NoLuksKey),
            },
        }
    }
}

/// The lookup indexes `data` only where it is present (indexing a table by
/// a missing key panics).
pub open spec fn luks_key_defined(doc: (TomlEntries, TomlSubtables)) -> bool {
    str_value(doc.0, "version"@) == Some(supported_version()) ==> has_key(doc.0, "data"@)
}

/// The confdata document bytes: the attester's answer, read lossily as
/// UTF-8, trimmed and base64 decoded.
pub open spec fn confdata_bytes(raw: Seq<u8>) -> Option<Seq<u8>> {
    base64_standard_decode(trimmed(utf8_lossy(raw)))
}

/// What extracting the passphrase from the attester's answer gives.
pub open spec fn extract_luks_key_spec(raw: Seq<u8>) -> Result<Seq<u8>, KbsError> {
    match confdata_bytes(raw) {
        None => Err(KbsError::ConfdataBase64(None)),
        Some(b) => match toml_document(utf8_lossy(b)) {
            None => Err(KbsError::TomlParse(None)),
            Some(doc) => luks_key_spec(doc),
        },
    }
}

/// Extracting the passphrase from the attester's answer reaches no missing key.
pub open spec fn extract_luks_key_defined(raw: Seq<u8>) -> bool {
    confdata_bytes(raw) matches Some(b) ==> (toml_document(utf8_lossy(b)) matches Some(doc)
        ==> luks_key_defined(doc))
}

/// The keys of the confdata's `data` table, where it has one, come in
/// increasing order (the order in which the lookup walks them).
pub open spec fn confdata_data_sorted(raw: Seq<u8>) -> bool {
    confdata_bytes(raw) matches Some(b) ==> (toml_document(utf8_lossy(b)) matches Some(doc) ==> (
    subtable(doc.1, "data"@) matches Some(d) ==> keys_sorted(d)))
}

/// The view of a result that holds bytes.
pub open spec fn bytes_result_view(r: Result<Vec<u8>, KbsError>) -> Result<Seq<u8>, KbsError> {
    match r {
        Ok(b) => Ok(b@),
        Err(e) => Err(e),
    }
}

/// Tells whether `s` starts with `prefix`.
fn bytes_start_with(s: &[u8], prefix: &[u8]) -> (r: bool)
    ensures
        r == prefix@.is_prefix_of(s@),
{
    if prefix.len() > s.len() {
        return false;
    }
    let mut i: usize = 0;
    while i < prefix.len()
        invariant
            prefix.len() <= s.len(),
            0 <= i <= prefix.len(),
            forall|j: int| 0 <= j < i ==> prefix@[j] == s@[j],
        decreases prefix.len() - i,
    {
        if prefix[i] != s[i] {
            assert(prefix@[i as int] != s@.subrange(0, prefix@.len() as int)[i as int]);
            return false;
        }
        i = i + 1;
    }
    assert(prefix@ =~= s@.subrange(0, prefix@.len() as int));
    true
}

/// Finds the passphrase in a parsed confdata document.
fn luks_key_from_table(toml: &toml::Table) -> (r: Result<Vec<u8>, KbsError>)
    requires
        luks_key_defined(table_doc(*toml)),
    ensures
        bytes_result_view(r) == luks_key_spec(table_doc(*toml)),
{
    let version = toml_get_str(toml, "version");
    if !is_supported_version(&version) {
        return Err(KbsError::ConfdataVersion);
    }
    let data = match toml_get_table(toml, "data") {
        Some(d) => d,
        None => return Err(KbsError::ConfdataDataNotTable),
    };
    let entries = toml_str_entries(data);
    let ghost d = toml_table_entries(*data);
    let prefix = "io.cryptsetup.key.text.".as_bytes();
    let mut i: usize = 0;
    assert(d.skip(0) =~= d);
    while i < entries.len()
        invariant
            entries@.len() == d.len(),
            forall|j: int|
                0 <= j < entries@.len() ==> (#[trigger] entries@[j]).0@ == d[j].0
                    && opt_view(entries@[j].1) == d[j].1,
            prefix@ == luks_key_prefix(),
            0 <= i <= d.len(),
            first_luks_value(d) == first_luks_value(d.skip(i as int)),
            subtable(table_doc(*toml).1, "data"@) == Some(d),
            str_value(table_doc(*toml).0, "version"@) == Some(supported_version()),
        decreases d.len() - i,
    {
        let entry = &entries[i];
        assert(d.skip(i as int)[0] == d[i as int]);
        assert(d.skip(i as int).drop_first() =~= d.skip(i + 1));
        let key_bytes = entry.0.as_str().as_bytes();
        if bytes_start_with(key_bytes, prefix) {
            match &entry.1 {
                Some(key_str) => {
                    assert(is_luks_entry(d[i as int]));
                    assert(first_luks_value(d.skip(i as int)) == d[i as int].1);
                    let out = vstd::slice::slice_to_vec(key_str.as_str().as_bytes());
                    return Ok(out);
                },
                None => {},
            }
        }
        i = i + 1;
    }
    Err(KbsError::NoLuksKey)
}

/// Reads the passphrase from the attester's answer in one pass, and gives
/// `None` for a document of the supported version that has no `data` key.
fn extract_checked(raw_stdout: &[u8]) -> (r: Option<Result<Vec<u8>, KbsError>>)
    ensures
        r is None <==> !extract_luks_key_defined(raw_stdout@),
        r matches Some(x) ==> result_kind(bytes_result_view(x)) == extract_luks_key_spec(raw_stdout@),
        confdata_data_sorted(raw_stdout@),
{
    let base64_str = from_utf8_lossy(raw_stdout);
    let doc_bytes = match decode_base64(trim(base64_str.as_str())) {
        Ok(b) => b,
        Err(e) => return Some(Err(KbsError::ConfdataBase64(Some(e.to_string())))),
    };
    let doc = from_utf8_lossy(doc_bytes.as_slice());
    let toml = match parse_toml_table(doc.as_str()) {
        Ok(t) => t,
        Err(e) => return Some(Err(KbsError::TomlParse(Some(e.to_string())))),
    };
    proof {
        assert(toml_document(doc@) == Some(table_doc(toml)));
        if toml_table_subtables(toml).contains_key("data"@) {
            assert(keys_sorted(toml_table_subtables(toml)["data"@]));
        }
    }
    let version = toml_get_str(&toml, "version");
    if is_supported_version(&version) && !toml_contains_key(&toml, "data") {
        return None;
    }
    Some(luks_key_from_table(&toml))
}

/// Extracts the LUKS passphrase from what `trustee-attester` printed: the
/// base64 encoded `confdata.toml` document, whose `data` table holds the
/// passphrase under a key that starts with `io.cryptsetup.key.text.`.
pub fn extract_luks_key(raw_stdout: &[u8]) -> (r: Result<Vec<u8>, KbsError>)
    requires
        extract_luks_key_defined(raw_stdout@),
    ensures
        result_kind(bytes_result_view(r)) == extract_luks_key_spec(raw_stdout@),
        confdata_data_sorted(raw_stdout@),
{
    match extract_checked(raw_stdout) {
        Some(r) => r,
        None => {
            // The precondition rules this out.
            proof {
                assert(false);
            }
            Err(KbsError::NoLuksKey)
        },
    }
}

/// Extracts the passphrase as `extract_luks_key` does, and gives `None` for
/// a document of the supported version that has no `data` key.
pub fn try_extract_luks_key(raw_stdout: &[u8]) -> (r: Option<Result<Vec<u8>, KbsError>>)
    ensures
        r is None <==> !extract_luks_key_defined(raw_stdout@),
        r matches Some(x) ==> result_kind(bytes_result_view(x)) == extract_luks_key_spec(raw_stdout@),
        confdata_data_sorted(raw_stdout@),
{
    extract_checked(raw_stdout)
}


/// The passphrase found in a `data` table is the value of its first entry
/// whose key starts with `io.cryptsetup.key.text.` and whose value is a
/// string; none is found exactly when no entry is such.
pub proof fn lemma_first_luks_value(d: TomlEntries)
    ensures
        first_luks_value(d) matches Some(v) ==> exists|i: int|
            0 <= i < d.len() && is_luks_entry(#[trigger] d[i]) && d[i].1 == Some(v) && forall|j: int|
                0 <= j < i ==> !is_luks_entry(#[trigger] d[j]),
        first_luks_value(d) is None <==> forall|i: int|
            0 <= i < d.len() ==> !is_luks_entry(#[trigger] d[i]),
    decreases d.len(),
{
    if d.len() > 0 {
        let t = d.drop_first();
        lemma_first_luks_value(t);
        if is_luks_entry(d[0]) {
            assert(first_luks_value(d) == d[0].1);
        } else {
            assert forall|i: int| 0 < i < d.len() implies d[i] == t[i - 1] by {}
            if first_luks_value(t) is Some {
                let v = first_luks_value(t).unwrap();
                let k = choose|k: int|
                    0 <= k < t.len() && is_luks_entry(#[trigger] t[k]) && t[k].1 == Some(v)
                        && forall|j: int| 0 <= j < k ==> !is_luks_entry(#[trigger] t[j]);
                assert(d[k + 1] == t[k]);
                assert forall|j: int| 0 <= j < k + 1 implies !is_luks_entry(#[trigger] d[j]) by {
                    if j > 0 {
                        assert(d[j] == t[j - 1]);
                    }
                }
            } else {
                assert forall|i: int| 0 <= i < d.len() implies !is_luks_entry(#[trigger] d[i]) by {
                    if i > 0 {
                        assert(d[i] == t[i - 1]);
                    }
                }
            }
        }
    }
}

/// White space around the attester's answer is ignored: an answer that is
/// valid UTF-8 gives the same passphrase, or the same error, with white space
/// (spaces, tabs, newlines, ...) before and after it.
pub proof fn lemma_white_space_around_answer_ignored(w1: Seq<char>, raw: Seq<u8>, w2: Seq<char>)
    requires
        all_white_space(w1),
        all_white_space(w2),
        valid_utf8(raw),
    ensures
        extract_luks_key_spec(encode_utf8(w1) + raw + encode_utf8(w2)) == extract_luks_key_spec(
            raw,
        ),
        extract_luks_key_defined(encode_utf8(w1) + raw + encode_utf8(w2))
            == extract_luks_key_defined(raw),
{
    lemma_utf8_lossy_between(w1, raw, w2);
    lemma_trimmed_ignores_white_space(w1, utf8_lossy(raw), w2);
}

/// The key of an entry is only checked for its prefix: the suffix after
/// `io.cryptsetup.key.text.` is informational. Two confdata documents of
/// the same version whose `data` tables hold the same values, in the same
/// order, under keys that agree on having the prefix, give the same
/// passphrase.
pub proof fn lemma_key_suffix_informational(
    doc1: (TomlEntries, TomlSubtables),
    doc2: (TomlEntries, TomlSubtables),
)
    requires
        str_value(doc1.0, "version"@) == str_value(doc2.0, "version"@),
        subtable(doc1.1, "data"@) is Some <==> subtable(doc2.1, "data"@) is Some,
        subtable(doc1.1, "data"@) is Some ==> same_but_suffixes(
            subtable(doc1.1, "data"@).unwrap(),
            subtable(doc2.1, "data"@).unwrap(),
        ),
    ensures
        luks_key_spec(doc1) == luks_key_spec(doc2),
{
    if subtable(doc1.1, "data"@) is Some {
        lemma_first_luks_value_same_but_suffixes(
            subtable(doc1.1, "data"@).unwrap(),
            subtable(doc2.1, "data"@).unwrap(),
        );
    }
}

/// Two tables hold the same values in the same order, under keys that agree
/// on starting with `io.cryptsetup.key.text.`.
pub open spec fn same_but_suffixes(d1: TomlEntries, d2: TomlEntries) -> bool {
    &&& d1.len() == d2.len()
    &&& forall|i: int|
        0 <= i < d1.len() ==> (#[trigger] d1[i]).1 == d2[i].1 && luks_key_prefix().is_prefix_of(
            encode_utf8(d1[i].0),
        ) == luks_key_prefix().is_prefix_of(encode_utf8(d2[i].0))
}

proof fn lemma_first_luks_value_same_but_suffixes(d1: TomlEntries, d2: TomlEntries)
    requires
        same_but_suffixes(d1, d2),
    ensures
        first_luks_value(d1) == first_luks_value(d2),
    decreases d1.len(),
{
    if d1.len() > 0 {
        assert(d1[0].1 == d2[0].1);
        assert(same_but_suffixes(d1.drop_first(), d2.drop_first())) by {
            assert forall|i: int| 0 <= i < d1.len() - 1 implies (#[trigger] d1.drop_first()[i]).1
                == d2.drop_first()[i].1 && luks_key_prefix().is_prefix_of(
                encode_utf8(d1.drop_first()[i].0),
            ) == luks_key_prefix().is_prefix_of(encode_utf8(d2.drop_first()[i].0)) by {
                assert(d1.drop_first()[i] == d1[i + 1]);
                assert(d2.drop_first()[i] == d2[i + 1]);
            }
        }
        lemma_first_luks_value_same_but_suffixes(d1.drop_first(), d2.drop_first());
    }
}

/// Of several LUKS passphrase entries, the passphrase comes from the one
/// whose key is least in the order of UTF-8 bytes, when the keys are walked
/// in that order (as `extract_luks_key` ensures of the confdata's table).
pub proof fn lemma_luks_key_is_least(d: TomlEntries)
    requires
        keys_sorted(d),
    ensures
        first_luks_value(d) matches Some(v) ==> exists|i: int|
            0 <= i < d.len() && is_luks_entry(#[trigger] d[i]) && d[i].1 == Some(v) && forall|j: int|
                0 <= j < d.len() && j != i && is_luks_entry(#[trigger] d[j]) ==> bytes_lt(
                    encode_utf8(d[i].0),
                    encode_utf8(d[j].0),
                ),
{
    lemma_first_luks_value(d);
    if first_luks_value(d) is Some {
        let v = first_luks_value(d).unwrap();
        let i = choose|i: int|
            0 <= i < d.len() && is_luks_entry(#[trigger] d[i]) && d[i].1 == Some(v) && forall|j: int|
                0 <= j < i ==> !is_luks_entry(#[trigger] d[j]);
        assert forall|j: int|
            0 <= j < d.len() && j != i && is_luks_entry(#[trigger] d[j]) implies bytes_lt(
            encode_utf8(d[i].0),
            encode_utf8(d[j].0),
        ) by {
            assert(j > i);
            assert(bytes_lt(encode_utf8(d[i].0), encode_utf8(d[j].0)));
        }
    }
}

/// An entry's key starts with `io.cryptsetup.key.text.` (in UTF-8) and its
/// value is a string.
pub open spec fn holds_passphrase(entry: (Seq<char>, Option<Seq<char>>)) -> bool {
    encode_utf8("io.cryptsetup.key.text."@).is_prefix_of(encode_utf8(entry.0)) && entry.1 is Some
}

/// The passphrase of a confdata document: a `version` other than the string
/// `0.1.0` is refused, and so is a `data` value that is not a table; with a
/// `data` table, when some entry's key starts with `io.cryptsetup.key.text.`
/// and its value is a string, the passphrase is the UTF-8 of the value of the
/// first such entry, whatever entries come before it; when there is none,
/// `NoLuksKey`.
pub proof fn lemma_luks_key_found(doc: (TomlEntries, TomlSubtables))
    ensures
        str_value(doc.0, "version"@) != Some("0.1.0"@) ==> luks_key_spec(doc) == Err::<
            Seq<u8>,
            KbsError,
        >(KbsError::ConfdataVersion),
        str_value(doc.0, "version"@) == Some("0.1.0"@) && subtable(doc.1, "data"@) is None
            ==> luks_key_spec(doc) == Err::<Seq<u8>, KbsError>(KbsError::ConfdataDataNotTable),
        str_value(doc.0, "version"@) == Some("0.1.0"@) && subtable(doc.1, "data"@) is Some ==> ({
            let d = subtable(doc.1, "data"@).unwrap();
            &&& (exists|i: int| 0 <= i < d.len() && holds_passphrase(#[trigger] d[i])) ==> exists|i: int|
                0 <= i < d.len() && holds_passphrase(#[trigger] d[i]) && (forall|j: int|
                    0 <= j < i ==> !holds_passphrase(#[trigger] d[j])) && luks_key_spec(doc) == Ok::<
                    _,
                    KbsError,
                >(encode_utf8(d[i].1.unwrap()))
            &&& (forall|i: int| 0 <= i < d.len() ==> !holds_passphrase(#[trigger] d[i]))
                ==> luks_key_spec(doc) == Err::<Seq<u8>, KbsError>(KbsError::NoLuksKey)
        }),
{
    if str_value(doc.0, "version"@) == Some("0.1.0"@) && subtable(doc.1, "data"@) is Some {
        let d = subtable(doc.1, "data"@).unwrap();
        lemma_first_luks_value(d);
        assert forall|i: int| 0 <= i < d.len() implies holds_passphrase(d[i]) == is_luks_entry(
            d[i],
        ) by {}
        if exists|i: int| 0 <= i < d.len() && holds_passphrase(#[trigger] d[i]) {
            let k = choose|i: int| 0 <= i < d.len() && holds_passphrase(#[trigger] d[i]);
            assert(is_luks_entry(d[k]));
            let v = first_luks_value(d).unwrap();
            let i = choose|i: int|
                0 <= i < d.len() && is_luks_entry(#[trigger] d[i]) && d[i].1 == Some(v) && forall|
                    j: int,
                | 0 <= j < i ==> !is_luks_entry(#[trigger] d[j]);
            assert(holds_passphrase(d[i]));
            assert(luks_key_spec(doc) == Ok::<_, KbsError>(encode_utf8(d[i].1.unwrap())));
        }
    }
}

/// An entry that is not a passphrase (its key lacks the prefix, or its value
/// is not a string) never changes the first passphrase, wherever it stands.
proof fn lemma_first_luks_value_insert(d: TomlEntries, j: int, x: (Seq<char>, Option<Seq<char>>))
    requires
        0 <= j <= d.len(),
        !holds_passphrase(x),
    ensures
        first_luks_value(d.insert(j, x)) == first_luks_value(d),
    decreases j,
{
    let e = d.insert(j, x);
    if j == 0 {
        assert(e[0] == x);
        assert(e.drop_first() =~= d);
    } else {
        assert(e[0] == d[0]);
        assert(e.drop_first() =~= d.drop_first().insert(j - 1, x));
        lemma_first_luks_value_insert(d.drop_first(), j - 1, x);
    }
}

/// Entries of the `data` table that are not passphrases never change the
/// result: adding one anywhere leaves the passphrase, or the error, as it was.
pub proof fn lemma_luks_key_ignores_other_entries(
    doc: (TomlEntries, TomlSubtables),
    j: int,
    x: (Seq<char>, Option<Seq<char>>),
)
    requires
        subtable(doc.1, "data"@) is Some,
        0 <= j <= subtable(doc.1, "data"@).unwrap().len(),
        !holds_passphrase(x),
    ensures
        luks_key_spec(
            (doc.0, doc.1.insert("data"@, subtable(doc.1, "data"@).unwrap().insert(j, x))),
        ) == luks_key_spec(doc),
{
    let d = subtable(doc.1, "data"@).unwrap();
    lemma_first_luks_value_insert(d, j, x);
    assert(subtable(doc.1.insert("data"@, d.insert(j, x)), "data"@) == Some(d.insert(j, x)));
}

} // verus!
