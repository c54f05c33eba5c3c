//! The initdata of a confidential VM: where the Key Broker Service is and
//! which resource holds the LUKS passphrase.
//!
//! It comes either from the LUKS2 token JSON (`trustee.kbs.url` and
//! `trustee.kbs.resource` members) or from an `initdata.toml` document:
//!
//! ```toml
//! algorithm = "sha384"
//! version = "0.1.0"
//!
//! [data]
//! "trustee.kbs.url" = "http://kbs-service:8080"
//! "trustee.kbs.resource" = "default/<vm-uuid>/root"
//! ```
use vstd::prelude::*;
use crate::error::result_kind;
use crate::error::KbsError;
use crate::json_doc::json_document;
use crate::json_doc::json_get_str;
use crate::json_doc::member;
use crate::json_doc::parse_json;
use crate::text::from_utf8_lossy;
use crate::text::opt_view;
use crate::text::utf8_lossy;
use crate::toml_doc::has_key;
use crate::toml_doc::keys_distinct;
use crate::toml_doc::parse_toml_table;
use crate::toml_doc::str_value;
use crate::toml_doc::subtable;
use crate::toml_doc::toml_contains_key;
use crate::toml_doc::toml_document;
use crate::toml_doc::toml_get_str;
use crate::toml_doc::toml_get_table;
use crate::toml_doc::toml_table_entries;
use crate::toml_doc::toml_table_subtables;
use crate::toml_doc::TomlEntries;
use crate::toml_doc::TomlSubtables;

verus! {

/// The key of the KBS URL, in the token JSON and in the initdata `data` table.
pub open spec fn url_key() -> Seq<char> {
    "trustee.kbs.url"@
}

/// The key of the KBS resource path, in the token JSON and in the initdata `data` table.
pub open spec fn resource_key() -> Seq<char> {
    "trustee.kbs.resource"@
}

/// The only initdata and confdata `version` understood.
pub open spec fn supported_version() -> Seq<char> {
    "0.1.0"@
}

/// The initdata: the raw `initdata.toml` bytes (empty when it came from the
/// token JSON), the KBS URL and the KBS resource path.
#[derive(Debug)]
pub struct InitData {
    data: Vec<u8>,
    kbs_url: String,
    kbs_resource: String,
}

impl View for InitData {
    type V = (Seq<u8>, Seq<char>, Seq<char>);

    closed spec fn view(&self) -> Self::V {
        (self.data@, self.kbs_url@, self.kbs_resource@)
    }
}

/// The view of a result that holds initdata.
pub open spec fn initdata_result_view(r: Result<InitData, KbsError>) -> Result<
    (Seq<u8>, Seq<char>, Seq<char>),
    KbsError,
> {
    match r {
        Ok(d) => Ok(d@),
        Err(e) => Err(e),
    }
}

/// What reading the token JSON gives: the KBS URL and resource path, or the error.
pub open spec fn initdata_from_json_spec(json: Seq<char>) -> Result<
    (Seq<u8>, Seq<char>, Seq<char>),
    KbsError,
> {
    match json_document(json) {
        None => Err(KbsError::JsonParse(None)),
        Some(m) => match member(m, url_key()) {
            None => Err(KbsError::TokenMissingUrl),
            Some(url) => match member(m, resource_key()) {
                None => Err(KbsError::TokenMissingResource),
                Some(res) => Ok((Seq::empty(), url, res)),
            },
        },
    }
}

/// Reads the initdata from the LUKS2 token JSON: its string members
/// `trustee.kbs.url` and `trustee.kbs.resource`.
pub fn new_initdata_from_json(json: &str) -> (r: Result<InitData, KbsError>)
    ensures
        result_kind(initdata_result_view(r)) == initdata_from_json_spec(json@),
{
    let v = match parse_json(json) {
        Ok(v) => v,
        Err(e) => return Err(KbsError::JsonParse(Some(e.to_string()))),
    };
    let kbs_url = match json_get_str(&v, "trustee.kbs.url") {
        Some(u) => u,
        None => return Err(KbsError::TokenMissingUrl),
    };
    let kbs_resource = match json_get_str(&v, "trustee.kbs.resource") {
        Some(r) => r,
        None => return Err(KbsError::TokenMissingResource),
    };
    Ok(InitData { data: Vec::new(), kbs_url, kbs_resource })
}

/// The view of a parsed TOML table: its entries and its subtables.
pub open spec fn table_doc(t: toml::Table) -> (TomlEntries, TomlSubtables) {
    (toml_table_entries(t), toml_table_subtables(t))
}

/// The header of an initdata document is complete and of the supported
/// version, and it has a `data` key.
pub open spec fn initdata_header_ok(e: TomlEntries) -> bool {
    &&& has_key(e, "algorithm"@)
    &&& has_key(e, "version"@)
    &&& str_value(e, "version"@) == Some(supported_version())
    &&& has_key(e, "data"@)
}

/// What validation of an initdata document gives: the KBS URL and resource
/// path, or the first check that fails.
pub open spec fn initdata_fields(doc: (TomlEntries, TomlSubtables)) -> Result<
    (Seq<char>, Seq<char>),
    KbsError,
> {
    let e = doc.0;
    if !has_key(e, "algorithm"@) {
        Err(KbsError::MissingAlgorithm)
    } else if !has_key(e, "version"@) {
        Err(KbsError::MissingVersion)
    } else if str_value(e, "version"@) != Some(supported_version()) {
        Err(KbsError::InvalidVersion(None))
    } else if !has_key(e, "data"@) {
        Err(KbsError::MissingData)
    } else {
        match subtable(doc.1, "data"@) {
            None => Err(KbsError::DataNotTable),
            Some(d) => match str_value(d, url_key()) {
                None => Err(KbsError::InvalidKbsUrl),
                Some(url) => match str_value(d, resource_key()) {
                    None => Err(KbsError::InvalidKbsResource),
                    Some(res) => Ok((url, res)),
                },
            },
        }
    }
}

/// The view of a pair of strings, or of the error.
pub open spec fn pair_result_view(r: Result<(String, String), KbsError>) -> Result<
    (Seq<char>, Seq<char>),
    KbsError,
> {
    match r {
        Ok((a, b)) => Ok((a@, b@)),
        Err(e) => Err(e),
    }
}

/// Compares a string with `0.1.0`.
pub(crate) fn is_supported_version(v: &Option<String>) -> (r: bool)
    ensures
        r == (opt_view(*v) == Some(supported_version())),
{
    match v {
        Some(s) => {
            let expected = String::from_str("0.1.0");
            *s == expected
        },
        None => false,
    }
}

/// Checks the header of an initdata document and reads the KBS URL and
/// resource path from its `data` table; a key that is missing there counts
/// as a value that is not a string.
fn validate(toml: &toml::Table) -> (r: Result<(String, String), KbsError>)
    ensures
        result_kind(pair_result_view(r)) == initdata_fields(table_doc(*toml)),
        r matches Err(KbsError::InvalidVersion(v)) ==> opt_view(v) == str_value(
            toml_table_entries(*toml),
            "version"@,
        ),
{
    if !toml_contains_key(toml, "algorithm") {
        return Err(KbsError::MissingAlgorithm);
    }
    if !toml_contains_key(toml, "version") {
        return Err(KbsError::MissingVersion);
    }
    let version = toml_get_str(toml, "version");
    if !is_supported_version(&version) {
        return Err(KbsError::InvalidVersion(version));
    }
    if !toml_contains_key(toml, "data") {
        return Err(KbsError::MissingData);
    }
    match toml_get_table(toml, "data") {
        Some(data) => {
            let url = match toml_get_str(data, "trustee.kbs.url") {
                Some(u) => u,
                None => return Err(KbsError::InvalidKbsUrl),
            };
            let res = match toml_get_str(data, "trustee.kbs.resource") {
                Some(r) => r,
                None => return Err(KbsError::InvalidKbsResource),
            };
            Ok((url, res))
        },
        None => Err(KbsError::DataNotTable),
    }
}

/// The parsed `initdata.toml` document of the given bytes, read lossily as UTF-8.
pub open spec fn initdata_doc(data: Seq<u8>) -> Option<(TomlEntries, TomlSubtables)> {
    toml_document(utf8_lossy(data))
}

/// What reading the bytes as initdata gives.
pub open spec fn new_initdata_spec(data: Seq<u8>) -> Result<
    (Seq<u8>, Seq<char>, Seq<char>),
    KbsError,
> {
    match initdata_doc(data) {
        None => Err(KbsError::TomlParse(None)),
        Some(doc) => match initdata_fields(doc) {
            Ok((url, res)) => Ok((data, url, res)),
            Err(e) => Err(e),
        },
    }
}

/// Reads an `initdata.toml` document; the initdata keeps its bytes.
pub fn new_initdata(data: Vec<u8>) -> (r: Result<InitData, KbsError>)
    ensures
        result_kind(initdata_result_view(r)) == new_initdata_spec(data@),
{
    let doc = from_utf8_lossy(data.as_slice());
    let toml = match parse_toml_table(doc.as_str()) {
        Ok(t) => t,
        Err(e) => return Err(KbsError::TomlParse(Some(e.to_string()))),
    };
    let (kbs_url, kbs_resource) = validate(&toml)?;
    Ok(InitData { data, kbs_url, kbs_resource })
}

impl InitData {
    /// The `initdata.toml` document, read lossily as UTF-8 (empty when the
    /// initdata came from the token JSON).
    pub fn as_str(&self) -> (r: String)
        ensures
            r@ == utf8_lossy(self@.0),
    {
        from_utf8_lossy(self.data.as_slice())
    }

    /// The URL of the Key Broker Service.
    pub fn kbs_url(&self) -> (r: &str)
        ensures
            r@ == self@.1,
    {
        self.kbs_url.as_str()
    }

    /// The KBS resource path that holds the confdata.
    pub fn kbs_resource(&self) -> (r: &str)
        ensures
            r@ == self@.2,
    {
        self.kbs_resource.as_str()
    }
}

/// A `data` table without the KBS URL, or with a string URL but without the
/// resource path, makes the document invalid: reading it gives an error, so
/// that a scan goes on to the next document.
pub proof fn lemma_missing_kbs_key_is_invalid(doc: (TomlEntries, TomlSubtables))
    requires
        initdata_header_ok(doc.0),
        subtable(doc.1, "data"@) matches Some(d) && (!has_key(d, url_key()) || (str_value(
            d,
            url_key(),
        ) is Some && !has_key(d, resource_key()))),
    ensures
        initdata_fields(doc) == Err::<(Seq<char>, Seq<char>), KbsError>(
            if !has_key(subtable(doc.1, "data"@).unwrap(), url_key()) {
                KbsError::InvalidKbsUrl
            } else {
                KbsError::InvalidKbsResource
            },
        ),
{
}

/// An initdata document is valid exactly when its header has `algorithm`,
/// a `version` that is the string `0.1.0`, and a `data` key whose value is a
/// table whose
/// `trustee.kbs.url` and `trustee.kbs.resource` are strings; it then gives
/// those two strings, whatever other entries the table holds.
pub proof fn lemma_initdata_fields_valid(doc: (TomlEntries, TomlSubtables))
    ensures
        initdata_fields(doc) is Ok <==> {
            &&& has_key(doc.0, "algorithm"@)
            &&& str_value(doc.0, "version"@) == Some("0.1.0"@)
            &&& has_key(doc.0, "data"@)
            &&& subtable(doc.1, "data"@) matches Some(d)
            &&& str_value(d, "trustee.kbs.url"@) is Some
            &&& str_value(d, "trustee.kbs.resource"@) is Some
        },
        initdata_fields(doc) is Ok ==> initdata_fields(doc) == Ok::<_, KbsError>(
            (
                str_value(subtable(doc.1, "data"@).unwrap(), "trustee.kbs.url"@).unwrap(),
                str_value(subtable(doc.1, "data"@).unwrap(), "trustee.kbs.resource"@).unwrap(),
            ),
        ),
{
    let e = doc.0;
    if str_value(e, "version"@) is Some {
        assert(has_key(e, "version"@));
    }
}

/// With distinct keys, adding an entry under another key leaves the value
/// under a key as it was.
proof fn lemma_str_value_insert(d: TomlEntries, j: int, x: (Seq<char>, Option<Seq<char>>), k: Seq<char>)
    requires
        keys_distinct(d),
        0 <= j <= d.len(),
        x.0 != k,
    ensures
        str_value(d.insert(j, x), k) == str_value(d, k),
{
    let e = d.insert(j, x);
    assert forall|m: int| 0 <= m < e.len() && m != j implies e[m] == d[if m < j { m } else { m - 1 }] by {}
    if has_key(d, k) {
        let i = choose|i: int| 0 <= i < d.len() && d[i].0 == k;
        let i2 = if i < j { i } else { i + 1 };
        assert(e[i2] == d[i]);
        assert(has_key(e, k));
        let m = choose|m: int| 0 <= m < e.len() && e[m].0 == k;
        assert(m != j);
        let mi = if m < j { m } else { m - 1 };
        assert(e[m] == d[mi]);
        if mi != i {
            if mi < i {
                assert(d[mi].0 != d[i].0);
            } else {
                assert(d[i].0 != d[mi].0);
            }
        }
    } else {
        if has_key(e, k) {
            let m = choose|m: int| 0 <= m < e.len() && e[m].0 == k;
            assert(m != j);
            let mi = if m < j { m } else { m - 1 };
            assert(e[m] == d[mi]);
            assert(has_key(d, k));
        }
    }
}

/// Entries of the `data` table under other keys than the KBS URL and
/// resource path never change what validation gives: adding one anywhere
/// leaves the result as it was.
pub proof fn lemma_initdata_fields_ignore_other_entries(
    doc: (TomlEntries, TomlSubtables),
    j: int,
    x: (Seq<char>, Option<Seq<char>>),
)
    requires
        subtable(doc.1, "data"@) is Some,
        keys_distinct(subtable(doc.1, "data"@).unwrap()),
        0 <= j <= subtable(doc.1, "data"@).unwrap().len(),
        x.0 != "trustee.kbs.url"@,
        x.0 != "trustee.kbs.resource"@,
    ensures
        initdata_fields(
            (doc.0, doc.1.insert("data"@, subtable(doc.1, "data"@).unwrap().insert(j, x))),
        ) == initdata_fields(doc),
{
    let d = subtable(doc.1, "data"@).unwrap();
    lemma_str_value_insert(d, j, x, url_key());
    lemma_str_value_insert(d, j, x, resource_key());
    assert(subtable(doc.1.insert("data"@, d.insert(j, x)), "data"@) == Some(d.insert(j, x)));
}

/// An invalid initdata document is refused for the first check it fails,
/// in the order: `algorithm`, `version` present, `version` is `0.1.0`,
/// `data` present, `data` is a table, its KBS URL is a string, its resource
/// path is a string.
pub proof fn lemma_initdata_fields_errors(doc: (TomlEntries, TomlSubtables))
    ensures
        !has_key(doc.0, "algorithm"@) ==> initdata_fields(doc) == Err::<(Seq<char>, Seq<char>), KbsError>(
            KbsError::MissingAlgorithm,
        ),
        has_key(doc.0, "algorithm"@) && !has_key(doc.0, "version"@) ==> initdata_fields(doc) == Err::<
            (Seq<char>, Seq<char>),
            KbsError,
        >(KbsError::MissingVersion),
        has_key(doc.0, "algorithm"@) && has_key(doc.0, "version"@) && str_value(doc.0, "version"@)
            != Some("0.1.0"@) ==> initdata_fields(doc) == Err::<(Seq<char>, Seq<char>), KbsError>(
            KbsError::InvalidVersion(None),
        ),
        has_key(doc.0, "algorithm"@) && str_value(doc.0, "version"@) == Some("0.1.0"@) && !has_key(
            doc.0,
            "data"@,
        ) ==> initdata_fields(doc) == Err::<(Seq<char>, Seq<char>), KbsError>(KbsError::MissingData),
        has_key(doc.0, "algorithm"@) && str_value(doc.0, "version"@) == Some("0.1.0"@) && has_key(
            doc.0,
            "data"@,
        ) && subtable(doc.1, "data"@) is None ==> initdata_fields(doc) == Err::<
            (Seq<char>, Seq<char>),
            KbsError,
        >(KbsError::DataNotTable),
        has_key(doc.0, "algorithm"@) && str_value(doc.0, "version"@) == Some("0.1.0"@) && has_key(
            doc.0,
            "data"@,
        ) && subtable(doc.1, "data"@) is Some && str_value(
            subtable(doc.1, "data"@).unwrap(),
            "trustee.kbs.url"@,
        ) is None
            ==> initdata_fields(doc) == Err::<(Seq<char>, Seq<char>), KbsError>(
            KbsError::InvalidKbsUrl,
        ),
        has_key(doc.0, "algorithm"@) && str_value(doc.0, "version"@) == Some("0.1.0"@) && has_key(
            doc.0,
            "data"@,
        ) && subtable(doc.1, "data"@) is Some && str_value(
            subtable(doc.1, "data"@).unwrap(),
            "trustee.kbs.url"@,
        ) is Some && str_value(subtable(doc.1, "data"@).unwrap(), "trustee.kbs.resource"@) is None ==> initdata_fields(doc) == Err::<
            (Seq<char>, Seq<char>),
            KbsError,
        >(KbsError::InvalidKbsResource),
{
    if str_value(doc.0, "version"@) is Some {
        assert(has_key(doc.0, "version"@));
    }
}

} // verus!
