//! Errors of the key fetch.
use vstd::prelude::*;

verus! {

/// Why reading initdata, confdata, the token JSON or the attester's answer failed.
#[derive(Debug, PartialEq, Eq)]
pub enum KbsError {
    /// The token JSON is not valid JSON; holds the parser's message.
    JsonParse(Option<String>),
    /// The token JSON has no string member `trustee.kbs.url`.
    TokenMissingUrl,
    /// The token JSON has no string member `trustee.kbs.resource`.
    TokenMissingResource,
    /// A TOML document does not parse; holds the parser's message.
    TomlParse(Option<String>),
    /// The initdata TOML header has no `algorithm` key.
    MissingAlgorithm,
    /// The initdata TOML header has no `version` key.
    MissingVersion,
    /// The initdata TOML `version` is not the string `0.1.0`; holds the string
    /// it is, if it is one.
    InvalidVersion(Option<String>),
    /// The initdata TOML has no `data` key.
    MissingData,
    /// The initdata TOML `data` value is not a table.
    DataNotTable,
    /// The initdata `data` table's `trustee.kbs.url` is not a string.
    InvalidKbsUrl,
    /// The initdata `data` table's `trustee.kbs.resource` is not a string.
    InvalidKbsResource,
    /// The attester's answer is not valid base64 once trimmed; holds the
    /// decoder's message.
    ConfdataBase64(Option<String>),
    /// The confdata TOML `version` is missing or is not the string `0.1.0`.
    ConfdataVersion,
    /// The confdata TOML `data` value is not a table.
    ConfdataDataNotTable,
    /// No string entry of the confdata `data` table has a key that starts with
    /// `io.cryptsetup.key.text.`.
    NoLuksKey,
    /// `trustee-attester` could not be started; holds the reason.
    AttesterSpawn(String),
    /// `trustee-attester` ended in failure: the KBS URL, the resource path, and
    /// what it wrote to stderr.
    AttesterFailed { url: String, resource: String, stderr: String },
    /// The SMBIOS tables could not be read; holds the reason.
    SmbiosLoad(String),
    /// No SMBIOS OEM string holds a valid base64 encoded initdata document.
    NoValidOemStrings,
}

/// The kind of an error: the error with its detail (a message, or the
/// version found) left out as `None`. Contracts state results up to it, and
/// state the detail apart where it is known.
pub open spec fn error_kind(e: KbsError) -> KbsError {
    match e {
        KbsError::JsonParse(_) => KbsError::JsonParse(None),
        KbsError::TomlParse(_) => KbsError::TomlParse(None),
        KbsError::InvalidVersion(_) => KbsError::InvalidVersion(None),
        KbsError::ConfdataBase64(_) => KbsError::ConfdataBase64(None),
        _ => e,
    }
}

/// A result with its error, if any, taken by its kind.
pub open spec fn result_kind<T>(r: Result<T, KbsError>) -> Result<T, KbsError> {
    match r {
        Ok(v) => Ok(v),
        Err(e) => Err(error_kind(e)),
    }
}

} // verus!
