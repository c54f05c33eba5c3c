//! Unlocking of LUKS2 volumes with a passphrase that a Key Broker Service
//! hands out after TEE attestation.
//!
//! The library holds the logic of the cryptsetup token plugin: the readers
//! of the `initdata.toml` and `confdata.toml` documents, of the token JSON,
//! the command line given to `trustee-attester`, and the retry policy of
//! the key fetch.
use vstd::prelude::*;

pub mod error;
pub mod ffi;
pub mod text;
pub mod toml_doc;
pub mod json_doc;
pub mod initdata;
pub mod confdata;
pub mod attest;
pub mod smbios;

use crate::attest::is_attester_failure;
use crate::attest::resource_from_output;
use crate::attest::AttesterOutput;
use crate::confdata::bytes_result_view;
use crate::confdata::extract_luks_key;
use crate::confdata::extract_luks_key_defined;
use crate::confdata::try_extract_luks_key;
use crate::confdata::extract_luks_key_spec;
use crate::error::result_kind;
use crate::error::KbsError;
use crate::initdata::initdata_result_view;
use crate::initdata::InitData;
use crate::smbios::load_from_oem_strings;
use crate::smbios::oem_scan;
use crate::smbios::oem_view;
use crate::text::utf8_lossy;

verus! {

/// Extracting the passphrase from the attester's answer reaches no missing
/// key, where the attester succeeded.
pub open spec fn fetch_luks_key_defined(attester: Result<AttesterOutput, KbsError>) -> bool {
    attester matches Ok(o) ==> (o.success ==> extract_luks_key_defined(o.stdout@))
}

/// What fetching the LUKS key gives, for the initdata and the outcome of
/// running `trustee-attester`.
pub open spec fn fetch_luks_key_result(
    initdata: (Seq<u8>, Seq<char>, Seq<char>),
    attester: Result<AttesterOutput, KbsError>,
    r: Result<Vec<u8>, KbsError>,
) -> bool {
    match attester {
        Err(e) => r == Err::<Vec<u8>, KbsError>(e),
        Ok(o) => if o.success {
            result_kind(bytes_result_view(r)) == extract_luks_key_spec(o.stdout@)
        } else {
            r matches Err(e) && is_attester_failure(e, initdata, utf8_lossy(o.stderr@))
        },
    }
}

/// Fetches the LUKS key, given the initdata and the outcome of running
/// `trustee-attester` with `attest::attester_args`: the resource it printed
/// is the base64 encoded confdata, from which the passphrase is extracted.
pub fn fetch_luks_key(initdata: &InitData, attester: Result<AttesterOutput, KbsError>) -> (r:
    Result<Vec<u8>, KbsError>)
    requires
        fetch_luks_key_defined(attester),
    ensures
        fetch_luks_key_result(initdata@, attester, r),
{
    let raw_confdata = resource_from_output(initdata, attester)?;
    extract_luks_key(raw_confdata.as_slice())
}

/// Fetches the LUKS key as `fetch_luks_key` does, and gives `None` where the
/// confdata is of the supported version but has no `data` key.
pub fn try_fetch_luks_key(initdata: &InitData, attester: Result<AttesterOutput, KbsError>) -> (r:
    Option<Result<Vec<u8>, KbsError>>)
    ensures
        r is None <==> !fetch_luks_key_defined(attester),
        r matches Some(x) ==> fetch_luks_key_result(initdata@, attester, x),
{
    match &attester {
        Ok(o) => if o.success {
            return try_extract_luks_key(o.stdout.as_slice());
        },
        Err(_) => {},
    }
    Some(fetch_luks_key(initdata, attester))
}

/// What reading the initdata from the SMBIOS OEM strings gives.
pub open spec fn smbios_result(
    oem_strings: Result<Vec<Option<String>>, KbsError>,
    r: Result<InitData, KbsError>,
) -> bool {
    match oem_strings {
        Err(e) => r == Err::<InitData, KbsError>(e),
        Ok(v) => result_kind(initdata_result_view(r)) == oem_scan(oem_view(v@)),
    }
}

/// Reads the initdata from the SMBIOS OEM strings, given as they were read
/// from the SMBIOS tables (or the error of reading them).
pub fn fetch_initdata_from_smbios(oem_strings: Result<Vec<Option<String>>, KbsError>) -> (r:
    Result<InitData, KbsError>)
    ensures
        smbios_result(oem_strings, r),
{
    let oem_strings = oem_strings?;
    load_from_oem_strings(&oem_strings)
}

} // verus!
