//! The decisions of the cryptsetup token plugin: which LUKS2 tokens it
//! accepts, where the initdata comes from, and how a failed key fetch is
//! retried.
use vstd::prelude::*;
use crate::initdata::initdata_from_json_spec;
use crate::initdata::new_initdata_from_json;
use crate::initdata::resource_key;
use crate::initdata::url_key;
use crate::initdata::InitData;
use crate::json_doc::json_document;
use crate::json_doc::json_get_str;
use crate::json_doc::member;
use crate::json_doc::parse_json;
use crate::text::opt_view;

verus! {

/// The `crypt_device` of libcryptsetup, only ever seen behind a pointer.
#[allow(non_camel_case_types)]
pub struct crypt_device {
    _opaque: [u8; 0],
}

/// The LUKS2 token type that this plugin handles.
pub const TOKEN_TYPE: &'static str = "tdx-kbs";

/// The token type, as text.
pub open spec fn token_type() -> Seq<char> {
    "tdx-kbs"@
}

/// A token is accepted when its type is this plugin's and it holds either
/// both the KBS URL and resource path, as non-empty strings, or neither.
pub open spec fn token_fields_valid(
    ty: Option<Seq<char>>,
    url: Option<Seq<char>>,
    resource: Option<Seq<char>>,
) -> bool {
    &&& ty == Some(token_type())
    &&& (url is Some <==> resource is Some)
    &&& url != Some(Seq::<char>::empty())
    &&& resource != Some(Seq::<char>::empty())
}

/// A token JSON is accepted when it parses and its string members `type`,
/// `trustee.kbs.url` and `trustee.kbs.resource` are valid together.
pub open spec fn token_json_valid(json: Seq<char>) -> bool {
    json_document(json) matches Some(m) && token_fields_valid(
        member(m, "type"@),
        member(m, url_key()),
        member(m, resource_key()),
    )
}

/// Checks the `type`, `trustee.kbs.url` and `trustee.kbs.resource` string
/// members of a token (`None` where a member is missing or not a string).
pub fn check_token_fields(
    ty: &Option<String>,
    url: &Option<String>,
    resource: &Option<String>,
) -> (r: bool)
    ensures
        r == token_fields_valid(opt_view(*ty), opt_view(*url), opt_view(*resource)),
{
    let type_ok = match ty {
        Some(t) => *t == String::from_str(TOKEN_TYPE),
        None => false,
    };
    if !type_ok {
        return false;
    }
    let has_url = url.is_some();
    let has_res = resource.is_some();
    // Both present or both absent is valid; one without the other is not.
    if has_url != has_res {
        return false;
    }
    // If present, neither can be empty.
    if has_url {
        match url {
            Some(u) => if u.as_str().is_empty() {
                assert(u@ =~= Seq::<char>::empty());
                return false;
            },
            None => {},
        }
        match resource {
            Some(r) => if r.as_str().is_empty() {
                assert(r@ =~= Seq::<char>::empty());
                return false;
            },
            None => {},
        }
    }
    true
}

/// Validates the JSON of a LUKS2 token: it must be this plugin's type, with
/// both or neither of the KBS URL and resource path, neither empty.
pub fn token_json_is_valid(json: &str) -> (r: bool)
    ensures
        r == token_json_valid(json@),
{
    let v = match parse_json(json) {
        Ok(v) => v,
        Err(_) => return false,
    };
    let ty = json_get_str(&v, "type");
    let url = json_get_str(&v, "trustee.kbs.url");
    let res = json_get_str(&v, "trustee.kbs.resource");
    check_token_fields(&ty, &url, &res)
}

/// Takes the initdata from the token JSON when there is one and it holds the
/// KBS URL and resource path; `None` tells to read it from SMBIOS instead.
pub fn initdata_from_token(token_json: Option<&str>) -> (r: Option<InitData>)
    ensures
        r is Some <==> (token_json matches Some(j) && initdata_from_json_spec(j@) is Ok),
        r matches Some(d) ==> (token_json matches Some(j) && initdata_from_json_spec(j@) == Ok::<
            _,
            crate::error::KbsError,
        >(d@)),
{
    match token_json {
        Some(json) => match new_initdata_from_json(json) {
            Ok(d) => Some(d),
            Err(_) => None,
        },
        None => None,
    }
}

/// How long a failing key fetch is retried, in seconds.
pub const MAX_RETRY_SECS: u64 = 120;

/// The longest pause between two attempts, in seconds.
pub const MAX_BACKOFF_SECS: u64 = 32;

/// The pause after failed attempt number `attempt`: two to the power of the
/// attempt number, at most 32 seconds.
pub open spec fn backoff_spec(attempt: u32) -> u64 {
    if attempt >= 5 {
        32
    } else {
        vstd::arithmetic::power2::pow2(attempt as nat) as u64
    }
}

/// Computes `min(1 << min(attempt, 5), 32)`.
pub fn backoff_secs(attempt: u32) -> (secs: u64)
    ensures
        secs == backoff_spec(attempt),
{
    let shift: u64 = if attempt < 5 {
        attempt as u64
    } else {
        5
    };
    proof {
        vstd::arithmetic::power2::lemma2_to64();
    }
    assert((1u64 << shift) == (if shift == 0 {
        1u64
    } else if shift == 1 {
        2u64
    } else if shift == 2 {
        4u64
    } else if shift == 3 {
        8u64
    } else if shift == 4 {
        16u64
    } else {
        32u64
    })) by (bit_vector)
        requires
            shift <= 5,
    ;
    let b: u64 = 1u64 << shift;
    if b < MAX_BACKOFF_SECS {
        b
    } else {
        MAX_BACKOFF_SECS
    }
}

/// What follows an attempt to fetch the key.
#[derive(Debug, PartialEq, Eq)]
pub enum RetryStep {
    /// The key was obtained; `report` tells whether to log after how many
    /// attempts and seconds (only when it took more than one).
    Done { report: bool },
    /// The attempt failed: log it when `report`, then sleep `backoff_secs`
    /// seconds and try again.
    Retry { report: bool, backoff_secs: u64 },
    /// The attempt failed and the time is up: log it and give up.
    GiveUp,
}

/// Failed attempts are logged for the first three and every fifth.
pub open spec fn report_retry(attempt: u32) -> bool {
    attempt <= 3 || attempt % 5 == 0
}

/// What follows attempt number `attempt` (counted from 1), given whether it
/// obtained the key and how many seconds have passed since the fetch began:
/// a failed attempt is followed by another only when that one would start,
/// after the backoff, within `MAX_RETRY_SECS` of the beginning.
pub open spec fn next_step_spec(attempt: u32, fetched: bool, elapsed_secs: u64) -> RetryStep {
    if fetched {
        RetryStep::Done { report: attempt > 1 }
    } else if elapsed_secs + backoff_spec(attempt) > MAX_RETRY_SECS {
        RetryStep::GiveUp
    } else {
        RetryStep::Retry { report: report_retry(attempt), backoff_secs: backoff_spec(attempt) }
    }
}

/// Decides what follows an attempt to fetch the key.
pub fn next_step(attempt: u32, fetched: bool, elapsed_secs: u64) -> (step: RetryStep)
    ensures
        step == next_step_spec(attempt, fetched, elapsed_secs),
{
    if fetched {
        return RetryStep::Done { report: attempt > 1 };
    }
    let backoff = backoff_secs(attempt);
    proof {
        vstd::arithmetic::power2::lemma2_to64();
    }
    if elapsed_secs > MAX_RETRY_SECS - backoff {
        return RetryStep::GiveUp;
    }
    let report = attempt <= 3 || attempt % 5 == 0;
    RetryStep::Retry { report, backoff_secs: backoff }
}


/// Retries stay within `MAX_RETRY_SECS`: a failed fetch is tried again only
/// when the next attempt starts, after its pause, at most `MAX_RETRY_SECS`
/// seconds after the fetch began; once that many seconds have passed it is
/// given up; and a fetch that obtained the key ends the loop.
pub proof fn lemma_retry_window(attempt: u32, elapsed_secs: u64)
    ensures
        next_step_spec(attempt, false, elapsed_secs) matches RetryStep::Retry { backoff_secs, .. }
            ==> elapsed_secs + backoff_secs <= MAX_RETRY_SECS,
        next_step_spec(attempt, false, elapsed_secs) is Retry <==> elapsed_secs + backoff_spec(
            attempt,
        ) <= MAX_RETRY_SECS,
        elapsed_secs >= MAX_RETRY_SECS ==> next_step_spec(attempt, false, elapsed_secs) is GiveUp,
        next_step_spec(attempt, true, elapsed_secs) is Done,
{
    vstd::arithmetic::power2::lemma2_to64();
}

/// The backoff doubles from one failed attempt to the next until it reaches
/// `MAX_BACKOFF_SECS`, and never exceeds it.
pub proof fn lemma_backoff_doubles(attempt: u32)
    requires
        1 <= attempt < u32::MAX,
    ensures
        backoff_spec((attempt + 1) as u32) == if 2 * backoff_spec(attempt) < MAX_BACKOFF_SECS {
            2 * backoff_spec(attempt)
        } else {
            MAX_BACKOFF_SECS as int
        },
        backoff_spec(attempt) <= backoff_spec((attempt + 1) as u32),
        2 <= backoff_spec(attempt) <= MAX_BACKOFF_SECS,
{
    vstd::arithmetic::power2::lemma2_to64();
}

/// A token that holds only one of the KBS URL and the resource path is refused.
pub proof fn lemma_token_url_and_resource_together(
    ty: Option<Seq<char>>,
    url: Option<Seq<char>>,
    resource: Option<Seq<char>>,
)
    requires
        (url is Some) != (resource is Some),
    ensures
        !token_fields_valid(ty, url, resource),
{
}

/// A token that the plugin accepts and that holds the KBS URL and resource
/// path is the source of the initdata: opening the volume reads them from it.
pub proof fn lemma_valid_token_gives_initdata(json: Seq<char>)
    requires
        token_json_valid(json),
        member(json_document(json).unwrap(), url_key()) is Some,
    ensures
        initdata_from_json_spec(json) == Ok::<_, crate::error::KbsError>(
            (
                Seq::<u8>::empty(),
                member(json_document(json).unwrap(), url_key()).unwrap(),
                member(json_document(json).unwrap(), resource_key()).unwrap(),
            ),
        ),
{
}

} // verus!
