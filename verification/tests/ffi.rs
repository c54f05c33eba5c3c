use libcryptsetup_token_kbs::ffi::backoff_secs;
use libcryptsetup_token_kbs::ffi::check_token_fields;
use libcryptsetup_token_kbs::ffi::initdata_from_token;
use libcryptsetup_token_kbs::ffi::next_step;
use libcryptsetup_token_kbs::ffi::token_json_is_valid;
use libcryptsetup_token_kbs::ffi::RetryStep;

#[test]
fn readme_tokens_are_valid() {
    assert!(token_json_is_valid(r#"{"type":"tdx-kbs","keyslots":["0"]}"#));
    assert!(token_json_is_valid(
        r#"{"type":"tdx-kbs","keyslots":["0"],"trustee.kbs.url":"http://kbs-service:8080","trustee.kbs.resource":"default/my-vm/root"}"#
    ));
}

#[test]
fn invalid_tokens() {
    assert!(!token_json_is_valid("{"));
    assert!(!token_json_is_valid(r#"{"keyslots":["0"]}"#));
    assert!(!token_json_is_valid(r#"{"type":"luks2-keyring"}"#));
    assert!(!token_json_is_valid(r#"{"type":"tdx-kbs","trustee.kbs.url":"http://k"}"#));
    assert!(!token_json_is_valid(r#"{"type":"tdx-kbs","trustee.kbs.resource":"r"}"#));
    assert!(!token_json_is_valid(r#"{"type":"tdx-kbs","trustee.kbs.url":"","trustee.kbs.resource":"r"}"#));
    assert!(!token_json_is_valid(r#"{"type":"tdx-kbs","trustee.kbs.url":"u","trustee.kbs.resource":""}"#));
    // A member that is not a string counts as absent.
    assert!(token_json_is_valid(r#"{"type":"tdx-kbs","trustee.kbs.url":1,"trustee.kbs.resource":2}"#));
}

#[test]
fn token_field_checks() {
    let s = |x: &str| Some(x.to_string());
    assert!(check_token_fields(&s("tdx-kbs"), &None, &None));
    assert!(check_token_fields(&s("tdx-kbs"), &s("u"), &s("r")));
    assert!(!check_token_fields(&None, &s("u"), &s("r")));
    assert!(!check_token_fields(&s("tdx-kbs"), &s("u"), &None));
    assert!(!check_token_fields(&s("tdx-kbs"), &None, &s("r")));
    assert!(!check_token_fields(&s("tdx-kbs"), &s(""), &s("r")));
}

#[test]
fn token_initdata_or_smbios() {
    let d = initdata_from_token(Some(r#"{"trustee.kbs.url":"u","trustee.kbs.resource":"r"}"#)).unwrap();
    assert_eq!(d.kbs_url(), "u");
    assert!(initdata_from_token(Some(r#"{"type":"tdx-kbs","keyslots":["0"]}"#)).is_none());
    assert!(initdata_from_token(Some("")).is_none());
    assert!(initdata_from_token(None).is_none());
}

#[test]
fn backoff_doubles_up_to_32_seconds() {
    let got: Vec<u64> = (0..9).map(backoff_secs).collect();
    assert_eq!(got, vec![1, 2, 4, 8, 16, 32, 32, 32, 32]);
    assert_eq!(backoff_secs(u32::MAX), 32);
}

#[test]
fn retry_steps() {
    assert_eq!(next_step(1, true, 0), RetryStep::Done { report: false });
    assert_eq!(next_step(4, true, 50), RetryStep::Done { report: true });
    assert_eq!(next_step(1, false, 0), RetryStep::Retry { report: true, backoff_secs: 2 });
    assert_eq!(next_step(3, false, 10), RetryStep::Retry { report: true, backoff_secs: 8 });
    assert_eq!(next_step(4, false, 20), RetryStep::Retry { report: false, backoff_secs: 16 });
    assert_eq!(next_step(5, false, 30), RetryStep::Retry { report: true, backoff_secs: 32 });
    assert_eq!(next_step(6, false, 88), RetryStep::Retry { report: false, backoff_secs: 32 });
    assert_eq!(next_step(6, false, 89), RetryStep::GiveUp);
    assert_eq!(next_step(7, false, 94), RetryStep::GiveUp);
    assert_eq!(next_step(2, false, 116), RetryStep::Retry { report: true, backoff_secs: 4 });
    assert_eq!(next_step(2, false, 117), RetryStep::GiveUp);
    assert_eq!(next_step(6, false, 120), RetryStep::GiveUp);
    assert_eq!(next_step(2, false, 500), RetryStep::GiveUp);
}

#[test]
fn accepted_token_with_kbs_members_is_the_initdata_source() {
    let json = r#"{"type":"tdx-kbs","keyslots":["0"],"trustee.kbs.url":"http://kbs-service:8080","trustee.kbs.resource":"default/my-vm/root"}"#;
    assert!(token_json_is_valid(json));
    let d = initdata_from_token(Some(json)).unwrap();
    assert_eq!(d.kbs_url(), "http://kbs-service:8080");
    assert_eq!(d.kbs_resource(), "default/my-vm/root");
    assert_eq!(d.as_str(), "");
}

#[test]
fn instant_failures_never_start_an_attempt_after_120_seconds() {
    // Every failure is seen at the moment its attempt starts.
    let mut start = 0u64;
    let mut attempt = 0u32;
    loop {
        attempt += 1;
        assert!(start <= 120);
        match next_step(attempt, false, start) {
            RetryStep::Retry { backoff_secs, .. } => start += backoff_secs,
            RetryStep::GiveUp => break,
            RetryStep::Done { .. } => unreachable!(),
        }
    }
    assert_eq!((attempt, start), (7, 94));
}
