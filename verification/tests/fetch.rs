use base64::Engine;
use libcryptsetup_token_kbs::attest::AttesterOutput;
use libcryptsetup_token_kbs::error::KbsError;
use libcryptsetup_token_kbs::fetch_initdata_from_smbios;
use libcryptsetup_token_kbs::fetch_luks_key;
use libcryptsetup_token_kbs::initdata::new_initdata_from_json;
use libcryptsetup_token_kbs::smbios::load_from_oem_strings;
use libcryptsetup_token_kbs::try_fetch_luks_key;

fn b64(s: &str) -> String {
    base64::prelude::BASE64_STANDARD.encode(s.as_bytes())
}

fn initdata_doc(url: &str, res: &str) -> String {
    format!(
        "algorithm = \"sha384\"\nversion = \"0.1.0\"\n[data]\n\"trustee.kbs.url\" = \"{}\"\n\"trustee.kbs.resource\" = \"{}\"\n",
        url, res
    )
}

#[test]
fn fetch_key_from_attester_answer() {
    let d = new_initdata_from_json(r#"{"trustee.kbs.url":"u","trustee.kbs.resource":"r"}"#).unwrap();
    let conf = "version = \"0.1.0\"\n[data]\n\"io.cryptsetup.key.text.root\" = \"secret\"\n";
    let out = AttesterOutput { success: true, stdout: format!("{}\n", b64(conf)).into_bytes(), stderr: vec![] };
    assert_eq!(fetch_luks_key(&d, Ok(out)).unwrap(), b"secret".to_vec());
    let out = AttesterOutput { success: false, stdout: vec![], stderr: b"denied".to_vec() };
    assert!(matches!(fetch_luks_key(&d, Ok(out)), Err(KbsError::AttesterFailed { .. })));
    assert_eq!(
        fetch_luks_key(&d, Err(KbsError::AttesterSpawn("x".to_string()))).unwrap_err(),
        KbsError::AttesterSpawn("x".to_string())
    );
}

#[test]
fn try_fetch_key_refuses_confdata_without_data() {
    let d = new_initdata_from_json(r#"{"trustee.kbs.url":"u","trustee.kbs.resource":"r"}"#).unwrap();
    let out = AttesterOutput { success: true, stdout: b64("version = \"0.1.0\"\n").into_bytes(), stderr: vec![] };
    assert!(try_fetch_luks_key(&d, Ok(out)).is_none());
    let out = AttesterOutput { success: false, stdout: b64("version = \"0.1.0\"\n").into_bytes(), stderr: vec![] };
    assert!(try_fetch_luks_key(&d, Ok(out)).unwrap().is_err());
}

#[test]
fn oem_scan_takes_first_valid_initdata() {
    let strings = vec![
        None,
        Some("not base64 at all".to_string()),
        Some(b64("not = = toml")),
        Some(b64("algorithm = \"a\"\n")),
        Some(b64(&initdata_doc("http://first", "res/1"))),
        Some(b64(&initdata_doc("http://second", "res/2"))),
    ];
    let d = load_from_oem_strings(&strings).unwrap();
    assert_eq!(d.kbs_url(), "http://first");
    assert_eq!(d.kbs_resource(), "res/1");
    assert_eq!(d.as_str(), initdata_doc("http://first", "res/1"));
}

#[test]
fn oem_scan_without_valid_initdata() {
    let strings = vec![None, Some(b64("algorithm = \"a\"\n"))];
    assert_eq!(load_from_oem_strings(&strings).unwrap_err(), KbsError::NoValidOemStrings);
    assert_eq!(load_from_oem_strings(&vec![]).unwrap_err(), KbsError::NoValidOemStrings);
}

#[test]
fn oem_scan_skips_incomplete_initdata() {
    let incomplete = "algorithm = \"a\"\nversion = \"0.1.0\"\n[data]\n";
    let strings = vec![Some(b64(&initdata_doc("u", "r"))), Some(b64(incomplete))];
    assert_eq!(load_from_oem_strings(&strings).unwrap().kbs_url(), "u");
    let strings = vec![Some(b64(incomplete)), Some(b64(&initdata_doc("u2", "r2")))];
    assert_eq!(load_from_oem_strings(&strings).unwrap().kbs_url(), "u2");
    let strings = vec![
        Some(b64("algorithm = 'sha384'\nversion = '0.1.0'\n[data]\n'trustee.kbs.resource' = 'r'\n")),
        Some(b64("algorithm = 'sha384'\nversion = '0.1.0'\n[data]\n'trustee.kbs.url' = 'http://kbs-service:8080'\n'trustee.kbs.resource' = 'default/my-vm/root'\n")),
    ];
    assert_eq!(load_from_oem_strings(&strings).unwrap().kbs_url(), "http://kbs-service:8080");
    assert_eq!(load_from_oem_strings(&vec![Some(b64(incomplete))]).unwrap_err(), KbsError::NoValidOemStrings);
}

#[test]
fn smbios_fetch_passes_load_errors() {
    let e = fetch_initdata_from_smbios(Err(KbsError::SmbiosLoad("no tables".to_string())));
    assert_eq!(e.unwrap_err(), KbsError::SmbiosLoad("no tables".to_string()));
    let d = fetch_initdata_from_smbios(Ok(vec![Some(b64(&initdata_doc("u", "r")))])).unwrap();
    assert_eq!(d.kbs_resource(), "r");
    let incomplete = "algorithm = \"a\"\nversion = \"0.1.0\"\n[data]\n";
    assert_eq!(
        fetch_initdata_from_smbios(Ok(vec![Some(b64(incomplete))])).unwrap_err(),
        KbsError::NoValidOemStrings
    );
}
