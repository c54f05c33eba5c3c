use libcryptsetup_token_kbs::attest::attester_args;
use libcryptsetup_token_kbs::attest::resource_from_output;
use libcryptsetup_token_kbs::attest::AttesterOutput;
use libcryptsetup_token_kbs::attest::KBS_CA_CERT_PATH;
use libcryptsetup_token_kbs::error::KbsError;
use libcryptsetup_token_kbs::initdata::new_initdata;
use libcryptsetup_token_kbs::initdata::new_initdata_from_json;

fn json_initdata() -> libcryptsetup_token_kbs::initdata::InitData {
    new_initdata_from_json(r#"{"trustee.kbs.url":"http://kbs:8080","trustee.kbs.resource":"default/vm/root"}"#)
        .unwrap()
}

#[test]
fn args_without_cert_or_initdata() {
    let args = attester_args(&json_initdata(), false);
    assert_eq!(args, vec!["--url", "http://kbs:8080", "get-resource", "--path", "default/vm/root"]);
}

#[test]
fn args_with_cert() {
    let args = attester_args(&json_initdata(), true);
    assert_eq!(
        args,
        vec!["--url", "http://kbs:8080", "--cert-file", KBS_CA_CERT_PATH, "get-resource", "--path", "default/vm/root"]
    );
    assert_eq!(KBS_CA_CERT_PATH, "/etc/trustee-attester/kbs-ca.pem");
}

#[test]
fn args_with_initdata_document() {
    let doc = "algorithm = \"sha384\"\nversion = \"0.1.0\"\n[data]\n\"trustee.kbs.url\" = \"u\"\n\"trustee.kbs.resource\" = \"r\"\n";
    let d = new_initdata(doc.as_bytes().to_vec()).unwrap();
    let args = attester_args(&d, false);
    assert_eq!(args, vec!["--url", "u", "get-resource", "--path", "r", "--initdata", doc]);
}

#[test]
fn successful_attester_gives_stdout() {
    let out = AttesterOutput { success: true, stdout: b"abc".to_vec(), stderr: b"noise".to_vec() };
    assert_eq!(resource_from_output(&json_initdata(), Ok(out)).unwrap(), b"abc".to_vec());
}

#[test]
fn failed_attester_names_url_resource_and_stderr() {
    let out = AttesterOutput { success: false, stdout: vec![], stderr: b"boom \xff".to_vec() };
    let e = resource_from_output(&json_initdata(), Ok(out)).unwrap_err();
    assert_eq!(
        e,
        KbsError::AttesterFailed {
            url: "http://kbs:8080".to_string(),
            resource: "default/vm/root".to_string(),
            stderr: "boom \u{FFFD}".to_string(),
        }
    );
}

#[test]
fn spawn_error_passes_through() {
    let e = resource_from_output(&json_initdata(), Err(KbsError::AttesterSpawn("no such file".to_string())));
    assert_eq!(e.unwrap_err(), KbsError::AttesterSpawn("no such file".to_string()));
}
