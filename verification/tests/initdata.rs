use libcryptsetup_token_kbs::error::KbsError;
use libcryptsetup_token_kbs::initdata::new_initdata;
use libcryptsetup_token_kbs::initdata::new_initdata_from_json;

const README_INITDATA: &str = r#"algorithm = "sha384"
version = "0.1.0"

[data]
"trustee.kbs.url" = "http://kbs-service:8080"
"trustee.kbs.resource" = "default/vm-1/root"
"#;

#[test]
fn json_token_with_both_members() {
    let d = new_initdata_from_json(
        r#"{"type":"tdx-kbs","keyslots":["0"],"trustee.kbs.url":"http://kbs-service:8080","trustee.kbs.resource":"default/my-vm/root"}"#,
    )
    .unwrap();
    assert_eq!(d.kbs_url(), "http://kbs-service:8080");
    assert_eq!(d.kbs_resource(), "default/my-vm/root");
    assert_eq!(d.as_str(), "");
}

#[test]
fn json_token_errors() {
    assert!(matches!(
        new_initdata_from_json("not json").unwrap_err(),
        KbsError::JsonParse(Some(m)) if !m.is_empty()
    ));
    assert_eq!(
        new_initdata_from_json(r#"{"type":"tdx-kbs","keyslots":["0"]}"#).unwrap_err(),
        KbsError::TokenMissingUrl
    );
    assert_eq!(
        new_initdata_from_json(r#"{"trustee.kbs.url":"http://k"}"#).unwrap_err(),
        KbsError::TokenMissingResource
    );
    assert_eq!(
        new_initdata_from_json(r#"{"trustee.kbs.url":5,"trustee.kbs.resource":"r"}"#).unwrap_err(),
        KbsError::TokenMissingUrl
    );
    assert_eq!(new_initdata_from_json(r#"["trustee.kbs.url"]"#).unwrap_err(), KbsError::TokenMissingUrl);
}

#[test]
fn initdata_toml_from_readme() {
    let d = new_initdata(README_INITDATA.as_bytes().to_vec()).unwrap();
    assert_eq!(d.kbs_url(), "http://kbs-service:8080");
    assert_eq!(d.kbs_resource(), "default/vm-1/root");
    assert_eq!(d.as_str(), README_INITDATA);
}

#[test]
fn initdata_toml_header_errors() {
    let e = |s: &str| new_initdata(s.as_bytes().to_vec()).unwrap_err();
    assert!(matches!(e("this is = = not toml"), KbsError::TomlParse(Some(_))));
    assert_eq!(e("version = \"0.1.0\"\n[data]\n"), KbsError::MissingAlgorithm);
    assert_eq!(e("algorithm = \"sha384\"\n[data]\n"), KbsError::MissingVersion);
    assert_eq!(
        e("algorithm = \"sha384\"\nversion = \"0.2.0\"\n[data]\n"),
        KbsError::InvalidVersion(Some("0.2.0".to_string()))
    );
    assert_eq!(e("algorithm = \"sha384\"\nversion = 1\n[data]\n"), KbsError::InvalidVersion(None));
    assert_eq!(e("algorithm = \"sha384\"\nversion = \"0.1.0\"\n"), KbsError::MissingData);
    assert_eq!(e("algorithm = \"sha384\"\nversion = \"0.1.0\"\ndata = 3\n"), KbsError::DataNotTable);
}

#[test]
fn initdata_toml_data_errors() {
    let e = |s: &str| new_initdata(s.as_bytes().to_vec()).unwrap_err();
    assert_eq!(
        e("algorithm = \"a\"\nversion = \"0.1.0\"\n[data]\n\"trustee.kbs.url\" = 1\n"),
        KbsError::InvalidKbsUrl
    );
    assert_eq!(
        e("algorithm = \"a\"\nversion = \"0.1.0\"\n[data]\n\"trustee.kbs.url\" = \"u\"\n\"trustee.kbs.resource\" = []\n"),
        KbsError::InvalidKbsResource
    );
}

#[test]
fn initdata_missing_kbs_keys_are_errors() {
    let e = |s: &str| new_initdata(s.as_bytes().to_vec()).unwrap_err();
    assert_eq!(
        e("algorithm = \"a\"\nversion = \"0.1.0\"\n[data]\nother = 1\n"),
        KbsError::InvalidKbsUrl
    );
    assert_eq!(
        e("algorithm = 'sha384'\nversion = '0.1.0'\n[data]\n'trustee.kbs.resource' = 'r'\n"),
        KbsError::InvalidKbsUrl
    );
    assert_eq!(
        e("algorithm = \"a\"\nversion = \"0.1.0\"\n[data]\n\"trustee.kbs.url\" = \"u\"\n"),
        KbsError::InvalidKbsResource
    );
    assert_eq!(
        e("algorithm = \"a\"\nversion = \"0.1.0\"\n[data]\n\"trustee.kbs.url\" = 2\n"),
        KbsError::InvalidKbsUrl
    );
}

#[test]
fn initdata_text_is_read_lossily() {
    let mut bytes = README_INITDATA.as_bytes().to_vec();
    bytes.extend_from_slice(b"# \xff\n");
    let d = new_initdata(bytes).unwrap();
    assert!(d.as_str().ends_with("# \u{FFFD}\n"));
}
