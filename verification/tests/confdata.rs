use base64::Engine;
use libcryptsetup_token_kbs::confdata::extract_luks_key;
use libcryptsetup_token_kbs::confdata::try_extract_luks_key;
use libcryptsetup_token_kbs::error::KbsError;

fn b64(s: &str) -> Vec<u8> {
    base64::prelude::BASE64_STANDARD.encode(s.as_bytes()).into_bytes()
}

#[test]
fn readme_confdata_gives_passphrase() {
    let doc = "version = \"0.1.0\"\n\n[data]\n\"io.cryptsetup.key.text.root\" = \"my-luks-passphrase\"\n";
    assert_eq!(extract_luks_key(&b64(doc)).unwrap(), b"my-luks-passphrase".to_vec());
}

#[test]
fn answer_is_trimmed_before_decoding() {
    let doc = "version = \"0.1.0\"\n[data]\n\"io.cryptsetup.key.text.x\" = \"pw\"\n";
    let mut raw = b"  \n".to_vec();
    raw.extend(b64(doc));
    raw.extend(b"\n\n");
    assert_eq!(extract_luks_key(&raw).unwrap(), b"pw".to_vec());
}

#[test]
fn confdata_errors() {
    assert!(matches!(
        extract_luks_key(b"!!not base64!!").unwrap_err(),
        KbsError::ConfdataBase64(Some(m)) if !m.is_empty()
    ));
    assert!(matches!(
        extract_luks_key(&b64("= = =")).unwrap_err(),
        KbsError::TomlParse(Some(m)) if !m.is_empty()
    ));
    assert_eq!(
        extract_luks_key(&b64("version = \"0.2.0\"\n[data]\n")).unwrap_err(),
        KbsError::ConfdataVersion
    );
    assert_eq!(extract_luks_key(&b64("[data]\n")).unwrap_err(), KbsError::ConfdataVersion);
    assert_eq!(
        extract_luks_key(&b64("version = \"0.1.0\"\ndata = \"x\"\n")).unwrap_err(),
        KbsError::ConfdataDataNotTable
    );
    assert_eq!(
        extract_luks_key(&b64("version = \"0.1.0\"\n[data]\n\"other.key\" = \"x\"\n")).unwrap_err(),
        KbsError::NoLuksKey
    );
}

#[test]
fn non_string_luks_entries_are_skipped() {
    let doc = "version = \"0.1.0\"\n[data]\n\"io.cryptsetup.key.text.a\" = 1\n\"io.cryptsetup.key.text.b\" = \"second\"\n";
    assert_eq!(extract_luks_key(&b64(doc)).unwrap(), b"second".to_vec());
    let doc = "version = \"0.1.0\"\n[data]\n\"io.cryptsetup.key.text.a\" = 1\n";
    assert_eq!(extract_luks_key(&b64(doc)).unwrap_err(), KbsError::NoLuksKey);
}

#[test]
fn first_luks_entry_in_table_order_wins() {
    let doc = "version = \"0.1.0\"\n[data]\n\"io.cryptsetup.key.text.zz\" = \"z\"\n\"io.cryptsetup.key.text.aa\" = \"a\"\n";
    assert_eq!(extract_luks_key(&b64(doc)).unwrap(), b"a".to_vec());
}

#[test]
fn passphrase_is_utf8_bytes() {
    let doc = "version = \"0.1.0\"\n[data]\n\"io.cryptsetup.key.text.root\" = \"pässwörd\"\n";
    assert_eq!(extract_luks_key(&b64(doc)).unwrap(), "pässwörd".as_bytes().to_vec());
}

#[test]
fn missing_data_table_is_refused_by_try() {
    assert!(try_extract_luks_key(&b64("version = \"0.1.0\"\n")).is_none());
    assert_eq!(
        try_extract_luks_key(&b64("version = \"9\"\n")).unwrap().unwrap_err(),
        KbsError::ConfdataVersion
    );
    assert!(matches!(
        try_extract_luks_key(b"%%%").unwrap().unwrap_err(),
        KbsError::ConfdataBase64(_)
    ));
}

#[test]
fn unicode_white_space_around_answer_is_ignored() {
    let doc = "version = \"0.1.0\"\n[data]\n\"io.cryptsetup.key.text.x\" = \"pw\"\n";
    let mut raw = "\u{3000}\t".as_bytes().to_vec();
    raw.extend(b64(doc));
    raw.extend("\u{00A0}\r\n".as_bytes());
    assert_eq!(extract_luks_key(&raw).unwrap(), b"pw".to_vec());
}

#[test]
fn key_suffix_is_informational() {
    let root = "version = \"0.1.0\"\n[data]\n\"io.cryptsetup.key.text.root\" = \"pw\"\n";
    let home = "version = \"0.1.0\"\n[data]\n\"io.cryptsetup.key.text.home\" = \"pw\"\n";
    assert_eq!(extract_luks_key(&b64(root)).unwrap(), extract_luks_key(&b64(home)).unwrap());
}
