//! The initdata that the VMM hands over in SMBIOS OEM strings (type 11):
//! the first OEM string that decodes to a valid `initdata.toml` document.
use vstd::prelude::*;
use crate::error::result_kind;
use crate::error::KbsError;
use crate::initdata::initdata_result_view;
use crate::initdata::new_initdata;
use crate::initdata::new_initdata_spec;
use crate::initdata::InitData;
use crate::text::base64_standard_decode;
use crate::text::decode_base64;
use crate::text::opt_view;

verus! {

/// The texts of the OEM strings, `None` for a string that is not valid UTF-8.
pub open spec fn oem_view(v: Seq<Option<String>>) -> Seq<Option<Seq<char>>> {
    v.map_values(|s: Option<String>| opt_view(s))
}

/// The bytes that an OEM string base64-decodes to, if it does.
pub open spec fn oem_initdata_bytes(s: Option<Seq<char>>) -> Option<Seq<u8>> {
    match s {
        Some(text) => base64_standard_decode(text),
        None => None,
    }
}

/// The OEM string holds a valid initdata document.
pub open spec fn oem_accepts(s: Option<Seq<char>>) -> bool {
    oem_initdata_bytes(s) matches Some(b) && new_initdata_spec(b) is Ok
}

/// What the scan of the OEM strings gives: the initdata of the first one that
/// holds a valid initdata document, or `NoValidOemStrings`.
pub open spec fn oem_scan(ss: Seq<Option<Seq<char>>>) -> Result<
    (Seq<u8>, Seq<char>, Seq<char>),
    KbsError,
>
    decreases ss.len(),
{
    if ss.len() == 0 {
        Err(KbsError::NoValidOemStrings)
    } else if oem_accepts(ss[0]) {
        new_initdata_spec(oem_initdata_bytes(ss[0]).unwrap())
    } else {
        oem_scan(ss.drop_first())
    }
}

/// Scans the OEM strings (each as `SMBiosString::to_utf8_lossy` gives it)
/// for the first that is a base64 encoded valid `initdata.toml` document.
pub fn load_from_oem_strings(oem_strings: &Vec<Option<String>>) -> (r: Result<InitData, KbsError>)
    ensures
        result_kind(initdata_result_view(r)) == oem_scan(oem_view(oem_strings@)),
{
    let ghost ss = oem_view(oem_strings@);
    let mut i: usize = 0;
    assert(ss.skip(0) =~= ss);
    while i < oem_strings.len()
        invariant
            ss == oem_view(oem_strings@),
            0 <= i <= oem_strings@.len(),
            oem_scan(ss) == oem_scan(ss.skip(i as int)),
        decreases oem_strings@.len() - i,
    {
        assert(ss[i as int] == opt_view(oem_strings@[i as int]));
        assert(ss.skip(i as int)[0] == ss[i as int]);
        assert(ss.skip(i as int).drop_first() =~= ss.skip(i + 1));
        match &oem_strings[i] {
            Some(text) => match decode_base64(text.as_str()) {
                Ok(bytes) => {
                    match new_initdata(bytes) {
                        Ok(initdata) => {
                            return Ok(initdata);
                        },
                        Err(_) => {},
                    }
                },
                Err(_) => {},
            },
            None => {},
        }
        i = i + 1;
    }
    Err(KbsError::NoValidOemStrings)
}

/// The scan takes the first OEM string that holds a valid initdata document:
/// when string `i` does and none before it does, the initdata is string `i`'s.
pub proof fn lemma_oem_scan_first(ss: Seq<Option<Seq<char>>>, i: int)
    requires
        0 <= i < ss.len(),
        oem_accepts(ss[i]),
        forall|j: int| 0 <= j < i ==> !oem_accepts(#[trigger] ss[j]),
    ensures
        oem_scan(ss) == new_initdata_spec(oem_initdata_bytes(ss[i]).unwrap()),
    decreases i,
{
    if i > 0 {
        let t = ss.drop_first();
        assert(!oem_accepts(ss[0]));
        assert forall|j: int| 0 <= j < i - 1 implies !oem_accepts(#[trigger] t[j]) by {
            assert(t[j] == ss[j + 1]);
        }
        lemma_oem_scan_first(t, i - 1);
    }
}

/// When no OEM string holds a valid initdata document, the scan gives
/// `NoValidOemStrings`.
pub proof fn lemma_oem_scan_none(ss: Seq<Option<Seq<char>>>)
    requires
        forall|j: int| 0 <= j < ss.len() ==> !oem_accepts(#[trigger] ss[j]),
    ensures
        oem_scan(ss) == Err::<(Seq<u8>, Seq<char>, Seq<char>), KbsError>(KbsError::NoValidOemStrings),
    decreases ss.len(),
{
    if ss.len() > 0 {
        let t = ss.drop_first();
        assert(!oem_accepts(ss[0]));
        assert forall|j: int| 0 <= j < t.len() implies !oem_accepts(#[trigger] t[j]) by {
            assert(t[j] == ss[j + 1]);
        }
        lemma_oem_scan_none(t);
    }
}

} // verus!
