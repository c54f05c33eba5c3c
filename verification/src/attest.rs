//! The call of `trustee-attester`, which performs the attestation against
//! the KBS and prints the resource: the command line it is given, and how
//! its answer is read.
use vstd::prelude::*;
use crate::error::KbsError;
use crate::initdata::new_initdata_spec;
use crate::initdata::InitData;
use crate::text::from_utf8_lossy;
use crate::text::utf8_lossy;

verus! {

/// The program that performs the attestation.
pub const ATTESTER_PROGRAM: &'static str = "trustee-attester";

/// Where a CA certificate for the TLS connection to the KBS may be installed.
pub const KBS_CA_CERT_PATH: &'static str = "/etc/trustee-attester/kbs-ca.pem";

/// The path of the CA certificate, as text.
pub open spec fn kbs_ca_cert_path() -> Seq<char> {
    "/etc/trustee-attester/kbs-ca.pem"@
}

/// The arguments of `trustee-attester`: the KBS URL, the CA certificate when
/// it is installed, the `get-resource` command with the resource path, and
/// the initdata document when there is one (the attestation token then
/// includes it).
pub open spec fn attester_args_spec(
    url: Seq<char>,
    resource: Seq<char>,
    initdata_text: Seq<char>,
    with_ca_cert: bool,
) -> Seq<Seq<char>> {
    seq!["--url"@, url] + (if with_ca_cert {
        seq!["--cert-file"@, kbs_ca_cert_path()]
    } else {
        Seq::empty()
    }) + seq!["get-resource"@, "--path"@, resource] + (if initdata_text.len() > 0 {
        seq!["--initdata"@, initdata_text]
    } else {
        Seq::empty()
    })
}

/// The texts of a sequence of strings.
pub open spec fn strings_view(v: Seq<String>) -> Seq<Seq<char>> {
    v.map_values(|s: String| s@)
}

/// The arguments to run `trustee-attester` with, for the given initdata and
/// whether the CA certificate at `KBS_CA_CERT_PATH` exists.
pub fn attester_args(initdata: &InitData, ca_cert_present: bool) -> (args: Vec<String>)
    ensures
        strings_view(args@) == attester_args_spec(
            initdata@.1,
            initdata@.2,
            utf8_lossy(initdata@.0),
            ca_cert_present,
        ),
        args@.len() >= 5,
        args@[0]@ == "--url"@,
        args@[1]@ == initdata@.1,
        ca_cert_present ==> args@[2]@ == "--cert-file"@ && args@[3]@ == kbs_ca_cert_path(),
        !ca_cert_present ==> args@[2]@ == "get-resource"@,
{
    let mut args: Vec<String> = Vec::new();
    args.push(String::from_str("--url"));
    args.push(String::from_str(initdata.kbs_url()));
    let ghost front = strings_view(args@);
    if ca_cert_present {
        args.push(String::from_str("--cert-file"));
        args.push(String::from_str(KBS_CA_CERT_PATH));
    }
    let ghost mid = strings_view(args@);
    args.push(String::from_str("get-resource"));
    args.push(String::from_str("--path"));
    args.push(String::from_str(initdata.kbs_resource()));
    let ghost back = strings_view(args@);
    let text = initdata.as_str();
    if !text.as_str().is_empty() {
        args.push(String::from_str("--initdata"));
        args.push(text);
    }
    assert(strings_view(args@) =~= attester_args_spec(
        initdata@.1,
        initdata@.2,
        utf8_lossy(initdata@.0),
        ca_cert_present,
    ));
    proof {
        lemma_attester_args_ca_cert(initdata@.1, initdata@.2, utf8_lossy(initdata@.0));
        lemma_attester_args_initdata(initdata@.1, initdata@.2, utf8_lossy(initdata@.0), ca_cert_present);
        lemma_attester_args_base(initdata@.1, initdata@.2);
        assert(strings_view(args@).len() == args@.len());
        assert forall|i: int| 0 <= i < args@.len() implies strings_view(args@)[i] == args@[i]@ by {}
    }
    args
}

/// How `trustee-attester` ended: whether it succeeded, and what it wrote to
/// stdout and stderr.
pub struct AttesterOutput {
    pub success: bool,
    pub stdout: Vec<u8>,
    pub stderr: Vec<u8>,
}

/// The error that tells that `trustee-attester` failed for the initdata,
/// with the given stderr text.
pub open spec fn is_attester_failure(
    e: KbsError,
    initdata: (Seq<u8>, Seq<char>, Seq<char>),
    stderr: Seq<char>,
) -> bool {
    e matches KbsError::AttesterFailed { url, resource, stderr: text } && url@ == initdata.1
        && resource@ == initdata.2 && text@ == stderr
}

/// Reads the answer of `trustee-attester` (or the error of starting it):
/// on success the resource is what it printed; otherwise the error names the
/// KBS URL, the resource path and its stderr, read lossily as UTF-8.
pub fn resource_from_output(initdata: &InitData, output: Result<AttesterOutput, KbsError>) -> (r:
    Result<Vec<u8>, KbsError>)
    ensures
        match output {
            Err(e) => r == Err::<Vec<u8>, KbsError>(e),
            Ok(o) => if o.success {
                r matches Ok(b) && b@ == o.stdout@
            } else {
                r matches Err(e) && is_attester_failure(e, initdata@, utf8_lossy(o.stderr@))
            },
        },
{
    let output = match output {
        Ok(o) => o,
        Err(e) => return Err(e),
    };
    if output.success {
        Ok(output.stdout)
    } else {
        Err(
            KbsError::AttesterFailed {
                url: String::from_str(initdata.kbs_url()),
                resource: String::from_str(initdata.kbs_resource()),
                stderr: from_utf8_lossy(output.stderr.as_slice()),
            },
        )
    }
}

/// Initdata read from a document keeps its bytes, and the document, read
/// lossily as UTF-8, is handed to the attester with
/// `--initdata`, last, so that the attestation token includes it; an empty
/// document is not handed over, and the arguments end with the resource path.
pub proof fn lemma_initdata_document_passed(data: Seq<u8>, with_ca_cert: bool)
    requires
        new_initdata_spec(data) is Ok,
    ensures
        ({
            let (d, url, res) = new_initdata_spec(data).unwrap();
            let text = utf8_lossy(d);
            let args = attester_args_spec(url, res, text, with_ca_cert);
            &&& d == data
            &&& text.len() > 0 ==> args.subrange(args.len() - 2, args.len() as int) == seq![
                "--initdata"@,
                text,
            ]
            &&& text.len() == 0 ==> args.len() == if with_ca_cert { 7int } else { 5int }
        }),
{
    let (d, url, res) = new_initdata_spec(data).unwrap();
    let text = utf8_lossy(d);
    let args = attester_args_spec(url, res, text, with_ca_cert);
    if text.len() > 0 {
        assert(args.subrange(args.len() - 2, args.len() as int) =~= seq!["--initdata"@, text]);
    }
}

/// The CA certificate is handed over right after the KBS URL whenever it is
/// installed, whatever else the arguments hold: with it, the arguments are
/// those without it with `--cert-file` and its path inserted after
/// `--url <url>`.
pub proof fn lemma_attester_args_ca_cert(url: Seq<char>, resource: Seq<char>, text: Seq<char>)
    ensures
        attester_args_spec(url, resource, text, true) == attester_args_spec(
            url,
            resource,
            text,
            false,
        ).take(2) + seq!["--cert-file"@, kbs_ca_cert_path()] + attester_args_spec(
            url,
            resource,
            text,
            false,
        ).skip(2),
{
    assert(attester_args_spec(url, resource, text, true) =~= attester_args_spec(
        url,
        resource,
        text,
        false,
    ).take(2) + seq!["--cert-file"@, kbs_ca_cert_path()] + attester_args_spec(
        url,
        resource,
        text,
        false,
    ).skip(2));
}

/// A non-empty initdata document is appended last, after `--initdata`, to
/// the arguments that the same initdata without a document gives; an empty
/// one changes nothing.
pub proof fn lemma_attester_args_initdata(
    url: Seq<char>,
    resource: Seq<char>,
    text: Seq<char>,
    with_ca_cert: bool,
)
    ensures
        text.len() > 0 ==> attester_args_spec(url, resource, text, with_ca_cert)
            == attester_args_spec(url, resource, Seq::empty(), with_ca_cert) + seq![
            "--initdata"@,
            text,
        ],
        text.len() == 0 ==> attester_args_spec(url, resource, text, with_ca_cert)
            == attester_args_spec(url, resource, Seq::empty(), with_ca_cert),
{
    if text.len() > 0 {
        assert(attester_args_spec(url, resource, text, with_ca_cert) =~= attester_args_spec(
            url,
            resource,
            Seq::empty(),
            with_ca_cert,
        ) + seq!["--initdata"@, text]);
    } else {
        assert(attester_args_spec(url, resource, text, with_ca_cert) =~= attester_args_spec(
            url,
            resource,
            Seq::empty(),
            with_ca_cert,
        ));
    }
}

/// Without a CA certificate or initdata document, `trustee-attester` is
/// given the KBS URL and asked for the resource at the path.
pub proof fn lemma_attester_args_base(url: Seq<char>, resource: Seq<char>)
    ensures
        attester_args_spec(url, resource, Seq::empty(), false) == seq![
            "--url"@,
            url,
            "get-resource"@,
            "--path"@,
            resource,
        ],
{
    assert(attester_args_spec(url, resource, Seq::empty(), false) =~= seq![
        "--url"@,
        url,
        "get-resource"@,
        "--path"@,
        resource,
    ]);
}

} // verus!
