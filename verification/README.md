# libcryptsetup_token_kbs

The logic of a LUKS2 token plugin for cryptsetup that unlocks a volume with
a passphrase handed out by a Key Broker Service (KBS) after TEE attestation,
written in Verus and proved against its contracts.

## Layout

- `src/` — the verified library
  - `initdata.rs`: the initdata (KBS URL and resource path), read from the
    token JSON or from an `initdata.toml` document
  - `confdata.rs`: the passphrase, extracted from the base64 encoded
    `confdata.toml` that the KBS returns
  - `attest.rs`: the command line of `trustee-attester` and how its answer is read
  - `smbios.rs`: the choice of the first SMBIOS OEM string that holds initdata
  - `ffi.rs`: which tokens the plugin accepts, and the retry policy of the fetch
  - `lib.rs`: the key fetch and the initdata fetch put together
  - `text.rs`, `toml_doc.rs`, `json_doc.rs`: the calls into std, `base64`,
    `toml` and `serde_json`, with the contracts the proofs rely on
- `app/` — the C ABI exports for cryptsetup, the run of `trustee-attester`,
  the reading of the SMBIOS tables, and the `repart-kbs-helper` program
- `tests/` — tests on concrete documents

An initdata document whose `data` table lacks the KBS URL or resource path
is an invalid document, and the SMBIOS scan goes on to the next string. A
confdata document of the supported version without a `data` key is the one
input the key extraction leaves out: `extract_luks_key` and `fetch_luks_key`
require that it does not occur, their `try_` companions test it and give
`None`, and `app/` then panics (the plugin's C entry point turns a panic
into `-EAGAIN`).
