//! The schema version constant and the custom-section name, taken from the
//! `wit-schema-version` crate so that every tool in the chain agrees on them.

use vstd::prelude::*;

verus! {

/// The characters of the schema version string that every payload must open
/// with.
pub open spec fn version_chars() -> Seq<char> {
    "0.1.0"@
}

/// The characters of the name of the custom section that carries the
/// interface-types payload.
pub open spec fn section_name_chars() -> Seq<char> {
    "wasm-interface-types"@
}

/// The version string and the section name are short ASCII strings, so
/// their UTF-8 encodings are as long as they are and fit any length prefix.
pub proof fn lemma_section_name_len()
    ensures
        vstd::utf8::encode_utf8(version_chars()).len() == 5,
        vstd::utf8::encode_utf8(section_name_chars()).len() == 20,
{
    reveal_strlit("0.1.0");
    reveal_strlit("wasm-interface-types");
    assert(vstd::utf8::is_ascii_chars(version_chars()));
    assert(vstd::utf8::is_ascii_chars(section_name_chars()));
    vstd::utf8::is_ascii_chars_encode_utf8(version_chars());
    vstd::utf8::is_ascii_chars_encode_utf8(section_name_chars());
}

/// Relies on `wit_schema_version::VERSION`: the crate defines it as its own
/// package version, which is `0.1.0`.
#[verifier::external_body]
pub fn schema_version() -> (r: &'static str)
    ensures
        r@ == version_chars(),
{
    wit_schema_version::VERSION
}

/// Relies on `wit_schema_version::SECTION_NAME`: the crate defines it as the
/// literal `wasm-interface-types`.
#[verifier::external_body]
pub fn schema_section_name() -> (r: &'static str)
    ensures
        r@ == section_name_chars(),
{
    wit_schema_version::SECTION_NAME
}

} // verus!
