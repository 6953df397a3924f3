//! The text form of the bytes of a Kubernetes secret.

use vstd::prelude::*;

verus! {

/// The digit of the standard base64 alphabet for a value below 64.
pub open spec fn base64_digit(value: int) -> char {
    if value < 26 {
        ('A' as int + value) as char
    } else if value < 52 {
        ('a' as int + (value - 26)) as char
    } else if value < 62 {
        ('0' as int + (value - 52)) as char
    } else if value == 62 {
        '+'
    } else {
        '/'
    }
}

/// The standard base64 text of a list of bytes, with padding.
pub open spec fn base64(bytes: Seq<u8>) -> Seq<char>
    decreases bytes.len(),
{
    if bytes.len() == 0 {
        Seq::empty()
    } else if bytes.len() == 1 {
        let w = bytes[0] as int;
        seq![base64_digit(w / 4), base64_digit(w % 4 * 16), '=', '=']
    } else if bytes.len() == 2 {
        let w = bytes[0] * 256 + bytes[1];
        seq![base64_digit(w / 1024), base64_digit(w / 16 % 64), base64_digit(w % 16 * 4), '=']
    } else {
        let w = bytes[0] * 65536 + bytes[1] * 256 + bytes[2];
        seq![
            base64_digit(w / 262144),
            base64_digit(w / 4096 % 64),
            base64_digit(w / 64 % 64),
            base64_digit(w % 64),
        ] + base64(bytes.skip(3))
    }
}

/// Calls `serde_json::to_value` on a `k8s_openapi::ByteString`, whose JSON
/// form is a string: the base64 text of its bytes, in the standard alphabet
/// and padded.
#[verifier::external_body]
pub(crate) fn byte_string_text(bytes: Vec<u8>) -> (text: String)
    ensures
        text@ == base64(bytes@),
{
    let value = serde_json::to_value(k8s_openapi::ByteString(bytes)).unwrap();
    value.as_str().unwrap().to_owned()
}

} // verus!
