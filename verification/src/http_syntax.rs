//! What the `http` crate (through `axum`) accepts as a header value and as a method.
use vstd::prelude::*;
use vstd::utf8::encode_utf8;

verus! {

/// A byte that `HeaderValue::from_str` accepts: not a control byte, except tab.
pub open spec fn header_value_byte(b: u8) -> bool {
    (b >= 32 && b != 127) || b == 9
}

/// A string that `HeaderValue::from_str` accepts.
pub open spec fn valid_header_value(s: Seq<char>) -> bool {
    forall|i: int| 0 <= i < encode_utf8(s).len() ==> header_value_byte(#[trigger] encode_utf8(s)[i])
}

/// A token byte of an HTTP method name (RFC 9110 `tchar`).
pub open spec fn method_byte(b: u8) -> bool {
    ||| 48 <= b <= 57
    ||| 65 <= b <= 90
    ||| 97 <= b <= 122
    ||| b == 33 || b == 35 || b == 36 || b == 37 || b == 38 || b == 39
    ||| b == 42 || b == 43 || b == 45 || b == 46
    ||| b == 94 || b == 95 || b == 96 || b == 124 || b == 126
}

/// A string that `Method::from_bytes` accepts: a non-empty token.
pub open spec fn valid_method(s: Seq<char>) -> bool {
    encode_utf8(s).len() > 0 && forall|i: int|
        0 <= i < encode_utf8(s).len() ==> method_byte(#[trigger] encode_utf8(s)[i])
}

/// Whether `HeaderValue::from_str` accepts `s`.
///
/// Trusted: http 1.x checks every byte with `b >= 32 && b != 127 || b == b'\t'`
/// and accepts exactly when all pass.
#[verifier::external_body]
pub fn header_value_accepts(s: &str) -> (r: bool)
    ensures
        r == valid_header_value(s@),
{
    axum::http::HeaderValue::from_str(s).is_ok()
}

/// The method named `s`, as `Method::from_bytes` reads it, in its text form.
///
/// Trusted: http 1.x accepts a non-empty string of token bytes (standard names and
/// extensions alike, case kept) and refuses anything else; `as_str` gives the
/// accepted text back unchanged.
#[verifier::external_body]
pub fn parse_method(s: &str) -> (r: Option<String>)
    ensures
        r is Some <==> valid_method(s@),
        r matches Some(m) ==> m@ == s@,
{
    axum::http::Method::from_bytes(s.as_bytes()).ok().map(|m| m.as_str().to_string())
}

} // verus!
