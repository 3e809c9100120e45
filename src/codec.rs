use vstd::prelude::*;
use vstd::string::StringExecFns;
use base64::Engine;

verus! {

#[verifier::external_type_specification]
#[verifier::external_body]
pub struct ExDecodeError(base64::DecodeError);

/// What the standard base64 engine (with padding) decodes text to, or `None`
/// where the text is not valid base64.
pub uninterp spec fn base64_decoded(s: Seq<char>) -> Option<Seq<u8>>;

/// The standard base64 encoding (with padding) of the UTF-8 bytes of a text.
pub uninterp spec fn base64_of_text(s: Seq<char>) -> Seq<char>;

/// The lower-case hex SHA-256 digest of the UTF-8 bytes of a text.
pub uninterp spec fn sha256_hex(s: Seq<char>) -> Seq<char>;

/// Bytes read as UTF-8, each invalid sequence replaced by U+FFFD.
pub uninterp spec fn utf8_lossy(b: Seq<u8>) -> Seq<char>;

/// Relies on `base64::engine::general_purpose::STANDARD.decode`: it fails
/// exactly on invalid input, and otherwise returns the decoded bytes.
#[verifier::external_body]
pub(crate) fn base64_decode(s: &str) -> (r: Result<Vec<u8>, base64::DecodeError>)
    ensures
        r is Ok <==> base64_decoded(s@) is Some,
        r is Ok ==> base64_decoded(s@) == Some(r->Ok_0@),
{
    base64::engine::general_purpose::STANDARD.decode(s)
}

/// Relies on `base64::engine::general_purpose::STANDARD.encode_string`, which
/// appends the encoding of the bytes to the buffer; here the buffer starts empty.
#[verifier::external_body]
pub(crate) fn base64_encode_text(s: &str) -> (r: String)
    ensures
        r@ == base64_of_text(s@),
{
    let mut out = String::new();
    base64::engine::general_purpose::STANDARD.encode_string(s, &mut out);
    out
}

/// Relies on `sha256::digest` applied to a `String`, which hashes its bytes
/// and returns the digest in hex.
#[verifier::external_body]
pub(crate) fn sha256_digest(s: String) -> (r: String)
    ensures
        r@ == sha256_hex(s@),
{
    sha256::digest(s)
}

/// Relies on `String::from_utf8_lossy`, which depends on the bytes alone.
#[verifier::external_body]
pub(crate) fn from_utf8_lossy(b: &[u8]) -> (r: String)
    ensures
        r@ == utf8_lossy(b@),
{
    String::from_utf8_lossy(b).into_owned()
}

/// The decimal digit character for `d < 10`.
pub open spec fn digit_char(d: nat) -> char {
    if d == 0 { '0' } else if d == 1 { '1' } else if d == 2 { '2' } else if d == 3 { '3' }
    else if d == 4 { '4' } else if d == 5 { '5' } else if d == 6 { '6' } else if d == 7 { '7' }
    else if d == 8 { '8' } else { '9' }
}

/// The decimal text of a natural number, without leading zeros ("0" for zero).
pub open spec fn decimal(n: nat) -> Seq<char>
    decreases n,
{
    if n < 10 {
        seq![digit_char(n)]
    } else {
        decimal(n / 10).push(digit_char(n % 10))
    }
}

fn digit_text(d: u128) -> (r: &'static str)
    requires
        d < 10,
    ensures
        r@ == seq![digit_char(d as nat)],
{
    proof {
        reveal_strlit("0");
        reveal_strlit("1");
        reveal_strlit("2");
        reveal_strlit("3");
        reveal_strlit("4");
        reveal_strlit("5");
        reveal_strlit("6");
        reveal_strlit("7");
        reveal_strlit("8");
        reveal_strlit("9");
    }
    if d == 0 { "0" } else if d == 1 { "1" } else if d == 2 { "2" } else if d == 3 { "3" }
    else if d == 4 { "4" } else if d == 5 { "5" } else if d == 6 { "6" } else if d == 7 { "7" }
    else if d == 8 { "8" } else { "9" }
}

/// Appends the decimal text of `n` to `out`.
pub fn push_decimal(out: &mut String, n: u128)
    ensures
        final(out)@ == old(out)@ + decimal(n as nat),
    decreases n,
{
    if n < 10 {
        out.append(digit_text(n));
    } else {
        push_decimal(out, n / 10);
        out.append(digit_text(n % 10));
        assert(decimal(n as nat) == decimal((n / 10) as nat).push(digit_char((n % 10) as nat)));
    }
}

} // verus!
