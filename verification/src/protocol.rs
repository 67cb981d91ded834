//! Helpers of the custom protocols: the origin a protocol is served from, and the encoding of a
//! URI component as JavaScript's `encodeURIComponent` does it.

use vstd::prelude::*;
use vstd::string::StringSliceAdditionalSpecFns;

verus! {

/// The origin (`scheme://host`, without a trailing slash) a custom protocol is served from.
pub open spec fn origin_text(scheme: Seq<char>, use_https: bool, over_http_localhost: bool) -> Seq<char> {
    if over_http_localhost {
        (if use_https { "https"@ } else { "http"@ }) + "://"@ + scheme + ".localhost"@
    } else {
        scheme + "://localhost"@
    }
}

/// The origin (`scheme://host`, without a trailing slash) a custom protocol is served from.
///
/// Where the platform serves custom protocols over `http(s)://{scheme}.localhost` (Windows and
/// Android: `over_http_localhost`), that is the origin; elsewhere it is `{scheme}://localhost`.
pub fn origin(scheme: &str, use_https: bool, over_http_localhost: bool) -> (r: String)
    ensures
        r@ == origin_text(scheme@, use_https, over_http_localhost),
{
    if over_http_localhost {
        let http = if use_https { "https" } else { "http" };
        let mut r = String::from_str(http);
        r.append("://");
        r.append(scheme);
        r.append(".localhost");
        r
    } else {
        let mut r = String::from_str(scheme);
        r.append("://localhost");
        r
    }
}

/// Whether a byte is left as it is by `encodeURIComponent`: an ASCII letter or digit, or one
/// of `- _ . ! ~ * ' ( )`.
pub open spec fn is_uri_unreserved(b: u8) -> bool {
    ||| 48 <= b <= 57
    ||| 65 <= b <= 90
    ||| 97 <= b <= 122
    ||| b == 45 || b == 95 || b == 46 || b == 33 || b == 126
    ||| b == 42 || b == 39 || b == 40 || b == 41
}

/// The upper-case hexadecimal digit for `d`, which is below sixteen.
pub open spec fn hex_upper(d: int) -> char {
    if d < 10 { (48 + d) as char } else { (55 + d) as char }
}

/// How one byte is written: itself when unreserved, else `%` and its two upper-case hex digits.
pub open spec fn uri_encoded_byte(b: u8) -> Seq<char> {
    if is_uri_unreserved(b) {
        seq![b as char]
    } else {
        seq!['%', hex_upper((b / 16) as int), hex_upper((b % 16) as int)]
    }
}

/// The percent-encoding of a byte string, byte by byte.
pub open spec fn uri_encoded(bytes: Seq<u8>) -> Seq<char>
    decreases bytes.len(),
{
    if bytes.len() == 0 {
        Seq::empty()
    } else {
        uri_encoded(bytes.drop_last()) + uri_encoded_byte(bytes.last())
    }
}

fn hex_digit_char(d: u8) -> (c: char)
    requires
        d < 16,
    ensures
        c == hex_upper(d as int),
{
    if d < 10 { (48 + d) as char } else { (55 + d) as char }
}

/// Percent-encodes the UTF-8 bytes of a text as JavaScript's `encodeURIComponent` does: ASCII
/// letters, digits and `- _ . ! ~ * ' ( )` stay, every other byte becomes `%XX`.
pub fn encode_uri_component(input: &str) -> (r: String)
    ensures
        r@ == uri_encoded(input.spec_bytes()),
{
    let bytes = input.as_bytes();
    let mut out = String::new();
    let mut i: usize = 0;
    while i < bytes.len()
        invariant
            i <= bytes@.len(),
            bytes@ == input.spec_bytes(),
            out@ == uri_encoded(bytes@.subrange(0, i as int)),
        decreases bytes@.len() - i,
    {
        let b = bytes[i];
        assert(bytes@.subrange(0, i as int + 1).drop_last() =~= bytes@.subrange(0, i as int));
        if (48 <= b && b <= 57) || (65 <= b && b <= 90) || (97 <= b && b <= 122) || b == 45 || b == 95
            || b == 46 || b == 33 || b == 126 || b == 42 || b == 39 || b == 40 || b == 41 {
            crate::text::push_char(&mut out, b as char);
        } else {
            crate::text::push_char(&mut out, '%');
            crate::text::push_char(&mut out, hex_digit_char(b / 16));
            crate::text::push_char(&mut out, hex_digit_char(b % 16));
        }
        i += 1;
    }
    assert(bytes@.subrange(0, bytes@.len() as int) =~= bytes@);
    out
}

} // verus!
