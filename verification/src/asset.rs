//! The asset protocol's range requests: which bytes of a file a `Range` header asks for, and the
//! text around the parts of a multipart answer.

use vstd::prelude::*;

use crate::text::{concat_all, decimal, u64_to_decimal};
use crate::event::join_pieces;

verus! {

/// The most bytes one range of an answer holds.
pub const MAX_LEN: u64 = 1000 * 1024;

/// What `http_range::HttpRange::parse` gives for a header and a file size: the ranges, each as
/// its first byte and its length, or `None` when the header is malformed or no range overlaps
/// the file.
pub uninterp spec fn parsed_ranges(header: Seq<char>, size: u64) -> Option<Seq<(u64, u64)>>;

/// `http_range::HttpRange::parse`: the ranges of a `Range` header (first byte and length) in a
/// file of `size` bytes. Every range lies within the file, and is not empty unless the file is.
#[verifier::external_body]
fn parse_range_header(header: &str, size: u64) -> (r: Option<Vec<(u64, u64)>>)
    ensures
        match r {
            Some(v) => parsed_ranges(header@, size) == Some(v@),
            None => parsed_ranges(header@, size) is None,
        },
        r matches Some(v) ==> forall|i: int|
            0 <= i < v@.len() ==> (#[trigger] v@[i]).0 + v@[i].1 <= size && (size > 0 ==> v@[i].1 >= 1),
{
    match http_range::HttpRange::parse(header, size) {
        Ok(ranges) => Some(ranges.iter().map(|r| (r.start, r.length)).collect()),
        Err(_) => None,
    }
}

/// The last byte of a range of `length` bytes from `start`; a range of no byte, or one past the
/// `u64` range, has none that lies in a file.
pub open spec fn last_byte(start: u64, length: u64) -> u64 {
    if length == 0 || start + length - 1 > u64::MAX {
        u64::MAX
    } else {
        (start + length - 1) as u64
    }
}

/// Whether bytes `start..=end` lie in a file of `len` bytes.
pub open spec fn satisfiable(start: u64, end: u64, len: u64) -> bool {
    start < len && end < len && start <= end
}

/// The last byte actually sent of `start..=end`: no more than [`MAX_LEN`] bytes are.
pub open spec fn clamped_end(start: u64, end: u64, len: u64) -> u64 {
    let span = end - start;
    let room = len - start;
    let a = if span < room { span } else { room };
    let b = if a < MAX_LEN - 1 { a } else { MAX_LEN - 1 };
    (start + b) as u64
}

/// What a `Range` request gets.
#[derive(Clone, Debug, PartialEq, Eq)]
pub enum RangePlan {
    /// `416 Range Not Satisfiable`.
    NotSatisfiable,
    /// `206 Partial Content` with bytes `start..=end`.
    Single { start: u64, end: u64 },
    /// A multipart answer with these parts, each `start..=end`.
    Multi(Vec<(u64, u64)>),
}

/// The satisfiable ranges (as first and last byte) among `ranges` (first byte and length), each
/// cut to at most [`MAX_LEN`] bytes, in order.
pub open spec fn multi_parts(ranges: Seq<(u64, u64)>, len: u64) -> Seq<(u64, u64)>
    decreases ranges.len(),
{
    if ranges.len() == 0 {
        Seq::empty()
    } else {
        let rest = multi_parts(ranges.drop_last(), len);
        let (start, length) = ranges.last();
        let end = last_byte(start, length);
        if satisfiable(start, end, len) {
            rest.push((start, clamped_end(start, end, len)))
        } else {
            rest
        }
    }
}

/// What the ranges a header names (first byte and length; `None`: the header is malformed or
/// overlaps nothing) get from a file of `len` bytes: one range is sent alone when it lies in the
/// file and is refused otherwise; any other number of ranges makes a multipart answer of those
/// that lie in the file.
pub open spec fn range_plan(ranges: Option<Seq<(u64, u64)>>, len: u64) -> Option<Seq<(u64, u64)>> {
    match ranges {
        None => None,
        Some(rs) => if rs.len() == 1 {
            let (start, length) = rs[0];
            let end = last_byte(start, length);
            if satisfiable(start, end, len) {
                Some(seq![(start, clamped_end(start, end, len))])
            } else {
                None
            }
        } else {
            Some(multi_parts(rs, len))
        },
    }
}

/// Every part of a multipart answer lies in the file and holds at most [`MAX_LEN`] bytes.
pub proof fn lemma_multi_parts_within(ranges: Seq<(u64, u64)>, len: u64)
    ensures
        forall|i: int| 0 <= i < multi_parts(ranges, len).len() ==> {
            let p = #[trigger] multi_parts(ranges, len)[i];
            p.0 <= p.1 < len && p.1 - p.0 < MAX_LEN
        },
    decreases ranges.len(),
{
    if ranges.len() > 0 {
        lemma_multi_parts_within(ranges.drop_last(), len);
        let rest = multi_parts(ranges.drop_last(), len);
        let (start, length) = ranges.last();
        let end = last_byte(start, length);
        if satisfiable(start, end, len) {
            let c = clamped_end(start, end, len);
            assert(start <= c < len && c - start < MAX_LEN);
            assert forall|i: int| 0 <= i < multi_parts(ranges, len).len() implies {
                let p = #[trigger] multi_parts(ranges, len)[i];
                p.0 <= p.1 < len && p.1 - p.0 < MAX_LEN
            } by {
                if i < rest.len() {
                    assert(multi_parts(ranges, len)[i] == rest[i]);
                }
            }
        }
    }
}

/// Whatever a `Range` header asks, every range sent lies in the file and holds at most
/// [`MAX_LEN`] bytes.
pub proof fn lemma_ranges_sent_within_file(ranges: Option<Seq<(u64, u64)>>, len: u64)
    ensures
        range_plan(ranges, len) matches Some(parts) ==> forall|i: int| 0 <= i < parts.len() ==> {
            let p = #[trigger] parts[i];
            p.0 <= p.1 < len && p.1 - p.0 < MAX_LEN
        },
{
    match ranges {
        Some(rs) => {
            if rs.len() != 1 {
                lemma_multi_parts_within(rs, len);
            }
        },
        None => {},
    }
}

/// The first byte, last byte and clamped last byte of a range, when it lies in the file.
fn checked_range(start: u64, length: u64, len: u64) -> (r: Option<(u64, u64)>)
    ensures
        satisfiable(start, last_byte(start, length), len) ==> r == Some((start, clamped_end(start, last_byte(start, length), len))),
        !satisfiable(start, last_byte(start, length), len) ==> r is None,
{
    if length == 0 {
        return None;
    }
    let l1 = length - 1;
    if start > u64::MAX - l1 {
        return None;
    }
    let end = start + l1;
    if start >= len || end >= len {
        return None;
    }
    let span = end - start;
    let room = len - start;
    let a = if span < room { span } else { room };
    let b = if a < MAX_LEN - 1 { a } else { MAX_LEN - 1 };
    Some((start, start + b))
}

/// Plans the answer to the ranges a header names in a file of `len` bytes.
pub fn plan_ranges(ranges: Option<&Vec<(u64, u64)>>, len: u64) -> (r: RangePlan)
    ensures
        ({
            let plan = range_plan(match ranges {
                Some(v) => Some(v@),
                None => None,
            }, len);
            match ranges {
                Some(v) => if v@.len() == 1 {
                    match plan {
                        Some(p) => r == RangePlan::Single { start: p[0].0, end: p[0].1 },
                        None => r == RangePlan::NotSatisfiable,
                    }
                } else {
                    r matches RangePlan::Multi(parts) && Some(parts@) == plan
                },
                None => r == RangePlan::NotSatisfiable,
            }
        }),
{
    match ranges {
        None => RangePlan::NotSatisfiable,
        Some(rs) => {
            if rs.len() == 1 {
                match checked_range(rs[0].0, rs[0].1, len) {
                    Some((start, end)) => RangePlan::Single { start, end },
                    None => RangePlan::NotSatisfiable,
                }
            } else {
                let mut parts: Vec<(u64, u64)> = Vec::new();
                let mut i: usize = 0;
                while i < rs.len()
                    invariant
                        i <= rs@.len(),
                        parts@ == multi_parts(rs@.take(i as int), len),
                    decreases rs@.len() - i,
                {
                    assert(rs@.take(i + 1).drop_last() =~= rs@.take(i as int));
                    assert(rs@.take(i + 1).last() == rs@[i as int]);
                    match checked_range(rs[i].0, rs[i].1, len) {
                        Some(p) => parts.push(p),
                        None => {},
                    }
                    i += 1;
                }
                assert(rs@.take(i as int) =~= rs@);
                RangePlan::Multi(parts)
            }
        },
    }
}

/// Plans the answer to a `Range` header for a file of `len` bytes.
pub fn plan_range_request(header: &str, len: u64) -> (r: RangePlan)
    ensures
        ({
            let plan = range_plan(parsed_ranges(header@, len), len);
            match parsed_ranges(header@, len) {
                Some(rs) => if rs.len() == 1 {
                    match plan {
                        Some(p) => r == RangePlan::Single { start: p[0].0, end: p[0].1 },
                        None => r == RangePlan::NotSatisfiable,
                    }
                } else {
                    r matches RangePlan::Multi(parts) && Some(parts@) == plan
                },
                None => r == RangePlan::NotSatisfiable,
            }
        }),
{
    let ranges = parse_range_header(header, len);
    match &ranges {
        Some(v) => plan_ranges(Some(v), len),
        None => plan_ranges(None, len),
    }
}

/// `bytes <start>-<end>/<len>`: the `Content-Range` of a part.
pub open spec fn content_range_text(start: u64, end: u64, len: u64) -> Seq<char> {
    concat_all(seq!["bytes "@, decimal(start as nat), "-"@, decimal(end as nat), "/"@, decimal(len as nat)])
}

/// The `Content-Range` of a part: `bytes <start>-<end>/<len>`.
pub fn content_range(start: u64, end: u64, len: u64) -> (r: String)
    ensures
        r@ == content_range_text(start, end, len),
{
    let s = u64_to_decimal(start);
    let e = u64_to_decimal(end);
    let l = u64_to_decimal(len);
    let pieces: Vec<&str> = vec!["bytes ", s.as_str(), "-", e.as_str(), "/", l.as_str()];
    let r = join_pieces(&pieces);
    assert(pieces@.map_values(|p: &str| p@) =~= seq!["bytes "@, s@, "-"@, e@, "/"@, l@]);
    r
}

/// The `Content-Range` of a refused request: `bytes */<len>`.
pub fn unsatisfied_content_range(len: u64) -> (r: String)
    ensures
        r@ == "bytes */"@ + decimal(len as nat),
{
    let l = u64_to_decimal(len);
    crate::text::concat("bytes */", l.as_str())
}

/// The text before the bytes of a part of a multipart answer.
pub open spec fn part_header_text(boundary: Seq<char>, mime_type: Seq<char>, start: u64, end: u64, len: u64) -> Seq<char> {
    concat_all(seq![
        "\r\n--"@,
        boundary,
        "\r\n"@,
        "content-type: "@,
        mime_type,
        "\r\n"@,
        "content-range: "@,
        content_range_text(start, end, len),
        "\r\n"@,
        "\r\n"@,
    ])
}

/// The text before the bytes of a part of a multipart answer: the boundary, then the part's
/// `Content-Type` and `Content-Range` headers.
pub fn part_header(boundary: &str, mime_type: &str, start: u64, end: u64, len: u64) -> (r: String)
    ensures
        r@ == part_header_text(boundary@, mime_type@, start, end, len),
{
    let range = content_range(start, end, len);
    let pieces: Vec<&str> = vec!["\r\n--", boundary, "\r\n", "content-type: ", mime_type, "\r\n", "content-range: ", range.as_str(), "\r\n", "\r\n"];
    let r = join_pieces(&pieces);
    assert(pieces@.map_values(|p: &str| p@) =~= seq![
        "\r\n--"@,
        boundary@,
        "\r\n"@,
        "content-type: "@,
        mime_type@,
        "\r\n"@,
        "content-range: "@,
        range@,
        "\r\n"@,
        "\r\n"@,
    ]);
    r
}

/// The text after the last part of a multipart answer.
pub fn closing_boundary(boundary: &str) -> (r: String)
    ensures
        r@ == concat_all(seq!["\r\n--"@, boundary@, "\r\n"@]),
{
    let pieces: Vec<&str> = vec!["\r\n--", boundary, "\r\n"];
    let r = join_pieces(&pieces);
    assert(pieces@.map_values(|p: &str| p@) =~= seq!["\r\n--"@, boundary@, "\r\n"@]);
    r
}

/// A lower-case hexadecimal digit.
pub open spec fn hex_digit(d: nat) -> char {
    if d < 10 {
        ((d + 48) as u8) as char
    } else {
        ((d + 87) as u8) as char
    }
}

/// A byte in lower-case hexadecimal, without leading zero (`{:x}`).
pub open spec fn hex_byte(b: u8) -> Seq<char> {
    if b < 16 {
        seq![hex_digit(b as nat)]
    } else {
        seq![hex_digit((b / 16) as nat), hex_digit((b % 16) as nat)]
    }
}

/// The bytes in hexadecimal, one after the other.
pub open spec fn hex_text(bytes: Seq<u8>) -> Seq<char>
    decreases bytes.len(),
{
    if bytes.len() == 0 {
        Seq::empty()
    } else {
        hex_text(bytes.drop_last()) + hex_byte(bytes.last())
    }
}

/// A lower-case hexadecimal digit.
fn hex_char(d: u8) -> (r: char)
    requires
        d < 16,
    ensures
        r == hex_digit(d as nat),
{
    if d < 10 {
        (d + 48) as char
    } else {
        (d + 87) as char
    }
}

/// The bytes in hexadecimal, each without leading zero, one after the other.
pub fn boundary_of(bytes: &[u8]) -> (r: String)
    ensures
        r@ == hex_text(bytes@),
{
    let mut out = String::new();
    let mut i: usize = 0;
    while i < bytes.len()
        invariant
            i <= bytes@.len(),
            out@ == hex_text(bytes@.take(i as int)),
        decreases bytes@.len() - i,
    {
        let b = bytes[i];
        let ghost before = out@;
        if b < 16 {
            crate::text::push_char(&mut out, hex_char(b));
        } else {
            crate::text::push_char(&mut out, hex_char(b / 16));
            crate::text::push_char(&mut out, hex_char(b % 16));
        }
        assert(bytes@.take(i + 1).drop_last() =~= bytes@.take(i as int));
        assert(out@ =~= before + hex_byte(b));
        i += 1;
    }
    assert(bytes@.take(i as int) =~= bytes@);
    out
}

/// A random multipart boundary: thirty random bytes in hexadecimal; `None` when the operating
/// system gives no random bytes.
pub fn random_boundary() -> (r: Option<String>)
    ensures
        r matches Some(b) ==> exists|bytes: Seq<u8>| bytes.len() == 30 && b@ == hex_text(bytes),
{
    match crate::random::random_bytes(30) {
        Ok(bytes) => Some(boundary_of(bytes.as_slice())),
        Err(_) => None,
    }
}

/// `percent_encoding::percent_decode` of a text's UTF-8 bytes, read back as text with
/// `decode_utf8_lossy`: each `%` and two hexadecimal digits becomes the byte they name.
pub uninterp spec fn percent_decoded(s: Seq<char>) -> Seq<char>;

/// `percent_encoding::percent_decode(..).decode_utf8_lossy()` on the bytes of `s`; a text with no
/// `%` decodes to itself.
#[verifier::external_body]
fn percent_decode_text(s: &str) -> (r: String)
    ensures
        r@ == percent_decoded(s@),
        !crate::text::has_char(s@, '%') ==> r@ == s@,
{
    percent_encoding::percent_decode(s.as_bytes()).decode_utf8_lossy().into_owned()
}

/// Decodes the `%XX` escapes of a text (read back as UTF-8, invalid sequences replaced).
pub fn percent_decode(s: &str) -> (r: String)
    ensures
        r@ == percent_decoded(s@),
        !crate::text::has_char(s@, '%') ==> r@ == s@,
{
    percent_decode_text(s)
}

/// The asset a request path names: the path without one trailing `/`, percent-decoded, without
/// its first character (the leading `/`); `index.html` for the root.
pub open spec fn asset_name(path: Seq<char>) -> Seq<char> {
    let trimmed = if path.len() > 0 && path.last() == '/' { path.drop_last() } else { path };
    let decoded = percent_decoded(trimmed);
    if decoded.len() == 0 {
        "index.html"@
    } else {
        decoded.subrange(1, decoded.len() as int)
    }
}

/// The asset keys tried for a name, in order: the name, the name with `.html`, the name's
/// `index.html`, and the app's `index.html`.
pub open spec fn asset_candidates_of(name: Seq<char>) -> Seq<Seq<char>> {
    seq![name, name + ".html"@, name + "/index.html"@, "index.html"@]
}

/// The asset keys tried for a request path, in order: the asset it names, that name with
/// `.html`, the name's `index.html`, and the app's `index.html`.
pub fn asset_candidates(path: &str) -> (r: Vec<String>)
    ensures
        r@.map_values(|s: String| s@) == asset_candidates_of(asset_name(path@)),
{
    let chars = crate::text::chars_of(path);
    let trimmed = if chars.len() > 0 && chars[chars.len() - 1] == '/' {
        crate::text::substring(path, 0, chars.len() - 1)
    } else {
        String::from_str(path)
    };
    assert(trimmed@ == (if path@.len() > 0 && path@.last() == '/' { path@.drop_last() } else { path@ }));
    let decoded = percent_decode(trimmed.as_str());
    let n = crate::text::chars_of(decoded.as_str()).len();
    let name = if n == 0 {
        String::from_str("index.html")
    } else {
        crate::text::substring(decoded.as_str(), 1, n)
    };
    let with_html = crate::text::concat(name.as_str(), ".html");
    let with_index = crate::text::concat(name.as_str(), "/index.html");
    let r = vec![name, with_html, with_index, String::from_str("index.html")];
    assert(r@.map_values(|s: String| s@) =~= asset_candidates_of(asset_name(path@)));
    r
}

/// Whether an asset key names an HTML file (ends with `.html`).
pub fn is_html(key: &str) -> (r: bool)
    ensures
        r == crate::text::has_suffix(key@, ".html"@),
{
    crate::text::ends_with(key, ".html")
}


/// Whether looking `key` up in the assets can give `found`.
pub open spec fn lookup_gives<F: Fn(&str) -> Option<Vec<u8>>>(lookup: F, key: Seq<char>, found: Option<Vec<u8>>) -> bool {
    exists|s: &str| s@ == key && #[trigger] call_ensures(lookup, (s,), found)
}

/// The asset a request path loads: the first of its candidate keys (see [`asset_candidates`])
/// that `lookup` finds, with its bytes; `None` when it finds none of them.
pub fn find_asset<F: Fn(&str) -> Option<Vec<u8>>>(path: &str, lookup: &F) -> (r: Option<(String, Vec<u8>)>)
    requires
        forall|k: &str| call_requires(*lookup, (k,)),
    ensures
        r matches Some(found) ==> exists|i: int| {
            &&& 0 <= i < 4
            &&& found.0@ == #[trigger] asset_candidates_of(asset_name(path@))[i]
            &&& lookup_gives(*lookup, found.0@, Some(found.1))
            &&& forall|j: int| 0 <= j < i ==> lookup_gives(*lookup, #[trigger] asset_candidates_of(asset_name(path@))[j], None)
        },
        r is None ==> forall|j: int| 0 <= j < 4 ==> lookup_gives(*lookup, #[trigger] asset_candidates_of(asset_name(path@))[j], None),
{
    let candidates = asset_candidates(path);
    let ghost cands = asset_candidates_of(asset_name(path@));
    assert(candidates@.len() == 4) by {
        assert(candidates@.map_values(|s: String| s@).len() == cands.len());
    }
    let mut i: usize = 0;
    while i < candidates.len()
        invariant
            i <= candidates@.len(),
            candidates@.len() == 4,
            candidates@.map_values(|s: String| s@) == cands,
            cands == asset_candidates_of(asset_name(path@)),
            forall|k: &str| call_requires(*lookup, (k,)),
            forall|j: int| 0 <= j < i ==> lookup_gives(*lookup, #[trigger] cands[j], None),
        decreases candidates@.len() - i,
    {
        let key = candidates[i].as_str();
        assert(key@ == cands[i as int]);
        let found = lookup(key);
        match found {
            Some(bytes) => {
                assert(lookup_gives(*lookup, cands[i as int], Some(bytes)));
                return Some((String::from_str(key), bytes));
            },
            None => {
                assert(lookup_gives(*lookup, cands[i as int], None));
            },
        }
        i += 1;
    }
    None
}

} // verus!
