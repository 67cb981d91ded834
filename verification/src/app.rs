//! What the app reports of itself to the frontend, and the assets it serves.

use vstd::prelude::*;

use crate::error::Error;
use crate::image::Image;
use crate::resources::{ResourceId, ResourceTable};

verus! {

/// The version of this framework.
pub const VERSION: &'static str = "0.1.0";

/// The package name and version of the app.
pub struct PackageInfo {
    /// The package name.
    pub name: String,
    /// The package version.
    pub version: String,
}

/// The version of the app.
pub fn version(info: &PackageInfo) -> (r: String)
    ensures
        r@ == info.version@,
{
    info.version.clone()
}

/// The name of the app.
pub fn name(info: &PackageInfo) -> (r: String)
    ensures
        r@ == info.name@,
{
    info.name.clone()
}

/// The version of this framework.
pub fn tauri_version() -> (r: &'static str)
    ensures
        r@ == VERSION@,
{
    VERSION
}

/// The app's identifier, from its configuration.
pub fn identifier(configured: &str) -> (r: String)
    ensures
        r@ == configured@,
{
    String::from_str(configured)
}

/// Stores a copy of the default window icon, if the app has one, in a webview's resource table,
/// and returns its id.
pub fn default_window_icon(icon: Option<&Image>, resources_table: &mut ResourceTable<Image>) -> (r: Option<ResourceId>)
    requires
        old(resources_table)@.len() < 0x1_0000_0000,
    ensures
        icon is None ==> r is None && final(resources_table)@ == old(resources_table)@,
        icon matches Some(i) ==> r matches Some(rid) && !old(resources_table)@.contains_key(rid)
            && final(resources_table)@.dom() == old(resources_table)@.dom().insert(rid)
            && final(resources_table)@[rid].pixels() == i.pixels()
            && final(resources_table)@[rid].image_width() == i.image_width()
            && final(resources_table)@[rid].image_height() == i.image_height()
            && forall|k: ResourceId| k != rid && old(resources_table)@.contains_key(k) ==> final(resources_table)@[k] == old(resources_table)@[k],
{
    match icon {
        None => None,
        Some(i) => {
            let copy = Image::new(i.rgba(), i.width(), i.height());
            let rid = resources_table.add(copy.to_owned());
            Some(rid)
        },
    }
}

/// A resolved asset.
pub struct Asset {
    /// The bytes.
    pub bytes: Vec<u8>,
    /// The MIME type.
    pub mime_type: String,
    /// The `Content-Security-Policy` header value.
    pub csp_header: Option<String>,
}

impl Asset {
    /// The bytes.
    pub fn bytes(&self) -> (r: &[u8])
        ensures
            r@ == self.bytes@,
    {
        self.bytes.as_slice()
    }

    /// The MIME type.
    pub fn mime_type(&self) -> (r: &str)
        ensures
            r@ == self.mime_type@,
    {
        self.mime_type.as_str()
    }

    /// The `Content-Security-Policy` header value.
    pub fn csp_header(&self) -> (r: Option<&str>)
        ensures
            match self.csp_header {
                Some(h) => r matches Some(v) && v@ == h@,
                None => r is None,
            },
    {
        match &self.csp_header {
            Some(h) => Some(h.as_str()),
            None => None,
        }
    }
}

/// A borrowed piece of state that the app manages.
pub struct State<'r, T> {
    value: &'r T,
}

impl<'r, T> State<'r, T> {
    /// A guard for `value`.
    pub fn new(value: &'r T) -> (r: Self)
        ensures
            *r.value() == *value,
    {
        State { value }
    }

    /// The guarded value.
    pub closed spec fn value(&self) -> &'r T {
        self.value
    }

    /// The value, borrowed for as long as the state is.
    pub fn inner(&self) -> (r: &'r T)
        ensures
            *r == *self.value(),
    {
        self.value
    }
}


/// The lowercase hexadecimal digit of `n` (below sixteen).
pub open spec fn lower_hex_digit(n: u8) -> char {
    if n < 10 {
        ('0' as int + n) as char
    } else {
        ('a' as int + n - 10) as char
    }
}

/// Whether `c` is a lowercase hexadecimal digit.
pub open spec fn is_lower_hex(c: char) -> bool {
    ('0' <= c && c <= '9') || ('a' <= c && c <= 'f')
}

/// Each byte as two lowercase hexadecimal digits, high nibble first.
pub open spec fn hex_pairs(b: Seq<u8>) -> Seq<char>
    decreases b.len(),
{
    if b.len() == 0 {
        Seq::empty()
    } else {
        hex_pairs(b.drop_last()) + seq![lower_hex_digit(b.last() / 16), lower_hex_digit(b.last() % 16)]
    }
}

/// The bytes of a random (version 4, RFC 4122 variant) UUID made of `b`: the high nibble of
/// byte 6 set to 4, the two high bits of byte 8 to `10`.
pub open spec fn uuid_v4_bytes(b: Seq<u8>) -> Seq<u8> {
    b.update(6, ((b[6] & 0x0f) | 0x40) as u8).update(8, ((b[8] & 0x3f) | 0x80) as u8)
}

/// The hyphenated text of sixteen UUID bytes: groups of 4, 2, 2, 2 and 6 bytes in lowercase
/// hexadecimal, joined by `-`.
pub open spec fn hyphenated(b: Seq<u8>) -> Seq<char> {
    hex_pairs(b.subrange(0, 4)) + seq!['-'] + hex_pairs(b.subrange(4, 6)) + seq!['-']
        + hex_pairs(b.subrange(6, 8)) + seq!['-'] + hex_pairs(b.subrange(8, 10)) + seq!['-']
        + hex_pairs(b.subrange(10, 16))
}

/// The text of the random UUID made of sixteen random bytes.
pub open spec fn uuid_text(random: Seq<u8>) -> Seq<char> {
    hyphenated(uuid_v4_bytes(random))
}

/// The shape of a random UUID's text: 36 characters, `-` at 8, 13, 18 and 23, the version digit
/// `4` at 14, one of `8`, `9`, `a`, `b` at 19, and lowercase hexadecimal digits elsewhere.
pub open spec fn is_v4_uuid_text(t: Seq<char>) -> bool {
    &&& t.len() == 36
    &&& t[8] == '-' && t[13] == '-' && t[18] == '-' && t[23] == '-'
    &&& t[14] == '4'
    &&& (t[19] == '8' || t[19] == '9' || t[19] == 'a' || t[19] == 'b')
    &&& forall|i: int| 0 <= i < 36 && i != 8 && i != 13 && i != 18 && i != 23 ==> is_lower_hex(#[trigger] t[i])
}

/// The length of the hexadecimal text of bytes, and what stands at each place.
proof fn lemma_hex_pairs(b: Seq<u8>)
    ensures
        hex_pairs(b).len() == 2 * b.len(),
        forall|k: int| 0 <= k < b.len() ==> hex_pairs(b)[2 * k] == lower_hex_digit(#[trigger] b[k] / 16)
            && hex_pairs(b)[2 * k + 1] == lower_hex_digit(b[k] % 16),
    decreases b.len(),
{
    if b.len() > 0 {
        lemma_hex_pairs(b.drop_last());
        assert forall|k: int| 0 <= k < b.len() implies hex_pairs(b)[2 * k] == lower_hex_digit(#[trigger] b[k] / 16)
            && hex_pairs(b)[2 * k + 1] == lower_hex_digit(b[k] % 16) by {
            if k < b.len() - 1 {
                assert(b.drop_last()[k] == b[k]);
            }
        }
    }
}

/// Every character of the hexadecimal text of bytes is a lowercase hexadecimal digit.
proof fn lemma_hex_pairs_digits(b: Seq<u8>)
    ensures
        forall|j: int| 0 <= j < hex_pairs(b).len() ==> is_lower_hex(#[trigger] hex_pairs(b)[j]),
{
    lemma_hex_pairs(b);
    assert forall|j: int| 0 <= j < hex_pairs(b).len() implies is_lower_hex(#[trigger] hex_pairs(b)[j]) by {
        let k = j / 2;
        assert(0 <= k < b.len());
        assert(b[k] / 16 < 16 && b[k] % 16 < 16);
        if j % 2 == 0 {
            assert(j == 2 * k);
        } else {
            assert(j == 2 * k + 1);
        }
    }
}

/// The text of a random UUID has the shape of one.
pub proof fn lemma_uuid_text_shape(random: Seq<u8>)
    requires
        random.len() == 16,
    ensures
        is_v4_uuid_text(uuid_text(random)),
{
    let b = uuid_v4_bytes(random);
    let t = uuid_text(random);
    let g1 = b.subrange(0, 4);
    let g2 = b.subrange(4, 6);
    let g3 = b.subrange(6, 8);
    let g4 = b.subrange(8, 10);
    let g5 = b.subrange(10, 16);
    lemma_hex_pairs(g1);
    lemma_hex_pairs(g2);
    lemma_hex_pairs(g3);
    lemma_hex_pairs(g4);
    lemma_hex_pairs(g5);
    lemma_hex_pairs_digits(g1);
    lemma_hex_pairs_digits(g2);
    lemma_hex_pairs_digits(g3);
    lemma_hex_pairs_digits(g4);
    lemma_hex_pairs_digits(g5);
    let x6 = random[6];
    let x8 = random[8];
    assert(((x6 & 0x0f) | 0x40) as u8 / 16 == 4) by (bit_vector);
    assert(8 <= ((x8 & 0x3f) | 0x80) as u8 / 16 <= 11) by (bit_vector);
    assert(g3[0] == ((x6 & 0x0f) | 0x40) as u8);
    assert(g4[0] == ((x8 & 0x3f) | 0x80) as u8);
    assert(t[14] == hex_pairs(g3)[0]);
    assert(t[19] == hex_pairs(g4)[0]);
    assert(hex_pairs(g3)[0] == lower_hex_digit(g3[0] / 16));
    assert(hex_pairs(g4)[0] == lower_hex_digit(g4[0] / 16));
    assert forall|i: int| 0 <= i < 36 && i != 8 && i != 13 && i != 18 && i != 23 implies is_lower_hex(#[trigger] t[i]) by {
        if i < 8 {
            assert(t[i] == hex_pairs(g1)[i]);
        } else if i < 13 {
            assert(t[i] == hex_pairs(g2)[i - 9]);
        } else if i < 18 {
            assert(t[i] == hex_pairs(g3)[i - 14]);
        } else if i < 23 {
            assert(t[i] == hex_pairs(g4)[i - 19]);
        } else {
            assert(t[i] == hex_pairs(g5)[i - 24]);
        }
    }
}

/// `uuid::Builder::from_random_bytes(bytes).into_uuid().to_string()`. What is claimed of it: the
/// text is the hyphenated lowercase hexadecimal of the bytes with the version (4) and variant
/// (RFC 4122) bits set, as `uuid`'s builder and formatter write them.
#[verifier::external_body]
fn uuid_from_random_bytes(bytes: &[u8]) -> (r: String)
    requires
        bytes@.len() == 16,
    ensures
        r@ == uuid_text(bytes@),
{
    let mut raw = [0u8; 16];
    raw.copy_from_slice(bytes);
    uuid::Builder::from_random_bytes(raw).into_uuid().to_string()
}

/// The isolation key made of sixteen random bytes: the random UUID they make, hyphenated.
pub fn isolation_key_of(bytes: &[u8]) -> (r: String)
    requires
        bytes@.len() == 16,
    ensures
        r@ == uuid_text(bytes@),
        is_v4_uuid_text(r@),
{
    let r = uuid_from_random_bytes(bytes);
    proof {
        lemma_uuid_text_shape(bytes@);
    }
    r
}

/// A fresh random key for the isolation frames: a random version-4 UUID, hyphenated;
/// [`Error::Random`] when the operating system gives no random bytes.
pub fn generate_isolation_key() -> (r: Result<String, Error>)
    ensures
        r matches Ok(k) ==> is_v4_uuid_text(k@) && exists|bytes: Seq<u8>| bytes.len() == 16 && #[trigger] uuid_text(bytes) == k@,
        r matches Err(e) ==> e is Random,
{
    match crate::random::random_bytes(16) {
        Ok(bytes) => {
            let key = isolation_key_of(bytes.as_slice());
            assert(uuid_text(bytes@) == key@);
            Ok(key)
        },
        Err(message) => Err(Error::Random(message)),
    }
}

} // verus!
