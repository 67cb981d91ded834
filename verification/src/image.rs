//! RGBA images, and the directory of an icon resource.

use vstd::prelude::*;

use crate::error::Error;
use crate::resources::{Resource, ResourceId, ResourceTable};
use std::sync::Arc;

verus! {

/// Identifies an icon resource embedded in an executable.
#[derive(Clone, Debug, PartialEq, Eq)]
pub enum IconResource {
    /// An integer resource identifier.
    Id(u16),
    /// A resource name.
    Name(String),
}

impl IconResource {
    /// The resource with the integer identifier `id`.
    pub fn from_id(id: u16) -> (r: Self)
        ensures
            r == IconResource::Id(id),
    {
        IconResource::Id(id)
    }

    /// The resource named `name`.
    pub fn from_name(name: &str) -> (r: Self)
        ensures
            r matches IconResource::Name(n) && n@ == name@,
    {
        IconResource::Name(String::from_str(name))
    }
}

/// An RGBA image, in row-major order from top to bottom.
#[derive(Clone, Debug, PartialEq, Eq)]
pub struct Image {
    rgba: Vec<u8>,
    width: u32,
    height: u32,
}

impl Resource for Image {
    fn name(&self) -> (r: String)
        ensures
            r@ == "image"@,
    {
        String::from_str("image")
    }
}

/// The bytes that describe one image of an icon directory.
pub const ENTRY_LEN: usize = 14;

/// The bytes before the first entry of an icon directory.
pub const HEADER_LEN: usize = 6;

/// An entry's width or height: a stored 0 means 256.
pub open spec fn dimension(b: u8) -> u32 {
    if b == 0 {
        256
    } else {
        b as u32
    }
}

/// The number of complete entries that follow the header.
pub open spec fn complete_entries(directory: Seq<u8>) -> int {
    (directory.len() - HEADER_LEN) / (ENTRY_LEN as int)
}

/// The number of entries an icon directory lists: its `idCount`, a little-endian `u16` at offset
/// 4, but no more than the complete entries present.
pub open spec fn listed_entries(directory: Seq<u8>) -> int {
    let count = directory[4] as int + 256 * (directory[5] as int);
    if count < complete_entries(directory) {
        count
    } else {
        complete_entries(directory)
    }
}

/// The width and height of entry `i`.
pub open spec fn entry_size(directory: Seq<u8>, i: int) -> (u32, u32) {
    (dimension(directory[HEADER_LEN + ENTRY_LEN * i]), dimension(directory[HEADER_LEN + ENTRY_LEN * i + 1]))
}

/// The area of a size.
pub open spec fn area(size: (u32, u32)) -> int {
    size.0 * size.1
}

/// The largest of the first `n` entries by area; of equal areas, the later entry.
pub open spec fn largest_of(directory: Seq<u8>, n: int) -> Option<(u32, u32)>
    decreases n,
{
    if n <= 0 {
        None
    } else {
        let cur = entry_size(directory, n - 1);
        match largest_of(directory, n - 1) {
            None => Some(cur),
            Some(best) => if area(cur) >= area(best) {
                Some(cur)
            } else {
                Some(best)
            },
        }
    }
}

/// The size of the largest image listed in an icon directory (`GRPICONDIR`): `None` when the
/// directory is shorter than its header or lists no complete entry.
pub open spec fn largest_entry(directory: Seq<u8>) -> Option<(u32, u32)> {
    if directory.len() < HEADER_LEN {
        None
    } else {
        largest_of(directory, listed_entries(directory))
    }
}

/// Whether every pixel of a BGRA buffer has alpha 0, as an icon's color bitmap without an alpha
/// channel reads back.
pub open spec fn alpha_all_zero(bgra: Seq<u8>) -> bool {
    forall|k: int| 0 <= k < bgra.len() / 4 ==> #[trigger] bgra[4 * k + 3] == 0
}

/// Whether every pixel of a BGRA buffer (whole pixels of four bytes) has alpha 0: then the icon's
/// mask bitmap must give its alpha.
pub fn alpha_missing(bgra: &[u8]) -> (r: bool)
    requires
        bgra@.len() % 4 == 0,
    ensures
        r == alpha_all_zero(bgra@),
{
    let n = bgra.len() / 4;
    let mut k: usize = 0;
    while k < n
        invariant
            n == bgra@.len() / 4,
            bgra@.len() % 4 == 0,
            bgra@.len() <= usize::MAX,
            k <= n,
            forall|j: int| 0 <= j < k ==> #[trigger] bgra@[4 * j + 3] == 0,
        decreases n - k,
    {
        assert(4 * k + 3 < bgra@.len()) by (nonlinear_arith)
            requires
                k < n,
                n == bgra@.len() / 4,
                bgra@.len() % 4 == 0,
        ;
        if bgra[4 * k + 3] != 0 {
            return false;
        }
        k += 1;
    }
    true
}

/// The RGBA pixel `k` of an icon read as BGRA: red and blue swapped; the alpha, when the mask is
/// given, opaque where the mask's pixel is black (its first byte 0) and transparent elsewhere.
pub open spec fn icon_pixel(bgra: Seq<u8>, mask: Option<Seq<u8>>, k: int) -> Seq<u8> {
    let alpha = match mask {
        Some(m) => if m[4 * k] == 0 { 0xFFu8 } else { 0u8 },
        None => bgra[4 * k + 3],
    };
    seq![bgra[4 * k + 2], bgra[4 * k + 1], bgra[4 * k], alpha]
}

/// The RGBA data of an icon read as BGRA, given the mask bitmap (same size, read as BGRA) when
/// the color bitmap has no alpha channel (see [`alpha_missing`]): each pixel has red and blue
/// swapped, and takes its alpha from the mask when one is given.
pub fn icon_rgba(bgra: Vec<u8>, mask: Option<&[u8]>) -> (r: Vec<u8>)
    requires
        bgra@.len() % 4 == 0,
        mask matches Some(m) ==> m@.len() == bgra@.len(),
    ensures
        r@.len() == bgra@.len(),
        forall|k: int| 0 <= k < bgra@.len() / 4 ==> #[trigger] r@.subrange(4 * k, 4 * k + 4) == icon_pixel(bgra@, match mask {
            Some(m) => Some(m@),
            None => None,
        }, k),
{
    let ghost m = match mask {
        Some(m) => Some(m@),
        None => None::<Seq<u8>>,
    };
    let ghost original = bgra@;
    let mut px = bgra;
    let n = px.len() / 4;
    let mut k: usize = 0;
    while k < n
        invariant
            n == original.len() / 4,
            original.len() % 4 == 0,
            px@.len() == original.len(),
            px@.len() <= usize::MAX,
            k <= n,
            m == match mask { Some(x) => Some(x@), None => None::<Seq<u8>> },
            mask matches Some(x) ==> x@.len() == original.len(),
            forall|j: int| 0 <= j < k ==> #[trigger] px@.subrange(4 * j, 4 * j + 4) == icon_pixel(original, m, j),
            forall|i: int| 4 * k <= i < px@.len() ==> px@[i] == original[i],
        decreases n - k,
    {
        assert(4 * k + 3 < px@.len()) by (nonlinear_arith)
            requires
                k < n,
                n == original.len() / 4,
                original.len() % 4 == 0,
                px@.len() == original.len(),
        ;
        let b = px[4 * k];
        let r = px[4 * k + 2];
        let alpha = match mask {
            Some(x) => if x[4 * k] == 0 { 0xFFu8 } else { 0u8 },
            None => px[4 * k + 3],
        };
        let ghost before = px@;
        px.set(4 * k, r);
        px.set(4 * k + 2, b);
        px.set(4 * k + 3, alpha);
        assert(px@.subrange(4 * k as int, 4 * k + 4) =~= icon_pixel(original, m, k as int));
        assert forall|j: int| 0 <= j < k implies #[trigger] px@.subrange(4 * j, 4 * j + 4) == icon_pixel(original, m, j) by {
            assert(px@.subrange(4 * j, 4 * j + 4) =~= before.subrange(4 * j, 4 * j + 4));
        }
        k += 1;
    }
    px
}

/// The size of the largest image listed in an icon directory; of equal areas, the later entry.
pub fn largest_group_icon_entry(directory: &[u8]) -> (r: Option<(u32, u32)>)
    ensures
        r == largest_entry(directory@),
{
    if directory.len() < HEADER_LEN {
        return None;
    }
    let count: usize = directory[4] as usize + 256 * (directory[5] as usize);
    let complete: usize = (directory.len() - HEADER_LEN) / ENTRY_LEN;
    let n: usize = if count < complete { count } else { complete };
    let mut best: Option<(u32, u32)> = None;
    let mut i: usize = 0;
    while i < n
        invariant
            n == listed_entries(directory@),
            n <= complete_entries(directory@),
            directory@.len() >= HEADER_LEN,
            i <= n,
            best == largest_of(directory@, i as int),
            best matches Some(b) ==> b.0 <= 256 && b.1 <= 256,
        decreases n - i,
    {
        assert(HEADER_LEN + ENTRY_LEN * i + 1 < directory@.len()) by (nonlinear_arith)
            requires
                i < n,
                n <= (directory@.len() - HEADER_LEN) / (ENTRY_LEN as int),
                directory@.len() >= HEADER_LEN,
        ;
        let off: usize = HEADER_LEN + ENTRY_LEN * i;
        let w: u32 = if directory[off] == 0 { 256 } else { directory[off] as u32 };
        let h: u32 = if directory[off + 1] == 0 { 256 } else { directory[off + 1] as u32 };
        assert((w, h) == entry_size(directory@, i as int));
        assert(w as u64 * h as u64 <= 65536) by (nonlinear_arith)
            requires
                w <= 256,
                h <= 256,
        ;
        let a: u64 = w as u64 * h as u64;
        best = match best {
            None => Some((w, h)),
            Some((bw, bh)) => {
                assert(bw as u64 * bh as u64 <= 65536) by (nonlinear_arith)
                    requires
                        bw <= 256,
                        bh <= 256,
                ;
                if a >= bw as u64 * bh as u64 {
                    Some((w, h))
                } else {
                    Some((bw, bh))
                }
            },
        };
        i += 1;
    }
    best
}

/// What decoding `bytes` as a PNG or ICO image gives: its RGBA pixels, width and height, or
/// `None` when the bytes are no such image.
pub uninterp spec fn decoded_image(bytes: Seq<u8>) -> Option<(Seq<u8>, u32, u32)>;

/// `image::load_from_memory`, then the pixels as RGBA (`DynamicImage::into_rgba8`).
#[verifier::external_body]
fn decode_rgba(bytes: &[u8]) -> (r: Result<(Vec<u8>, u32, u32), String>)
    ensures
        r matches Ok(d) ==> decoded_image(bytes@) == Some((d.0@, d.1, d.2)),
        r is Err <==> decoded_image(bytes@) is None,
{
    match image::load_from_memory(bytes) {
        Ok(img) => {
            let (width, height) = (img.width(), img.height());
            Ok((img.into_rgba8().into_raw(), width, height))
        },
        Err(e) => Err(e.to_string()),
    }
}

impl Image {
    /// The pixels.
    pub closed spec fn pixels(&self) -> Seq<u8> {
        self.rgba@
    }

    /// The width.
    pub closed spec fn image_width(&self) -> u32 {
        self.width
    }

    /// The height.
    pub closed spec fn image_height(&self) -> u32 {
        self.height
    }

    /// An image of the given RGBA pixels, in row-major order from top to bottom, and size.
    pub fn new_owned(rgba: Vec<u8>, width: u32, height: u32) -> (r: Image)
        ensures
            r.pixels() == rgba@,
            r.image_width() == width,
            r.image_height() == height,
    {
        Image { rgba, width, height }
    }

    /// An image of a copy of the given RGBA pixels, in row-major order from top to bottom, and size.
    pub fn new(rgba: &[u8], width: u32, height: u32) -> (r: Image)
        ensures
            r.pixels() == rgba@,
            r.image_width() == width,
            r.image_height() == height,
    {
        Image { rgba: vstd::slice::slice_to_vec(rgba), width, height }
    }

    /// The image that `bytes` hold, a PNG or ICO image; [`Error::InvalidImage`] when they are
    /// no such image.
    pub fn from_bytes(bytes: &[u8]) -> (r: Result<Image, Error>)
        ensures
            r is Ok <==> decoded_image(bytes@) is Some,
            r matches Ok(img) ==> decoded_image(bytes@) == Some((img.pixels(), img.image_width(), img.image_height())),
            r matches Err(e) ==> e is InvalidImage,
    {
        match decode_rgba(bytes) {
            Ok((rgba, width, height)) => Ok(Image { rgba, width, height }),
            Err(message) => Err(Error::InvalidImage(message)),
        }
    }

    /// The RGBA pixels, in row-major order from top to bottom.
    pub fn rgba(&self) -> (r: &[u8])
        ensures
            r@ == self.pixels(),
    {
        self.rgba.as_slice()
    }

    /// The width.
    pub fn width(&self) -> (r: u32)
        ensures
            r == self.image_width(),
    {
        self.width
    }

    /// The height.
    pub fn height(&self) -> (r: u32)
        ensures
            r == self.image_height(),
    {
        self.height
    }

    /// The image, owning its pixels.
    pub fn to_owned(self) -> (r: Image)
        ensures
            r.pixels() == self.pixels(),
            r.image_width() == self.image_width(),
            r.image_height() == self.image_height(),
    {
        Image { rgba: self.rgba, width: self.width, height: self.height }
    }
}

/// An image as the frontend hands it over: encoded bytes, an image stored in the resource table,
/// or raw RGBA pixels. (A file path is read into bytes before it gets here.)
pub enum JsImage {
    /// An ICO or PNG image.
    Bytes(Vec<u8>),
    /// An image stored in the resource table.
    Resource(ResourceId),
    /// Raw RGBA pixels and their size.
    Rgba { rgba: Vec<u8>, width: u32, height: u32 },
}

impl JsImage {
    /// The image: decoded from its bytes, taken from the resource table (which must hold it, else
    /// [`Error::BadResourceId`]), or made of its pixels.
    pub fn into_img(self, resources_table: &ResourceTable<Image>) -> (r: Result<Arc<Image>, Error>)
        ensures
            self matches JsImage::Resource(rid) ==> (r is Ok <==> resources_table@.contains_key(rid))
                && (r matches Ok(img) ==> *img == resources_table@[rid])
                && (r matches Err(e) ==> e == Error::BadResourceId(rid)),
            self matches JsImage::Bytes(b) ==> (r is Ok <==> decoded_image(b@) is Some)
                && (r matches Ok(img) ==> decoded_image(b@) == Some((img.pixels(), img.image_width(), img.image_height()))),
            self matches JsImage::Rgba { rgba, width, height } ==> r matches Ok(img) && img.pixels() == rgba@
                && img.image_width() == width && img.image_height() == height,
    {
        match self {
            JsImage::Resource(rid) => resources_table.get(rid),
            JsImage::Bytes(bytes) => match Image::from_bytes(bytes.as_slice()) {
                Ok(img) => Ok(Arc::new(img)),
                Err(e) => Err(e),
            },
            JsImage::Rgba { rgba, width, height } => Ok(Arc::new(Image::new_owned(rgba, width, height))),
        }
    }
}

} // verus!
