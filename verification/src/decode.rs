//! Decode results, codec routing and pixel buffers.

use vstd::prelude::*;
use crate::path::{FilePath, PartView};
use crate::text::equals_ignoring_case;

verus! {

/// What decoding an image file came to.
#[derive(Debug)]
pub struct ImageLoadResult {
    pub path: String,
    pub width: u32,
    pub height: u32,
    pub source_width: u32,
    pub source_height: u32,
    pub is_success: bool,
    pub error_message: Option<String>,
}

/// A decoded bitmap.
#[derive(Debug)]
pub struct DecodedBitmap {
    pub width: u32,
    pub height: u32,
    pub source_width: u32,
    pub source_height: u32,
    /// Four bytes per pixel: blue, green, red, alpha.
    pub pixels: Vec<u8>,
    pub path: String,
}

/// The sizes of a decoded image: as decoded, and of the file.
#[derive(Debug, Clone, Copy, PartialEq, Eq, Structural)]
pub struct DecodedSize {
    pub width: u32,
    pub height: u32,
    pub source_width: u32,
    pub source_height: u32,
}

/// How an image file is decoded.
#[derive(Debug, Clone, Copy, PartialEq, Eq, Structural)]
pub enum CodecRoute {
    /// By the system's codecs.
    WicPrimary,
    /// By the system's codecs, with an extension installed.
    WicWithExtension,
    /// By a fallback decoder.
    SkiaFallback,
}

/// Chooses how an image file is decoded.
pub struct CodecProbe;

impl ImageLoadResult {
    /// The result says that decoding `path` failed with `msg`.
    pub open spec fn is_failure(self, path: Seq<char>, msg: Seq<char>) -> bool {
        &&& self.path@ == path
        &&& self.width == 0
        &&& self.height == 0
        &&& self.source_width == 0
        &&& self.source_height == 0
        &&& !self.is_success
        &&& self.error_message is Some
        &&& self.error_message->0@ == msg
    }

    /// The result says that `path` was decoded to these sizes.
    pub open spec fn is_decoded(self, path: Seq<char>, size: DecodedSize) -> bool {
        &&& self.path@ == path
        &&& self.width == size.width
        &&& self.height == size.height
        &&& self.source_width == size.source_width
        &&& self.source_height == size.source_height
        &&& self.is_success
        &&& self.error_message is None
    }

    /// A failure to decode.
    pub fn failed(path: String, msg: String) -> (r: Self)
        ensures
            r.is_failure(path@, msg@),
    {
        ImageLoadResult {
            path,
            width: 0,
            height: 0,
            source_width: 0,
            source_height: 0,
            is_success: false,
            error_message: Some(msg),
        }
    }

    /// A success.
    pub fn decoded(path: String, size: DecodedSize) -> (r: Self)
        ensures
            r.is_decoded(path@, size),
    {
        ImageLoadResult {
            path,
            width: size.width,
            height: size.height,
            source_width: size.source_width,
            source_height: size.source_height,
            is_success: true,
            error_message: None,
        }
    }

    /// The result of a background decode: its sizes, or the decoder's message.
    pub fn from_outcome(path: String, outcome: Result<DecodedSize, String>) -> (r: Self)
        ensures
            outcome matches Ok(size) ==> r.is_decoded(path@, size),
            outcome matches Err(msg) ==> r.is_failure(path@, msg@),
    {
        match outcome {
            Ok(size) => ImageLoadResult::decoded(path, size),
            Err(msg) => ImageLoadResult::failed(path, msg),
        }
    }
}

/// The extension is `known`, in any case.
pub open spec fn ext_is(path: Seq<PartView>, known: Seq<char>) -> bool {
    match crate::path::extension_of(path) {
        Some(e) => crate::text::same_ignoring_case(e, known),
        None => false,
    }
}

/// The route for a path: formats that need an extension, and camera and layered
/// formats, go their own ways; everything else goes the primary way.
pub open spec fn route_of(path: Seq<PartView>) -> CodecRoute {
    if ext_is(path, "heic"@) || ext_is(path, "heif"@) {
        CodecRoute::WicWithExtension
    } else if ext_is(path, "psd"@) || ext_is(path, "raw"@) || ext_is(path, "cr2"@) || ext_is(
        path,
        "nef"@,
    ) || ext_is(path, "arw"@) || ext_is(path, "dng"@) || ext_is(path, "orf"@) || ext_is(
        path,
        "rw2"@,
    ) {
        CodecRoute::SkiaFallback
    } else {
        CodecRoute::WicPrimary
    }
}

impl CodecProbe {
    /// Chooses the route by the extension.
    pub fn route_for(path: &FilePath) -> (r: CodecRoute)
        ensures
            r == route_of(path@.parts()),
    {
        match path.extension() {
            None => CodecRoute::WicPrimary,
            Some(e) => {
                let x: &str = e.as_str();
                if equals_ignoring_case(x, "heic") || equals_ignoring_case(x, "heif") {
                    CodecRoute::WicWithExtension
                } else if equals_ignoring_case(x, "psd") || equals_ignoring_case(x, "raw")
                    || equals_ignoring_case(x, "cr2") || equals_ignoring_case(x, "nef")
                    || equals_ignoring_case(x, "arw") || equals_ignoring_case(x, "dng")
                    || equals_ignoring_case(x, "orf") || equals_ignoring_case(x, "rw2") {
                    CodecRoute::SkiaFallback
                } else {
                    CodecRoute::WicPrimary
                }
            },
        }
    }
}

/// Decoded pixels on their way to the GPU.
#[derive(Debug)]
pub struct DecodedPixels {
    /// Four bytes per pixel: blue, green, red, alpha.
    pub pixels: Vec<u8>,
    pub width: u32,
    pub height: u32,
    pub source_width: u32,
    pub source_height: u32,
    pub path: String,
}

impl DecodedPixels {
    /// Bytes per row.
    pub fn stride(&self) -> (r: u32)
        requires
            self.width * 4 <= u32::MAX,
        ensures
            r == self.width * 4,
    {
        self.width * 4
    }
}

/// A side of the box that a decoded image has to fit in.
pub open spec fn fitted(target: u32, source: u32) -> u32 {
    if target == 0 || source < target {
        source
    } else {
        target
    }
}

/// A decoded image is no larger than its source, nor than what was asked for where
/// anything was; it is as large as these two allow.
pub proof fn decoded_sizes_fit(target: u32, source: u32)
    ensures
        fitted(target, source) <= source,
        target > 0 ==> fitted(target, source) <= target,
        target == 0 ==> fitted(target, source) == source,
        fitted(target, source) == source || fitted(target, source) == target,
{
}

/// The box that a decoded image has to fit in: the target, but no larger than the
/// source; a side of zero leaves the source's side.
pub fn target_box(target_w: u32, target_h: u32, src_w: u32, src_h: u32) -> (r: (u32, u32))
    ensures
        r.0 == fitted(target_w, src_w),
        r.1 == fitted(target_h, src_h),
{
    let w: u32 = if target_w == 0 || src_w < target_w {
        src_w
    } else {
        target_w
    };
    let h: u32 = if target_h == 0 || src_h < target_h {
        src_h
    } else {
        target_h
    };
    (w, h)
}

/// A pixel buffer with the first and third byte of every whole pixel exchanged.
pub open spec fn swapped(s: Seq<u8>) -> Seq<u8> {
    Seq::new(
        s.len(),
        |i: int|
            if i / 4 * 4 + 4 > s.len() {
                s[i]
            } else if i % 4 == 0 {
                s[i + 2]
            } else if i % 4 == 2 {
                s[i - 2]
            } else {
                s[i]
            },
    )
}

/// Exchanging red and blue twice gives the buffer back.
pub proof fn swap_twice(s: Seq<u8>)
    ensures
        swapped(swapped(s)) == s,
{
    assert(swapped(swapped(s)) =~= s);
}

/// Exchanges red and blue in every pixel, between the decoder's order of channels
/// and that of textures.
pub fn bgra_to_rgba(pixels: Vec<u8>) -> (r: Vec<u8>)
    ensures
        r@ == swapped(pixels@),
{
    let ghost s = pixels@;
    let mut out: Vec<u8> = pixels;
    let len: usize = out.len();
    let mut i: usize = 0;
    while len - i >= 4
        invariant
            len == s.len(),
            out@.len() == len,
            i <= len,
            i % 4 == 0,
            forall|j: int| 0 <= j < i ==> out@[j] == swapped(s)[j],
            forall|j: int| i <= j < len ==> out@[j] == s[j],
        decreases len - i,
    {
        let b: u8 = out[i];
        let c: u8 = out[i + 2];
        out.set(i, c);
        out.set(i + 2, b);
        i += 4;
    }
    assert(out@ =~= swapped(s));
    out
}

/// The green values of every sixteenth pixel, summed over the first `n` samples.
pub open spec fn green_sum(s: Seq<u8>, n: nat) -> nat
    decreases n,
{
    if n == 0 {
        0
    } else {
        green_sum(s, (n - 1) as nat) + s[(n - 1) * 64 + 1] as nat
    }
}

proof fn green_sum_bound(s: Seq<u8>, n: nat)
    ensures
        green_sum(s, n) <= 255 * n,
    decreases n,
{
    if n > 0 {
        green_sum_bound(s, (n - 1) as nat);
    }
}

/// Samples the brightness of a pixel buffer: the sum of the green values of every
/// sixteenth pixel, and how many there are.
pub fn sample_luminance(pixels: &Vec<u8>) -> (r: (u128, usize))
    requires
        pixels.len() % 64 != 1,
    ensures
        r.1 == (pixels.len() + 63) / 64,
        r.0 == green_sum(pixels@, r.1 as nat),
{
    let len: usize = pixels.len();
    let n: usize = if len % 64 == 0 {
        len / 64
    } else {
        len / 64 + 1
    };
    let mut sum: u128 = 0;
    let mut count: usize = 0;
    while count < n
        invariant
            len == pixels.len(),
            len % 64 != 1,
            n == (len + 63) / 64,
            count <= n,
            sum == green_sum(pixels@, count as nat),
        decreases n - count,
    {
        proof {
            green_sum_bound(pixels@, (count + 1) as nat);
        }
        sum = sum + pixels[count * 64 + 1] as u128;
        count = count + 1;
    }
    (sum, count)
}

/// The size of an image file, where it is one.
pub open spec fn size_of_source(w: u32, h: u32) -> Option<(u32, u32)> {
    if w == 0 || h == 0 {
        None
    } else {
        Some((w, h))
    }
}

/// The number of bytes of a decoded image, where it can be addressed.
pub open spec fn bytes_of(w: u32, h: u32) -> Option<u32> {
    if w * 4 * h <= u32::MAX {
        Some((w * 4 * h) as u32)
    } else {
        None
    }
}

/// A size with a side of zero is none, any other is kept. A buffer has four bytes for
/// each pixel, so many rows of so many; one of four gigabytes or more there is not.
pub proof fn sizes_of_images(w: u32, h: u32)
    ensures
        w > 0 && h > 0 ==> size_of_source(w, h) == Some((w, h)),
        size_of_source(0, h) is None && size_of_source(w, 0) is None,
        bytes_of(w, h) matches Some(n) ==> n == 4 * (w * h),
        bytes_of(w, h) is None <==> 4 * (w * h) >= 0x1_0000_0000,
        bytes_of(w, 0) == Some(0u32) && bytes_of(0, h) == Some(0u32),
{
    assert(w * 4 * h == 4 * (w * h)) by (nonlinear_arith);
    assert(w * 4 * 0 == 0);
    assert(0 * 4 * h == 0) by (nonlinear_arith);
}

/// The size of an image file, where it is one: neither side is zero.
pub fn source_size(w: u32, h: u32) -> (r: Option<(u32, u32)>)
    ensures
        r == size_of_source(w, h),
{
    if w == 0 || h == 0 {
        None
    } else {
        Some((w, h))
    }
}

/// The number of bytes of a decoded image, where it can be addressed.
pub fn buffer_len(w: u32, h: u32) -> (r: Option<u32>)
    ensures
        r == bytes_of(w, h),
{
    match w.checked_mul(4) {
        None => {
            assert(h > 0 ==> w * 4 * h > u32::MAX) by (nonlinear_arith)
                requires
                    w * 4 > u32::MAX,
            ;
            if h == 0 {
                assert(w * 4 * h == 0) by (nonlinear_arith)
                    requires
                        h == 0,
                ;
                Some(0)
            } else {
                None
            }
        },
        Some(stride) => stride.checked_mul(h),
    }
}

/// The way that each format is decoded, by its extension in any case: the system's codecs
/// need an extension for some, a fallback decoder takes the layered and the camera
/// formats, and all the others go to the system's codecs.
pub proof fn ways_of_formats(path: Seq<PartView>, e: Seq<char>)
    requires
        crate::path::extension_of(path) == Some(e),
    ensures
        route_of(path) == CodecRoute::WicWithExtension <==> {
            ||| crate::text::same_ignoring_case(e, "heic"@)
            ||| crate::text::same_ignoring_case(e, "heif"@)
        },
        crate::text::same_ignoring_case(e, "psd"@) ==> route_of(path) == CodecRoute::SkiaFallback,
        crate::text::same_ignoring_case(e, "raw"@) ==> route_of(path) == CodecRoute::SkiaFallback,
        crate::text::same_ignoring_case(e, "cr2"@) ==> route_of(path) == CodecRoute::SkiaFallback,
        crate::text::same_ignoring_case(e, "nef"@) ==> route_of(path) == CodecRoute::SkiaFallback,
        crate::text::same_ignoring_case(e, "arw"@) ==> route_of(path) == CodecRoute::SkiaFallback,
        crate::text::same_ignoring_case(e, "dng"@) ==> route_of(path) == CodecRoute::SkiaFallback,
        crate::text::same_ignoring_case(e, "orf"@) ==> route_of(path) == CodecRoute::SkiaFallback,
        crate::text::same_ignoring_case(e, "rw2"@) ==> route_of(path) == CodecRoute::SkiaFallback,
        e.len() != 3 && e.len() != 4 ==> route_of(path) == CodecRoute::WicPrimary,
        route_of(path) == CodecRoute::SkiaFallback ==> {
            ||| crate::text::same_ignoring_case(e, "psd"@)
            ||| crate::text::same_ignoring_case(e, "raw"@)
            ||| crate::text::same_ignoring_case(e, "cr2"@)
            ||| crate::text::same_ignoring_case(e, "nef"@)
            ||| crate::text::same_ignoring_case(e, "arw"@)
            ||| crate::text::same_ignoring_case(e, "dng"@)
            ||| crate::text::same_ignoring_case(e, "orf"@)
            ||| crate::text::same_ignoring_case(e, "rw2"@)
        },
{
    reveal_strlit("heic");
    reveal_strlit("heif");
    reveal_strlit("psd");
    reveal_strlit("raw");
    reveal_strlit("cr2");
    reveal_strlit("nef");
    reveal_strlit("arw");
    reveal_strlit("dng");
    reveal_strlit("orf");
    reveal_strlit("rw2");
}

/// A file without an extension goes to the system's codecs.
pub proof fn way_without_extension(path: Seq<PartView>)
    requires
        crate::path::extension_of(path) is None,
    ensures
        route_of(path) == CodecRoute::WicPrimary,
{
}

/// Of every whole pixel the first and third byte are exchanged, and the other two stay;
/// bytes behind the last whole pixel stay.
pub proof fn red_and_blue_are_exchanged(s: Seq<u8>, k: int)
    requires
        0 <= k,
    ensures
        swapped(s).len() == s.len(),
        4 * k + 4 <= s.len() ==> {
            &&& swapped(s)[4 * k] == s[4 * k + 2]
            &&& swapped(s)[4 * k + 1] == s[4 * k + 1]
            &&& swapped(s)[4 * k + 2] == s[4 * k]
            &&& swapped(s)[4 * k + 3] == s[4 * k + 3]
        },
        k < s.len() && k >= s.len() - s.len() % 4 ==> swapped(s)[k] == s[k],
{
}

/// The samples of a buffer are the second bytes of every sixteenth pixel: a buffer in
/// which all of these have one value sums to that many times the value, and bytes in
/// between do not count.
pub proof fn samples_are_green(s: Seq<u8>, t: Seq<u8>, n: nat, g: u8)
    ensures
        (forall|k: int| 0 <= k < n ==> #[trigger] s[64 * k + 1] == g) ==> green_sum(s, n) == n * g,
        (forall|k: int| 0 <= k < n ==> #[trigger] s[64 * k + 1] == t[64 * k + 1]) ==> green_sum(
            s,
            n,
        ) == green_sum(t, n),
        n > 0 ==> green_sum(s, n) == green_sum(s, (n - 1) as nat) + s[64 * (n - 1) + 1],
        green_sum(s, 0) == 0,
    decreases n,
{
    if n > 0 {
        let m = (n - 1) as nat;
        samples_are_green(s, t, m, g);
        assert(m * g + g == n * g) by (nonlinear_arith)
            requires
                m + 1 == n,
        ;
        assert((n - 1) * 64 + 1 == 64 * (n - 1) + 1);
        assert(s[64 * (n - 1) + 1] == s[(n - 1) * 64 + 1]);
        assert(t[64 * (n - 1) + 1] == t[(n - 1) * 64 + 1]);
    } else {
        assert(n * g == 0) by (nonlinear_arith)
            requires
                n == 0,
        ;
    }
}

/// A result tells of a success or of a failure, never of both. A failure has its message
/// and no size; a success has its sizes and no message. Both name the file.
pub proof fn results_tell_one_thing(
    r: ImageLoadResult,
    path: Seq<char>,
    msg: Seq<char>,
    size: DecodedSize,
)
    ensures
        !(r.is_failure(path, msg) && r.is_decoded(path, size)),
        r.is_failure(path, msg) ==> !r.is_success && r.path@ == path && r.error_message is Some
            && r.error_message->0@ == msg && r.width == 0 && r.height == 0,
        r.is_decoded(path, size) ==> r.is_success && r.path@ == path && r.error_message is None
            && r.width == size.width && r.height == size.height && r.source_width
            == size.source_width && r.source_height == size.source_height,
{
}

} // verus!
