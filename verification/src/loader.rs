//! Image loaders: at what size a file is decoded, and what the result says.

use vstd::prelude::*;
use crate::decode::{CodecProbe, CodecRoute, DecodedPixels, DecodedSize, ImageLoadResult};
use crate::path::{FilePath, PathView};

verus! {

/// The upper bound for the sides of decoded images, unless another one is set.
pub const DEFAULT_MAX_DIM: u32 = 7680;

/// The size handed to the decoder: a missing side is taken from the other one, and
/// two missing sides from the upper bound.
pub open spec fn decode_box(target_w: u32, target_h: u32, max_dim: u32) -> (u32, u32) {
    if target_w == 0 && target_h == 0 {
        (max_dim, max_dim)
    } else if target_w == 0 {
        (target_h, target_h)
    } else if target_h == 0 {
        (target_w, target_w)
    } else {
        (target_w, target_h)
    }
}

/// A loader of image files. The decoder itself stands outside: the loader says at
/// what size it is to decode, and turns what it gave into a result.
pub trait IImageLoader {
    /// The upper bound for the sides of decoded images.
    spec fn bound(&self) -> u32;

    /// The size to decode a file at; none where the loader has no decoder for it.
    spec fn size_for(&self, path: PathView, target_w: u32, target_h: u32) -> Option<(u32, u32)>;

    /// The result agrees with what the decoder gave for a file.
    spec fn tells(
        &self,
        path: PathView,
        outcome: Result<DecodedSize, String>,
        result: ImageLoadResult,
    ) -> bool;

    /// Gives the size to decode a file at.
    fn decode_size(&self, path: &FilePath, target_w: u32, target_h: u32) -> (r: Option<(u32, u32)>)
        ensures
            r == self.size_for(path@, target_w, target_h),
    ;

    /// Turns what the decoder gave for a file into a result.
    fn load(&self, path: &FilePath, outcome: Result<DecodedSize, String>) -> (r: ImageLoadResult)
        ensures
            self.tells(path@, outcome, r),
    ;

    /// The upper bound for the sides of decoded images.
    fn max_decode_dimension(&self) -> (r: u32)
        ensures
            r == self.bound(),
    ;

    /// Sets the upper bound.
    fn set_max_decode_dimension(&mut self, dim: u32)
        ensures
            final(self).bound() == dim,
    ;
}

/// The loader that uses the system's codecs, and a fallback decoder for the formats
/// that these do not know. What the fallback decoder says of a failure stands as it is.
pub struct WicLoader {
    max_dim: u32,
}

impl WicLoader {
    /// A loader with the usual upper bound.
    pub fn new() -> (r: Self)
        ensures
            r.bound() == DEFAULT_MAX_DIM,
    {
        WicLoader { max_dim: DEFAULT_MAX_DIM }
    }
}

impl IImageLoader for WicLoader {
    closed spec fn bound(&self) -> u32 {
        self.max_dim
    }

    open spec fn size_for(&self, path: PathView, target_w: u32, target_h: u32) -> Option<
        (u32, u32),
    > {
        Some(decode_box(target_w, target_h, self.bound()))
    }

    open spec fn tells(
        &self,
        path: PathView,
        outcome: Result<DecodedSize, String>,
        result: ImageLoadResult,
    ) -> bool {
        match outcome {
            Ok(size) => result.is_decoded(path.text(), size),
            Err(msg) => result.is_failure(
                path.text(),
                if crate::decode::route_of(path.parts()) == CodecRoute::SkiaFallback {
                    msg@
                } else {
                    "WIC failed: "@ + msg@
                },
            ),
        }
    }

    fn decode_size(&self, path: &FilePath, target_w: u32, target_h: u32) -> (r: Option<(u32, u32)>) {
        let side = if target_w == 0 && target_h == 0 {
            (self.max_dim, self.max_dim)
        } else if target_w == 0 {
            (target_h, target_h)
        } else if target_h == 0 {
            (target_w, target_w)
        } else {
            (target_w, target_h)
        };
        Some(side)
    }

    fn load(&self, path: &FilePath, outcome: Result<DecodedSize, String>) -> (r: ImageLoadResult) {
        match outcome {
            Ok(size) => ImageLoadResult::decoded(path.display(), size),
            Err(msg) => match CodecProbe::route_for(path) {
                CodecRoute::SkiaFallback => ImageLoadResult::failed(path.display(), msg),
                _ => {
                    let mut text: String = "WIC failed: ".to_owned();
                    text.append(msg.as_str());
                    ImageLoadResult::failed(path.display(), text)
                },
            },
        }
    }

    fn max_decode_dimension(&self) -> (r: u32) {
        self.max_dim
    }

    fn set_max_decode_dimension(&mut self, dim: u32) {
        self.max_dim = dim;
    }
}

/// A decoded image, or why there is none.
pub struct LoadedBitmap {
    pub result: ImageLoadResult,
    pub pixels: Option<DecodedPixels>,
}

/// Turns what the decoder gave for a file into a result and its pixels; the
/// decoder's error is handed on.
pub fn load_pixels(path: &FilePath, decoded: Result<DecodedPixels, String>) -> (r: Result<
    (ImageLoadResult, DecodedPixels),
    String,
>)
    ensures
        match decoded {
            Ok(p) => {
                &&& r is Ok
                &&& r->Ok_0.1 == p
                &&& r->Ok_0.0.is_decoded(
                    path@.text(),
                    (DecodedSize {
                        width: p.width,
                        height: p.height,
                        source_width: p.source_width,
                        source_height: p.source_height,
                    }),
                )
            },
            Err(e) => r == Err::<(ImageLoadResult, DecodedPixels), String>(e),
        },
{
    match decoded {
        Ok(p) => {
            let size = DecodedSize {
                width: p.width,
                height: p.height,
                source_width: p.source_width,
                source_height: p.source_height,
            };
            Ok((ImageLoadResult::decoded(path.display(), size), p))
        },
        Err(e) => Err(e),
    }
}

/// An image is decoded to the size asked for; a side left open is as long as the other,
/// and with both open the upper bound holds for both.
pub proof fn decoding_sizes(w: u32, h: u32, max_dim: u32)
    ensures
        w > 0 && h > 0 ==> decode_box(w, h, max_dim) == (w, h),
        w > 0 ==> decode_box(w, 0, max_dim) == (w, w),
        h > 0 ==> decode_box(0, h, max_dim) == (h, h),
        decode_box(0, 0, max_dim) == (max_dim, max_dim),
{
}

/// What a loader tells of a failure: the fallback decoder's message for the layered
/// formats that it takes, and elsewhere that the system's codecs failed, with their
/// message. A success is told with its sizes.
pub proof fn failures_are_told(
    loader: WicLoader,
    path: PathView,
    outcome: Result<DecodedSize, String>,
    result: ImageLoadResult,
)
    requires
        loader.tells(path, outcome, result),
    ensures
        result.path@ == path.text(),
        result.is_success <==> outcome is Ok,
        outcome matches Ok(size) ==> result.width == size.width && result.height == size.height
            && result.error_message is None,
        outcome matches Err(msg) ==> {
            let e = crate::path::extension_of(path.parts());
            &&& result.error_message is Some
            &&& e is None ==> result.error_message->0@ == "WIC failed: "@ + msg@
            &&& e matches Some(x) ==> {
                &&& crate::text::same_ignoring_case(x, "psd"@) ==> result.error_message->0@ == msg@
                &&& crate::text::same_ignoring_case(x, "heic"@) ==> result.error_message->0@
                    == "WIC failed: "@ + msg@
                &&& x.len() != 3 ==> result.error_message->0@ == "WIC failed: "@ + msg@
            }
        },
{
    match crate::path::extension_of(path.parts()) {
        Some(x) => {
            crate::decode::ways_of_formats(path.parts(), x);
            reveal_strlit("psd");
            reveal_strlit("raw");
            reveal_strlit("cr2");
            reveal_strlit("nef");
            reveal_strlit("arw");
            reveal_strlit("dng");
            reveal_strlit("orf");
            reveal_strlit("rw2");
            reveal_strlit("heic");
        },
        None => {
            crate::decode::way_without_extension(path.parts());
        },
    }
}

} // verus!
