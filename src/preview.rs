use vstd::prelude::*;
use crate::bytes::{has_prefix, starts_with};
use crate::error::AkaibuError;
use crate::resource::{DecodedImage, ResourceType, image_from_raw, image_result};

verus! {

/// Common raster formats that can be shown as a preview.
#[derive(Debug, Clone, Copy, PartialEq, Eq, Structural)]
pub enum PreviewableResourceMagic {
    PNG,
    JPG,
    BMP,
    ICO,
    RIFF,
    Unrecognized,
}

pub open spec fn sig_png() -> Seq<u8> { seq![137u8, 80, 78, 71, 13, 10, 26, 10] }
/// The PNG signature with its first byte altered, as some engines store it.
pub open spec fn sig_png_alt() -> Seq<u8> { seq![135u8, 80, 78, 71, 13, 10, 26, 10] }
pub open spec fn sig_jpg() -> Seq<u8> { seq![255u8, 216, 255] }
pub open spec fn sig_bmp() -> Seq<u8> { seq![66u8, 77] }
pub open spec fn sig_ico() -> Seq<u8> { seq![0u8, 0, 1, 0] }
pub open spec fn sig_riff() -> Seq<u8> { seq![82u8, 73, 70, 70] }

pub open spec fn previewable_of(buf: Seq<u8>) -> PreviewableResourceMagic {
    if starts_with(buf, sig_png()) || starts_with(buf, sig_png_alt()) {
        PreviewableResourceMagic::PNG
    } else if starts_with(buf, sig_jpg()) {
        PreviewableResourceMagic::JPG
    } else if starts_with(buf, sig_bmp()) {
        PreviewableResourceMagic::BMP
    } else if starts_with(buf, sig_ico()) {
        PreviewableResourceMagic::ICO
    } else if starts_with(buf, sig_riff()) {
        PreviewableResourceMagic::RIFF
    } else {
        PreviewableResourceMagic::Unrecognized
    }
}

/// `r` is what decoding `buf` for a preview gives when the raster decoder
/// answered `decoded` for it (`None`: it rejected the data).
pub open spec fn previewed(buf: Seq<u8>, decoded: Option<DecodedImage>, r: Result<
    ResourceType,
    AkaibuError,
>) -> bool {
    if previewable_of(buf) == PreviewableResourceMagic::Unrecognized {
        r is Ok && r->Ok_0 is Other
    } else {
        match decoded {
            None => r == Err::<ResourceType, AkaibuError>(AkaibuError::DecodeFailure),
            Some(d) => image_result(d, r),
        }
    }
}

impl PreviewableResourceMagic {
    /// Detects a common raster format from the first bytes of the data.
    pub fn parse_magic(buf: &[u8]) -> (r: PreviewableResourceMagic)
        ensures
            r == previewable_of(buf@),
    {
        let png: [u8; 8] = [137, 80, 78, 71, 13, 10, 26, 10];
        let png_alt: [u8; 8] = [135, 80, 78, 71, 13, 10, 26, 10];
        let jpg: [u8; 3] = [255, 216, 255];
        let bmp: [u8; 2] = [66, 77];
        let ico: [u8; 4] = [0, 0, 1, 0];
        let riff: [u8; 4] = [82, 73, 70, 70];
        assert(png@ =~= sig_png());
        assert(png_alt@ =~= sig_png_alt());
        assert(jpg@ =~= sig_jpg());
        assert(bmp@ =~= sig_bmp());
        assert(ico@ =~= sig_ico());
        assert(riff@ =~= sig_riff());
        if has_prefix(buf, &png) || has_prefix(buf, &png_alt) {
            PreviewableResourceMagic::PNG
        } else if has_prefix(buf, &jpg) {
            PreviewableResourceMagic::JPG
        } else if has_prefix(buf, &bmp) {
            PreviewableResourceMagic::BMP
        } else if has_prefix(buf, &ico) {
            PreviewableResourceMagic::ICO
        } else if has_prefix(buf, &riff) {
            PreviewableResourceMagic::RIFF
        } else {
            PreviewableResourceMagic::Unrecognized
        }
    }

    /// Converts data of a recognised raster format to RGBA, given what the
    /// raster decoder answered for it; anything else is `Other`.
    pub fn parse(buf: &[u8], decoded: Option<DecodedImage>) -> (r: Result<ResourceType, AkaibuError>)
        ensures
            previewed(buf@, decoded, r),
    {
        match PreviewableResourceMagic::parse_magic(buf) {
            PreviewableResourceMagic::Unrecognized => Ok(ResourceType::Other),
            _ => match decoded {
                Some(d) => image_from_raw(d.pixels, d.width, d.height, d.bytes_per_pixel),
                None => Err(AkaibuError::DecodeFailure),
            },
        }
    }
}

} // verus!
