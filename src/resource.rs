use vstd::prelude::*;
use crate::bytes::{has_prefix, starts_with};
use crate::error::AkaibuError;
use vstd::slice::{slice_subrange, slice_to_vec};

verus! {

/// Formats of a single extracted resource, told apart by its first bytes.
#[derive(Debug, Clone, Copy, PartialEq, Eq, Structural)]
pub enum ResourceMagic {
    TLG0,
    TLG5,
    TLG6,
    Unrecognized,
}

/// A decoded resource.
#[derive(Debug)]
pub enum ResourceType {
    /// Pixels in rows, four bytes (red, green, blue, alpha) each.
    Image { pixels: Vec<u8>, width: u32, height: u32 },
    Text(String),
    /// No conversion is available; the raw bytes stand.
    Other,
}

/// "TLG0.0\0sds\x1a"
pub open spec fn sig_tlg0() -> Seq<u8> { seq![84u8, 76, 71, 48, 46, 48, 0, 115, 100, 115, 26] }
/// "TLG5.0\0raw\x1a"
pub open spec fn sig_tlg5() -> Seq<u8> { seq![84u8, 76, 71, 53, 46, 48, 0, 114, 97, 119, 26] }
/// "TLG6.0\0raw\x1a"
pub open spec fn sig_tlg6() -> Seq<u8> { seq![84u8, 76, 71, 54, 46, 48, 0, 114, 97, 119, 26] }

pub open spec fn resource_magic_of(buf: Seq<u8>) -> ResourceMagic {
    if starts_with(buf, sig_tlg0()) {
        ResourceMagic::TLG0
    } else if starts_with(buf, sig_tlg5()) {
        ResourceMagic::TLG5
    } else if starts_with(buf, sig_tlg6()) {
        ResourceMagic::TLG6
    } else {
        ResourceMagic::Unrecognized
    }
}

/// Raw pixels as an image decoder hands them over: rows of `width` pixels,
/// `bytes_per_pixel` bytes each (1 gray, 3 RGB, 4 RGBA).
#[derive(Debug, Clone)]
pub struct DecodedImage {
    pub pixels: Vec<u8>,
    pub width: u32,
    pub height: u32,
    pub bytes_per_pixel: u8,
}

/// How many leading bytes an error about unrecognised data keeps.
pub const SNIFF_LEN: usize = 32;

/// The leading bytes of `buf` that an error about unrecognised data keeps.
pub open spec fn leading_bytes(buf: Seq<u8>) -> Seq<u8> {
    if buf.len() <= SNIFF_LEN {
        buf
    } else {
        buf.subrange(0, SNIFF_LEN as int)
    }
}

/// `r` is `UnrecognizedFormat` holding the leading bytes of `buf`.
pub open spec fn unrecognized(buf: Seq<u8>, r: Result<ResourceType, AkaibuError>) -> bool {
    r is Err && r->Err_0 is UnrecognizedFormat && r->Err_0->UnrecognizedFormat_0@ == leading_bytes(
        buf,
    )
}

/// The error for data that no signature matched: `UnrecognizedFormat` with
/// its leading bytes.
pub fn unrecognized_error(buf: &[u8]) -> (r: AkaibuError)
    ensures
        r is UnrecognizedFormat && r->UnrecognizedFormat_0@ == leading_bytes(buf@),
{
    let n = if buf.len() <= SNIFF_LEN {
        buf.len()
    } else {
        SNIFF_LEN
    };
    let head = slice_to_vec(slice_subrange(buf, 0, n));
    assert(head@ =~= leading_bytes(buf@));
    AkaibuError::UnrecognizedFormat(head)
}

/// The four bytes of pixel `p` of `data` whose pixels take `bpp` bytes each:
/// gray is repeated into red, green and blue, and a missing alpha is opaque.
pub open spec fn rgba_pixel(data: Seq<u8>, bpp: u8, p: int) -> Seq<u8> {
    if bpp == 4 {
        seq![data[4 * p], data[4 * p + 1], data[4 * p + 2], data[4 * p + 3]]
    } else if bpp == 3 {
        seq![data[3 * p], data[3 * p + 1], data[3 * p + 2], 255u8]
    } else {
        seq![data[p], data[p], data[p], 255u8]
    }
}

/// The first `n` pixels of `data` as RGBA.
pub open spec fn rgba_of(data: Seq<u8>, bpp: u8, n: nat) -> Seq<u8>
    decreases n,
{
    if n == 0 {
        Seq::empty()
    } else {
        rgba_of(data, bpp, (n - 1) as nat) + rgba_pixel(data, bpp, n - 1)
    }
}

pub proof fn lemma_rgba_len(data: Seq<u8>, bpp: u8, n: nat)
    ensures
        rgba_of(data, bpp, n).len() == 4 * n,
    decreases n,
{
    if n > 0 {
        lemma_rgba_len(data, bpp, (n - 1) as nat);
    }
}

/// Raw pixels fit an image of the given size.
pub open spec fn raw_fits(len: nat, width: u32, height: u32, bpp: u8) -> bool {
    (bpp == 1 || bpp == 3 || bpp == 4) && len == width as int * height as int * bpp as int
        && width as int * height as int * 4 <= usize::MAX
}

/// `r` is the RGBA image of the raw pixels.
pub open spec fn is_image_of(r: ResourceType, data: Seq<u8>, width: u32, height: u32, bpp: u8) -> bool {
    match r {
        ResourceType::Image { pixels, width: w, height: h } => w == width && h == height
            && pixels@ == rgba_of(data, bpp, (width as int * height as int) as nat)
            && pixels@.len() == width as int * height as int * 4,
        _ => false,
    }
}

/// Builds an RGBA image from raw pixels of `bpp` bytes each.
pub fn image_from_raw(data: Vec<u8>, width: u32, height: u32, bpp: u8) -> (r: Result<
    ResourceType,
    AkaibuError,
>)
    ensures
        raw_fits(data@.len(), width, height, bpp) ==> r is Ok && is_image_of(
            r->Ok_0,
            data@,
            width,
            height,
            bpp,
        ),
        !raw_fits(data@.len(), width, height, bpp) ==> r == Err::<ResourceType, AkaibuError>(
            AkaibuError::DecodeFailure,
        ),
{
    if !(bpp == 1 || bpp == 3 || bpp == 4) {
        return Err(AkaibuError::DecodeFailure);
    }
    assert(width as int * height as int <= u64::MAX) by (nonlinear_arith)
        requires width <= u32::MAX, height <= u32::MAX;
    let n: u64 = width as u64 * height as u64;
    if n > (usize::MAX / 4) as u64 {
        return Err(AkaibuError::DecodeFailure);
    }
    let n = n as usize;
    assert(n * bpp <= usize::MAX) by (nonlinear_arith)
        requires n <= usize::MAX / 4, bpp <= 4;
    if data.len() != n * bpp as usize {
        return Err(AkaibuError::DecodeFailure);
    }
    let mut pixels: Vec<u8> = Vec::new();
    let mut p: usize = 0;
    while p < n
        invariant
            p <= n,
            n * 4 <= usize::MAX,
            n == width as int * height as int,
            data@.len() == n * bpp,
            bpp == 1 || bpp == 3 || bpp == 4,
            pixels@ == rgba_of(data@, bpp, p as nat),
        decreases n - p,
    {
        assert(bpp as int * p + bpp <= data@.len()) by (nonlinear_arith)
            requires p < n, data@.len() == n * bpp, bpp >= 1;
        if bpp == 4 {
            pixels.push(data[4 * p]);
            pixels.push(data[4 * p + 1]);
            pixels.push(data[4 * p + 2]);
            pixels.push(data[4 * p + 3]);
        } else if bpp == 3 {
            pixels.push(data[3 * p]);
            pixels.push(data[3 * p + 1]);
            pixels.push(data[3 * p + 2]);
            pixels.push(255);
        } else {
            pixels.push(data[p]);
            pixels.push(data[p]);
            pixels.push(data[p]);
            pixels.push(255);
        }
        assert(pixels@ =~= rgba_of(data@, bpp, (p + 1) as nat));
        p = p + 1;
    }
    proof {
        lemma_rgba_len(data@, bpp, n as nat);
    }
    Ok(ResourceType::Image { pixels, width, height })
}

/// `r` is what decoding image data as `d` gives: the RGBA image where the
/// pixels fit the stated size, else `DecodeFailure`.
pub open spec fn image_result(d: DecodedImage, r: Result<ResourceType, AkaibuError>) -> bool {
    if raw_fits(d.pixels@.len(), d.width, d.height, d.bytes_per_pixel) {
        r is Ok && is_image_of(r->Ok_0, d.pixels@, d.width, d.height, d.bytes_per_pixel)
    } else {
        r == Err::<ResourceType, AkaibuError>(AkaibuError::DecodeFailure)
    }
}

/// Formats whose data goes through the TLG decoder before conversion.
pub open spec fn tlg_decodable(m: ResourceMagic) -> bool {
    m == ResourceMagic::TLG0 || m == ResourceMagic::TLG6
}

/// `r` is what converting `buf`, a resource of format `m`, gives when the TLG
/// decoder answered `decoded` for it (`None`: it rejected the data).
pub open spec fn parsed(
    m: ResourceMagic,
    buf: Seq<u8>,
    decoded: Option<DecodedImage>,
    r: Result<ResourceType, AkaibuError>,
) -> bool {
    if tlg_decodable(m) {
        match decoded {
            None => r == Err::<ResourceType, AkaibuError>(AkaibuError::DecodeFailure),
            Some(d) => image_result(d, r),
        }
    } else if m == ResourceMagic::TLG5 {
        r == Err::<ResourceType, AkaibuError>(AkaibuError::Unimplemented)
    } else {
        unrecognized(buf, r)
    }
}

impl ResourceMagic {
    /// Detects the resource format from the first bytes of its data.
    pub fn parse_magic(buf: &[u8]) -> (r: ResourceMagic)
        ensures
            r == resource_magic_of(buf@),
    {
        let s0: [u8; 11] = [84, 76, 71, 48, 46, 48, 0, 115, 100, 115, 26];
        let s5: [u8; 11] = [84, 76, 71, 53, 46, 48, 0, 114, 97, 119, 26];
        let s6: [u8; 11] = [84, 76, 71, 54, 46, 48, 0, 114, 97, 119, 26];
        assert(s0@ =~= sig_tlg0());
        assert(s5@ =~= sig_tlg5());
        assert(s6@ =~= sig_tlg6());
        if has_prefix(buf, &s0) {
            ResourceMagic::TLG0
        } else if has_prefix(buf, &s5) {
            ResourceMagic::TLG5
        } else if has_prefix(buf, &s6) {
            ResourceMagic::TLG6
        } else {
            ResourceMagic::Unrecognized
        }
    }

    /// Whether data of this format goes through the TLG decoder.
    pub fn needs_tlg_decoder(&self) -> (r: bool)
        ensures
            r == tlg_decodable(*self),
    {
        match self {
            ResourceMagic::TLG0 | ResourceMagic::TLG6 => true,
            _ => false,
        }
    }

    /// Converts `buf`, a resource of this format, given what the TLG decoder
    /// answered for it. TLG0 and TLG6 become RGBA images; TLG5 has no decoder
    /// here; unrecognised data is `UnrecognizedFormat`.
    pub fn parse(&self, buf: &[u8], decoded: Option<DecodedImage>) -> (r: Result<
        ResourceType,
        AkaibuError,
    >)
        ensures
            parsed(*self, buf@, decoded, r),
    {
        match self {
            ResourceMagic::TLG0 | ResourceMagic::TLG6 => match decoded {
                Some(d) => image_from_raw(d.pixels, d.width, d.height, d.bytes_per_pixel),
                None => Err(AkaibuError::DecodeFailure),
            },
            ResourceMagic::TLG5 => Err(AkaibuError::Unimplemented),
            ResourceMagic::Unrecognized => Err(unrecognized_error(buf)),
        }
    }
}

} // verus!
