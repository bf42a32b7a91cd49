use vstd::prelude::*;
use crate::archive::{Archive, FileEntry};
use crate::error::AkaibuError;
use crate::preview::{PreviewableResourceMagic, previewable_of, previewed};
use crate::resource::{
    DecodedImage,
    ResourceMagic,
    ResourceType,
    parsed,
    resource_magic_of,
    tlg_decodable,
};

verus! {

/// Which image decoder, if any, the data of an entry has to go through
/// before it is converted.
#[derive(Debug, Clone, Copy, PartialEq, Eq, Structural)]
pub enum DecoderKind {
    /// The TLG decoder.
    Tlg,
    /// A decoder of common raster formats.
    Raster,
    /// None: the conversion needs no decoded pixels.
    NoDecoder,
}

/// The decoder that converting `buf` needs; `preview` asks for the raster
/// fallback of `get_resource_type`.
pub open spec fn decoder_needed(buf: Seq<u8>, preview: bool) -> DecoderKind {
    if tlg_decodable(resource_magic_of(buf)) {
        DecoderKind::Tlg
    } else if preview && resource_magic_of(buf) == ResourceMagic::Unrecognized && previewable_of(
        buf,
    ) != PreviewableResourceMagic::Unrecognized {
        DecoderKind::Raster
    } else {
        DecoderKind::NoDecoder
    }
}

/// The decoder that converting `buf` needs.
pub fn decoder_for(buf: &[u8], preview: bool) -> (r: DecoderKind)
    ensures
        r == decoder_needed(buf@, preview),
{
    let m = ResourceMagic::parse_magic(buf);
    if m.needs_tlg_decoder() {
        DecoderKind::Tlg
    } else if preview && m == ResourceMagic::Unrecognized && PreviewableResourceMagic::parse_magic(
        buf,
    ) != PreviewableResourceMagic::Unrecognized {
        DecoderKind::Raster
    } else {
        DecoderKind::NoDecoder
    }
}

/// Extracts an entry and converts it by its resource signature, given what
/// the TLG decoder answered for the entry's bytes.
pub fn convert_resource(archive: &Archive, entry: &FileEntry, decoded: Option<DecodedImage>) -> (r:
    Result<ResourceType, AkaibuError>)
    requires
        archive.wf(),
    ensures
        match archive.contents_of(entry.full_path@) {
            None => r == Err::<ResourceType, AkaibuError>(AkaibuError::EntryNotFound),
            Some(b) => parsed(resource_magic_of(b), b, decoded, r),
        },
{
    let contents = match archive.extract(entry) {
        Ok(c) => c,
        Err(e) => return Err(e),
    };
    let magic = ResourceMagic::parse_magic(contents.as_slice());
    magic.parse(contents.as_slice(), decoded)
}

/// Extracts an entry and converts it for a preview: by its resource signature
/// where it has one, else as a common raster format, else as `Other`;
/// `decoded` is what the decoder that `decoder_for` names answered.
pub fn get_resource_type(archive: &Archive, entry: &FileEntry, decoded: Option<DecodedImage>) -> (r:
    Result<ResourceType, AkaibuError>)
    requires
        archive.wf(),
    ensures
        match archive.contents_of(entry.full_path@) {
            None => r == Err::<ResourceType, AkaibuError>(AkaibuError::EntryNotFound),
            Some(b) => if resource_magic_of(b) == ResourceMagic::Unrecognized {
                previewed(b, decoded, r)
            } else {
                parsed(resource_magic_of(b), b, decoded, r)
            },
        },
{
    let contents = match archive.extract(entry) {
        Ok(c) => c,
        Err(e) => return Err(e),
    };
    let magic = ResourceMagic::parse_magic(contents.as_slice());
    match magic {
        ResourceMagic::Unrecognized => PreviewableResourceMagic::parse(contents.as_slice(), decoded),
        _ => magic.parse(contents.as_slice(), decoded),
    }
}

} // verus!
