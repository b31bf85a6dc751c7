//! Decoding page bytes to display-ready bitmaps with the image crate: the
//! bytes are format-sniffed, and when sniffing fails one fallback attempt
//! treats them as TGA, the format that most often defeats detection. A page
//! that still fails to decode yields an empty slot, never an error that
//! would spoil its neighbour.
use vstd::prelude::*;
use image::ImageFormat;
use crate::prefetch::{PageCache, SlotPair};
use crate::zipsrc::{zip_entry_data, zip_entry_names, ZipSource};

verus! {

#[verifier::external_type_specification]
#[verifier::external_body]
pub struct ExDynamicImage(image::DynamicImage);

#[verifier::external_type_specification]
#[verifier::external_body]
pub struct ExImageFormat(ImageFormat);

/// The image formats the byte sniffer can report, and the TGA fallback
/// format: the viewer's model of `image::ImageFormat`.
#[derive(Debug, PartialEq, Eq, Structural, Clone, Copy)]
pub enum PageFormat {
    Png,
    Jpeg,
    Gif,
    WebP,
    Pnm,
    Tiff,
    Tga,
    Dds,
    Bmp,
    Ico,
    Hdr,
    OpenExr,
    Farbfeld,
    Avif,
    Qoi,
}

/// The format the sniffer reports for these bytes, if any: `guess_format`
/// judges by a fixed magic-byte table, a function of the bytes alone (TGA
/// has no magic bytes and is never reported).
pub uninterp spec fn sniff_of(bytes: Seq<u8>) -> Option<PageFormat>;

/// Whether these bytes decode as this format: what
/// `load_from_memory_with_format` answers, a function of its arguments
/// alone.
pub uninterp spec fn decode_ok(bytes: Seq<u8>, format: PageFormat) -> bool;

/// Relies on image::guess_format: sniffs the format from the bytes' magic
/// numbers.
#[verifier::external_body]
fn sniff_format(bytes: &Vec<u8>) -> (r: Option<PageFormat>)
    ensures
        r == sniff_of(bytes@),
{
    let f = match image::guess_format(bytes.as_slice()) {
        Ok(f) => f,
        Err(_) => return None,
    };
    Some(match f {
        ImageFormat::Png => PageFormat::Png, ImageFormat::Jpeg => PageFormat::Jpeg,
        ImageFormat::Gif => PageFormat::Gif, ImageFormat::WebP => PageFormat::WebP,
        ImageFormat::Pnm => PageFormat::Pnm, ImageFormat::Tiff => PageFormat::Tiff,
        ImageFormat::Dds => PageFormat::Dds, ImageFormat::Bmp => PageFormat::Bmp,
        ImageFormat::Ico => PageFormat::Ico, ImageFormat::Hdr => PageFormat::Hdr,
        ImageFormat::OpenExr => PageFormat::OpenExr, ImageFormat::Avif => PageFormat::Avif,
        ImageFormat::Farbfeld => PageFormat::Farbfeld, ImageFormat::Qoi => PageFormat::Qoi,
        _ => return None,
    })
}

/// Relies on image::load_from_memory_with_format: decodes the bytes as the
/// given format, or nothing when they do not parse as it.
#[verifier::external_body]
fn decode_with_format(bytes: &Vec<u8>, format: PageFormat) -> (r: Option<image::DynamicImage>)
    ensures
        r is Some == decode_ok(bytes@, format),
{
    let f = match format {
        PageFormat::Png => ImageFormat::Png, PageFormat::Jpeg => ImageFormat::Jpeg,
        PageFormat::Gif => ImageFormat::Gif, PageFormat::WebP => ImageFormat::WebP,
        PageFormat::Pnm => ImageFormat::Pnm, PageFormat::Tiff => ImageFormat::Tiff,
        PageFormat::Tga => ImageFormat::Tga, PageFormat::Dds => ImageFormat::Dds,
        PageFormat::Bmp => ImageFormat::Bmp, PageFormat::Ico => ImageFormat::Ico,
        PageFormat::Hdr => ImageFormat::Hdr, PageFormat::OpenExr => ImageFormat::OpenExr,
        PageFormat::Farbfeld => ImageFormat::Farbfeld, PageFormat::Avif => ImageFormat::Avif,
        PageFormat::Qoi => ImageFormat::Qoi,
    };
    image::load_from_memory_with_format(bytes.as_slice(), f).ok()
}

/// Relies on the image crate's Clone for DynamicImage: the copy equals the
/// original.
#[verifier::external_body]
pub(crate) fn clone_image(img: &image::DynamicImage) -> (r: image::DynamicImage)
    ensures
        r == *img,
{
    img.clone()
}

/// Whether page bytes decode at all: by the sniffed format when sniffing
/// succeeds, else by the one TGA fallback attempt.
pub open spec fn spec_page_decodes(bytes: Seq<u8>) -> bool {
    match sniff_of(bytes) {
        Some(f) => decode_ok(bytes, f),
        None => decode_ok(bytes, PageFormat::Tga),
    }
}

/// The cache's copy of the page at `i`, when one was retained: the
/// synchronous path serves the view from here before any decode is issued.
pub fn cached_page(cache: &PageCache<image::DynamicImage>, i: usize) -> (r: Option<
    image::DynamicImage,
>)
    requires
        i < cache.slots@.len(),
    ensures
        r is Some == cache.slots@[i as int] is Some,
        r matches Some(v) ==> cache.slots@[i as int] == Some(v),
{
    match cache.get(i) {
        Some(img) => Some(clone_image(img)),
        None => None,
    }
}

/// Decode page bytes: by the sniffed format when sniffing succeeds, else by
/// one fallback attempt as TGA. Nothing comes back when both fail, and one
/// page's failure is its own.
pub fn decode_page(bytes: &Vec<u8>) -> (r: Option<image::DynamicImage>)
    ensures
        r is Some == spec_page_decodes(bytes@),
{
    let format = match sniff_format(bytes) {
        Some(f) => f,
        None => PageFormat::Tga,
    };
    decode_with_format(bytes, format)
}

/// The page at `idx` of a zip source resolves: the index addresses a page,
/// the archive yields bytes for its name, and those bytes decode.
pub open spec fn spec_zip_slot_ok(src: ZipSource, idx: int) -> bool {
    &&& 0 <= idx < src.pages@.len()
    &&& match zip_entry_data(src.archive, src.pages@[idx]@) {
        Some(b) => spec_page_decodes(b),
        None => false,
    }
}

/// The decoded page at `idx` of a zip source: its bytes extracted by entry
/// name, then decoded. An index past the end, a failed extraction and a
/// failed decode all yield the empty slot; everything else yields a page.
pub fn load_zip_page(src: &mut ZipSource, idx: usize) -> (r: Option<image::DynamicImage>)
    requires
        old(src).wf(),
    ensures
        final(src).wf(),
        final(src).pages == old(src).pages,
        zip_entry_names(final(src).archive) == zip_entry_names(old(src).archive),
        forall|n: Seq<char>| #[trigger] zip_entry_data(final(src).archive, n)
            == zip_entry_data(old(src).archive, n),
        r is Some == spec_zip_slot_ok(*old(src), idx as int),
{
    if idx >= src.pages.len() {
        return None;
    }
    let name = src.pages[idx].clone();
    match src.read_page(&name) {
        Some(bytes) => decode_page(&bytes),
        None => None,
    }
}

/// The pair of decoded pages starting at `start` in a zip source. Each slot
/// resolves on its own — exactly when its own page loads and decodes — so a
/// missing or unreadable page leaves only its own slot empty and the
/// partner still shows.
pub fn load_zip_pair(src: &mut ZipSource, start: usize) -> (r: SlotPair<image::DynamicImage>)
    requires
        old(src).wf(),
        start + 1 <= usize::MAX,
    ensures
        final(src).wf(),
        final(src).pages == old(src).pages,
        zip_entry_names(final(src).archive) == zip_entry_names(old(src).archive),
        r.lead is Some == spec_zip_slot_ok(*old(src), start as int),
        r.partner is Some == spec_zip_slot_ok(*old(src), start + 1),
{
    let lead = load_zip_page(src, start);
    let partner = load_zip_page(src, start + 1);
    SlotPair { lead, partner }
}

} // verus!
