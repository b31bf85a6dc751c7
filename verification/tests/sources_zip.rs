use std::io::{Cursor, Write};

use manga_reader::config::SourceMode;
use manga_reader::cursor::{ViewSlots, ViewState};
use manga_reader::config::PageViewOptions;
use manga_reader::decode::{decode_page, load_zip_pair};
use manga_reader::source::{
    build_page_list, classify_name, dec_string, is_container_name, is_image_name, locate_name,
    pdf_page_names, start_index, OpenError,
};
use manga_reader::zipsrc::ZipSource;

fn zip_bytes(entries: &[(&str, &[u8])]) -> Vec<u8> {
    let mut writer = zip::ZipWriter::new(Cursor::new(Vec::new()));
    let options = zip::write::SimpleFileOptions::default();
    for (name, data) in entries {
        writer.start_file(name.to_string(), options).unwrap();
        writer.write_all(data).unwrap();
    }
    writer.finish().unwrap().into_inner()
}

fn tiny_png() -> Vec<u8> {
    let img = image::RgbImage::new(2, 2);
    let mut out = Cursor::new(Vec::new());
    image::DynamicImage::ImageRgb8(img)
        .write_to(&mut out, image::ImageFormat::Png)
        .unwrap();
    out.into_inner()
}

#[test]
fn zip_source_enumerates_in_natural_order() {
    let bytes = zip_bytes(&[
        ("b.jpg", b"x"),
        ("a.png", b"x"),
        ("c10.png", b"x"),
        ("c2.png", b"x"),
    ]);
    let src = ZipSource::open(bytes).unwrap();
    assert_eq!(src.pages, vec!["a.png", "b.jpg", "c2.png", "c10.png"]);

    // double right-to-left at page 0: the later page takes the left slot
    let view = ViewState::new(PageViewOptions::DoubleRL, false, 0, src.pages.len())
        .resolve_view();
    match view {
        ViewSlots::Two { left: Some(l), right: Some(r) } => {
            assert_eq!(src.pages[l], "b.jpg");
            assert_eq!(src.pages[r], "a.png");
        }
        other => panic!("unexpected view {:?}", other),
    }
}

#[test]
fn zip_source_skips_non_image_entries() {
    let bytes = zip_bytes(&[("notes.txt", b"x"), ("p1.png", b"x"), ("thumbs.db", b"x")]);
    let src = ZipSource::open(bytes).unwrap();
    assert_eq!(src.pages, vec!["p1.png"]);
}

#[test]
fn zip_without_images_reports_no_images() {
    let bytes = zip_bytes(&[("readme.txt", b"x")]);
    match ZipSource::open(bytes) {
        Err(OpenError::NoImages) => {}
        other => panic!("expected the no-images failure, got {:?}", other.map(|s| s.pages)),
    }
}

#[test]
fn garbage_bytes_report_bad_container() {
    match ZipSource::open(b"this is not an archive".to_vec()) {
        Err(OpenError::BadContainer) => {}
        other => panic!("expected the bad-container failure, got {:?}", other.map(|s| s.pages)),
    }
}

#[test]
fn read_page_extracts_by_exact_name_and_misses_are_empty() {
    let bytes = zip_bytes(&[("a.png", b"alpha"), ("b.png", b"beta")]);
    let mut src = ZipSource::open(bytes).unwrap();
    assert_eq!(src.read_page(&"b.png".to_string()).unwrap(), b"beta");
    assert_eq!(src.read_page(&"a.png".to_string()).unwrap(), b"alpha");
    assert!(src.read_page(&"missing.png".to_string()).is_none());
}

#[test]
fn one_bad_page_never_blocks_its_partner() {
    let png = tiny_png();
    let bytes = zip_bytes(&[("a.png", b"not image data"), ("b.png", png.as_slice())]);
    let mut src = ZipSource::open(bytes).unwrap();
    let pair = load_zip_pair(&mut src, 0);
    assert!(pair.lead.is_none(), "garbage bytes must leave an empty slot");
    assert!(pair.partner.is_some(), "the partner must still resolve");
}

#[test]
fn decode_accepts_sniffed_formats_and_rejects_garbage() {
    let png = tiny_png();
    assert!(decode_page(&png).is_some());
    assert!(decode_page(&b"?????".to_vec()).is_none());
}

#[test]
fn unsniffable_bytes_fall_back_to_tga() {
    // TGA has no magic bytes: sniffing fails, and only the one fallback
    // attempt decodes the page
    let img = image::RgbImage::from_pixel(2, 3, image::Rgb([1, 2, 3]));
    let mut out = Cursor::new(Vec::new());
    image::DynamicImage::ImageRgb8(img)
        .write_to(&mut out, image::ImageFormat::Tga)
        .unwrap();
    let tga = out.into_inner();
    assert!(image::guess_format(&tga).is_err(), "TGA must defeat sniffing");
    let decoded = decode_page(&tga).expect("the TGA fallback must decode it");
    assert_eq!(decoded.width(), 2);
    assert_eq!(decoded.height(), 3);
}

#[test]
fn pair_past_the_end_is_empty() {
    let png = tiny_png();
    let bytes = zip_bytes(&[("only.png", png.as_slice())]);
    let mut src = ZipSource::open(bytes).unwrap();
    let pair = load_zip_pair(&mut src, 0);
    assert!(pair.lead.is_some());
    assert!(pair.partner.is_none());
    let pair = load_zip_pair(&mut src, 7);
    assert!(pair.lead.is_none() && pair.partner.is_none());
}

#[test]
fn requested_name_absent_from_walk_reads_empty() {
    // the rar walk scans entry names in order and extracts the first match;
    // an absent name leaves nothing to extract
    let walk = vec!["x1.png".to_string(), "x2.png".to_string()];
    assert_eq!(locate_name(&walk, &"x2.png".to_string()), Some(1));
    assert_eq!(locate_name(&walk, &"nope.png".to_string()), None);
}

#[test]
fn repeated_names_collapse_to_one_page() {
    let names = vec![
        "a.png".to_string(),
        "b.png".to_string(),
        "a.png".to_string(),
        "a.png".to_string(),
    ];
    let pages = build_page_list(names).unwrap();
    assert_eq!(pages, vec!["a.png", "b.png"]);
}

#[test]
fn page_lists_filter_sort_and_fail_when_empty() {
    let names = vec![
        "10.png".to_string(),
        "notes.txt".to_string(),
        "2.png".to_string(),
    ];
    let pages = build_page_list(names).unwrap();
    assert_eq!(pages, vec!["2.png", "10.png"]);
    assert_eq!(
        build_page_list(vec!["a.txt".to_string()]),
        Err(OpenError::NoImages)
    );
}

#[test]
fn start_index_finds_the_opened_file() {
    let pages = vec!["a.png".to_string(), "b.png".to_string(), "c.png".to_string()];
    assert_eq!(start_index(&pages, &Some("b.png".to_string())), 1);
    assert_eq!(start_index(&pages, &Some("zz.png".to_string())), 0);
    assert_eq!(start_index(&pages, &None), 0);
}

#[test]
fn names_classify_by_extension() {
    assert_eq!(classify_name("book.zip"), SourceMode::Zip);
    assert_eq!(classify_name("book.CBZ"), SourceMode::Zip);
    assert_eq!(classify_name("book.cbr"), SourceMode::Rar);
    assert_eq!(classify_name("book.rar"), SourceMode::Rar);
    assert_eq!(classify_name("book.pdf"), SourceMode::Pdf);
    assert_eq!(classify_name("book.png"), SourceMode::Folder);
    assert_eq!(classify_name("folder"), SourceMode::Folder);

    assert!(is_image_name("page.PNG"));
    assert!(is_image_name("page.webp"));
    assert!(!is_image_name("page.txt"));
    assert!(is_container_name("x.cbz"));
    assert!(!is_container_name("x.png"));
}

#[test]
fn pdf_pages_get_synthetic_names_in_order() {
    let names = pdf_page_names(12);
    assert_eq!(names.len(), 12);
    assert_eq!(names[0], "pdf_page_0");
    assert_eq!(names[9], "pdf_page_9");
    assert_eq!(names[11], "pdf_page_11");
    assert_eq!(dec_string(0), "0");
    assert_eq!(dec_string(907), "907");
}

#[test]
fn cached_pages_come_back_equal() {
    let mut cache = manga_reader::prefetch::PageCache::new(true, 2);
    let img = image::DynamicImage::ImageRgb8(image::RgbImage::from_pixel(
        3,
        2,
        image::Rgb([7, 8, 9]),
    ));
    cache.put(0, img.clone());
    let back = manga_reader::decode::cached_page(&cache, 0).unwrap();
    assert_eq!(back.to_rgb8().as_raw(), img.to_rgb8().as_raw());
    assert!(manga_reader::decode::cached_page(&cache, 1).is_none());
}
