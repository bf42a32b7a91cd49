use akaibu::archive::FileEntry;
use akaibu::convert::{convert_resource, decoder_for, get_resource_type, DecoderKind};
use akaibu::error::AkaibuError;
use akaibu::path::make_entry;
use akaibu::resource::{DecodedImage, ResourceType};
use akaibu::scheme::Scheme;

fn pf8_bytes(entries: &[(&[u8], &[u8])]) -> Vec<u8> {
    let table: usize = entries.iter().map(|(n, _)| 4 + n.len() + 12).sum();
    let index_size = 4 + table;
    let mut offset = 7 + index_size;
    let mut v = b"pf8".to_vec();
    v.extend_from_slice(&(index_size as u32).to_le_bytes());
    v.extend_from_slice(&(entries.len() as u32).to_le_bytes());
    for (name, content) in entries {
        v.extend_from_slice(&(name.len() as u32).to_le_bytes());
        v.extend_from_slice(name);
        v.extend_from_slice(&0u32.to_le_bytes());
        v.extend_from_slice(&(offset as u32).to_le_bytes());
        v.extend_from_slice(&(content.len() as u32).to_le_bytes());
        offset += content.len();
    }
    let key = sha1_smol::Sha1::from(&v[7..]).digest().bytes();
    for (_, content) in entries {
        for (i, b) in content.iter().enumerate() {
            v.push(b ^ key[i % 20]);
        }
    }
    v
}

fn buriko_bytes(entries: &[(&[u8], &[u8])]) -> Vec<u8> {
    let mut v = b"BURIKO ARC20".to_vec();
    v.extend_from_slice(&(entries.len() as u32).to_le_bytes());
    let mut offset = 0u32;
    for (name, content) in entries {
        let mut record = vec![0u8; 0x80];
        record[..name.len()].copy_from_slice(name);
        record[0x60..0x64].copy_from_slice(&offset.to_le_bytes());
        record[0x64..0x68].copy_from_slice(&(content.len() as u32).to_le_bytes());
        v.extend_from_slice(&record);
        offset += content.len() as u32;
    }
    for (_, content) in entries {
        v.extend_from_slice(content);
    }
    v
}

#[test]
fn pf8_single_entry_tree_and_extract() {
    let data = pf8_bytes(&[(b"a/b.txt", b"hello")]);
    let (archive, mut nav) = Scheme::Pf8.extract(data).unwrap();
    let root = nav.get_current();
    assert_eq!(root.directories, vec!["a".to_string()]);
    assert!(root.files.is_empty());
    assert!(!nav.has_parent());
    assert_eq!(nav.move_dir(&"a".to_string()), Ok(()));
    assert!(nav.has_parent());
    let inside = nav.get_current();
    assert!(inside.directories.is_empty());
    assert_eq!(inside.files.len(), 1);
    assert_eq!(inside.files[0].file_name, "b.txt");
    assert_eq!(inside.files[0].full_path, "a/b.txt");
    assert_eq!(inside.files[0].file_size, 5);
    let bytes = archive.extract(&inside.files[0]).unwrap();
    assert_eq!(bytes.len(), 5);
    assert_eq!(bytes, b"hello".to_vec());
}

#[test]
fn pf8_extraction_is_repeatable() {
    let data = pf8_bytes(&[(b"x.bin", &[1, 2, 3, 4, 5, 6, 7, 8, 9, 10, 11, 12, 13, 14, 15, 16, 17, 18, 19, 20, 21, 22]), (b"d\\y.bin", b"yy")]);
    let (archive, _) = Scheme::Pf8.extract(data).unwrap();
    let files = archive.get_files();
    assert_eq!(files.len(), 2);
    let first = archive.extract(&files[0]).unwrap();
    let second = archive.extract(&files[0]).unwrap();
    assert_eq!(first, second);
    assert_eq!(first, (1u8..=22).collect::<Vec<u8>>());
    assert_eq!(archive.extract(&files[1]).unwrap(), b"yy".to_vec());
}

#[test]
fn pf8_truncated_index_is_malformed() {
    let mut data = pf8_bytes(&[(b"a/b.txt", b"hello")]);
    data.truncate(20);
    assert!(matches!(Scheme::Pf8.extract(data), Err(AkaibuError::MalformedIndex)));
    assert!(matches!(Scheme::Pf8.extract(b"pf8".to_vec()), Err(AkaibuError::MalformedIndex)));
}

#[test]
fn pf8_entry_outside_data_is_malformed() {
    let mut data = pf8_bytes(&[(b"a.txt", b"hello")]);
    data.truncate(data.len() - 1);
    assert!(matches!(Scheme::Pf8.extract(data), Err(AkaibuError::MalformedIndex)));
}

#[test]
fn unimplemented_scheme_reports_it() {
    assert!(matches!(Scheme::Acv1.extract(vec![0; 64]), Err(AkaibuError::Unimplemented)));
}

#[test]
fn foreign_entry_is_not_found() {
    let (archive, _) = Scheme::Pf8.extract(pf8_bytes(&[(b"a/b.txt", b"hello")])).unwrap();
    let stranger = FileEntry {
        file_name: "c.txt".to_string(),
        full_path: "a/c.txt".to_string(),
        dirs: vec!["a".to_string()],
        file_offset: 0,
        file_size: 1,
    };
    assert_eq!(archive.extract(&stranger), Err(AkaibuError::EntryNotFound));
}

#[test]
fn back_dir_at_root_changes_nothing() {
    let (_, mut nav) = Scheme::Pf8.extract(pf8_bytes(&[(b"a/b.txt", b"hello")])).unwrap();
    assert_eq!(nav.back_dir(), Err(AkaibuError::EntryNotFound));
    assert!(!nav.has_parent());
    assert_eq!(nav.move_dir(&"nope".to_string()), Err(AkaibuError::EntryNotFound));
    assert_eq!(nav.move_dir(&"a".to_string()), Ok(()));
    assert_eq!(nav.current_path(), vec!["a".to_string()]);
    assert_eq!(nav.back_dir(), Ok(()));
    assert!(nav.current_path().is_empty());
}

fn walk(nav: &mut akaibu::archive::NavigableDirectory, found: &mut Vec<String>) {
    let here = nav.get_current();
    for f in &here.files {
        found.push(f.full_path.clone());
    }
    for d in &here.directories {
        nav.move_dir(d).unwrap();
        walk(nav, found);
        nav.back_dir().unwrap();
    }
}

#[test]
fn every_entry_is_reachable_by_navigation() {
    let data = buriko_bytes(&[(b"top.txt", b"t"), (b"s/one.txt", b"1"), (b"s/deep/two.txt", b"22"), (b"s/three.txt", b"333")]);
    let (archive, mut nav) = Scheme::Buriko.extract(data).unwrap();
    let mut found: Vec<String> = Vec::new();
    walk(&mut nav, &mut found);
    let mut all: Vec<String> = archive.get_files().iter().map(|f| f.full_path.clone()).collect();
    found.sort();
    all.sort();
    assert_eq!(found, all);
    assert_eq!(all.len(), 4);
}

#[test]
fn buriko_entries_and_contents() {
    let data = buriko_bytes(&[(b"one.txt", b"abc"), (b"two.txt", b"de")]);
    let (archive, nav) = Scheme::Buriko.extract(data).unwrap();
    let files = archive.get_files();
    assert_eq!(files.len(), 2);
    assert_eq!(files[0].file_name, "one.txt");
    assert_eq!(files[0].file_offset, 16 + 2 * 0x80);
    assert_eq!(archive.extract(&files[1]).unwrap(), b"de".to_vec());
    assert_eq!(nav.get_current().files.len(), 2);
}

#[test]
fn buriko_bad_offsets_are_malformed() {
    let mut data = buriko_bytes(&[(b"one.txt", b"abc")]);
    data.pop();
    assert!(matches!(Scheme::Buriko.extract(data), Err(AkaibuError::MalformedIndex)));
    let mut few = b"BURIKO ARC20".to_vec();
    few.extend_from_slice(&5u32.to_le_bytes());
    assert!(matches!(Scheme::Buriko.extract(few), Err(AkaibuError::MalformedIndex)));
}

#[test]
fn path_is_split_on_both_separators() {
    let e = make_entry(b"a\\b/c.txt", 7, 9);
    assert_eq!(e.dirs, vec!["a".to_string(), "b".to_string()]);
    assert_eq!(e.file_name, "c.txt");
    assert_eq!(e.full_path, "a\\b/c.txt");
    assert_eq!(e.file_offset, 7);
    assert_eq!(e.file_size, 9);
    let plain = make_entry(b"solo", 0, 0);
    assert!(plain.dirs.is_empty());
    assert_eq!(plain.file_name, "solo");
}

#[test]
fn path_with_invalid_utf8_is_decoded_lossily() {
    let e = make_entry(&[0x61, 0xff, 0x2f, 0x62], 0, 0);
    assert_eq!(e.dirs, vec!["a\u{fffd}".to_string()]);
    assert_eq!(e.file_name, "b");
}

fn tlg_decode(blob: &[u8]) -> Option<DecodedImage> {
    let (pixels, info, _) = tlg::TlgReader::new(std::io::Cursor::new(blob)).read().ok()?;
    let bytes_per_pixel = match info.pixel_layout {
        tlg::PixelLayout::Gray => 1,
        tlg::PixelLayout::Rgb => 3,
        tlg::PixelLayout::Rgba => 4,
    };
    Some(DecodedImage { pixels, width: info.width, height: info.height, bytes_per_pixel })
}

fn raster_decode(bytes: &[u8]) -> Option<DecodedImage> {
    let rgba = image::load_from_memory(bytes).ok()?.to_rgba8();
    let (width, height) = rgba.dimensions();
    Some(DecodedImage { pixels: rgba.into_raw(), width, height, bytes_per_pixel: 4 })
}

fn tlg0_image() -> Vec<u8> {
    let pixels: Vec<u8> = (0u8..24).collect();
    let mut tags = std::collections::HashMap::new();
    tags.insert("k".to_string(), "v".to_string());
    tlg::TlgWriter::from_rgba(pixels, tags, 3, 2, tlg::TlgType::Tlg5).write().unwrap()
}

#[test]
fn converted_tlg_entry_is_an_image() {
    let blob = tlg0_image();
    assert_eq!(&blob[..11], b"TLG0.0\x00sds\x1a");
    let (archive, _) = Scheme::Buriko.extract(buriko_bytes(&[(b"pic.tlg", &blob)])).unwrap();
    let entry = archive.get_files()[0].clone();
    let bytes = archive.extract(&entry).unwrap();
    assert_eq!(decoder_for(&bytes, false), DecoderKind::Tlg);
    match convert_resource(&archive, &entry, tlg_decode(&bytes)).unwrap() {
        ResourceType::Image { pixels, width, height } => {
            assert_eq!((width, height), (3, 2));
            assert_eq!(pixels.len(), 3 * 2 * 4);
            assert_eq!(pixels, (0u8..24).collect::<Vec<u8>>());
        }
        other => panic!("unexpected {:?}", other),
    }
}

#[test]
fn preview_falls_back_to_raster_formats() {
    let img = image::RgbaImage::from_raw(2, 1, vec![1, 2, 3, 4, 5, 6, 7, 8]).unwrap();
    let mut png = Vec::new();
    image::DynamicImage::ImageRgba8(img)
        .write_to(&mut png, image::ImageOutputFormat::Png)
        .unwrap();
    let (archive, _) = Scheme::Buriko
        .extract(buriko_bytes(&[(b"p.png", &png), (b"n.dat", b"plain")]))
        .unwrap();
    let files = archive.get_files().clone();
    assert_eq!(decoder_for(&png, true), DecoderKind::Raster);
    assert_eq!(decoder_for(&png, false), DecoderKind::NoDecoder);
    assert_eq!(decoder_for(b"plain", true), DecoderKind::NoDecoder);
    match get_resource_type(&archive, &files[0], raster_decode(&png)).unwrap() {
        ResourceType::Image { pixels, width, height } => {
            assert_eq!((width, height), (2, 1));
            assert_eq!(pixels, vec![1, 2, 3, 4, 5, 6, 7, 8]);
        }
        other => panic!("unexpected {:?}", other),
    }
    assert!(matches!(get_resource_type(&archive, &files[1], None), Ok(ResourceType::Other)));
    assert_eq!(
        convert_resource(&archive, &files[1], None).unwrap_err(),
        AkaibuError::UnrecognizedFormat(b"plain".to_vec())
    );
}

#[test]
fn repeated_paths_are_malformed() {
    let pf8 = pf8_bytes(&[(b"a/b.txt", b"one"), (b"a/b.txt", b"two")]);
    assert!(matches!(Scheme::Pf8.extract(pf8), Err(AkaibuError::MalformedIndex)));
    let buriko = buriko_bytes(&[(b"x.txt", b"1"), (b"y.txt", b"2"), (b"x.txt", b"3")]);
    assert!(matches!(Scheme::Buriko.extract(buriko), Err(AkaibuError::MalformedIndex)));
}

#[test]
fn missing_entry_is_not_converted() {
    let (archive, _) = Scheme::Buriko.extract(buriko_bytes(&[(b"one.txt", b"abc")])).unwrap();
    let stranger = make_entry(b"other.txt", 0, 1);
    assert_eq!(convert_resource(&archive, &stranger, None).unwrap_err(), AkaibuError::EntryNotFound);
    assert_eq!(get_resource_type(&archive, &stranger, None).unwrap_err(), AkaibuError::EntryNotFound);
}
