use std::path::Path;

use image_messie::metadata::{exif_data_from_values, exif_from_bytes, field_to_string, ExifValue};
use image_messie::organizer::target_dir;
use image_messie::text::trim_white_space;

/// A little-endian TIFF block holding the given ASCII fields of IFD0.
fn tiff_with_ascii_fields(fields: &[(u16, &str)]) -> Vec<u8> {
    let mut out = vec![b'I', b'I', 42, 0, 8, 0, 0, 0];
    let count = fields.len() as u16;
    out.extend_from_slice(&count.to_le_bytes());
    let mut data_offset = 8 + 2 + 12 * fields.len() as u32 + 4;
    let mut data = Vec::new();
    for (tag, text) in fields {
        let mut bytes = text.as_bytes().to_vec();
        bytes.push(0);
        out.extend_from_slice(&tag.to_le_bytes());
        out.extend_from_slice(&2u16.to_le_bytes());
        out.extend_from_slice(&(bytes.len() as u32).to_le_bytes());
        if bytes.len() <= 4 {
            let mut inline = bytes.clone();
            inline.resize(4, 0);
            out.extend_from_slice(&inline);
        } else {
            out.extend_from_slice(&data_offset.to_le_bytes());
            data_offset += bytes.len() as u32;
            data.extend_from_slice(&bytes);
        }
    }
    out.extend_from_slice(&0u32.to_le_bytes());
    out.extend_from_slice(&data);
    out
}

/// A JPEG file whose APP1 segment holds the given EXIF fields.
fn jpeg_with_exif(fields: &[(u16, &str)]) -> Vec<u8> {
    let tiff = tiff_with_ascii_fields(fields);
    let mut out = vec![0xFF, 0xD8, 0xFF, 0xE1];
    let len = (2 + 6 + tiff.len()) as u16;
    out.extend_from_slice(&len.to_be_bytes());
    out.extend_from_slice(b"Exif\0\0");
    out.extend_from_slice(&tiff);
    out.extend_from_slice(&[0xFF, 0xD9]);
    out
}

const MODEL: u16 = 0x0110;
const DATE_TIME: u16 = 0x0132;

fn nikon_jpeg() -> Vec<u8> {
    jpeg_with_exif(&[(MODEL, "NIKON D3300"), (DATE_TIME, "2023:03:18 14:22:05")])
}

#[test]
fn file_without_exif_returns_empty_ok() {
    let contents = b"[package]\nname = \"image_messie\"\nversion = \"0.1.0\"\nedition = \"2021\"\n";
    let exif = exif_from_bytes(contents);
    assert!(
        exif.year.is_none()
            && exif.month.is_none()
            && exif.camera_model.is_none()
            && exif.date_warning.is_none(),
        "Expected all-None ExifData for a file with no EXIF, got: {exif:?}"
    );
}

#[test]
fn dsc_jpeg_exif_fields_are_correct() {
    let exif = exif_from_bytes(&nikon_jpeg());

    assert_eq!(exif.year.as_deref(), Some("2023"), "year mismatch");
    assert_eq!(exif.month.as_deref(), Some("03"), "month mismatch");
    assert_eq!(exif.month_name.as_deref(), Some("March"), "month_name mismatch");
    assert_eq!(exif.camera_model.as_deref(), Some("NIKON D3300"), "camera_model mismatch");
    assert!(
        exif.date_warning.is_none(),
        "no date_warning expected for a well-formed EXIF DateTime"
    );
}

#[test]
fn dsc_jpeg_routes_to_correct_target_dir() {
    let exif = exif_from_bytes(&nikon_jpeg());
    let (dir, is_unknown) = target_dir("/dst", &exif);

    assert!(!is_unknown, "DSC_0354.JPG should not route to UNKNOWN/");
    assert_eq!(
        Path::new(&dir),
        Path::new("/dst/2023/03_March/NIKON_D3300"),
        "unexpected target directory"
    );
}

#[test]
fn exif_in_a_bare_tiff_is_read() {
    let exif = exif_from_bytes(&tiff_with_ascii_fields(&[
        (MODEL, "  Canon EOS R5 "),
        (DATE_TIME, "1999:12:31 23:59:59"),
    ]));
    assert_eq!(exif.year.as_deref(), Some("1999"));
    assert_eq!(exif.month.as_deref(), Some("12"));
    assert_eq!(exif.day.as_deref(), Some("31"));
    assert_eq!(exif.month_name.as_deref(), Some("December"));
    assert_eq!(exif.camera_model.as_deref(), Some("Canon EOS R5"));
    assert!(exif.gps_lat.is_none() && exif.gps_lon.is_none());
}

#[test]
fn invalid_date_falls_back_to_first_of_january_2000() {
    let exif = exif_from_bytes(&jpeg_with_exif(&[
        (MODEL, "NIKON D3300"),
        (DATE_TIME, " 2023:02:30 10:00:00 "),
    ]));
    assert_eq!(exif.year.as_deref(), Some("2000"));
    assert_eq!(exif.month.as_deref(), Some("01"));
    assert_eq!(exif.day.as_deref(), Some("01"));
    assert_eq!(exif.month_name.as_deref(), Some("January"));
    assert_eq!(exif.date_warning.as_deref(), Some("2023:02:30 10:00:00"));
    let (dir, unknown) = target_dir("/dst", &exif);
    assert!(!unknown);
    assert_eq!(dir, "/dst/2000/01_January/NIKON_D3300");
}

#[test]
fn missing_date_leaves_date_fields_empty() {
    let exif = exif_from_bytes(&jpeg_with_exif(&[(MODEL, "NIKON D3300")]));
    assert!(exif.year.is_none() && exif.month.is_none() && exif.month_name.is_none());
    assert!(exif.date_warning.is_none());
    assert_eq!(exif.camera_model.as_deref(), Some("NIKON D3300"));
    assert!(target_dir("/dst", &exif).1);
}

#[test]
fn ascii_parts_are_joined_and_bad_utf8_dropped() {
    let value = ExifValue::Ascii(vec![b"NIKON".to_vec(), vec![0xFF, 0xFE], b" D3300".to_vec()]);
    assert_eq!(field_to_string(&value), "NIKON D3300");
    let other = ExifValue::Other("[1/1, 2/1]".to_string());
    assert_eq!(field_to_string(&other), "[1/1, 2/1]");
    assert_eq!(field_to_string(&ExifValue::Ascii(vec![])), "");
}

#[test]
fn values_fill_the_metadata() {
    let exif = exif_data_from_values(
        Some(ExifValue::Ascii(vec![b"2024:07:04 08:00:00".to_vec()])),
        Some(ExifValue::Ascii(vec![b"\tPixel 8 ".to_vec()])),
        Some(ExifValue::Other("lat".to_string())),
        None,
    );
    assert_eq!(exif.year.as_deref(), Some("2024"));
    assert_eq!(exif.month.as_deref(), Some("07"));
    assert_eq!(exif.day.as_deref(), Some("04"));
    assert_eq!(exif.month_name.as_deref(), Some("July"));
    assert_eq!(exif.camera_model.as_deref(), Some("Pixel 8"));
    assert_eq!(exif.gps_lat.as_deref(), Some("lat"));
    assert!(exif.gps_lon.is_none() && exif.date_warning.is_none());
}

#[test]
fn trim_removes_unicode_white_space() {
    assert_eq!(trim_white_space("  a b \t\n"), "a b");
    assert_eq!(trim_white_space("\u{3000}x\u{a0}"), "x");
    assert_eq!(trim_white_space(" \u{2028} "), "");
    assert_eq!(trim_white_space("x"), "x");
    for s in ["  a b \t\n", "\u{3000}x\u{a0}", "\u{85}\u{200b}y\u{1680}", ""] {
        assert_eq!(trim_white_space(s), s.trim(), "{s:?}");
    }
}
