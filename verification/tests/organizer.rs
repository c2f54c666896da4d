use image_messie::calendar::{compact_timestamp, year_to_text, LocalDateTime};
use std::path::{Path, PathBuf};

use image_messie::models::{ExifData, FileInfo, Stats};
use image_messie::organizer::{
    camera_folder, candidate_filename, copy_destination, destination_filename,
    resolve_destination_filename, route_file, target_dir, unknown_dir,
};

fn make_exif(year: &str, month: &str, month_name: &str, model: &str) -> ExifData {
    ExifData {
        year: Some(year.into()),
        month: Some(month.into()),
        month_name: Some(month_name.into()),
        camera_model: Some(model.into()),
        ..Default::default()
    }
}

fn photo() -> FileInfo {
    FileInfo {
        path: "/src/photo.jpg".to_string(),
        size_bytes: 0,
        stem: "photo".into(),
        extension: "jpg".into(),
        filename: "photo.jpg".into(),
    }
}

#[test]
fn organizer_normalizes_camera_model_for_directory() {
    let exif = ExifData {
        year: Some("2024".into()),
        month: Some("01".into()),
        month_name: Some("January".into()),
        camera_model: Some("Canon EOS R5".into()),
        ..ExifData::default()
    };
    let (dir, is_unknown) = target_dir("/dst", &exif);
    assert!(!is_unknown);
    assert_eq!(Path::new(&dir), Path::new("/dst/2024/01_January/CANON_EOS_R5"));
}

#[test]
fn example_jpeg_without_exif_routes_to_unknown() {
    let (dir, is_unknown) = target_dir("/dst", &ExifData::default());

    assert!(is_unknown, "Missing EXIF should route to UNKNOWN/");
    assert_eq!(Path::new(&dir), Path::new("/dst/UNKNOWN"));
}

#[test]
fn target_dir_with_full_metadata() {
    let exif = make_exif("2023", "03", "March", "CANON_EOS_R5");
    let (dir, unknown) = target_dir("/dst", &exif);
    assert!(!unknown);
    assert_eq!(PathBuf::from(dir), PathBuf::from("/dst/2023/03_March/CANON_EOS_R5"));
}

#[test]
fn target_dir_missing_model_goes_to_unknown() {
    let exif = ExifData {
        year: Some("2023".into()),
        month: Some("03".into()),
        month_name: Some("March".into()),
        camera_model: None,
        ..Default::default()
    };
    let (dir, unknown) = target_dir("/dst", &exif);
    assert!(unknown);
    assert_eq!(PathBuf::from(dir), PathBuf::from("/dst/UNKNOWN"));
}

#[test]
fn target_dir_all_missing_goes_to_unknown() {
    let (dir, unknown) = target_dir("/dst", &ExifData::default());
    assert!(unknown);
    assert_eq!(PathBuf::from(dir), PathBuf::from("/dst/UNKNOWN"));
}

#[test]
fn resolve_filename_no_conflict() {
    // A folder that does not exist holds no file that could clash.
    let dir = PathBuf::from("/nonexistent_dir_abc123");
    let file = photo();
    let taken = dir.join(candidate_filename(&file)).exists();
    let name = resolve_destination_filename(&file, taken);
    assert_eq!(name, "photo.jpg");
}

#[test]
fn target_dir_exact_text() {
    let (dir, unknown) = target_dir("/dst", &make_exif("2023", "03", "March", "NIKON D3300"));
    assert!(!unknown);
    assert_eq!(dir, "/dst/2023/03_March/NIKON_D3300");
    let (dir, _) = target_dir("/dst/", &make_exif("2023", "03", "March", "NIKON D3300"));
    assert_eq!(dir, "/dst/2023/03_March/NIKON_D3300");
}

#[test]
fn target_dir_missing_year_or_month_goes_to_unknown() {
    let mut exif = make_exif("2023", "03", "March", "X");
    exif.year = None;
    assert_eq!(target_dir("out", &exif), ("out/UNKNOWN".to_string(), true));
    let mut exif = make_exif("2023", "03", "March", "X");
    exif.month_name = None;
    assert_eq!(target_dir("out", &exif), ("out/UNKNOWN".to_string(), true));
}

#[test]
fn empty_destination_gives_relative_folders() {
    assert_eq!(unknown_dir(""), "UNKNOWN");
    let (dir, _) = target_dir("", &make_exif("2020", "12", "December", "a b"));
    assert_eq!(dir, "2020/12_December/A_B");
}

#[test]
fn camera_model_starting_at_root_replaces_the_path() {
    let (dir, unknown) = target_dir("/dst", &make_exif("2023", "03", "March", "/cam"));
    assert!(!unknown);
    assert_eq!(dir, "/CAM");
}

#[test]
fn camera_folder_uses_unicode_upper_case() {
    assert_eq!(camera_folder("Canon EOS R5"), "CANON_EOS_R5");
    assert_eq!(camera_folder("straße cam"), "STRASSE_CAM");
    assert_eq!(camera_folder("  two  spaces "), "__TWO__SPACES_");
    assert_eq!(camera_folder(""), "");
}

#[test]
fn stamped_name_goes_between_stem_and_extension() {
    let file = photo();
    assert_eq!(candidate_filename(&file), "photo.jpg");
    assert_eq!(destination_filename(&file, None), "photo.jpg");
    assert_eq!(destination_filename(&file, Some("20240102030405")), "photo_20240102030405.jpg");
}

#[test]
fn taken_name_gets_a_timestamp() {
    let file = photo();
    let name = resolve_destination_filename(&file, true);
    assert_ne!(name, "photo.jpg");
    assert!(name.starts_with("photo_"));
    assert!(name.ends_with(".jpg"));
    let stamp = &name["photo_".len()..name.len() - ".jpg".len()];
    assert_eq!(stamp.len(), 14);
    assert!(stamp.chars().all(|c| c.is_ascii_digit()));
}

#[test]
fn copy_destination_strips_nul_characters() {
    let (dir, path) = copy_destination("/dst/20\0 23/\0UNKNOWN", "a.jpg");
    assert_eq!(dir, "/dst/20 23/UNKNOWN");
    assert_eq!(path, "/dst/20 23/UNKNOWN/a.jpg");
    let (dir, path) = copy_destination("/dst/", "a.jpg");
    assert_eq!(dir, "/dst/");
    assert_eq!(path, "/dst/a.jpg");
}

#[test]
fn route_without_metadata_goes_to_unknown() {
    assert_eq!(route_file("/dst", None), ("/dst/UNKNOWN".to_string(), true));
    let exif = make_exif("2023", "03", "March", "NIKON D3300");
    assert_eq!(
        route_file("/dst", Some(&exif)),
        ("/dst/2023/03_March/NIKON_D3300".to_string(), false)
    );
}

#[test]
fn stats_count_each_file_once() {
    let mut stats = Stats::default();
    stats.record_file(100, false);
    stats.record_file(50, true);
    stats.record_file(7, false);
    assert_eq!(stats.total_images, 2);
    assert_eq!(stats.total_non_images, 1);
    assert_eq!(stats.total_size_bytes, 157);
}

#[test]
fn year_is_written_as_chrono_writes_it() {
    assert_eq!(year_to_text(2023), "2023");
    assert_eq!(year_to_text(7), "0007");
    assert_eq!(year_to_text(0), "0000");
    assert_eq!(year_to_text(-5), "-0005");
    assert_eq!(year_to_text(-12345), "-12345");
    assert_eq!(year_to_text(10000), "+10000");
    for y in [-262143, -1000, -1, 0, 1, 999, 9999, 10000, 262142] {
        let date = chrono::NaiveDate::from_ymd_opt(y, 1, 1).unwrap();
        assert_eq!(year_to_text(y), date.format("%Y").to_string(), "{y}");
    }
}

#[test]
fn timestamp_is_written_as_chrono_writes_it() {
    let t = LocalDateTime {
        year: 2024,
        month: 1,
        day: 2,
        hour: 3,
        minute: 4,
        second: 5,
        nanosecond: 0,
    };
    assert_eq!(compact_timestamp(&t), "20240102030405");
    let leap = LocalDateTime { second: 59, nanosecond: 1_500_000_000, ..t };
    assert_eq!(compact_timestamp(&leap), "20240102030460");
    let dt = chrono::NaiveDate::from_ymd_opt(2024, 12, 31)
        .unwrap()
        .and_hms_opt(23, 59, 58)
        .unwrap();
    let same = LocalDateTime {
        year: 2024,
        month: 12,
        day: 31,
        hour: 23,
        minute: 59,
        second: 58,
        nanosecond: 0,
    };
    assert_eq!(compact_timestamp(&same), dt.format("%Y%m%d%H%M%S").to_string());
}

#[test]
fn normalized_model_keeps_its_folder() {
    for model in ["Canon EOS R5", "NIKON D3300", "pixel 8 pro", ""] {
        let e1 = make_exif("2023", "03", "March", model);
        let e2 = make_exif("2023", "03", "March", &camera_folder(model));
        assert_eq!(target_dir("/dst", &e1), target_dir("/dst", &e2), "{model}");
    }
}

#[test]
fn stats_room_check() {
    let stats = Stats { total_images: u64::MAX, total_non_images: 0, total_size_bytes: u64::MAX - 5 };
    assert!(stats.has_room_for(5, true));
    assert!(!stats.has_room_for(5, false));
    assert!(!stats.has_room_for(6, true));
}
