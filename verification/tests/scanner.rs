use image_messie::paths::split_file_name;
use image_messie::scanner::{file_info_for, is_image_extension};

#[test]
fn image_extensions_are_recognised() {
    for ext in ["jpg", "jpeg", "heic", "heif", "png", "tiff", "tif", "bmp", "gif", "webp"] {
        assert!(is_image_extension(ext), "{ext}");
    }
    for ext in ["JPG", "txt", "", "jpgx", "raw"] {
        assert!(!is_image_extension(ext), "{ext}");
    }
}

#[test]
fn image_file_is_recorded_in_lower_case() {
    let info = file_info_for("/photos/DSC_0354.JPG", 2048).expect("an image");
    assert_eq!(info.path, "/photos/DSC_0354.JPG");
    assert_eq!(info.size_bytes, 2048);
    assert_eq!(info.extension, "jpg");
    assert_eq!(info.stem, "dsc_0354");
    assert_eq!(info.filename, "DSC_0354.JPG");
}

#[test]
fn non_image_files_are_skipped() {
    assert!(file_info_for("/photos/notes.txt", 1).is_none());
    assert!(file_info_for("/photos/README", 1).is_none());
    assert!(file_info_for("/photos/.jpg", 1).is_none());
    assert!(file_info_for("/photos/..", 1).is_none());
    assert!(file_info_for("/", 1).is_none());
}

#[test]
fn stem_keeps_all_but_the_last_extension() {
    let info = file_info_for("holiday.tar.Png", 0).expect("an image");
    assert_eq!(info.stem, "holiday.tar");
    assert_eq!(info.extension, "png");
    assert_eq!(info.filename, "holiday.tar.Png");
}

#[test]
fn split_file_name_follows_path_rules() {
    assert_eq!(split_file_name("photo.jpg"), ("photo", Some("jpg")));
    assert_eq!(split_file_name(".bashrc"), (".bashrc", None));
    assert_eq!(split_file_name("..x"), (".", Some("x")));
    assert_eq!(split_file_name("name."), ("name", Some("")));
    assert_eq!(split_file_name("plain"), ("plain", None));
}

#[test]
fn split_file_name_matches_path_stem_and_extension() {
    for name in ["photo.jpg", ".bashrc", "..x", "name.", "plain", "a.b.c", ".a.b", "x.."] {
        let path = std::path::Path::new(name);
        let stem = path.file_stem().and_then(|s| s.to_str()).unwrap();
        let ext = path.extension().and_then(|e| e.to_str());
        assert_eq!(split_file_name(name), (stem, ext), "{name}");
    }
}
