//! Which files are images, and what is recorded of each.

use vstd::prelude::*;

use crate::models::FileInfo;
use crate::paths::{extension_of_name, file_name_of, path_file_name, split_file_name, stem_of_name};
use crate::text::{ascii_lower, is_ascii_text, lemma_ascii_subrange, lowercase_of, same_text, to_lowercase};

verus! {

/// The extensions, in lower case, of the files taken for images.
pub open spec fn is_image_extension_text(ext: Seq<char>) -> bool {
    ||| ext == "jpg"@
    ||| ext == "jpeg"@
    ||| ext == "heic"@
    ||| ext == "heif"@
    ||| ext == "png"@
    ||| ext == "tiff"@
    ||| ext == "tif"@
    ||| ext == "bmp"@
    ||| ext == "gif"@
    ||| ext == "webp"@
}

/// The image extensions are exactly jpg, jpeg, heic, heif, png, tiff, tif,
/// bmp, gif and webp; any other text (`mp4`, `JPG`, the empty text) is not
/// one.
pub proof fn lemma_image_extensions_are_exactly(ext: Seq<char>)
    ensures
        is_image_extension_text(ext) <==> (ext == "jpg"@ || ext == "jpeg"@ || ext == "heic"@
            || ext == "heif"@ || ext == "png"@ || ext == "tiff"@ || ext == "tif"@ || ext
            == "bmp"@ || ext == "gif"@ || ext == "webp"@),
{
}

/// Whether `ext` (lower case, without the dot) is one of the image
/// extensions: jpg, jpeg, heic, heif, png, tiff, tif, bmp, gif, webp.
pub fn is_image_extension(ext: &str) -> (r: bool)
    ensures
        r == is_image_extension_text(ext@),
        r <==> (ext@ == "jpg"@ || ext@ == "jpeg"@ || ext@ == "heic"@ || ext@ == "heif"@ || ext@
            == "png"@ || ext@ == "tiff"@ || ext@ == "tif"@ || ext@ == "bmp"@ || ext@ == "gif"@
            || ext@ == "webp"@),
{
    same_text(ext, "jpg") || same_text(ext, "jpeg") || same_text(ext, "heic") || same_text(
        ext,
        "heif",
    ) || same_text(ext, "png") || same_text(ext, "tiff") || same_text(ext, "tif") || same_text(
        ext,
        "bmp",
    ) || same_text(ext, "gif") || same_text(ext, "webp")
}

/// The file name of `path`, or the empty text when it has none.
pub open spec fn file_name_text(path: Seq<char>) -> Seq<char> {
    match file_name_of(path) {
        Some(name) => name,
        None => seq![],
    }
}

/// The lower-cased extension of `path`, or the empty text when it has none.
pub open spec fn extension_text(path: Seq<char>) -> Seq<char> {
    match file_name_of(path) {
        Some(name) => match extension_of_name(name) {
            Some(ext) => lowercase_of(ext),
            None => seq![],
        },
        None => seq![],
    }
}

/// The lower-cased stem of `path`, or the empty text when it has none.
pub open spec fn stem_text(path: Seq<char>) -> Seq<char> {
    match file_name_of(path) {
        Some(name) => lowercase_of(stem_of_name(name)),
        None => seq![],
    }
}

/// Whether `info` records the file at `path` of `size_bytes` bytes.
pub open spec fn records(info: FileInfo, path: Seq<char>, size_bytes: u64) -> bool {
    &&& info.path@ == path
    &&& info.size_bytes == size_bytes
    &&& info.stem@ == stem_text(path)
    &&& info.extension@ == extension_text(path)
    &&& info.filename@ == file_name_text(path)
}

/// For a file name of ASCII text, the recorded stem and extension are the
/// name's stem and extension with `A`–`Z` in lower case.
pub open spec fn ascii_name_lowered(info: FileInfo, path: Seq<char>) -> bool {
    match file_name_of(path) {
        Some(name) => is_ascii_text(name) ==> {
            &&& info.stem@ == ascii_lower(stem_of_name(name))
            &&& info.extension@ == match extension_of_name(name) {
                Some(ext) => ascii_lower(ext),
                None => seq![],
            }
        },
        None => true,
    }
}

/// What is recorded of a file found while scanning: nothing when its
/// extension (in any case) is not an image extension, else its path, size,
/// lower-cased stem and extension, and file name.
pub fn file_info_for(path: &str, size_bytes: u64) -> (r: Option<FileInfo>)
    ensures
        r is Some <==> is_image_extension_text(extension_text(path@)),
        ({
            let e = extension_text(path@);
            r is Some <==> (e == "jpg"@ || e == "jpeg"@ || e == "heic"@ || e == "heif"@ || e
                == "png"@ || e == "tiff"@ || e == "tif"@ || e == "bmp"@ || e == "gif"@ || e
                == "webp"@)
        }),
        r matches Some(info) ==> records(info, path@, size_bytes),
        r matches Some(info) ==> ascii_name_lowered(info, path@),
{
    let name = path_file_name(path);
    let (stem, extension) = match &name {
        Some(n) => {
            let (stem, ext) = split_file_name(n.as_str());
            proof {
                if is_ascii_text(n@) {
                    lemma_ascii_subrange(n@, 0, stem@.len() as int);
                    if let Some(e) = ext {
                        lemma_ascii_subrange(n@, n@.len() - e@.len(), n@.len() as int);
                    }
                }
            }
            let extension = match ext {
                Some(e) => to_lowercase(e),
                None => String::new(),
            };
            (to_lowercase(stem), extension)
        },
        None => (String::new(), String::new()),
    };
    if !is_image_extension(extension.as_str()) {
        return None;
    }
    let filename = match &name {
        Some(n) => n.clone(),
        None => String::new(),
    };
    Some(FileInfo { path: String::from_str(path), size_bytes, stem, extension, filename })
}

} // verus!
