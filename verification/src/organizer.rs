//! Where an image goes: its target folder and the file name it gets there.

use vstd::prelude::*;

use crate::calendar::{
    compact_timestamp, is_valid_date_time, lemma_timestamp_identifies_time,
    lemma_timestamp_is_fourteen_digits, local_now, shown_second, timestamp_text, LocalDateTime,
};
use crate::models::{ExifData, FileInfo};
use crate::paths::{is_plain_name, join_path, joined, starts_with_backslash};
use crate::text::{
    ascii_upper, ascii_upper_char, is_ascii_text, push_char, remove_char, remove_char_from,
    replace_char, replace_char_in, to_uppercase, uppercase_of,
};

verus! {

/// The folder named after a camera model: upper-cased, with spaces turned
/// into underscores.
pub open spec fn camera_folder_name(model: Seq<char>) -> Seq<char> {
    replace_char(uppercase_of(model), ' ', '_')
}

/// The folder name of an ASCII camera model: its letters in upper case,
/// spaces turned into underscores.
pub open spec fn ascii_camera_folder_name(model: Seq<char>) -> Seq<char> {
    replace_char(ascii_upper(model), ' ', '_')
}

/// The camera folder is the upper-cased model with only its spaces changed:
/// each space becomes `_`, every other character (`-` and `_` among them)
/// stays as upper-casing left it.
pub proof fn lemma_camera_folder_changes_only_spaces(model: Seq<char>)
    ensures
        camera_folder_name(model).len() == uppercase_of(model).len(),
        forall|i: int|
            0 <= i < uppercase_of(model).len() ==> #[trigger] camera_folder_name(model)[i] == (if uppercase_of(
                model,
            )[i] == ' ' {
                '_'
            } else {
                uppercase_of(model)[i]
            }),
{
}

/// For an ASCII model the folder has one character per character of the
/// model: `_` for a space, the upper-case letter for `a`–`z`, and every
/// other character unchanged.
pub proof fn lemma_ascii_camera_folder_by_character(model: Seq<char>)
    ensures
        ascii_camera_folder_name(model).len() == model.len(),
        forall|i: int|
            0 <= i < model.len() ==> #[trigger] ascii_camera_folder_name(model)[i] == (if model[i]
                == ' ' {
                '_'
            } else {
                ascii_upper_char(model[i])
            }),
{
}

/// Normalizing an ASCII model gives ASCII text, and normalizing that again
/// changes nothing: a model already in folder form keeps its folder.
pub proof fn lemma_ascii_folder_name_is_stable(model: Seq<char>)
    requires
        is_ascii_text(model),
    ensures
        is_ascii_text(ascii_camera_folder_name(model)),
        ascii_camera_folder_name(ascii_camera_folder_name(model)) == ascii_camera_folder_name(model),
{
    let n = ascii_camera_folder_name(model);
    assert forall|i: int| 0 <= i < n.len() implies (#[trigger] n[i] as u32) < 128 by {
        assert((model[i] as u32) < 128);
    }
    assert forall|i: int| 0 <= i < n.len() implies #[trigger] ascii_camera_folder_name(n)[i] == n[i] by {
        let c = model[i];
        assert((c as u32) < 128);
        let u = ascii_upper_char(c);
        assert(ascii_upper_char(u) == u);
    }
    assert(ascii_camera_folder_name(n) =~= n);
}

/// The folder named after a month: its number, an underscore, its name.
pub open spec fn month_folder_name(month: Seq<char>, month_name: Seq<char>) -> Seq<char> {
    month + seq!['_'] + month_name
}

/// The folder for files whose metadata is incomplete.
pub open spec fn unknown_dir_of(destination: Seq<char>) -> Seq<char> {
    joined(destination, "UNKNOWN"@)
}

/// `destination/YEAR/MM_MonthName/CAMERA_MODEL`.
pub open spec fn sorted_dir_of(
    destination: Seq<char>,
    year: Seq<char>,
    month: Seq<char>,
    month_name: Seq<char>,
    model: Seq<char>,
) -> Seq<char> {
    joined(
        joined(joined(destination, year), month_folder_name(month, month_name)),
        camera_folder_name(model),
    )
}

/// Whether the names that sorting joins onto the destination are plain
/// names (no `/`, `\` or `:`, not `.` or `..`).
pub open spec fn has_plain_names(exif: ExifData) -> bool {
    &&& exif.year matches Some(y) ==> is_plain_name(y@)
    &&& exif.month matches Some(m) ==> is_plain_name(m@)
    &&& exif.month_name matches Some(mn) ==> is_plain_name(mn@)
    &&& exif.camera_model matches Some(cam) ==> is_plain_name(camera_folder_name(cam@))
}

/// Whether the metadata holds everything that sorting needs: year, month,
/// month name and camera model.
pub open spec fn has_sorting_metadata(exif: ExifData) -> bool {
    &&& exif.year is Some
    &&& exif.month is Some
    &&& exif.month_name is Some
    &&& exif.camera_model is Some
}

/// The target folder for metadata `exif` under `destination`, and whether
/// it is the folder for incomplete metadata.
pub open spec fn target_dir_of(destination: Seq<char>, exif: ExifData) -> (Seq<char>, bool) {
    match (exif.year, exif.month, exif.month_name, exif.camera_model) {
        (Some(y), Some(m), Some(mn), Some(cam)) => (
            sorted_dir_of(destination, y@, m@, mn@, cam@),
            false,
        ),
        _ => (unknown_dir_of(destination), true),
    }
}

/// Normalizes a camera model into a folder name: upper case, spaces
/// replaced by underscores.
pub fn camera_folder(model: &str) -> (r: String)
    ensures
        r@ == camera_folder_name(model@),
        is_ascii_text(model@) ==> r@ == ascii_camera_folder_name(model@),
        !r@.contains(' '),
        r@.len() == uppercase_of(model@).len(),
        forall|i: int|
            0 <= i < r@.len() ==> #[trigger] r@[i] == (if uppercase_of(model@)[i] == ' ' {
                '_'
            } else {
                uppercase_of(model@)[i]
            }),
        is_ascii_text(model@) ==> r@.len() == model@.len(),
        is_ascii_text(model@) ==> forall|i: int|
            0 <= i < model@.len() ==> #[trigger] r@[i] == (if model@[i] == ' ' {
                '_'
            } else {
                ascii_upper_char(model@[i])
            }),
{
    let upper = to_uppercase(model);
    let r = replace_char_in(upper.as_str(), ' ', '_');
    assert(!r@.contains(' ')) by {
        if r@.contains(' ') {
            let k = choose|k: int| 0 <= k < r@.len() && r@[k] == ' ';
            assert(r@[k] == replace_char(upper@, ' ', '_')[k]);
        }
    }
    r
}

/// The folder for files whose metadata is incomplete: `destination/UNKNOWN`.
pub fn unknown_dir(destination: &str) -> (r: String)
    ensures
        r@ == unknown_dir_of(destination@),
        !starts_with_backslash(destination@) ==> {
            &&& r@.len() >= destination@.len()
            &&& r@.take(destination@.len() as int) == destination@
        },
{
    proof {
        reveal_strlit("UNKNOWN");
        assert(is_plain_name("UNKNOWN"@)) by {
            assert("UNKNOWN"@.len() == 7);
            assert("UNKNOWN"@ != seq!['.']);
            assert("UNKNOWN"@ != seq!['.', '.']);
        }
    }
    join_path(destination, "UNKNOWN")
}

/// Calculates the target directory for a file from its EXIF data.
///
/// Returns `(target_dir, is_unknown)`: `destination/YYYY/MM_MonthName/CAMERA_MODEL`
/// and `false` when year, month, month name and camera model are all known,
/// and `destination/UNKNOWN` and `true` otherwise.
pub fn target_dir(destination: &str, exif: &ExifData) -> (r: (String, bool))
    ensures
        (r.0@, r.1) == target_dir_of(destination@, *exif),
        r.1 <==> !has_sorting_metadata(*exif),
        exif.camera_model matches Some(cam) ==> (!r.1 && is_ascii_text(cam@) ==> camera_folder_name(cam@)
            == ascii_camera_folder_name(cam@)),
        has_plain_names(*exif) && !starts_with_backslash(destination@) ==> {
            &&& r.0@.len() >= destination@.len()
            &&& r.0@.take(destination@.len() as int) == destination@
        },
        exif.camera_model matches Some(cam) ==> (has_sorting_metadata(*exif) && has_plain_names(
            *exif,
        ) && !starts_with_backslash(destination@) ==> {
            let u = uppercase_of(cam@);
            &&& r.0@.len() >= u.len()
            &&& forall|i: int|
                0 <= i < u.len() ==> r.0@[r.0@.len() - u.len() + i] == (if #[trigger] u[i] == ' ' {
                    '_'
                } else {
                    u[i]
                })
            &&& is_ascii_text(cam@) ==> forall|i: int|
                0 <= i < cam@.len() ==> r.0@[r.0@.len() - cam@.len() + i] == (if #[trigger] cam@[i]
                    == ' ' {
                    '_'
                } else {
                    ascii_upper_char(cam@[i])
                })
        }),
{
    match (&exif.year, &exif.month, &exif.month_name, &exif.camera_model) {
        (Some(y), Some(m), Some(mn), Some(cam)) => {
            let mut month_folder = String::from_str(m.as_str());
            push_char(&mut month_folder, '_');
            month_folder.append(mn.as_str());
            let cam_folder = camera_folder(cam.as_str());
            let year_dir = join_path(destination, y.as_str());
            let month_dir = join_path(year_dir.as_str(), month_folder.as_str());
            let dir = join_path(month_dir.as_str(), cam_folder.as_str());
            proof {
                assert(month_folder@ =~= month_folder_name(m@, mn@));
                if has_plain_names(*exif) && !starts_with_backslash(destination@) {
                    lemma_plain_concat(m@, mn@);
                    assert(!starts_with_backslash(year_dir@)) by {
                        if destination@.len() > 0 {
                            assert(year_dir@[0] == year_dir@.take(destination@.len() as int)[0]);
                        } else if y@.len() > 0 {
                            assert(y@[0] != '\\');
                        }
                    }
                    assert(!starts_with_backslash(month_dir@)) by {
                        if year_dir@.len() > 0 {
                            assert(month_dir@[0] == month_dir@.take(year_dir@.len() as int)[0]);
                        } else {
                            let f = month_folder@;
                            assert(f[0] != '\\');
                        }
                    }
                    lemma_keeps_prefix(destination@, year_dir@, month_dir@, dir@);
                    let n = cam_folder@.len();
                    let u = uppercase_of(cam@);
                    assert forall|i: int| 0 <= i < u.len() implies dir@[dir@.len() - u.len() + i]
                        == (if #[trigger] u[i] == ' ' { '_' } else { u[i] }) by {
                        assert(dir@.skip(dir@.len() - n)[i] == dir@[dir@.len() - n + i]);
                        assert(cam_folder@[i] == (if u[i] == ' ' { '_' } else { u[i] }));
                    }
                    if is_ascii_text(cam@) {
                        assert forall|i: int| 0 <= i < cam@.len() implies dir@[dir@.len()
                            - cam@.len() + i] == (if #[trigger] cam@[i] == ' ' {
                            '_'
                        } else {
                            ascii_upper_char(cam@[i])
                        }) by {
                            assert(dir@.skip(dir@.len() - n)[i] == dir@[dir@.len() - n + i]);
                            assert(cam_folder@[i] == (if cam@[i] == ' ' {
                                '_'
                            } else {
                                ascii_upper_char(cam@[i])
                            }));
                        }
                    }
                }
            }
            (dir, false)
        },
        _ => {
            (unknown_dir(destination), true)
        },
    }
}

/// A month folder made of plain names is a plain name.
proof fn lemma_plain_concat(month: Seq<char>, month_name: Seq<char>)
    requires
        is_plain_name(month),
        is_plain_name(month_name),
    ensures
        is_plain_name(month_folder_name(month, month_name)),
{
    let f = month_folder_name(month, month_name);
    assert forall|i: int| 0 <= i < f.len() implies #[trigger] f[i] != '/' && f[i] != '\\' && f[i]
        != ':' by {
        if i < month.len() {
            assert(f[i] == month[i]);
        } else if i > month.len() {
            assert(f[i] == month_name[i - month.len() - 1]);
        }
    }
    assert(f.len() >= 1 && f[month.len() as int] == '_');
}

/// Each of three joins keeps the destination as the beginning.
proof fn lemma_keeps_prefix(d: Seq<char>, a: Seq<char>, b: Seq<char>, c: Seq<char>)
    requires
        a.len() >= d.len() && a.take(d.len() as int) == d,
        b.len() >= a.len() && b.take(a.len() as int) == a,
        c.len() >= b.len() && c.take(b.len() as int) == b,
    ensures
        c.len() >= d.len() && c.take(d.len() as int) == d,
{
    assert(c.take(d.len() as int) =~= c.take(b.len() as int).take(a.len() as int).take(d.len() as int));
}

/// The name a file is first offered under: `stem.extension`.
pub open spec fn candidate_name_of(file: FileInfo) -> Seq<char> {
    file.stem@ + seq!['.'] + file.extension@
}

/// The name a file gets when `stem.extension` is taken: the timestamp goes
/// between stem and extension, `stem_TIMESTAMP.extension`.
pub open spec fn stamped_name_of(file: FileInfo, timestamp: Seq<char>) -> Seq<char> {
    file.stem@ + seq!['_'] + timestamp + seq!['.'] + file.extension@
}

/// The name a file is first offered under in its target folder.
pub fn candidate_filename(file: &FileInfo) -> (r: String)
    ensures
        r@ == candidate_name_of(*file),
{
    let mut name = String::from_str(file.stem.as_str());
    push_char(&mut name, '.');
    name.append(file.extension.as_str());
    name
}

/// The destination file name: `stem.extension` when no timestamp is given
/// (the name is free), `stem_TIMESTAMP.extension` when the name is taken and
/// `conflict_timestamp` holds the time of day to tell the copies apart.
pub fn destination_filename(file: &FileInfo, conflict_timestamp: Option<&str>) -> (r: String)
    ensures
        match conflict_timestamp {
            None => r@ == candidate_name_of(*file),
            Some(ts) => r@ == stamped_name_of(*file, ts@),
        },
{
    match conflict_timestamp {
        None => candidate_filename(file),
        Some(ts) => {
            let mut name = String::from_str(file.stem.as_str());
            push_char(&mut name, '_');
            name.append(ts);
            push_char(&mut name, '.');
            name.append(file.extension.as_str());
            name
        },
    }
}

/// Resolves the destination file name in a folder where `stem.extension`
/// is `already_taken` or not, and hands back the clock reading the name was
/// stamped with: the free name is kept and the clock is not read; a taken
/// name gets the local date and time that the clock gave during this call,
/// hour, minute and second included, as `_YYYYMMDDHHMMSS` before the
/// extension.
pub fn resolve_destination_filename_and_time(file: &FileInfo, already_taken: bool) -> (r: (
    String,
    Option<LocalDateTime>,
))
    ensures
        r.1 is Some <==> already_taken,
        !already_taken ==> r.0@ == candidate_name_of(*file),
        r.1 matches Some(now) ==> is_valid_date_time(now),
        r.1 matches Some(now) ==> r.0@ == stamped_name_of(*file, timestamp_text(now)),
        already_taken ==> r.0@ != candidate_name_of(*file),
{
    if already_taken {
        let now = local_now();
        let stamp = compact_timestamp(&now);
        let name = destination_filename(file, Some(stamp.as_str()));
        assert(name@.len() > candidate_name_of(*file).len());
        (name, Some(now))
    } else {
        (destination_filename(file, None), None)
    }
}

/// Resolves the destination file name in a folder where `stem.extension`
/// is `already_taken` or not: the free name is kept, a taken one gets the
/// current local time as `_YYYYMMDDHHMMSS` before the extension.
pub fn resolve_destination_filename(file: &FileInfo, already_taken: bool) -> (r: String)
    ensures
        !already_taken ==> r@ == candidate_name_of(*file),
        already_taken ==> exists|now: LocalDateTime|
            is_valid_date_time(now) && r@ == #[trigger] stamped_name_of(*file, timestamp_text(now)),
        already_taken ==> r@ != candidate_name_of(*file),
{
    let (name, reading) = resolve_destination_filename_and_time(file, already_taken);
    proof {
        if let Some(now) = reading {
            assert(name@ == stamped_name_of(*file, timestamp_text(now)));
        }
    }
    name
}

/// Two copies of a file stamped at different times get different names:
/// equal stamped names (for readings with a year from 0 to 9999) come only
/// from readings that agree on year, month, day, hour, minute and second.
pub proof fn lemma_stamped_names_tell_times_apart(file: FileInfo, a: LocalDateTime, b: LocalDateTime)
    requires
        is_valid_date_time(a),
        is_valid_date_time(b),
        0 <= a.year <= 9999,
        0 <= b.year <= 9999,
        stamped_name_of(file, timestamp_text(a)) == stamped_name_of(file, timestamp_text(b)),
    ensures
        a.year == b.year,
        a.month == b.month,
        a.day == b.day,
        a.hour == b.hour,
        a.minute == b.minute,
        shown_second(a) == shown_second(b),
{
    lemma_timestamp_is_fourteen_digits(a);
    lemma_timestamp_is_fourteen_digits(b);
    let k: int = file.stem@.len() as int + 1;
    let na = stamped_name_of(file, timestamp_text(a));
    let nb = stamped_name_of(file, timestamp_text(b));
    assert(na.subrange(k, k + 14) =~= timestamp_text(a));
    assert(nb.subrange(k, k + 14) =~= timestamp_text(b));
    lemma_timestamp_identifies_time(a, b);
}

/// A stamped name never equals the name it replaces, so a copy made under it
/// does not overwrite the file that holds the original name.
pub proof fn lemma_stamped_name_differs(file: FileInfo, timestamp: Seq<char>)
    ensures
        stamped_name_of(file, timestamp) != candidate_name_of(file),
{
    assert(stamped_name_of(file, timestamp).len() > candidate_name_of(file).len());
}

/// Where a copy goes: the target folder with any NUL characters removed,
/// and the file name joined onto that folder.
pub fn copy_destination(dest_dir: &str, dest_filename: &str) -> (r: (String, String))
    ensures
        r.0@ == remove_char(dest_dir@, '\0'),
        r.1@ == joined(remove_char(dest_dir@, '\0'), dest_filename@),
        !r.0@.contains('\0'),
{
    let clean_dir = remove_char_from(dest_dir, '\0');
    proof {
        crate::text::lemma_remove_char_removes(dest_dir@, '\0');
    }
    let dest_path = join_path(clean_dir.as_str(), dest_filename);
    (clean_dir, dest_path)
}


/// Cleaning a folder path twice is the same as cleaning it once.
pub proof fn lemma_clean_dir_idempotent(dir: Seq<char>)
    ensures
        remove_char(remove_char(dir, '\0'), '\0') == remove_char(dir, '\0'),
{
    crate::text::lemma_remove_char_removes(dir, '\0');
    crate::text::lemma_remove_absent_char(remove_char(dir, '\0'), '\0');
}

/// A model name that is already normalized, and that upper-casing leaves
/// as it is, is its own folder name: normalizing a model before sorting then
/// changes no folder.
pub proof fn lemma_normalized_model_keeps_its_folder(model: Seq<char>)
    requires
        uppercase_of(camera_folder_name(model)) == camera_folder_name(model),
    ensures
        camera_folder_name(camera_folder_name(model)) == camera_folder_name(model),
{
    let n = camera_folder_name(model);
    assert forall|i: int| 0 <= i < n.len() implies #[trigger] n[i] != ' ' by {
        assert(n[i] == replace_char(uppercase_of(model), ' ', '_')[i]);
    }
    assert(replace_char(n, ' ', '_') =~= n);
}

/// Where a file goes: by its metadata when it could be read, to the
/// UNKNOWN folder when it could not. The flag tells whether the file went
/// to the UNKNOWN folder, in which case it counts as a non-image.
pub fn route_file(destination: &str, exif: Option<&ExifData>) -> (r: (String, bool))
    ensures
        match exif {
            Some(e) => (r.0@, r.1) == target_dir_of(destination@, *e),
            None => r.0@ == unknown_dir_of(destination@) && r.1,
        },
{
    match exif {
        Some(e) => target_dir(destination, e),
        None => (unknown_dir(destination), true),
    }
}

} // verus!
