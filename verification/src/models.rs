//! The records that pass between scanning, metadata reading, organizing and
//! reporting.

use vstd::prelude::*;

verus! {

/// A file found while scanning.
#[derive(Debug)]
pub struct FileInfo {
    /// Where the file lies, as text.
    pub path: String,
    pub size_bytes: u64,
    /// Lower-cased stem (the file name without its extension).
    pub stem: String,
    /// Lower-cased extension, without the leading dot.
    pub extension: String,
    /// The file name as found (stem, dot and extension).
    pub filename: String,
}

/// The EXIF metadata read from one image.
#[derive(Debug)]
pub struct ExifData {
    pub year: Option<String>,
    /// Zero-padded two-digit month, e.g. "03".
    pub month: Option<String>,
    pub day: Option<String>,
    /// English month name, e.g. "March".
    pub month_name: Option<String>,
    /// The camera model as recorded, without surrounding white space.
    pub camera_model: Option<String>,
    pub gps_lat: Option<String>,
    pub gps_lon: Option<String>,
    /// Set when the DateTime field was present but could not be parsed:
    /// it holds that field's text, and the date fields then hold the
    /// 2000-01-01 fallback.
    pub date_warning: Option<String>,
}

impl ExifData {
    /// No field holds a value.
    pub open spec fn is_empty(&self) -> bool {
        &&& self.year is None
        &&& self.month is None
        &&& self.day is None
        &&& self.month_name is None
        &&& self.camera_model is None
        &&& self.gps_lat is None
        &&& self.gps_lon is None
        &&& self.date_warning is None
    }
}

impl Default for ExifData {
    /// Metadata with every field absent.
    fn default() -> (r: ExifData)
        ensures
            r.is_empty(),
    {
        ExifData {
            year: None,
            month: None,
            day: None,
            month_name: None,
            camera_model: None,
            gps_lat: None,
            gps_lon: None,
            date_warning: None,
        }
    }
}

/// Outcome of processing one file.
#[derive(Debug)]
pub enum ProcessOutcome {
    /// File was copied (or would be, in dry-run) to the given destination path.
    Copied { destination: String },
    /// File was skipped: not an image, or its EXIF could not be read.
    Skipped { reason: String },
    /// File was placed in UNKNOWN/ for want of metadata.
    Unknown { destination: String, reason: String },
}

/// Totals kept over a whole run.
#[derive(Debug)]
pub struct Stats {
    pub total_images: u64,
    pub total_non_images: u64,
    pub total_size_bytes: u64,
}

impl Default for Stats {
    /// All totals at zero.
    fn default() -> (r: Stats)
        ensures
            r.total_images == 0,
            r.total_non_images == 0,
            r.total_size_bytes == 0,
    {
        Stats { total_images: 0, total_non_images: 0, total_size_bytes: 0 }
    }
}

impl Stats {
    /// Whether one more file of `size_bytes` bytes, sorted or sent to
    /// UNKNOWN/ as `is_unknown` says, can be counted without a total
    /// overflowing.
    pub open spec fn can_record(&self, size_bytes: u64, is_unknown: bool) -> bool {
        &&& self.total_size_bytes + size_bytes <= u64::MAX
        &&& is_unknown ==> self.total_non_images < u64::MAX
        &&& !is_unknown ==> self.total_images < u64::MAX
    }

    /// Tests `can_record`, so that a caller can check it before counting.
    pub fn has_room_for(&self, size_bytes: u64, is_unknown: bool) -> (r: bool)
        ensures
            r == self.can_record(size_bytes, is_unknown),
    {
        let size_fits = size_bytes <= u64::MAX - self.total_size_bytes;
        if is_unknown {
            size_fits && self.total_non_images < u64::MAX
        } else {
            size_fits && self.total_images < u64::MAX
        }
    }

    /// Counts one processed file: its size is added to the total, and it is
    /// counted as an image when it was sorted by its metadata, as a non-image
    /// when it went to UNKNOWN/.
    pub fn record_file(&mut self, size_bytes: u64, is_unknown: bool)
        requires
            old(self).can_record(size_bytes, is_unknown),
        ensures
            final(self).total_size_bytes == old(self).total_size_bytes + size_bytes,
            is_unknown ==> final(self).total_non_images == old(self).total_non_images + 1
                && final(self).total_images == old(self).total_images,
            !is_unknown ==> final(self).total_images == old(self).total_images + 1
                && final(self).total_non_images == old(self).total_non_images,
    {
        self.total_size_bytes = self.total_size_bytes + size_bytes;
        if is_unknown {
            self.total_non_images = self.total_non_images + 1;
        } else {
            self.total_images = self.total_images + 1;
        }
    }
}

} // verus!
