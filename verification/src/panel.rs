//! The statistics panel shown at the end of a run: which key closes it,
//! what its cells hold and how tall its rows are.

use vstd::prelude::*;

use crate::calendar::{decimal, decimal_text};
use crate::models::Stats;

verus! {

/// A key pressed while the panel is shown.
#[derive(Debug, Clone, Copy, PartialEq, Eq)]
pub enum PanelKey {
    Char(char),
    Enter,
    Esc,
    Other,
}

/// Whether `key` closes the panel: `q`, Enter and Esc do, nothing else.
pub fn closes_panel(key: PanelKey) -> (r: bool)
    ensures
        r <==> (key == PanelKey::Char('q') || key == PanelKey::Enter || key == PanelKey::Esc),
{
    match key {
        PanelKey::Char(c) => c == 'q',
        PanelKey::Enter => true,
        PanelKey::Esc => true,
        PanelKey::Other => false,
    }
}

/// The texts of the image and non-image counts, in decimal.
pub fn count_cells(stats: &Stats) -> (r: (String, String))
    ensures
        r.0@ == decimal(stats.total_images as nat),
        r.1@ == decimal(stats.total_non_images as nat),
{
    (decimal_text(stats.total_images), decimal_text(stats.total_non_images))
}

/// The heights of the panel's rows: title, dry-run notice (shown only in a
/// dry run), statistics table and hint.
pub fn panel_heights(dry_run: bool) -> (r: (u16, u16, u16, u16))
    ensures
        r == (3u16, if dry_run { 3u16 } else { 0u16 }, 5u16, 2u16),
{
    (3, if dry_run { 3 } else { 0 }, 5, 2)
}

} // verus!
