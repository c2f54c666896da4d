use image_messie::calendar::decimal_text;
use image_messie::models::Stats;
use image_messie::panel::{closes_panel, count_cells, panel_heights, PanelKey};

#[test]
fn q_enter_and_escape_close_the_panel() {
    assert!(closes_panel(PanelKey::Char('q')));
    assert!(closes_panel(PanelKey::Enter));
    assert!(closes_panel(PanelKey::Esc));
    assert!(!closes_panel(PanelKey::Char('Q')));
    assert!(!closes_panel(PanelKey::Char('x')));
    assert!(!closes_panel(PanelKey::Other));
}

#[test]
fn count_cells_show_the_totals() {
    let stats = Stats { total_images: 1234, total_non_images: 0, total_size_bytes: 99 };
    assert_eq!(count_cells(&stats), ("1234".to_string(), "0".to_string()));
    for n in [0u64, 9, 10, 99, 100, 65535, u64::MAX] {
        assert_eq!(decimal_text(n), n.to_string());
    }
}

#[test]
fn dry_run_notice_row_only_in_a_dry_run() {
    assert_eq!(panel_heights(true), (3, 3, 5, 2));
    assert_eq!(panel_heights(false), (3, 0, 5, 2));
}
