use nvmman::layout::{sidebar_hit, sidebar_rows, update_row_at, Area, SidebarHit};
use ratatui::layout::Rect;
use ratatui::widgets::{Block, Borders};

fn rect(area: Area) -> Rect {
    Rect::new(area.x, area.y, area.width, area.height)
}
use nvmman::machine::normalize_architecture;
use nvmman::version::{compare_package_versions, update_message, SemVer};

#[test]
fn semver_comparison_prefers_newer_stable_release() {
    assert!(compare_package_versions("1.10.0", "1.9.9").is_gt());
    assert!(compare_package_versions("1.0.0", "1.0.0-rc.1").is_gt());
}

#[test]
fn architecture_normalization_matches_node_names() {
    assert_eq!(normalize_architecture("aarch64"), "arm64");
    assert_eq!(normalize_architecture("x86_64"), "x64");
}

#[test]
fn sidebar_hit_testing_uses_the_visible_bordered_regions() {
    let sidebar = Area::new(0, 3, 30, 20);
    let (views, actions) = sidebar_rows(sidebar);
    let first_view_row = Block::default().borders(Borders::ALL).inner(rect(views)).y;
    let first_action_row = Block::default().borders(Borders::ALL).inner(rect(actions)).y;

    assert_eq!(
        sidebar_hit(sidebar, 4, first_view_row),
        Some(SidebarHit::Screen(0))
    );
    assert_eq!(
        sidebar_hit(sidebar, 4, first_view_row + 4),
        Some(SidebarHit::Screen(4))
    );
    assert_eq!(
        sidebar_hit(sidebar, 4, first_action_row),
        Some(SidebarHit::Action(0))
    );
    assert_eq!(
        sidebar_hit(sidebar, 4, first_action_row + 4),
        Some(SidebarHit::Action(4))
    );
}

#[test]
fn update_rows_start_after_the_table_header() {
    let content = Area::new(30, 3, 80, 20);
    let inner = Block::default().borders(Borders::ALL).inner(rect(content));
    assert_eq!(update_row_at(content, inner.y + 1), Some(0));
    assert_eq!(update_row_at(content, inner.y + 4), Some(3));
}

#[test]
fn update_message_offers_an_exact_install_command() {
    let current = SemVer::parse("0.1.2").expect("valid current version");
    let latest = SemVer::parse("0.1.3").expect("valid latest version");
    assert_eq!(
        update_message(&current, &latest),
        "Update available: nvmman 0.1.2 -> 0.1.3\nRun: cargo install nvmman --version 0.1.3 --force"
    );
}

#[test]
fn update_message_reports_current_versions() {
    let version = SemVer::parse("0.1.3").expect("valid version");
    assert_eq!(
        update_message(&version, &version),
        "nvmman 0.1.3 is up to date."
    );
}
