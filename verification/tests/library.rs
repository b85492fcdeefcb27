use nvmman::cli::{invocation, unknown_argument_message, version_line, Invocation};
use nvmman::layout::{
    centered_rect, centering_extents, main_column_extents, main_columns, saturating_u16, screen_geometry, screen_layout,
    screen_row_extents, sidebar_extents, sidebar_hit_in, sidebar_rows, update_row_at, Area, Extent,
};
use nvmman::machine::{
    check_installed_lts, check_native_default, configured_default, installation_architecture, normalize_architecture,
    resolve_host_architecture,
};
use nvmman::manager::{join_path, synced_report, Manager};
use nvmman::model::{
    LatestLts, LtsLabel, NodeInstallation, NodeRelease, Package, Registry, RegistryEntry, PackageOccurrence, Snapshot,
    UpdateCandidate,
};
use nvmman::scan::{global_package_list, module_entry, select_node_versions, sort_packages, ModuleEntry};
use nvmman::screens::{
    activity_lines, confirmation_heading, confirmation_text, dashboard_text, footer_status, help_text, needs_scrollbar, package_rows,
    registry_header, registry_package_lines, update_rows,
};
use nvmman::tasks::{run_task, task_steps, Step, StepOutput, TaskRun};
use nvmman::text::{compare_text, decimal_text, trim, trim_start_v};
use nvmman::ui::{task_label, App, Effect, Key, MouseAction, Screen, Task, WorkerEvent, WorkerResult};
use nvmman::version::{compare_node_versions, compare_package_versions, order_parsed_versions, update_message, SemVer};
use std::cmp::Ordering;

fn package(name: &str, version: &str) -> Package {
    Package { name: name.to_owned(), version: version.to_owned() }
}

fn installation(version: &str, packages: Vec<Package>) -> NodeInstallation {
    NodeInstallation { version: version.to_owned(), architecture: "arm64".to_owned(), packages }
}

fn candidate(name: &str, version: &str, latest: &str) -> UpdateCandidate {
    UpdateCandidate { package: package(name, version), latest_version: latest.to_owned() }
}

fn manager() -> Manager {
    Manager { nvm_dir: "/home/dev/.nvm".to_owned() }
}

fn snapshot(installations: Vec<NodeInstallation>) -> Snapshot {
    Snapshot {
        latest_lts: LatestLts { version: "v22.12.0".to_owned(), name: "Jod".to_owned(), date: "2024-12-03".to_owned() },
        host_architecture: "arm64".to_owned(),
        default_node: Some("v22.12.0".to_owned()),
        installations,
        registry_path: "/home/dev/.nvm/global-packages-registry.json".to_owned(),
    }
}

fn sample_installations() -> Vec<NodeInstallation> {
    vec![
        installation("v20.0.0", vec![package("eslint", "8.0.0"), package("typescript", "5.0.0")]),
        installation("v22.12.0", vec![package("typescript", "5.0.0"), package("eslint", "9.1.0")]),
        installation("v18.0.0", vec![]),
    ]
}

fn registry_summary(registry: &Registry) -> Vec<(String, String, Vec<(String, Vec<String>)>)> {
    registry
        .packages
        .iter()
        .map(|(name, entry)| {
            (
                name.clone(),
                entry.selected_version.clone(),
                entry.occurrences.iter().map(|o| (o.version.clone(), o.node_versions.clone())).collect(),
            )
        })
        .collect()
}

#[test]
fn registry_consolidates_every_installation() {
    let installations = sample_installations();
    let registry = manager().sync_registry(&installations, "2025-01-01T00:00:00Z".to_owned(), "arm64".to_owned());
    assert_eq!(registry.schema_version, 1);
    assert_eq!(registry.generated_at, "2025-01-01T00:00:00Z");
    assert_eq!(registry.scanned_node_versions, vec!["v20.0.0", "v22.12.0", "v18.0.0"]);
    assert_eq!(registry.source_node_versions, vec!["v20.0.0", "v22.12.0"]);
    assert_eq!(
        registry_summary(&registry),
        vec![
            (
                "eslint".to_owned(),
                "9.1.0".to_owned(),
                vec![("8.0.0".to_owned(), vec!["v20.0.0".to_owned()]), ("9.1.0".to_owned(), vec!["v22.12.0".to_owned()])]
            ),
            (
                "typescript".to_owned(),
                "5.0.0".to_owned(),
                vec![("5.0.0".to_owned(), vec!["v20.0.0".to_owned(), "v22.12.0".to_owned()])]
            ),
        ]
    );
}

#[test]
fn registry_does_not_depend_on_scan_order() {
    let mut reversed = sample_installations();
    reversed.reverse();
    reversed.push(installation("v20.0.0", vec![package("eslint", "8.0.0")]));
    let a = manager().sync_registry(&sample_installations(), "t".to_owned(), "x64".to_owned());
    let b = manager().sync_registry(&reversed, "t".to_owned(), "x64".to_owned());
    assert_eq!(registry_summary(&a), registry_summary(&b));
}

#[test]
fn registry_selects_the_semantically_newest_version() {
    let installations = vec![
        installation("v20.0.0", vec![package("pnpm", "10.0.0")]),
        installation("v22.0.0", vec![package("pnpm", "9.15.0")]),
        installation("v23.0.0", vec![package("pnpm", "10.0.0-rc.1")]),
    ];
    let registry = manager().sync_registry(&installations, "t".to_owned(), "x64".to_owned());
    assert_eq!(registry.packages.len(), 1);
    let entry = &registry.packages[0].1;
    assert_eq!(entry.selected_version, "10.0.0");
    let versions: Vec<&str> = entry.occurrences.iter().map(|o| o.version.as_str()).collect();
    assert_eq!(versions, vec!["10.0.0", "10.0.0-rc.1", "9.15.0"]);
}

#[test]
fn registry_restore_specs_and_messages() {
    let registry = manager().sync_registry(&sample_installations(), "t".to_owned(), "x64".to_owned());
    assert_eq!(registry.restore_specs(), vec!["eslint@9.1.0", "typescript@5.0.0"]);
    let m = manager();
    assert_eq!(m.restore_registry("v22.12.0", &vec![]), "Restored all registry packages into v22.12.0.");
    assert_eq!(
        m.restore_registry("v22.12.0", &vec!["a@1: boom".to_owned(), "b@2: bang".to_owned()]),
        "Restored packages into v22.12.0; 2 package(s) need attention: a@1: boom | b@2: bang"
    );
}

#[test]
fn updates_are_filtered_trimmed_and_sorted_by_name() {
    let packages = vec![package("zx", "7.0.0"), package("npm-check", "6.0.1"), package("eslint", "9.0.0"), package("yarn", "1.22.0")];
    let latest = vec![" 8.1.0\n".to_owned(), "6.0.1".to_owned(), "9.2.0".to_owned(), "  ".to_owned()];
    let updates = manager().updates(&packages, &latest);
    let rows: Vec<(String, String, String)> = updates
        .iter()
        .map(|c| (c.package.name.clone(), c.package.version.clone(), c.latest_version.clone()))
        .collect();
    assert_eq!(
        rows,
        vec![
            ("eslint".to_owned(), "9.0.0".to_owned(), "9.2.0".to_owned()),
            ("zx".to_owned(), "7.0.0".to_owned(), "8.1.0".to_owned()),
        ]
    );
    assert_eq!(updates[1].install_spec(), "zx@8.1.0");
    assert_eq!(manager().update_package(&updates[1], "v22.12.0"), "Updated zx in v22.12.0.");
}

#[test]
fn node_versions_are_selected_and_ordered_semantically() {
    let names = vec!["v22.1.0", "v9.0.0", "lost+found", "v20.10.0", "v20.9.0", ".DS_Store"]
        .into_iter()
        .map(|s| s.to_owned())
        .collect();
    assert_eq!(select_node_versions(names), vec!["v9.0.0", "v20.9.0", "v20.10.0", "v22.1.0"]);
}

#[test]
fn packages_sort_by_name_then_version() {
    let sorted = sort_packages(vec![package("zx", "1.0.0"), package("@scope/a", "2.0.0"), package("eslint", "9.0.0"), package("eslint", "10.0.0")]);
    let names: Vec<(String, String)> = sorted.into_iter().map(|p| (p.name, p.version)).collect();
    assert_eq!(
        names,
        vec![
            ("@scope/a".to_owned(), "2.0.0".to_owned()),
            ("eslint".to_owned(), "10.0.0".to_owned()),
            ("eslint".to_owned(), "9.0.0".to_owned()),
            ("zx".to_owned(), "1.0.0".to_owned()),
        ]
    );
}

#[test]
fn module_entries_are_classified() {
    assert_eq!(module_entry("npm", true), ModuleEntry::Skipped);
    assert_eq!(module_entry("corepack", true), ModuleEntry::Skipped);
    assert_eq!(module_entry("eslint", false), ModuleEntry::Skipped);
    assert_eq!(module_entry("@angular", true), ModuleEntry::Scope);
    assert_eq!(module_entry("typescript", true), ModuleEntry::Package);
}

#[test]
fn default_version_output_is_parsed() {
    let m = manager();
    assert_eq!(m.default_node_version("  v22.12.0\n"), Some("v22.12.0".to_owned()));
    assert_eq!(m.default_node_version("N/A\n"), None);
    assert_eq!(m.default_node_version(" \t\n"), None);
}

#[test]
fn host_architecture_prefers_rosetta_flag() {
    assert_eq!(resolve_host_architecture("x86_64", Some("1")), "arm64");
    assert_eq!(resolve_host_architecture("amd64", Some("0")), "x64");
    assert_eq!(resolve_host_architecture(" riscv64\n", None), "riscv64");
}

#[test]
fn architecture_normalization_is_idempotent() {
    for name in ["arm64", "aarch64", "x86_64", "amd64", "x64", " ppc64le "] {
        let once = normalize_architecture(name);
        assert_eq!(normalize_architecture(&once), once);
    }
}

#[test]
fn native_checks_report_mismatches() {
    assert_eq!(check_native_default("v22.12.0".to_owned(), "arm64", "arm64"), Ok("v22.12.0".to_owned()));
    assert_eq!(
        check_native_default("v22.12.0".to_owned(), "x64", "arm64"),
        Err("default v22.12.0 is x64, but the host requires arm64".to_owned())
    );
    assert_eq!(
        check_installed_lts("v22.12.0", "arm64", "arm64"),
        Ok("Installed v22.12.0 arm64 and made it the nvm default.".to_owned())
    );
    assert_eq!(
        check_installed_lts("v22.12.0", "x64", "arm64"),
        Err("nvm installed x64 Node, but this machine requires arm64. Default was not changed.".to_owned())
    );
}

#[test]
fn paths_follow_the_nvm_layout() {
    let m = manager();
    assert_eq!(m.registry_path(), "/home/dev/.nvm/global-packages-registry.json");
    assert_eq!(m.node_bin("v22.12.0"), "/home/dev/.nvm/versions/node/v22.12.0/bin/node");
    assert_eq!(m.npm_bin("v22.12.0"), "/home/dev/.nvm/versions/node/v22.12.0/bin/npm");
    assert_eq!(m.node_root("v22.12.0"), "/home/dev/.nvm/versions/node/v22.12.0/lib/node_modules");
    assert_eq!(join_path("/home/dev/.nvm/", "nvm.sh"), "/home/dev/.nvm/nvm.sh");
    assert_eq!(join_path("/home/dev/.nvm", "/etc/passwd"), "/etc/passwd");
    assert_eq!(join_path("", "nvm.sh"), "nvm.sh");
}

#[test]
fn latest_lts_is_the_first_lts_release() {
    let releases = vec![
        NodeRelease { version: "v23.5.0".to_owned(), lts: LtsLabel::Flag(false), date: "2024-12-19".to_owned() },
        NodeRelease { version: "v23.4.0".to_owned(), lts: LtsLabel::Null, date: "2024-12-10".to_owned() },
        NodeRelease { version: "v22.12.0".to_owned(), lts: LtsLabel::Name("Jod".to_owned()), date: "2024-12-03".to_owned() },
        NodeRelease { version: "v20.18.1".to_owned(), lts: LtsLabel::Name("Iron".to_owned()), date: "2024-11-20".to_owned() },
    ];
    let lts = Manager::latest_lts(&releases).expect("an LTS release");
    assert_eq!((lts.version.as_str(), lts.name.as_str(), lts.date.as_str()), ("v22.12.0", "Jod", "2024-12-03"));
    let unnamed = vec![NodeRelease { version: "v4.2.0".to_owned(), lts: LtsLabel::Flag(true), date: "d".to_owned() }];
    assert_eq!(Manager::latest_lts(&unnamed).expect("an LTS release").name, "LTS");
    let none = vec![NodeRelease { version: "v23.5.0".to_owned(), lts: LtsLabel::Flag(false), date: "d".to_owned() }];
    assert!(Manager::latest_lts(&none).is_none());
}

#[test]
fn version_comparison_falls_back_to_text() {
    assert_eq!(compare_node_versions("v1.10.0", "v1.9.0"), Ordering::Greater);
    assert_eq!(compare_package_versions("v1.0.0", "1.0.0"), Ordering::Equal);
    assert_eq!(compare_package_versions("abc", "abd"), Ordering::Less);
    assert_eq!(compare_package_versions("1.0.0-beta.11", "1.0.0-beta.2"), Ordering::Greater);
    assert_eq!(compare_package_versions("latest", "1.0.0"), Ordering::Greater);
}

#[test]
fn semver_parse_and_display_round_trip() {
    let v = SemVer::parse("1.2.3-rc.1+build.5").expect("valid version");
    assert_eq!(v.to_text(), "1.2.3-rc.1+build.5");
    assert!(SemVer::parse("v1.2.3").is_none());
    assert!(SemVer::parse("1.02.3").is_none());
    let older = SemVer::parse("1.2.3").expect("valid version");
    assert_eq!(v.compare(&older), Ordering::Less);
}

#[test]
fn update_message_reports_an_unpublished_release() {
    let current = SemVer::parse("0.2.0").expect("valid version");
    let latest = SemVer::parse("0.1.3").expect("valid version");
    assert_eq!(
        update_message(&current, &latest),
        "nvmman 0.2.0 is newer than the latest crates.io release (0.1.3)."
    );
}

#[test]
fn text_helpers() {
    assert_eq!(trim("\u{3000} a b \t"), "a b");
    assert_eq!(trim_start_v("vv22"), "22");
    assert_eq!(decimal_text(0), "0");
    assert_eq!(decimal_text(18446744073709551615), "18446744073709551615");
    assert_eq!(compare_text("é", "z"), Ordering::Greater);
    assert_eq!(compare_text("ab", "abc"), Ordering::Less);
    assert_eq!(saturating_u16(70000), u16::MAX);
    assert_eq!(saturating_u16(12), 12);
}

#[test]
fn update_rows_count_inside_the_border() {
    assert_eq!(update_row_at(Area::new(2, 3, 10, 5), 5), Some(0));
    assert_eq!(update_row_at(Area::new(2, 3, 10, 5), 4), None);
    assert_eq!(update_row_at(Area::new(2, 3, 1, 0), 4), Some(0));
    assert_eq!(update_row_at(Area::new(2, 65535, 10, 5), 65535), Some(0));
    assert_eq!(Area::new(65530, 0, 10, 1).width, 5);
}

#[test]
fn main_columns_split_the_body() {
    let (sidebar, content) = main_columns(Area::new(0, 0, 120, 40));
    assert_eq!(sidebar, Area { x: 0, y: 3, width: 30, height: 35 });
    assert_eq!(content, Area { x: 30, y: 3, width: 90, height: 35 });
}

fn start_and_finish(app: &mut App, key: Key) -> Task {
    match app.handle_key(key) {
        Effect::Start(task) => task,
        other => panic!("expected a task to start, got {other:?}"),
    }
}

#[test]
fn tasks_run_one_at_a_time() {
    let mut app = App::new();
    assert_eq!(app.status(), "Starting nvmman...");
    let task = start_and_finish(&mut app, Key::Char('r'));
    assert!(matches!(task, Task::Refresh));
    assert!(app.busy());
    assert_eq!(app.status(), "Running Refresh...");
    assert!(matches!(app.handle_key(Key::Char('g')), Effect::Nothing));
    assert!(matches!(app.handle_key(Key::Char('l')), Effect::Nothing));
    assert!(app.modal().is_none());
    app.receive_worker_events(vec![WorkerEvent { task, result: Ok(WorkerResult::Snapshot(snapshot(vec![]))) }]);
    assert!(!app.busy());
    assert_eq!(app.status(), "Machine state refreshed.");
    assert_eq!(app.activity(), &vec!["Running Refresh...".to_owned(), "Machine state refreshed.".to_owned()]);
}

#[test]
fn mutating_tasks_wait_for_confirmation() {
    let mut app = App::new();
    assert!(matches!(app.handle_key(Key::Char('l')), Effect::Nothing));
    assert!(matches!(app.modal(), Some(Task::InstallLts)));
    assert!(matches!(app.handle_key(Key::Char('x')), Effect::Nothing));
    assert!(matches!(app.handle_key(Key::Char('n')), Effect::Nothing));
    assert!(app.modal().is_none());
    assert_eq!(app.status(), "Action cancelled.");
    assert!(matches!(app.handle_key(Key::Char('a')), Effect::Nothing));
    assert!(matches!(app.handle_key(Key::Enter), Effect::Start(Task::RestoreRegistry)));
    assert_eq!(app.status(), "Running Registry restore...");
}

#[test]
fn updates_are_selected_and_confirmed_one_by_one() {
    let mut app = App::new();
    let task = start_and_finish(&mut app, Key::Char('u'));
    let updates = vec![candidate("a", "1.0.0", "1.1.0"), candidate("b", "2.0.0", "3.0.0"), candidate("c", "0.1.0", "0.2.0")];
    app.receive_worker_events(vec![WorkerEvent { task, result: Ok(WorkerResult::Updates(updates)) }]);
    assert_eq!(app.screen(), Screen::Updates);
    assert_eq!(app.status(), "3 package update(s) available.");
    app.handle_key(Key::Down);
    app.handle_key(Key::Down);
    app.handle_key(Key::Down);
    assert_eq!(app.selected_update(), 2);
    app.handle_key(Key::PageUp);
    assert_eq!(app.selected_update(), 0);
    app.handle_key(Key::Down);
    assert!(matches!(app.handle_key(Key::Enter), Effect::Nothing));
    match app.modal() {
        Some(Task::UpdatePackage(c)) => assert_eq!(c.package.name, "b"),
        _ => panic!("the update must wait for confirmation"),
    }
    match app.handle_key(Key::Char('y')) {
        Effect::Start(Task::UpdatePackage(c)) => assert_eq!(c.latest_version, "3.0.0"),
        _ => panic!("confirming starts the update"),
    }
}

#[test]
fn failures_are_reported_with_the_task_label() {
    let mut app = App::new();
    let task = start_and_finish(&mut app, Key::Char('u'));
    app.receive_worker_events(vec![WorkerEvent { task, result: Err("npm is missing".to_owned()) }]);
    assert_eq!(app.status(), "Update check failed: npm is missing");
    assert_eq!(task_label(&Task::SyncRegistry), "Registry sync");
}

#[test]
fn activity_log_keeps_its_limit() {
    let mut app = App::new();
    for _ in 0..130 {
        let task = start_and_finish(&mut app, Key::Char('r'));
        app.receive_worker_events(vec![WorkerEvent { task, result: Err("x".to_owned()) }]);
    }
    assert_eq!(app.activity().len(), 120);
    assert_eq!(app.activity()[0], "Running Refresh...");
}

#[test]
fn views_are_navigated_and_the_registry_is_loaded_on_demand() {
    let mut app = App::new();
    assert!(matches!(app.handle_key(Key::Down), Effect::Nothing));
    assert_eq!(app.screen(), Screen::Packages);
    app.handle_key(Key::Up);
    assert_eq!(app.screen(), Screen::Dashboard);
    app.handle_key(Key::Up);
    assert_eq!(app.screen(), Screen::Activity);
    assert_eq!(app.selected_view(), 4);
    app.handle_key(Key::PageDown);
    assert_eq!(app.scroll(), 8);
    assert!(matches!(app.handle_key(Key::Char('3')), Effect::LoadRegistry));
    assert_eq!(app.scroll(), 0);
    app.set_registry(Some(manager().sync_registry(&sample_installations(), "t".to_owned(), "x64".to_owned())));
    assert!(matches!(app.handle_key(Key::Char('3')), Effect::Nothing));
    assert_eq!(Screen::Registry.title(), "Registry");
    app.handle_key(Key::Char('q'));
    assert!(!app.running());
}

#[test]
fn mouse_answers_the_dialog_and_clicks_the_sidebar() {
    let area = Area::new(0, 0, 120, 40);
    let geometry = screen_geometry(area);
    assert_eq!(geometry.dialog, centered_rect(60, 28, area));
    let mut app = App::new();
    app.handle_key(Key::Char('l'));
    let dialog = geometry.dialog;
    let bottom = dialog.y + dialog.height - 1;
    assert!(matches!(app.handle_mouse(MouseAction::LeftDown, dialog.x + 1, bottom, &geometry), Effect::Start(Task::InstallLts)));
    let mut app = App::new();
    app.handle_key(Key::Char('a'));
    assert!(matches!(app.handle_mouse(MouseAction::LeftDown, dialog.x + 1, dialog.y, &geometry), Effect::Nothing));
    assert!(app.modal().is_some());
    assert!(matches!(app.handle_mouse(MouseAction::LeftDown, dialog.x + dialog.width - 1, bottom, &geometry), Effect::Nothing));
    assert!(app.modal().is_none());
    let first = geometry.views.y + 1;
    app.handle_mouse(MouseAction::LeftDown, 2, first + 3, &geometry);
    assert_eq!(app.screen(), Screen::Updates);
    app.handle_mouse(MouseAction::ScrollDown, 50, 10, &geometry);
    assert_eq!(app.scroll(), 3);
    let first_action = geometry.actions.y + 1;
    assert!(matches!(app.handle_mouse(MouseAction::LeftDown, 2, first_action + 4, &geometry), Effect::Start(Task::CheckUpdates)));
}

#[test]
fn clicks_on_the_update_list_ask_for_confirmation() {
    let geometry = screen_geometry(Area::new(0, 0, 120, 40));
    let mut app = App::new();
    let task = start_and_finish(&mut app, Key::Char('u'));
    let updates = vec![candidate("a", "1.0.0", "1.1.0"), candidate("b", "2.0.0", "3.0.0")];
    app.receive_worker_events(vec![WorkerEvent { task, result: Ok(WorkerResult::Updates(updates)) }]);
    let first_data_row = geometry.content.y + 2;
    app.handle_click(geometry.content.x + 5, first_data_row + 1, &geometry);
    assert_eq!(app.selected_update(), 1);
    match app.modal() {
        Some(Task::UpdatePackage(c)) => assert_eq!(c.package.name, "b"),
        _ => panic!("a click on an update asks for confirmation"),
    }
    assert_eq!(sidebar_hit_in(geometry.sidebar, geometry.views, geometry.actions, 40, 5), None);
}

#[test]
fn tasks_assemble_their_reports() {
    let steps = task_steps(&Task::InstallLts);
    assert_eq!(steps.len(), 3);
    assert!(steps[1].tolerates_failure());
    assert!(!steps[0].tolerates_failure());
    assert!(matches!(steps[0], Step::InstallLts));
    let registry = manager().sync_registry(&sample_installations(), "t".to_owned(), "x64".to_owned());
    let report = run_task(
        &Task::SyncRegistry,
        vec![StepOutput::Registry(registry), StepOutput::Snapshot(snapshot(vec![]))],
    );
    match report {
        Some(WorkerResult::Synced { message, registry, .. }) => {
            assert_eq!(message, "Registry synced: 2 packages.");
            assert_eq!(registry.packages.len(), 2);
        }
        _ => panic!("a sync reports the registry"),
    }
    assert!(run_task(&Task::Refresh, vec![]).is_none());
    assert_eq!(synced_report(0), "Registry synced: 0 packages.");
}

#[test]
fn screen_texts() {
    let s = snapshot(sample_installations());
    let d = dashboard_text(&s);
    assert_eq!(d.latest_lts, "v22.12.0  Jod  2024-12-03");
    assert_eq!(d.default_node, "v22.12.0");
    assert!(d.native);
    assert_eq!(d.architecture, " host: arm64  default: arm64  [native]");
    assert_eq!(d.installations[0], "v20.0.0 (arm64, 2 packages)");
    let rows = package_rows(&s.installations);
    assert_eq!(rows.len(), 5);
    assert_eq!(rows[0], ("v20.0.0".to_owned(), "arm64".to_owned(), "eslint@8.0.0".to_owned()));
    assert_eq!(rows[4], ("v18.0.0".to_owned(), "arm64".to_owned(), "-".to_owned()));
    let registry = manager().sync_registry(&s.installations, "now".to_owned(), "arm64".to_owned());
    assert_eq!(registry_header(&registry), vec!["Generated: now", "Scanned: v20.0.0, v22.12.0, v18.0.0", "Packages: 2"]);
    let lines = registry_package_lines(&registry);
    assert_eq!(lines[0], ("eslint@9.1.0".to_owned(), "  [8.0.0 on v20.0.0; 9.1.0 on v22.12.0]".to_owned()));
    assert_eq!(lines[1].1, "  [5.0.0 on v20.0.0,v22.12.0]");
    assert_eq!(footer_status("Ready", true), "Ready  Please wait");
    assert_eq!(footer_status("Ready", false), "Ready");
    assert_eq!(confirmation_text(&Task::UpdatePackage(candidate("zx", "7.0.0", "8.1.0"))), "zx: 7.0.0 -> 8.1.0");
    assert_eq!(confirmation_text(&Task::Refresh), "Run this action?");
    assert!(needs_scrollbar(10, 5));
    assert!(!needs_scrollbar(3, 5));
    assert_eq!(activity_lines(&vec!["a".to_owned(), "b".to_owned()]), vec!["b", "a"]);
    assert_eq!(update_rows(&vec![candidate("zx", "7.0.0", "8.1.0")])[0].2, "8.1.0");
    assert!(help_text("0.1.3").starts_with("nvmman 0.1.3\n\nInteractive nvm"));
    let unknown = Snapshot { default_node: None, ..snapshot(vec![]) };
    let d = dashboard_text(&unknown);
    assert_eq!(d.default_node, "not configured");
    assert_eq!(d.architecture, " host: arm64  default: unknown  [check architecture]");
}

#[test]
fn registry_entries_keep_their_fields() {
    let entry = RegistryEntry {
        selected_version: "1.0.0".to_owned(),
        occurrences: vec![PackageOccurrence { version: "1.0.0".to_owned(), node_versions: vec!["v1".to_owned()] }],
    };
    let registry = Registry {
        schema_version: 1,
        generated_at: "g".to_owned(),
        host_architecture: "x64".to_owned(),
        scanned_node_versions: vec![],
        source_node_versions: vec![],
        packages: vec![("left-pad".to_owned(), entry)],
    };
    assert_eq!(registry.restore_specs(), vec!["left-pad@1.0.0"]);
}

#[test]
fn orders_are_reflexive_and_antisymmetric() {
    for v in ["1.0.0", "v2.3.4-rc.1", "not a version", ""] {
        assert_eq!(compare_package_versions(v, v), Ordering::Equal);
    }
    for (a, b) in [("abc", "abd"), ("", "a"), ("Zeta", "alpha")] {
        assert_eq!(compare_text(a, b), compare_text(b, a).reverse());
    }
}

#[test]
fn command_line_arguments() {
    assert_eq!(invocation(None), Invocation::Interactive);
    assert_eq!(invocation(Some("-h")), Invocation::Help);
    assert_eq!(invocation(Some("--version")), Invocation::Version);
    assert_eq!(invocation(Some("update")), Invocation::Update);
    assert_eq!(invocation(Some("upgrade")), Invocation::Unknown("upgrade".to_owned()));
    assert_eq!(unknown_argument_message("x"), "unknown argument: x\n\nRun `nvmman --help` for usage.");
    assert_eq!(version_line("0.1.3"), "nvmman 0.1.3");
}

#[test]
fn a_failed_lts_installation_stops_the_task() {
    let mut run = TaskRun::start(&Task::InstallLts);
    assert!(matches!(run.next_step(), Some(Step::InstallLts)));
    run.record(Err("download failed".to_owned()));
    assert!(run.next_step().is_none());
    run.record(Ok(StepOutput::Snapshot(snapshot(vec![]))));
    assert!(run.next_step().is_none());
    assert_eq!(run.finish().err(), Some("download failed".to_owned()));
}

#[test]
fn a_failed_sync_after_the_lts_installation_is_skipped() {
    let mut run = TaskRun::start(&Task::InstallLts);
    run.record(Ok(StepOutput::Message("Installed v22.12.0.".to_owned())));
    assert!(matches!(run.next_step(), Some(Step::SyncRegistryTolerant)));
    run.record(Err("registry not writable".to_owned()));
    assert!(matches!(run.next_step(), Some(Step::Snapshot)));
    run.record(Ok(StepOutput::Snapshot(snapshot(vec![]))));
    assert!(run.next_step().is_none());
    match run.finish() {
        Ok(WorkerResult::Message { message, snapshot }) => {
            assert_eq!(message, "Installed v22.12.0.");
            assert_eq!(snapshot.installations.len(), 0);
        }
        _ => panic!("the installation is reported"),
    }
}

#[test]
fn a_failed_registry_sync_fails_the_restore() {
    let mut run = TaskRun::start(&Task::RestoreRegistry);
    run.record(Ok(StepOutput::Message("Restored.".to_owned())));
    assert!(matches!(run.next_step(), Some(Step::SyncRegistry)));
    run.record(Err("scan failed".to_owned()));
    assert!(run.next_step().is_none());
    assert_eq!(run.finish().err(), Some("scan failed".to_owned()));
}

#[test]
fn outputs_that_do_not_fit_the_task_are_an_error() {
    let mut run = TaskRun::start(&Task::Refresh);
    run.record(Ok(StepOutput::Updates(vec![])));
    assert!(run.next_step().is_none());
    assert_eq!(run.finish().err(), Some("the task's steps gave unexpected results".to_owned()));
}

#[test]
fn registry_selects_the_highest_pre_release_and_text() {
    let installations = vec![
        installation("v18.0.0", vec![package("tool", "2.0.0-beta.2"), package("plain", "abc")]),
        installation("v20.0.0", vec![package("tool", "2.0.0-beta.10"), package("plain", "abd")]),
        installation("v22.0.0", vec![package("tool", "v2.0.0-alpha"), package("plain", "abb")]),
    ];
    let registry = manager().sync_registry(&installations, "t".to_owned(), "x64".to_owned());
    assert_eq!(registry.packages.len(), 2);
    assert_eq!(registry.packages[0].0, "plain");
    assert_eq!(registry.packages[0].1.selected_version, "abd");
    assert_eq!(registry.packages[1].0, "tool");
    assert_eq!(registry.packages[1].1.selected_version, "2.0.0-beta.10");
}

#[test]
fn layout_areas_span_the_split_area() {
    let area = Area::new(0, 0, 120, 40);
    let geometry = screen_geometry(area);
    assert_eq!(geometry.views.x, geometry.sidebar.x);
    assert_eq!(geometry.views.width, geometry.sidebar.width);
    assert_eq!(geometry.actions.width, geometry.sidebar.width);
    assert_eq!(geometry.sidebar.y, geometry.content.y);
    let dialog = centered_rect(60, 28, area);
    assert!(dialog.x >= area.x && dialog.x + dialog.width <= area.x + area.width);
}

#[test]
fn layout_constraints_are_fixed() {
    assert_eq!(screen_row_extents(), vec![Extent::Length(3), Extent::Min(8), Extent::Length(2)]);
    assert_eq!(main_column_extents(), vec![Extent::Length(30), Extent::Min(30)]);
    assert_eq!(sidebar_extents(), vec![Extent::Length(8), Extent::Length(9), Extent::Min(0)]);
    assert_eq!(centering_extents(60), vec![Extent::Percentage(20), Extent::Percentage(60), Extent::Percentage(20)]);
    assert_eq!(centering_extents(28), vec![Extent::Percentage(36), Extent::Percentage(28), Extent::Percentage(36)]);
}

#[test]
fn layout_parts_lie_inside_the_area() {
    let area = Area::new(0, 0, 120, 40);
    let rows = screen_layout(area);
    assert_eq!(rows.len(), 3);
    for row in &rows {
        assert_eq!((row.x, row.width), (0, 120));
        assert!(row.y + row.height <= 40);
    }
    let (views, actions) = sidebar_rows(Area::new(0, 3, 30, 35));
    assert_eq!(views, Area { x: 0, y: 3, width: 30, height: 8 });
    assert_eq!(actions, Area { x: 0, y: 11, width: 30, height: 9 });
}

#[test]
fn a_missing_default_is_refused() {
    assert_eq!(configured_default(None), Err("no nvm default is configured".to_owned()));
    assert_eq!(configured_default(Some("v22.12.0".to_owned())), Ok("v22.12.0".to_owned()));
}

#[test]
fn installation_architecture_labels() {
    assert_eq!(installation_architecture(false, None), "missing");
    assert_eq!(installation_architecture(true, None), "unknown");
    assert_eq!(installation_architecture(true, Some("arm64".to_owned())), "arm64");
}

#[test]
fn confirmation_headings() {
    assert_eq!(confirmation_heading(&Task::InstallLts), "Confirm action");
    assert_eq!(confirmation_heading(&Task::UpdatePackage(candidate("a", "1.0.0", "2.0.0"))), "Confirm package update");
}

#[test]
fn global_packages_are_assembled_from_their_manifests() {
    assert!(global_package_list(false, vec![Some(package("a", "1.0.0"))]).is_empty());
    let found = global_package_list(
        true,
        vec![Some(package("typescript", "5.0.0")), None, Some(package("@scope/b", "1.0.0")), Some(package("eslint", "9.0.0"))],
    );
    let names: Vec<&str> = found.iter().map(|p| p.name.as_str()).collect();
    assert_eq!(names, vec!["@scope/b", "eslint", "typescript"]);
}

#[test]
fn parsed_versions_are_ordered_by_semver_else_text() {
    let a = SemVer::parse("1.10.0");
    let b = SemVer::parse("1.9.0");
    assert_eq!(order_parsed_versions("1.10.0", "1.9.0", &a, &b), Ordering::Greater);
    assert_eq!(order_parsed_versions("1.10.0", "1.9.0", &a, &None), Ordering::Less);
}
