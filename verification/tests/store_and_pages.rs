use std::collections::BTreeMap;
use std::sync::Arc;

use cosmic_store::addons::{name_ranks, sort_addons};
use cosmic_store::buttons::ButtonKind;
use cosmic_store::details::SourcesDisplay;
use cosmic_store::grid::Spacing;
use cosmic_store::model::{
    AppEntry, AppId, AppInfo, AppProvide, AppRelease, AppScreenshot, AppTheme, AppstreamCache, BackendName,
    ExplorePage, NavPage, Operation, OperationKind, Package, SearchResult, Selected, Source, SourceKind,
};
use cosmic_store::pages::{CategoryView, ExploreView, PageView, SearchView, UpdateControls, MAX_RESULTS};
use cosmic_store::store::App;

fn spacing() -> Spacing {
    Spacing {
        space_none: 0,
        space_xxxs: 4,
        space_xxs: 8,
        space_xs: 12,
        space_s: 16,
        space_m: 24,
        space_l: 32,
        space_xl: 48,
        space_xxl: 64,
        space_xxxl: 128,
    }
}

fn id(s: &str) -> AppId {
    AppId::new(s.to_string())
}

fn info(source: &str, name: &str, downloads: u64) -> AppInfo {
    AppInfo {
        source_id: source.to_string(),
        source_name: format!("{} repo", source),
        name: name.to_string(),
        summary: String::new(),
        description: String::new(),
        developer_name: String::new(),
        monthly_downloads: downloads,
        desktop_ids: vec![],
        provides: vec![],
        screenshots: vec![],
        releases: vec![],
        license_opt: None,
        urls: vec![],
    }
}

fn empty_app() -> App {
    App::new()
}

fn result(name: &str) -> SearchResult {
    SearchResult { backend_name: BackendName::FlatpakUser, id: id(name), info: Arc::new(info("flathub", name, 0)) }
}

fn package(name: &str, source: &str) -> Package {
    Package { id: id(name), info: Arc::new(info(source, name, 0)) }
}

fn operation(name: &str, source: &str) -> Operation {
    Operation {
        kind: OperationKind::Install,
        backend_name: BackendName::FlatpakUser,
        package_ids: vec![id(name)],
        infos: vec![Arc::new(info(source, name, 0))],
    }
}

#[test]
fn is_installed_matches_backend_source_and_id() {
    let mut app = empty_app();
    app.installed = Some(vec![(BackendName::FlatpakUser, package("org.a", "flathub"))]);
    let i = info("flathub", "A", 0);
    assert!(app.is_installed(BackendName::FlatpakUser, &id("org.a"), &i));
    assert!(!app.is_installed(BackendName::FlatpakSystem, &id("org.a"), &i));
    assert!(!app.is_installed(BackendName::FlatpakUser, &id("org.b"), &i));
    assert!(!app.is_installed(BackendName::FlatpakUser, &id("org.a"), &info("fedora", "A", 0)));
}

#[test]
fn waiting_refresh_looks_in_both_lists() {
    let mut app = empty_app();
    assert!(!app.is_waiting_refresh(BackendName::Packagekit, &"sys".to_string(), &id("x")));
    app.waiting_updates.push((BackendName::Packagekit, "sys".to_string(), id("x")));
    assert!(app.is_waiting_refresh(BackendName::Packagekit, &"sys".to_string(), &id("x")));
    assert!(!app.is_waiting_refresh(BackendName::Packagekit, &"other".to_string(), &id("x")));
    app.waiting_installed.push((BackendName::FlatpakUser, "flathub".to_string(), id("y")));
    assert!(app.is_waiting_refresh(BackendName::FlatpakUser, &"flathub".to_string(), &id("y")));
}

#[test]
fn progress_picks_first_matching_operation() {
    let mut app = empty_app();
    app.pending_operations = BTreeMap::from([(9, operation("org.a", "flathub")), (3, operation("org.b", "flathub")), (5, operation("org.a", "flathub"))]);
    assert_eq!(app.progress_opt(BackendName::FlatpakUser, &"flathub".to_string(), &id("org.a")), Some(5));
    assert_eq!(app.progress_opt(BackendName::FlatpakUser, &"fedora".to_string(), &id("org.a")), None);
    assert_eq!(app.progress_opt(BackendName::FlatpakSystem, &"flathub".to_string(), &id("org.a")), None);
}

#[test]
fn category_results_belong_to_their_page() {
    let mut app = empty_app();
    assert!(!app.has_category_results_for_page(NavPage::Create));
    app.category_results = Some((NavPage::Create.categories().unwrap(), vec![result("a")]));
    assert!(app.has_category_results_for_page(NavPage::Create));
    assert!(!app.has_category_results_for_page(NavPage::Work));
    assert!(!app.has_category_results_for_page(NavPage::Installed));
    app.category_results = Some((NavPage::Create.categories().unwrap(), vec![]));
    assert!(!app.has_category_results_for_page(NavPage::Create));
}

#[test]
fn selected_sources_from_known_entries() {
    let mut app = empty_app();
    app.insert_app(
        id("org.a"),
        vec![
            AppEntry { backend_name: BackendName::FlatpakUser, info: Arc::new(info("flathub", "A", 0)), installed: true },
            AppEntry { backend_name: BackendName::Packagekit, info: Arc::new(info("fedora", "A", 0)), installed: false },
        ],
    );
    let sources = app.selected_sources(BackendName::FlatpakUser, &id("org.a"), &info("flathub", "A", 0));
    assert_eq!(sources.len(), 2);
    assert_eq!(sources[0].backend_name, BackendName::FlatpakUser);
    assert_eq!(sources[0].source_id, "flathub");
    assert_eq!(sources[0].source_name, "flathub repo");
    assert!(sources[0].installed);
    assert_eq!(sources[1].source_id, "fedora");
    assert!(!sources[1].installed);
}

#[test]
fn selected_sources_for_unknown_app() {
    let mut app = empty_app();
    app.installed = Some(vec![(BackendName::FlatpakUser, package("org.z", "flathub"))]);
    let sources = app.selected_sources(BackendName::FlatpakUser, &id("org.z"), &info("flathub", "Z", 0));
    assert_eq!(sources.len(), 1);
    assert_eq!(sources[0].source_id, "flathub");
    assert!(sources[0].installed);
}

fn cache_app() -> App {
    let mut app = empty_app();
    app.insert_backend(
        BackendName::FlatpakUser,
        vec![
            AppstreamCache {
                source_id: "flathub".to_string(),
                addons: vec![(id("org.a"), vec![id("org.a.x"), id("org.a.missing"), id("org.a.y"), id("org.a.z")])],
                infos: vec![
                    (id("org.a.x"), Arc::new(info("flathub", "Xray", 10))),
                    (id("org.a.y"), Arc::new(info("flathub", "Yak", 50))),
                    (id("org.a.z"), Arc::new(info("flathub", "Zed", 10))),
                ],
            },
            AppstreamCache {
                source_id: "other".to_string(),
                addons: vec![(id("org.a"), vec![id("org.a.w")])],
                infos: vec![(id("org.a.w"), Arc::new(info("other", "W", 99)))],
            },
        ],
    );
    app
}

#[test]
fn addon_candidates_skip_missing_and_other_sources() {
    let app = cache_app();
    let c = app.addon_candidates(BackendName::FlatpakUser, &id("org.a"), &info("flathub", "A", 0));
    let names: Vec<&str> = c.iter().map(|(_, i)| i.name.as_str()).collect();
    assert_eq!(names, vec!["Xray", "Yak", "Zed"]);
    assert!(app.addon_candidates(BackendName::Packagekit, &id("org.a"), &info("flathub", "A", 0)).is_empty());
}

#[test]
fn selected_addons_most_downloaded_first() {
    let app = cache_app();
    // name ranks of Xray, Yak, Zed in collation order: Zed before Xray here
    let ranks = vec![2, 1, 0];
    let sorted = app.selected_addons(BackendName::FlatpakUser, &id("org.a"), &info("flathub", "A", 0), &ranks);
    let names: Vec<&str> = sorted.iter().map(|(_, i)| i.name.as_str()).collect();
    assert_eq!(names, vec!["Yak", "Zed", "Xray"]);
    let ids: Vec<&str> = sorted.iter().map(|(i, _)| i.raw.as_str()).collect();
    assert_eq!(ids, vec!["org.a.y", "org.a.z", "org.a.x"]);
}

#[test]
fn sort_addons_ties_by_rank() {
    let addons = vec![
        (id("a"), Arc::new(info("s", "A", 1))),
        (id("b"), Arc::new(info("s", "B", 3))),
        (id("c"), Arc::new(info("s", "C", 1))),
        (id("d"), Arc::new(info("s", "D", 3))),
    ];
    let sorted = sort_addons(addons, &vec![1, 3, 0, 2]);
    let ids: Vec<&str> = sorted.iter().map(|(i, _)| i.raw.as_str()).collect();
    assert_eq!(ids, vec!["d", "b", "c", "a"]);
    assert!(sort_addons(vec![], &vec![]).is_empty());
}

fn installed_app(desktop: bool, applet: bool, system: bool) -> (App, AppId, AppInfo) {
    let name = if system { "__SYSTEM__" } else { "org.a" };
    let mut i = info("flathub", "A", 0);
    if desktop {
        i.desktop_ids = vec!["org.a.desktop".to_string()];
    }
    if applet {
        i.provides = vec![AppProvide::MediaType("text/plain".to_string()), AppProvide::Id("com.system76.CosmicApplet".to_string())];
    }
    let mut app = empty_app();
    app.installed = Some(vec![(BackendName::FlatpakUser, package(name, "flathub"))]);
    (app, id(name), i)
}

#[test]
fn buttons_progress_comes_first() {
    let (mut app, app_id, i) = installed_app(true, false, false);
    app.pending_operations = BTreeMap::from([(4, operation("org.a", "flathub"))]);
    app.waiting_installed = vec![(BackendName::FlatpakUser, "flathub".to_string(), id("org.a"))];
    let b = app.selected_buttons(BackendName::FlatpakUser, &app_id, &i, false);
    assert!(matches!(&b[..], [ButtonKind::Progress(4)]));
}

#[test]
fn buttons_hidden_while_waiting() {
    let (mut app, app_id, i) = installed_app(true, false, false);
    app.waiting_installed = vec![(BackendName::FlatpakUser, "flathub".to_string(), id("org.a"))];
    assert!(app.selected_buttons(BackendName::FlatpakUser, &app_id, &i, false).is_empty());
}

#[test]
fn buttons_for_installed_app() {
    let (mut app, app_id, i) = installed_app(true, false, false);
    app.updates = Some(vec![
        (BackendName::FlatpakUser, package("org.other", "flathub")),
        (BackendName::FlatpakUser, package("org.a", "flathub")),
    ]);
    let b = app.selected_buttons(BackendName::FlatpakUser, &app_id, &i, false);
    assert!(matches!(&b[..], [ButtonKind::Open(d), ButtonKind::Update(1), ButtonKind::Uninstall] if d == "org.a.desktop"));
}

#[test]
fn buttons_for_installed_applet() {
    let (app, app_id, i) = installed_app(true, true, false);
    let b = app.selected_buttons(BackendName::FlatpakUser, &app_id, &i, false);
    assert!(matches!(&b[..], [ButtonKind::PlaceOnDesktop, ButtonKind::Uninstall]));
}

#[test]
fn buttons_for_system_packages() {
    let (app, app_id, i) = installed_app(false, false, true);
    assert!(app.selected_buttons(BackendName::FlatpakUser, &app_id, &i, false).is_empty());
}

#[test]
fn buttons_for_uninstalled_app_and_addon() {
    let app = empty_app();
    let i = info("flathub", "A", 0);
    let b = app.selected_buttons(BackendName::FlatpakUser, &id("org.a"), &i, false);
    assert!(matches!(&b[..], [ButtonKind::Install { suggested: true }]));
    let a = app.selected_buttons(BackendName::FlatpakUser, &id("org.a"), &i, true);
    assert!(matches!(&a[..], [ButtonKind::Install { suggested: false }]));
}

#[test]
fn search_results_page() {
    let app = empty_app();
    let many: Vec<SearchResult> = (0..150).map(|i| result(&format!("r{}", i))).collect();
    assert_eq!(app.view_search_results(&many), SearchView { no_results: false, results_len: MAX_RESULTS });
    assert_eq!(app.view_search_results(&vec![]), SearchView { no_results: true, results_len: 0 });
}

#[test]
fn category_page_states() {
    let mut app = empty_app();
    assert_eq!(app.view_category_page(NavPage::Applets), CategoryView::Loading(NavPage::Applets));
    app.category_results = Some((NavPage::Applets.categories().unwrap(), vec![result("a"), result("b")]));
    assert_eq!(
        app.view_category_page(NavPage::Applets),
        CategoryView::Results { page: NavPage::Applets, applets_banner: false, results_len: 2 }
    );
    app.sources = vec![Source { kind: SourceKind::Custom }, Source { kind: SourceKind::Recommended { enabled: false } }];
    assert_eq!(
        app.view_category_page(NavPage::Applets),
        CategoryView::Results { page: NavPage::Applets, applets_banner: true, results_len: 2 }
    );
    app.sources = vec![Source { kind: SourceKind::Recommended { enabled: true } }];
    assert_eq!(
        app.view_category_page(NavPage::Applets),
        CategoryView::Results { page: NavPage::Applets, applets_banner: false, results_len: 2 }
    );
}

#[test]
fn explore_page_states() {
    let mut app = empty_app();
    assert!(matches!(app.view_explore_page(1000, &spacing()), ExploreView::Loading));
    let seven: Vec<SearchResult> = (0..7).map(|i| result(&format!("p{}", i))).collect();
    let twelve: Vec<SearchResult> = (0..12).map(|i| result(&format!("q{}", i))).collect();
    app.insert_explore_results(ExplorePage::NewApps, twelve);
    app.insert_explore_results(ExplorePage::EditorsChoice, seven);
    app.insert_explore_results(ExplorePage::Games, vec![]);
    // a width of 1000 gives three columns: sections of nine
    match app.view_explore_page(1000, &spacing()) {
        ExploreView::Overview(sections) => {
            assert_eq!(sections, vec![(ExplorePage::EditorsChoice, 7), (ExplorePage::NewApps, 9)]);
        },
        _ => panic!("expected the overview"),
    }
    // one column: sections of four
    match app.view_explore_page(100, &spacing()) {
        ExploreView::Overview(sections) => {
            assert_eq!(sections, vec![(ExplorePage::EditorsChoice, 4), (ExplorePage::NewApps, 4)]);
        },
        _ => panic!("expected the overview"),
    }
    app.explore_page_opt = Some(ExplorePage::NewApps);
    assert!(matches!(app.view_explore_page(1000, &spacing()),
        ExploreView::Page { page: ExplorePage::NewApps, results_len: Some(12) }));
    app.explore_page_opt = Some(ExplorePage::Utilities);
    assert!(matches!(app.view_explore_page(1000, &spacing()),
        ExploreView::Page { page: ExplorePage::Utilities, results_len: None }));
}

#[test]
fn installed_page_cards() {
    let mut app = empty_app();
    assert!(app.view_installed_page(1000, &spacing()).is_none());
    let mut with_desktop = result("a");
    let mut i = info("flathub", "a", 0);
    i.desktop_ids = vec!["a.desktop".to_string()];
    with_desktop.info = Arc::new(i);
    app.installed_results = Some(vec![with_desktop, result("b"), result("c"), result("d")]);
    let g = app.view_installed_page(1000, &spacing()).unwrap();
    assert!(!g.empty);
    assert_eq!(g.metrics.cols, 3);
    assert_eq!(g.open, vec![Some("a.desktop".to_string()), None, None, None]);
    assert_eq!(g.cells, vec![(0, 0), (0, 1), (0, 2), (1, 0)]);
    app.installed_results = Some(vec![]);
    assert!(app.view_installed_page(1000, &spacing()).unwrap().empty);
}

#[test]
fn updates_page_controls() {
    let mut app = empty_app();
    assert!(app.view_updates_page(1000, &spacing()).is_none());
    app.updates = Some(vec![
        (BackendName::FlatpakUser, package("org.a", "flathub")),
        (BackendName::FlatpakUser, package("org.b", "flathub")),
        (BackendName::FlatpakUser, package("org.c", "flathub")),
    ]);
    app.pending_operations = BTreeMap::from([(8, operation("org.a", "flathub"))]);
    app.waiting_updates = vec![(BackendName::FlatpakUser, "flathub".to_string(), id("org.b"))];
    let g = app.view_updates_page(1000, &spacing()).unwrap();
    assert!(!g.empty);
    assert_eq!(g.controls, vec![UpdateControls::Progress(8), UpdateControls::Waiting, UpdateControls::Offered]);
    assert_eq!(g.cells, vec![(0, 0), (0, 1), (0, 2)]);
    app.updates = Some(vec![]);
    assert!(app.view_updates_page(1000, &spacing()).unwrap().empty);
}

fn selected(addons: usize, view_more: bool, shown: usize) -> Selected {
    let mut i = info("flathub", "Editor", 4321);
    i.screenshots = vec![AppScreenshot { caption: "one".to_string() }, AppScreenshot { caption: "two".to_string() }];
    i.releases = vec![
        AppRelease { version: "2.0".to_string(), timestamp: Some(1_700_000_000), description: Some("New".to_string()) },
        AppRelease { version: "1.0".to_string(), timestamp: None, description: None },
    ];
    i.license_opt = Some("MIT".to_string());
    Selected {
        backend_name: BackendName::FlatpakUser,
        id: id("org.a"),
        info: Arc::new(i),
        sources: vec![],
        addons: (0..addons).map(|k| (id(&format!("org.a.{}", k)), Arc::new(info("flathub", "addon", 0)))).collect(),
        addons_view_more: view_more,
        screenshot_shown: shown,
    }
}

#[test]
fn selected_page_contents() {
    let app = empty_app();
    let sel = selected(6, false, 1);
    let v = app.view_selected(&sel, 300);
    assert!(matches!(&v.buttons[..], [ButtonKind::Install { suggested: true }]));
    assert_eq!(v.sources, SourcesDisplay::Choice(None));
    assert_eq!(v.downloads, Some("4321".to_string()));
    assert!(v.narrow);
    assert_eq!(v.screenshot.as_ref().map(|s| (s.previous, s.next)), Some((Some(0), Some(0))));
    assert_eq!(v.addon_buttons.len(), 4);
    assert!(matches!(&v.addon_buttons[0][..], [ButtonKind::Install { suggested: false }]));
    assert!(v.addons_view_more);
    let release = v.release.as_ref().unwrap();
    assert_eq!(release.version, "2.0");
    assert!(release.date.is_some());
    assert_eq!(release.description, Some("New".to_string()));
    assert_eq!(v.license.as_ref().map(|l| l.len()), Some(1));
    assert!(v.links.is_empty());
    let wide = app.view_selected(&selected(2, false, 5), 416);
    assert!(!wide.narrow);
    assert!(wide.screenshot.is_none());
    assert_eq!(wide.addon_buttons.len(), 2);
    assert!(!wide.addons_view_more);
}

#[test]
fn selected_page_sources() {
    let app = empty_app();
    let mut sel = selected(0, false, 0);
    let a = cosmic_store::model::SelectedSource::new(BackendName::Packagekit, &info("fedora", "E", 0), false);
    let b = cosmic_store::model::SelectedSource::new(BackendName::FlatpakUser, &info("flathub", "E", 0), false);
    sel.sources = vec![a];
    assert_eq!(app.view_selected(&sel, 1000).sources, SourcesDisplay::Only);
    let a = cosmic_store::model::SelectedSource::new(BackendName::Packagekit, &info("fedora", "E", 0), false);
    sel.sources = vec![a, b];
    assert_eq!(app.view_selected(&sel, 1000).sources, SourcesDisplay::Choice(Some(1)));
}

#[test]
fn responsive_page_choice() {
    let mut app = empty_app();
    let (gw, page) = app.view_responsive(1064, &spacing());
    assert_eq!(gw, 1000);
    assert!(matches!(page, PageView::Explore(ExploreView::Loading)));
    let (gw, _) = app.view_responsive(40, &spacing());
    assert_eq!(gw, 0);
    app.nav_page = Some(NavPage::Updates);
    assert!(matches!(app.view_responsive(1064, &spacing()).1, PageView::Updates(None)));
    app.nav_page = Some(NavPage::Installed);
    assert!(matches!(app.view_responsive(1064, &spacing()).1, PageView::Installed(None)));
    app.nav_page = Some(NavPage::Game);
    assert!(matches!(app.view_responsive(1064, &spacing()).1, PageView::Category(CategoryView::Loading(NavPage::Game))));
    app.search_results = Some(("term".to_string(), vec![]));
    assert!(matches!(app.view_responsive(1064, &spacing()).1, PageView::Search(SearchView { no_results: true, results_len: 0 })));
    app.selected_opt = Some(selected(0, false, 0));
    assert!(matches!(app.view_responsive(1064, &spacing()).1, PageView::Selected(_)));
}

#[test]
fn settings_theme_index() {
    let mut app = empty_app();
    assert_eq!(app.settings(), 0);
    app.app_theme = AppTheme::Dark;
    assert_eq!(app.settings(), 1);
    app.app_theme = AppTheme::Light;
    assert_eq!(app.settings(), 2);
}

#[test]
fn system_id_is_recognised() {
    assert!(id("__SYSTEM__").is_system());
    assert!(!id("org.a").is_system());
    assert!(id("org.a").same(&id("org.a")));
    assert!(!id("org.a").same(&id("org.b")));
}

#[test]
fn progress_takes_least_key_whatever_the_insertion_order() {
    let mut app = empty_app();
    app.pending_operations.insert(20, operation("org.a", "flathub"));
    app.pending_operations.insert(7, operation("org.a", "flathub"));
    assert_eq!(app.progress_opt(BackendName::FlatpakUser, &"flathub".to_string(), &id("org.a")), Some(7));
}

#[test]
fn insert_methods_replace_by_key() {
    let mut app = empty_app();
    app.insert_app(id("org.a"), vec![]);
    app.insert_app(id("org.b"), vec![]);
    app.insert_app(
        id("org.a"),
        vec![AppEntry { backend_name: BackendName::Pkgar, info: Arc::new(info("pkgar", "A", 0)), installed: true }],
    );
    assert_eq!(app.apps.len(), 2);
    assert_eq!(app.apps[0].1.len(), 1);
    app.insert_backend(BackendName::Packagekit, vec![]);
    app.insert_backend(BackendName::Packagekit, vec![]);
    assert_eq!(app.backends.len(), 1);
    app.insert_explore_results(ExplorePage::Games, vec![result("a")]);
    app.insert_explore_results(ExplorePage::Games, vec![]);
    assert_eq!(app.explore_results.len(), 1);
    assert!(app.explore_results[0].1.is_empty());
}

#[test]
fn selected_addons_depend_only_on_source() {
    let app = cache_app();
    let ranks = vec![0, 0, 0];
    let mut other = info("flathub", "Another name", 12345);
    other.developer_name = "Someone".to_string();
    let a = app.selected_addons(BackendName::FlatpakUser, &id("org.a"), &info("flathub", "A", 0), &ranks);
    let b = app.selected_addons(BackendName::FlatpakUser, &id("org.a"), &other, &ranks);
    let names = |v: &Vec<(AppId, Arc<AppInfo>)>| v.iter().map(|(i, _)| i.raw.clone()).collect::<Vec<String>>();
    assert_eq!(names(&a), names(&b));
    // equal downloads and equal ranks keep the order they were gathered in
    assert_eq!(names(&a), vec!["org.a.y", "org.a.x", "org.a.z"]);
}

#[test]
fn name_ranks_share_equal_names() {
    // names in collation order: index 2, then 0 and 3 (equal), then 1
    let ranks = name_ranks(&vec![2, 0, 3, 1], &vec![false, false, true, false]);
    assert_eq!(ranks, vec![1, 2, 0, 1]);
    assert!(name_ranks(&vec![], &vec![]).is_empty());
}

#[test]
fn card_grid_needed_only_on_grid_pages() {
    let mut app = empty_app();
    assert!(!app.needs_card_grid());
    app.insert_explore_results(ExplorePage::NewApps, vec![]);
    assert!(!app.needs_card_grid());
    app.insert_explore_results(ExplorePage::Games, vec![result("a")]);
    assert!(app.needs_card_grid());
    app.explore_page_opt = Some(ExplorePage::Games);
    assert!(!app.needs_card_grid());
    app.nav_page = Some(NavPage::Updates);
    assert!(!app.needs_card_grid());
    app.updates = Some(vec![]);
    assert!(app.needs_card_grid());
    app.selected_opt = Some(selected(0, false, 0));
    assert!(!app.needs_card_grid());
}

#[test]
fn explore_lists_without_results_lay_out_no_grid() {
    let mut app = empty_app();
    assert!(!app.has_explore_results());
    app.insert_explore_results(ExplorePage::NewApps, vec![]);
    app.insert_explore_results(ExplorePage::Games, vec![]);
    assert!(!app.has_explore_results());
    let wide_cards = Spacing { space_xxs: 32_767, ..spacing() };
    match app.view_explore_page(1000, &wide_cards) {
        ExploreView::Overview(sections) => assert!(sections.is_empty()),
        other => panic!("expected an empty overview, got {:?}", other),
    }
    app.insert_explore_results(ExplorePage::Utilities, vec![result("u")]);
    assert!(app.has_explore_results());
}
