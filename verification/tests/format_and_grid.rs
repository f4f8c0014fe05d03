use cosmic_store::details::{
    addons_shown, app_theme_from_index, app_theme_index, card_tags, developer_heading, downloads_column,
    screenshot_nav, url_links, CardTag, DeveloperHeading, ScreenshotNav, UrlLabel,
};
use cosmic_store::downloads::{decimal_string, format_downloads};
use cosmic_store::grid::{GridMetrics, Spacing};
use cosmic_store::license::{license_lines, license_lines_from, split_after_eq, LicenseLine};
use cosmic_store::model::{AppInfo, AppTheme, AppUrl};
use cosmic_store::release::release_date_text;

fn spacing() -> Spacing {
    Spacing {
        space_none: 0,
        space_xxxs: 4,
        space_xxs: 8,
        space_xs: 12,
        space_s: 16,
        space_m: 24,
        space_l: 32,
        space_xl: 48,
        space_xxl: 64,
        space_xxxl: 128,
    }
}

fn info(downloads: u64, developer: &str) -> AppInfo {
    AppInfo {
        source_id: "flathub".to_string(),
        source_name: "Flathub".to_string(),
        name: "Editor".to_string(),
        summary: "Edits text".to_string(),
        description: String::new(),
        developer_name: developer.to_string(),
        monthly_downloads: downloads,
        desktop_ids: vec![],
        provides: vec![],
        screenshots: vec![],
        releases: vec![],
        license_opt: None,
        urls: vec![],
    }
}

#[test]
fn format_downloads_small_counts_are_written_out() {
    assert_eq!(format_downloads(0), "0");
    assert_eq!(format_downloads(7), "7");
    assert_eq!(format_downloads(999), "999");
    assert_eq!(format_downloads(1000), "1000");
}

#[test]
fn format_downloads_scales() {
    assert_eq!(format_downloads(1001), "1 K");
    assert_eq!(format_downloads(9_999), "9 K");
    assert_eq!(format_downloads(12_345), "10 K");
    assert_eq!(format_downloads(123_456), "100 K");
    assert_eq!(format_downloads(1_234_567), "1 M");
    assert_eq!(format_downloads(25_000_000), "20 M");
    assert_eq!(format_downloads(250_000_000), "200 M");
    assert_eq!(format_downloads(1_000_000_000), "1000 M");
    assert_eq!(format_downloads(3_000_000_000), "3 B");
    assert_eq!(format_downloads(u64::MAX), "18446744073 B");
}

#[test]
fn decimal_string_writes_digits() {
    assert_eq!(decimal_string(0), "0");
    assert_eq!(decimal_string(10), "10");
    assert_eq!(decimal_string(9_876_543_210), "9876543210");
}

#[test]
fn grid_metrics_fit_columns() {
    let m = GridMetrics::new(1000, &spacing());
    assert_eq!(m.cols, 3);
    assert_eq!(m.item_width, 317);
    assert_eq!(m.column_spacing, 24);
    // 3 * 317 + 2 * 24 = 999 <= 1000
    assert!(m.cols * m.item_width + (m.cols - 1) * 24 <= 1000);
}

#[test]
fn grid_metrics_narrow_width_has_one_column() {
    let m = GridMetrics::new(100, &spacing());
    assert_eq!(m.cols, 1);
    assert_eq!(m.item_width, 100);
    let z = GridMetrics::new(0, &spacing());
    assert_eq!(z.cols, 1);
    assert_eq!(z.item_width, 0);
}

#[test]
fn grid_metrics_exact_boundary() {
    // least card width is 48 + 2 * 8 + 12 + 180 = 256, a column step 280
    let m = GridMetrics::new(256 + 280, &spacing());
    assert_eq!(m.cols, 2);
    assert_eq!(m.item_width, (536 - 24) / 2);
    let n = GridMetrics::new(256 + 280 - 1, &spacing());
    assert_eq!(n.cols, 1);
}

#[test]
fn build_grid_reading_order() {
    let m = GridMetrics { cols: 3, item_width: 100, column_spacing: 8 };
    let cells = m.build_grid(7);
    assert_eq!(cells, vec![(0, 0), (0, 1), (0, 2), (1, 0), (1, 1), (1, 2), (2, 0)]);
    assert_eq!(m.build_grid(0), vec![]);
}

#[test]
fn build_grid_without_columns() {
    let m = GridMetrics { cols: 0, item_width: 100, column_spacing: 8 };
    assert_eq!(m.build_grid(3), vec![(1, 0), (2, 0), (3, 0)]);
}

#[test]
fn theme_index_round_trip() {
    assert_eq!(app_theme_index(AppTheme::System), 0);
    assert_eq!(app_theme_index(AppTheme::Dark), 1);
    assert_eq!(app_theme_index(AppTheme::Light), 2);
    for theme in [AppTheme::Dark, AppTheme::Light, AppTheme::System] {
        assert_eq!(app_theme_from_index(app_theme_index(theme)), theme);
    }
    assert_eq!(app_theme_from_index(7), AppTheme::System);
}

#[test]
fn card_tags_cases() {
    let both = card_tags(&info(1500, "Acme"));
    assert!(matches!(&both[..], [CardTag::Downloads(d), CardTag::Divider, CardTag::Developer(n)] if d == "1 K" && n == "Acme"));
    let only_dev = card_tags(&info(0, "Acme"));
    assert!(matches!(&only_dev[..], [CardTag::Developer(n)] if n == "Acme"));
    let only_downloads = card_tags(&info(12, ""));
    assert!(matches!(&only_downloads[..], [CardTag::Downloads(d)] if d == "12"));
    assert!(card_tags(&info(0, "")).is_empty());
}

#[test]
fn developer_heading_and_downloads_column() {
    assert!(matches!(developer_heading(&info(0, "")), DeveloperHeading::AppDevelopers(n) if n == "Editor"));
    assert!(matches!(developer_heading(&info(0, "Acme")), DeveloperHeading::Named(n) if n == "Acme"));
    assert_eq!(downloads_column(&info(123_456, "")), Some("123456".to_string()));
    assert_eq!(downloads_column(&info(0, "")), None);
}

#[test]
fn screenshot_navigation() {
    assert_eq!(screenshot_nav(0, 3), Some(ScreenshotNav { previous: Some(2), next: Some(1) }));
    assert_eq!(screenshot_nav(2, 3), Some(ScreenshotNav { previous: Some(1), next: Some(0) }));
    assert_eq!(screenshot_nav(0, 1), Some(ScreenshotNav { previous: None, next: None }));
    assert_eq!(screenshot_nav(3, 3), None);
    assert_eq!(screenshot_nav(0, 0), None);
}

#[test]
fn screenshot_navigation_round_trip() {
    for count in 1..6usize {
        for shown in 0..count {
            let nav = screenshot_nav(shown, count).unwrap();
            let prev = nav.previous.unwrap_or(shown);
            let back = screenshot_nav(prev, count).unwrap();
            assert_eq!(back.next.unwrap_or(prev), shown);
        }
    }
}

#[test]
fn addons_shown_limits() {
    assert_eq!(addons_shown(3, false), (3, false));
    assert_eq!(addons_shown(4, false), (4, false));
    assert_eq!(addons_shown(9, false), (4, true));
    assert_eq!(addons_shown(9, true), (9, false));
}

#[test]
fn url_links_keep_order() {
    let urls = vec![
        AppUrl::Homepage("https://a".to_string()),
        AppUrl::BugTracker("https://b".to_string()),
        AppUrl::Translate("https://c".to_string()),
    ];
    let links = url_links(&urls);
    assert_eq!(
        links,
        vec![
            (UrlLabel::Homepage, "https://a".to_string()),
            (UrlLabel::BugTracker, "https://b".to_string()),
            (UrlLabel::Translate, "https://c".to_string()),
        ]
    );
}

#[test]
fn split_after_first_equals() {
    assert_eq!(split_after_eq(&"LicenseRef-proprietary=https://x.org/a=b".to_string()), Some("https://x.org/a=b".to_string()));
    assert_eq!(split_after_eq(&"a=".to_string()), Some(String::new()));
    assert_eq!(split_after_eq(&"proprietary".to_string()), None);
}

#[test]
fn license_lines_from_parsed_requirements() {
    let parsed = Some(vec![
        (true, "MIT License".to_string()),
        (false, "LicenseRef-proprietary=https://example.com/eula".to_string()),
        (false, "LicenseRef-proprietary".to_string()),
    ]);
    let lines = license_lines_from(&"x".to_string(), parsed);
    assert!(matches!(&lines[..], [LicenseLine::Name(a), LicenseLine::Link(b), LicenseLine::Proprietary]
        if a == "MIT License" && b == "https://example.com/eula"));
    let unparsed = license_lines_from(&"Custom terms".to_string(), None);
    assert!(matches!(&unparsed[..], [LicenseLine::Unparsed(t)] if t == "Custom terms"));
}

#[test]
fn license_lines_through_spdx() {
    let lines = license_lines(&"MIT OR Apache-2.0".to_string());
    assert!(matches!(&lines[..], [LicenseLine::Name(a), LicenseLine::Name(b)]
        if a == "MIT License" && b == "Apache License 2.0"));
    // the SPDX lexer takes no `=` in a license reference: such a text is shown as given
    let with_url = "LicenseRef-proprietary=https://example.com/eula".to_string();
    let proprietary = license_lines(&with_url);
    assert!(matches!(&proprietary[..], [LicenseLine::Unparsed(t)] if *t == with_url));
    let bare = license_lines(&"LicenseRef-proprietary".to_string());
    assert!(matches!(&bare[..], [LicenseLine::Proprietary]));
    let bad = license_lines(&"(((".to_string());
    assert!(matches!(&bad[..], [LicenseLine::Unparsed(t)] if t == "((("));
}

#[test]
fn release_dates() {
    assert_eq!(release_date_text(None), None);
    let date = release_date_text(Some(1_700_000_000)).expect("a representable timestamp has a date");
    assert!(["Nov 13, 2023", "Nov 14, 2023", "Nov 15, 2023"].contains(&date.as_str()), "{date}");
    let epoch = release_date_text(Some(0)).unwrap();
    assert!(epoch == "Jan 1, 1970" || epoch == "Dec 31, 1969", "{epoch}");
    let leap = release_date_text(Some(951_825_600)).unwrap();
    assert!(["Feb 28, 2000", "Feb 29, 2000", "Mar 1, 2000"].contains(&leap.as_str()), "{leap}");
    let early = release_date_text(Some(-62_135_596_800)).unwrap();
    assert!(early == "Jan 1, 1" || early == "Dec 31, 0", "{early}");
    let late = release_date_text(Some(253_402_300_800)).unwrap();
    assert!(late == "Jan 1, +10000" || late == "Dec 31, 9999", "{late}");
    assert_eq!(release_date_text(Some(i64::MAX)), None);
    assert!(release_date_text(Some(-8_334_601_228_800)).is_some());
    assert_eq!(release_date_text(Some(-8_334_601_228_801)), None);
    assert!(release_date_text(Some(8_210_266_876_799)).is_some());
    assert_eq!(release_date_text(Some(8_210_266_876_800)), None);
}

#[test]
fn grid_columns_grow_with_width() {
    let mut last = 0;
    for width in (0..3000usize).step_by(7) {
        let cols = GridMetrics::new(width, &spacing()).cols;
        assert!(cols >= 1);
        assert!(cols >= last);
        last = cols;
    }
}

#[test]
fn larger_download_counts_never_show_less() {
    fn amount(s: &str) -> u64 {
        let (digits, scale) = match s.split_once(' ') {
            Some((d, "B")) => (d, 1_000_000_000),
            Some((d, "M")) => (d, 1_000_000),
            Some((d, "K")) => (d, 1_000),
            Some(_) => panic!("unknown unit in {s}"),
            None => (s, 1),
        };
        digits.parse::<u64>().unwrap() * scale
    }
    let counts = [
        0, 999, 1_000, 1_001, 9_999, 10_000, 10_001, 99_999, 100_000, 100_001, 999_999, 1_000_000,
        1_000_001, 9_999_999, 10_000_000, 10_000_001, 99_999_999, 100_000_000, 100_000_001,
        999_999_999, 1_000_000_000, 1_000_000_001, 5_000_000_000,
    ];
    for w in counts.windows(2) {
        let (a, b) = (amount(&format_downloads(w[0])), amount(&format_downloads(w[1])));
        assert!(a <= b, "{} shows {} but {} shows {}", w[0], a, w[1], b);
        assert!(a <= w[0]);
    }
    assert_eq!(amount(&format_downloads(250_000_000)), 200_000_000);
    assert_eq!(amount(&format_downloads(1_000_000_000)), 1_000_000_000);
}
