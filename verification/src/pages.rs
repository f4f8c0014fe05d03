//! What each page of the store shows.
use vstd::prelude::*;
use crate::grid::{card_min_width, grid_cell, spec_grid_cols, spec_item_width, GridMetrics, Spacing};
use crate::model::{nav_page_categories, all_explore_pages, lemma_all_explore_pages_complete, AppInfo, BackendName, ExplorePage, NavPage,
    Package, SearchResult, Source, SourceKind};
use crate::store::{first_index, lemma_first_index, lemma_first_index_is_first, App};
use crate::buttons::{buttons_view, ButtonKind, ButtonView};
use crate::details::{addons_shown, developer_heading, downloads_column, previous_screenshot, next_screenshot,
    screenshot_nav, url_links, url_link, links_view, theme_index, app_theme_index, DeveloperHeading,
    DeveloperHeadingView, ScreenshotNav, SourcesDisplay, UrlLabel};
use crate::downloads::decimal;
use crate::license::{license_lines, license_lines_spec, lines_view, spdx_lax_requirements, LicenseLine};
use crate::release::{release_date_shown, release_date_text};
use crate::model::{AppRelease, AppUrl, Selected, SelectedSource};

verus! {

/// The most results a search, explore list or category page shows.
pub const MAX_RESULTS: usize = 100;

pub open spec fn min_nat(a: int, b: int) -> int {
    if a < b { a } else { b }
}

/// What the search results page shows.
#[derive(Debug, PartialEq, Eq, Structural)]
pub struct SearchView {
    /// Whether to say that the search found nothing.
    pub no_results: bool,
    /// How many of the results to show, from the first.
    pub results_len: usize,
}

/// The explore page: one list, or all of them.
#[derive(Debug)]
pub enum ExploreView {
    /// One list, with how many of its results to show, or `None` while they load.
    Page { page: ExplorePage, results_len: Option<usize> },
    /// Nothing has loaded yet.
    Loading,
    /// A section for each list that has results, in the explore order, with
    /// how many results each shows.
    Overview(Vec<(ExplorePage, usize)>),
}

/// A category page.
#[derive(Debug, PartialEq, Eq, Structural)]
pub enum CategoryView {
    /// The page's results have not arrived.
    Loading(NavPage),
    /// The results, with a note to enable the repository of recommended
    /// applets when one is off.
    Results { page: NavPage, applets_banner: bool, results_len: usize },
}

/// The installed page.
#[derive(Debug)]
pub struct InstalledGrid {
    /// Whether to say that nothing is installed.
    pub empty: bool,
    pub metrics: GridMetrics,
    /// For each installed application, the desktop entry its "Open" button
    /// launches, or `None` when it has no button.
    pub open: Vec<Option<String>>,
    /// The grid cell of each card.
    pub cells: Vec<(usize, usize)>,
}

/// The controls on the card of an update.
#[derive(Debug, PartialEq, Eq, Structural)]
pub enum UpdateControls {
    /// A progress bar for the pending operation with this key.
    Progress(u64),
    /// Nothing, while the lists refresh after an operation.
    Waiting,
    /// "Update" and the release notes.
    Offered,
}

/// The updates page, once the updates are known.
#[derive(Debug)]
pub struct UpdatesGrid {
    /// Whether to say that there are no updates (with a button to check
    /// again) instead of offering to update all.
    pub empty: bool,
    pub metrics: GridMetrics,
    pub controls: Vec<UpdateControls>,
    pub cells: Vec<(usize, usize)>,
}

/// The number of results shown of a list: all of them, up to the limit.
pub fn shown_results(len: usize) -> (r: usize)
    ensures
        r == min_nat(len as int, MAX_RESULTS as int),
{
    if len < MAX_RESULTS { len } else { MAX_RESULTS }
}

/// How many results each section of the explore overview shows for a
/// grid of `cols` columns: four, eight or nine for one, two or three
/// columns, and two full rows beyond.
pub open spec fn explore_section_limit(cols: usize) -> int {
    if cols == 1 { 4 } else if cols == 2 { 8 } else if cols == 3 { 9 } else { 2 * cols }
}

pub fn explore_max_results(cols: usize) -> (r: usize)
    requires
        2 * cols <= usize::MAX,
    ensures
        r == explore_section_limit(cols),
{
    match cols {
        1 => 4,
        2 => 8,
        3 => 9,
        _ => cols * 2,
    }
}

/// Whether an entry of the explore results is for `page`.
pub open spec fn explore_entry_for(page: ExplorePage) -> spec_fn((ExplorePage, Vec<SearchResult>)) -> bool {
    |e: (ExplorePage, Vec<SearchResult>)| e.0 == page
}

/// Whether a source is a recommended repository that is switched off.
pub open spec fn recommended_off(s: Source) -> bool {
    s.kind == SourceKind::Recommended { enabled: false }
}

impl App {
    /// The results on hand for an explore list.
    pub open spec fn explore_results_for(&self, page: ExplorePage) -> Option<Seq<SearchResult>> {
        match first_index(self.explore_results@, explore_entry_for(page)) {
            Some(i) => Some(self.explore_results@[i].1@),
            None => None,
        }
    }

    /// Whether some explore list has results on hand.
    pub open spec fn explore_has_results(&self) -> bool {
        exists|p: ExplorePage| #[trigger] self.explore_results_for(p) matches Some(rs) && rs.len() > 0
    }

    fn find_explore(&self, page: ExplorePage) -> (r: Option<usize>)
        ensures
            r matches Some(i) ==> i < self.explore_results@.len()
                && first_index(self.explore_results@, explore_entry_for(page)) == Some(i as int),
            r is None ==> first_index(self.explore_results@, explore_entry_for(page)) is None,
    {
        let n = self.explore_results.len();
        let mut i: usize = 0;
        while i < n
            invariant
                n == self.explore_results@.len(),
                i <= n,
                forall|j: int| 0 <= j < i ==> !(explore_entry_for(page))(#[trigger] self.explore_results@[j]),
            decreases n - i,
        {
            if self.explore_results[i].0 == page {
                proof { lemma_first_index(self.explore_results@, explore_entry_for(page), i as int); }
                return Some(i);
            }
            i += 1;
        }
        None
    }

    /// The search results page for `results`.
    pub fn view_search_results(&self, results: &Vec<SearchResult>) -> (r: SearchView)
        ensures
            r.no_results == (results@.len() == 0),
            r.results_len == min_nat(results@.len() as int, MAX_RESULTS as int),
    {
        SearchView { no_results: results.len() == 0, results_len: shown_results(results.len()) }
    }

    /// Whether a category page shows the note about the recommended applets
    /// repository: on the applets page, when a recommended repository is off.
    pub open spec fn spec_applets_banner(&self, nav_page: NavPage) -> bool {
        &&& nav_page == NavPage::Applets
        &&& self.sources@.len() > 0
        &&& exists|i: int| 0 <= i < self.sources@.len() && recommended_off(#[trigger] self.sources@[i])
    }

    fn any_recommended_off(&self) -> (r: bool)
        ensures
            r == exists|i: int| 0 <= i < self.sources@.len() && recommended_off(#[trigger] self.sources@[i]),
    {
        let n = self.sources.len();
        let mut i: usize = 0;
        while i < n
            invariant
                n == self.sources@.len(),
                i <= n,
                forall|j: int| 0 <= j < i ==> !recommended_off(#[trigger] self.sources@[j]),
            decreases n - i,
        {
            match self.sources[i].kind {
                SourceKind::Recommended { enabled } => {
                    if !enabled {
                        return true;
                    }
                },
                SourceKind::Custom => {},
            }
            i += 1;
        }
        false
    }

    /// What a category page shows: loading until the results for its
    /// categories arrive, then the results, up to the limit.
    pub open spec fn category_view_ok(&self, nav_page: NavPage, r: CategoryView) -> bool {
        match self.category_results {
            Some(c) => if c.1@.len() > 0 && nav_page_categories(nav_page) == Some(c.0) {
                r == CategoryView::Results {
                    page: nav_page,
                    applets_banner: self.spec_applets_banner(nav_page),
                    results_len: min_nat(c.1@.len() as int, MAX_RESULTS as int) as usize,
                }
            } else {
                r == CategoryView::Loading(nav_page)
            },
            None => r == CategoryView::Loading(nav_page),
        }
    }

    pub fn view_category_page(&self, nav_page: NavPage) -> (r: CategoryView)
        ensures
            self.category_view_ok(nav_page, r),
    {
        if !self.has_category_results_for_page(nav_page) {
            return CategoryView::Loading(nav_page);
        }
        let applets_banner = match nav_page {
            NavPage::Applets => self.sources.len() > 0 && self.any_recommended_off(),
            _ => false,
        };
        match &self.category_results {
            Some((_, results)) => CategoryView::Results {
                page: nav_page,
                applets_banner,
                results_len: shown_results(results.len()),
            },
            None => CategoryView::Loading(nav_page),
        }
    }

    /// The sections of the explore overview for `pages`: each list with
    /// results, with how many of them to show.
    pub open spec fn overview_sections(&self, pages: Seq<ExplorePage>, limit: int) -> Seq<(ExplorePage, usize)>
        decreases pages.len(),
    {
        if pages.len() == 0 {
            seq![]
        } else {
            let rest = self.overview_sections(pages.drop_last(), limit);
            match self.explore_results_for(pages.last()) {
                Some(rs) => if rs.len() > 0 {
                    rest.push((pages.last(), min_nat(rs.len() as int, limit) as usize))
                } else {
                    rest
                },
                None => rest,
            }
        }
    }

    /// What the explore page shows for a grid of `grid_width`: the chosen
    /// list, up to the limit of results, or loading while it has none; with
    /// no list chosen, loading until any list has arrived, and then a
    /// section for each list with results, of two rows or so.
    pub open spec fn explore_view_ok(&self, grid_width: usize, spacing: Spacing, r: ExploreView) -> bool {
        match self.explore_page_opt {
            Some(p) => match r {
                ExploreView::Page { page, results_len } => page == p && results_len == match self.explore_results_for(p) {
                    Some(rs) => Some(min_nat(rs.len() as int, MAX_RESULTS as int) as usize),
                    None => None,
                },
                _ => false,
            },
            None => if self.explore_results@.len() == 0 {
                r is Loading
            } else {
                match r {
                    ExploreView::Overview(v) => v@ == self.overview_sections(all_explore_pages(),
                        explore_section_limit(spec_grid_cols(grid_width, spacing) as usize)),
                    _ => false,
                }
            },
        }
    }

    pub fn view_explore_page(&self, grid_width: usize, spacing: &Spacing) -> (r: ExploreView)
        requires
            (self.explore_page_opt is None && self.explore_has_results()) ==> card_min_width(*spacing) <= u16::MAX,
        ensures
            self.explore_view_ok(grid_width, *spacing, r),
    {
        if let Some(explore_page) = self.explore_page_opt {
            match self.find_explore(explore_page) {
                Some(i) => ExploreView::Page {
                    page: explore_page,
                    results_len: Some(shown_results(self.explore_results[i].1.len())),
                },
                None => ExploreView::Page { page: explore_page, results_len: None },
            }
        } else if self.explore_results.len() == 0 {
            ExploreView::Loading
        } else {
            let explore_pages = ExplorePage::all();
            let ghost limit = explore_section_limit(spec_grid_cols(grid_width, *spacing) as usize);
            let mut sections: Vec<(ExplorePage, usize)> = Vec::new();
            let n = explore_pages.len();
            let mut i: usize = 0;
            while i < n
                invariant
                    n == explore_pages@.len(),
                    i <= n,
                    self.explore_page_opt is None,
                    self.explore_has_results() ==> card_min_width(*spacing) <= u16::MAX,
                    limit == explore_section_limit(spec_grid_cols(grid_width, *spacing) as usize),
                    sections@ == self.overview_sections(explore_pages@.take(i as int), limit),
                decreases n - i,
            {
                let page = explore_pages[i];
                assert(explore_pages@.take(i as int + 1).drop_last() =~= explore_pages@.take(i as int));
                match self.find_explore(page) {
                    Some(k) => {
                        let results = &self.explore_results[k].1;
                        if results.len() > 0 {
                            assert(self.explore_results_for(page) == Some(results@));
                            assert(self.explore_has_results());
                            let metrics = GridMetrics::new(grid_width, spacing);
                            let cols = metrics.cols;
                            proof {
                                let m = card_min_width(*spacing);
                                let c = cols as int;
                                if grid_width >= m {
                                    assert(c * 48 <= c * m) by (nonlinear_arith) requires m >= 48, c >= 1;
                                }
                            }
                            let max_results = explore_max_results(cols);
                            let shown = if results.len() < max_results { results.len() } else { max_results };
                            sections.push((page, shown));
                        }
                    },
                    None => {},
                }
                i += 1;
            }
            assert(explore_pages@.take(n as int) =~= explore_pages@);
            ExploreView::Overview(sections)
        }
    }

    /// The desktop entry an installed application's card opens.
    pub open spec fn first_desktop_id(info: AppInfo) -> Option<Seq<char>> {
        if info.desktop_ids@.len() > 0 { Some(info.desktop_ids@[0]@) } else { None }
    }

    /// What the installed page shows for a grid of `grid_width`: nothing
    /// below its title until the installed applications are known, then a
    /// card for each, with a note when there are none.
    pub open spec fn installed_view_ok(&self, grid_width: usize, spacing: Spacing, r: Option<InstalledGrid>) -> bool {
        match self.installed_results {
            None => r is None,
            Some(v) => match r {
                Some(g) => {
                    &&& g.empty == (v@.len() == 0)
                    &&& g.metrics.cols == spec_grid_cols(grid_width, spacing)
                    &&& g.metrics.item_width == spec_item_width(grid_width, spacing)
                    &&& g.metrics.column_spacing == spacing.space_m
                    &&& g.open@.len() == v@.len()
                    &&& forall|i: int| 0 <= i < v@.len() ==> opt_view(#[trigger] g.open@[i]) == Self::first_desktop_id(*v@[i].info)
                    &&& g.cells@.len() == v@.len()
                    &&& forall|i: int| 0 <= i < v@.len() ==> (#[trigger] g.cells@[i]).0 as int == grid_cell(g.metrics.cols, i).0
                        && g.cells@[i].1 as int == grid_cell(g.metrics.cols, i).1
                },
                None => false,
            },
        }
    }

    pub fn view_installed_page(&self, grid_width: usize, spacing: &Spacing) -> (r: Option<InstalledGrid>)
        requires
            self.installed_results is Some ==> card_min_width(*spacing) <= u16::MAX,
        ensures
            self.installed_view_ok(grid_width, *spacing, r),
    {
        match &self.installed_results {
            Some(installed) => {
                let metrics = GridMetrics::new(grid_width, spacing);
                let n = installed.len();
                let mut open: Vec<Option<String>> = Vec::new();
                let mut i: usize = 0;
                while i < n
                    invariant
                        n == installed@.len(),
                        i <= n,
                        open@.len() == i,
                        forall|k: int| 0 <= k < i ==> opt_view(#[trigger] open@[k]) == Self::first_desktop_id(*installed@[k].info),
                    decreases n - i,
                {
                    let info = &installed[i].info;
                    if info.desktop_ids.len() > 0 {
                        open.push(Some(info.desktop_ids[0].clone()));
                    } else {
                        open.push(None);
                    }
                    i += 1;
                }
                let cells = metrics.build_grid(n);
                Some(InstalledGrid { empty: n == 0, metrics, open, cells })
            },
            None => None,
        }
    }

    /// The controls on the card of an update (see `UpdateControls`).
    pub open spec fn spec_update_controls(&self, p: (BackendName, Package)) -> UpdateControls {
        match self.spec_progress(p.0, p.1.info.source_id@, p.1.id@) {
            Some(k) => UpdateControls::Progress(k),
            None => if self.spec_is_waiting_refresh(p.0, p.1.info.source_id@, p.1.id@) {
                UpdateControls::Waiting
            } else {
                UpdateControls::Offered
            },
        }
    }

    /// What the updates page shows for a grid of `grid_width`: loading until
    /// the updates are known, then a card for each.
    pub open spec fn updates_view_ok(&self, grid_width: usize, spacing: Spacing, r: Option<UpdatesGrid>) -> bool {
        match self.updates {
            None => r is None,
            Some(v) => match r {
                Some(g) => {
                    &&& g.empty == (v@.len() == 0)
                    &&& g.metrics.cols == spec_grid_cols(grid_width, spacing)
                    &&& g.metrics.item_width == spec_item_width(grid_width, spacing)
                    &&& g.metrics.column_spacing == spacing.space_m
                    &&& g.controls@.len() == v@.len()
                    &&& forall|i: int| 0 <= i < v@.len() ==> #[trigger] g.controls@[i] == self.spec_update_controls(v@[i])
                    &&& g.cells@.len() == v@.len()
                    &&& forall|i: int| 0 <= i < v@.len() ==> (#[trigger] g.cells@[i]).0 as int == grid_cell(g.metrics.cols, i).0
                        && g.cells@[i].1 as int == grid_cell(g.metrics.cols, i).1
                },
                None => false,
            },
        }
    }

    pub fn view_updates_page(&self, grid_width: usize, spacing: &Spacing) -> (r: Option<UpdatesGrid>)
        requires
            self.updates is Some ==> card_min_width(*spacing) <= u16::MAX,
        ensures
            self.updates_view_ok(grid_width, *spacing, r),
    {
        match &self.updates {
            Some(updates) => {
                let metrics = GridMetrics::new(grid_width, spacing);
                let n = updates.len();
                let mut controls: Vec<UpdateControls> = Vec::new();
                let mut i: usize = 0;
                while i < n
                    invariant
                        self.updates == Some(*updates),
                        n == updates@.len(),
                        i <= n,
                        controls@.len() == i,
                        forall|k: int| 0 <= k < i ==> #[trigger] controls@[k] == self.spec_update_controls(updates@[k]),
                    decreases n - i,
                {
                    let (backend_name, package) = (&updates[i].0, &updates[i].1);
                    let waiting_refresh = self.is_waiting_refresh(*backend_name, &package.info.source_id, &package.id);
                    let progress_opt = self.progress_opt(*backend_name, &package.info.source_id, &package.id);
                    let c = if let Some(progress) = progress_opt {
                        UpdateControls::Progress(progress)
                    } else if waiting_refresh {
                        UpdateControls::Waiting
                    } else {
                        UpdateControls::Offered
                    };
                    controls.push(c);
                    i += 1;
                }
                let cells = metrics.build_grid(n);
                Some(UpdatesGrid { empty: n == 0, metrics, controls, cells })
            },
            None => None,
        }
    }
}

/// The characters of an optional text.
pub open spec fn opt_view(o: Option<String>) -> Option<Seq<char>> {
    match o {
        Some(s) => Some(s@),
        None => None,
    }
}

/// The latest release, as the details page shows it.
#[derive(Debug)]
pub struct ReleaseView {
    pub version: String,
    /// The release date in the machine's time zone, when the release has a
    /// date chrono can represent.
    pub date: Option<String>,
    pub description: Option<String>,
}

/// What the details page of the selected application shows.
#[derive(Debug)]
pub struct SelectedView {
    pub buttons: Vec<ButtonKind>,
    pub sources: SourcesDisplay,
    pub developer: DeveloperHeading,
    /// The monthly downloads written out, when there are any.
    pub downloads: Option<String>,
    /// Whether the page is narrow: the facts stack in a column, and so do the links.
    pub narrow: bool,
    pub screenshot: Option<ScreenshotNav>,
    /// The buttons of each addon listed, in the order of the addons.
    pub addon_buttons: Vec<Vec<ButtonKind>>,
    /// Whether to offer to list all the addons.
    pub addons_view_more: bool,
    pub release: Option<ReleaseView>,
    pub license: Option<Vec<LicenseLine>>,
    pub links: Vec<(UrlLabel, String)>,
}

/// Whether a source is the one the selected application was chosen from.
pub open spec fn source_is(backend_name: BackendName, source_id: Seq<char>) -> spec_fn(SelectedSource) -> bool {
    |s: SelectedSource| s.backend_name == backend_name && s.source_id@ == source_id
}

/// Narrower grids than this stack the details page in a column.
pub const NARROW_WIDTH: usize = 416;

/// Whether a release view shows a release: its version, its date in the
/// machine's time zone when it has one chrono can represent, and its
/// description.
pub open spec fn release_view_ok(rel: AppRelease, v: ReleaseView) -> bool {
    &&& v.version@ == rel.version@
    &&& release_date_shown(rel.timestamp, v.date)
    &&& opt_view(v.description) == opt_view(rel.description)
}

impl App {
    /// What the details page shows for the selected application on a grid
    /// of `grid_width`.
    pub open spec fn selected_view_ok(&self, selected: Selected, grid_width: usize, r: SelectedView) -> bool {
        let info = *selected.info;
        let shown = if selected.addons_view_more || selected.addons@.len() <= 4 { selected.addons@.len() as int } else { 4 };
        &&& buttons_view(r.buttons@) == self.spec_selected_buttons(selected.backend_name, selected.id@, info, false)
        &&& r.sources == (if selected.sources@.len() == 1 {
            SourcesDisplay::Only
        } else {
            SourcesDisplay::Choice(match first_index(selected.sources@, source_is(selected.backend_name, info.source_id@)) {
                Some(i) => Some(i as usize),
                None => None,
            })
        })
        &&& r.developer@ == (if info.developer_name@.len() == 0 {
            DeveloperHeadingView::AppDevelopers(info.name@)
        } else {
            DeveloperHeadingView::Named(info.developer_name@)
        })
        &&& opt_view(r.downloads) == (if info.monthly_downloads > 0 {
            Some(decimal(info.monthly_downloads as nat))
        } else {
            None
        })
        &&& r.narrow == (grid_width < NARROW_WIDTH)
        &&& r.screenshot == (if selected.screenshot_shown < info.screenshots@.len() {
            Some(ScreenshotNav {
                previous: if previous_screenshot(selected.screenshot_shown, info.screenshots@.len() as usize) != selected.screenshot_shown {
                    Some(previous_screenshot(selected.screenshot_shown, info.screenshots@.len() as usize))
                } else {
                    None
                },
                next: if next_screenshot(selected.screenshot_shown, info.screenshots@.len() as usize) != selected.screenshot_shown {
                    Some(next_screenshot(selected.screenshot_shown, info.screenshots@.len() as usize))
                } else {
                    None
                },
            })
        } else {
            None
        })
        &&& r.addon_buttons@.len() == shown
        &&& forall|k: int| 0 <= k < shown ==> buttons_view((#[trigger] r.addon_buttons@[k])@)
            == self.spec_selected_buttons(selected.backend_name, selected.addons@[k].0@, *selected.addons@[k].1, true)
        &&& r.addons_view_more == (selected.addons@.len() > 4 && !selected.addons_view_more)
        &&& (r.release is Some <==> info.releases@.len() > 0)
        &&& (r.release matches Some(v) ==> release_view_ok(info.releases@[0], v))
        &&& match info.license_opt {
            Some(l) => r.license matches Some(lines) && lines_view(lines@) == license_lines_spec(l@, spdx_lax_requirements(l@)),
            None => r.license is None,
        }
        &&& links_view(r.links@) == info.urls@.map_values(|u: AppUrl| url_link(u))
    }

    fn selected_source_index(selected: &Selected) -> (r: Option<usize>)
        ensures
            r matches Some(i) ==> first_index(selected.sources@, source_is(selected.backend_name, selected.info.source_id@)) == Some(i as int),
            r is None ==> first_index(selected.sources@, source_is(selected.backend_name, selected.info.source_id@)) is None,
    {
        let n = selected.sources.len();
        let mut i: usize = 0;
        while i < n
            invariant
                n == selected.sources@.len(),
                i <= n,
                forall|j: int| 0 <= j < i ==> !(source_is(selected.backend_name, selected.info.source_id@))(#[trigger] selected.sources@[j]),
            decreases n - i,
        {
            let source = &selected.sources[i];
            if source.backend_name == selected.backend_name && source.source_id == selected.info.source_id {
                proof { lemma_first_index(selected.sources@, source_is(selected.backend_name, selected.info.source_id@), i as int); }
                return Some(i);
            }
            i += 1;
        }
        None
    }

    /// The details page of the selected application.
    pub fn view_selected(&self, selected: &Selected, grid_width: usize) -> (r: SelectedView)
        ensures
            self.selected_view_ok(*selected, grid_width, r),
    {
        let info: &AppInfo = &selected.info;
        let buttons = self.selected_buttons(selected.backend_name, &selected.id, info, false);
        let sources = if selected.sources.len() == 1 {
            SourcesDisplay::Only
        } else {
            SourcesDisplay::Choice(Self::selected_source_index(selected))
        };
        let developer = developer_heading(info);
        let downloads = downloads_column(info);
        let screenshot = screenshot_nav(selected.screenshot_shown, info.screenshots.len());
        let (shown, addons_view_more) = addons_shown(selected.addons.len(), selected.addons_view_more);
        let mut addon_buttons: Vec<Vec<ButtonKind>> = Vec::new();
        let mut k: usize = 0;
        while k < shown
            invariant
                shown <= selected.addons@.len(),
                k <= shown,
                addon_buttons@.len() == k,
                forall|m: int| 0 <= m < k ==> buttons_view((#[trigger] addon_buttons@[m])@)
                    == self.spec_selected_buttons(selected.backend_name, selected.addons@[m].0@, *selected.addons@[m].1, true),
            decreases shown - k,
        {
            let (addon_id, addon_info) = (&selected.addons[k].0, &selected.addons[k].1);
            addon_buttons.push(self.selected_buttons(selected.backend_name, addon_id, addon_info, true));
            k += 1;
        }
        let release = if info.releases.len() > 0 {
            let rel = &info.releases[0];
            Some(ReleaseView {
                version: rel.version.clone(),
                date: release_date_text(rel.timestamp),
                description: match &rel.description {
                    Some(d) => Some(d.clone()),
                    None => None,
                },
            })
        } else {
            None
        };
        let license = match &info.license_opt {
            Some(l) => Some(license_lines(l)),
            None => None,
        };
        let links = url_links(&info.urls);
        SelectedView {
            buttons,
            sources,
            developer,
            downloads,
            narrow: grid_width < NARROW_WIDTH,
            screenshot,
            addon_buttons,
            addons_view_more,
            release,
            license,
            links,
        }
    }

    /// The place of the chosen theme in the settings' theme list.
    pub fn settings(&self) -> (r: usize)
        ensures
            r == theme_index(self.app_theme),
    {
        app_theme_index(self.app_theme)
    }
}

/// The page the store shows.
#[derive(Debug)]
pub enum PageView {
    Selected(SelectedView),
    Search(SearchView),
    Explore(ExploreView),
    Installed(Option<InstalledGrid>),
    Updates(Option<UpdatesGrid>),
    Category(CategoryView),
}

/// The width left for the grid of a window `width` wide: less a large
/// margin on each side.
pub open spec fn spec_grid_width(width: usize, spacing: Spacing) -> usize {
    if width >= 2 * spacing.space_l { (width - 2 * spacing.space_l) as usize } else { 0 }
}

impl App {
    /// The navigation page in view; the explore page when none is.
    pub open spec fn spec_nav_page(&self) -> NavPage {
        match self.nav_page {
            Some(p) => p,
            None => NavPage::Explore,
        }
    }

    /// Whether some explore list has results on hand (see `explore_has_results`).
    pub fn has_explore_results(&self) -> (r: bool)
        ensures
            r == self.explore_has_results(),
    {
        let pages = ExplorePage::all();
        let n = pages.len();
        let mut i: usize = 0;
        while i < n
            invariant
                n == pages@.len(),
                pages@ == all_explore_pages(),
                i <= n,
                forall|j: int| 0 <= j < i ==> !(#[trigger] self.explore_results_for(pages@[j]) matches Some(rs) && rs.len() > 0),
            decreases n - i,
        {
            let page = pages[i];
            match self.find_explore(page) {
                Some(k) => {
                    if self.explore_results[k].1.len() > 0 {
                        assert(self.explore_results_for(page) == Some(self.explore_results@[k as int].1@));
                        return true;
                    }
                },
                None => {},
            }
            i += 1;
        }
        proof {
            assert forall|p: ExplorePage| !(#[trigger] self.explore_results_for(p) matches Some(rs) && rs.len() > 0) by {
                lemma_all_explore_pages_complete(p);
                let j = choose|j: int| 0 <= j < pages@.len() && pages@[j] == p;
                assert(self.explore_results_for(pages@[j]) == self.explore_results_for(p));
            }
        }
        false
    }

    /// Whether the page in view lays out cards in a grid of its own making:
    /// the explore overview, the installed page and the updates page, once
    /// they have something to show.
    pub open spec fn spec_needs_card_grid(&self) -> bool {
        &&& self.selected_opt is None
        &&& self.search_results is None
        &&& match self.spec_nav_page() {
            NavPage::Explore => self.explore_page_opt is None && self.explore_has_results(),
            NavPage::Installed => self.installed_results is Some,
            NavPage::Updates => self.updates is Some,
            _ => false,
        }
    }

    /// Whether the page in view lays out cards in a grid of its own making
    /// (see `spec_needs_card_grid`).
    pub fn needs_card_grid(&self) -> (r: bool)
        ensures
            r == self.spec_needs_card_grid(),
    {
        if self.selected_opt.is_some() || self.search_results.is_some() {
            return false;
        }
        let nav_page = match self.nav_page {
            Some(p) => p,
            None => NavPage::Explore,
        };
        match nav_page {
            NavPage::Explore => self.explore_page_opt.is_none() && self.has_explore_results(),
            NavPage::Installed => self.installed_results.is_some(),
            NavPage::Updates => self.updates.is_some(),
            _ => false,
        }
    }

    /// What the store shows: the details of the selected application if
    /// there is one, else the search results if there are any, else the
    /// page in view.
    pub open spec fn page_view_ok(&self, grid_width: usize, spacing: Spacing, r: PageView) -> bool {
        match self.selected_opt {
            Some(selected) => match r {
                PageView::Selected(v) => self.selected_view_ok(selected, grid_width, v),
                _ => false,
            },
            None => match self.search_results {
                Some(search) => r == PageView::Search(SearchView {
                    no_results: search.1@.len() == 0,
                    results_len: min_nat(search.1@.len() as int, MAX_RESULTS as int) as usize,
                }),
                None => match self.spec_nav_page() {
                    NavPage::Explore => match r {
                        PageView::Explore(v) => self.explore_view_ok(grid_width, spacing, v),
                        _ => false,
                    },
                    NavPage::Installed => match r {
                        PageView::Installed(v) => self.installed_view_ok(grid_width, spacing, v),
                        _ => false,
                    },
                    NavPage::Updates => match r {
                        PageView::Updates(v) => self.updates_view_ok(grid_width, spacing, v),
                        _ => false,
                    },
                    page => match r {
                        PageView::Category(v) => self.category_view_ok(page, v),
                        _ => false,
                    },
                },
            },
        }
    }

    /// The page for a window `width` wide, and the width of its grid.
    pub fn view_responsive(&self, width: usize, spacing: &Spacing) -> (r: (usize, PageView))
        requires
            self.spec_needs_card_grid() ==> card_min_width(*spacing) <= u16::MAX,
        ensures
            r.0 == spec_grid_width(width, *spacing),
            self.page_view_ok(r.0, *spacing, r.1),
    {
        let grid_width = width.saturating_sub(2 * spacing.space_l as usize);
        if let Some(selected) = &self.selected_opt {
            return (grid_width, PageView::Selected(self.view_selected(selected, grid_width)));
        }
        if let Some((_input, results)) = &self.search_results {
            return (grid_width, PageView::Search(self.view_search_results(results)));
        }
        let nav_page = match self.nav_page {
            Some(p) => p,
            None => NavPage::Explore,
        };
        let page = match nav_page {
            NavPage::Explore => PageView::Explore(self.view_explore_page(grid_width, spacing)),
            NavPage::Installed => PageView::Installed(self.view_installed_page(grid_width, spacing)),
            NavPage::Updates => PageView::Updates(self.view_updates_page(grid_width, spacing)),
            _ => PageView::Category(self.view_category_page(nav_page)),
        };
        (grid_width, page)
    }
}

/// How many results a section of the explore overview shows at most on a
/// grid of `cols` columns, by value.
proof fn lemma_section_limit_values(cols: usize)
    ensures
        cols == 1 ==> explore_section_limit(cols) == 4,
        cols == 2 ==> explore_section_limit(cols) == 8,
        cols == 3 ==> explore_section_limit(cols) == 9,
        cols >= 4 ==> explore_section_limit(cols) == 2 * cols,
{
}

impl App {
    proof fn lemma_overview_sections_sizes(&self, pages: Seq<ExplorePage>, limit: int)
        ensures
            forall|k: int| 0 <= k < self.overview_sections(pages, limit).len() ==> {
                let sec = #[trigger] self.overview_sections(pages, limit)[k];
                &&& self.explore_results_for(sec.0) is Some
                &&& self.explore_results_for(sec.0)->0.len() > 0
                &&& sec.1 == min_nat(self.explore_results_for(sec.0)->0.len() as int, limit) as usize
            },
        decreases pages.len(),
    {
        if pages.len() > 0 {
            self.lemma_overview_sections_sizes(pages.drop_last(), limit);
        }
    }
}

/// With no list chosen and some lists arrived, the explore page shows an
/// overview whose every section is a list with results on hand, showing as
/// many of them as there are, up to four on one column, eight on two, nine
/// on three, and two rows' worth on four columns or more.
pub proof fn lemma_explore_overview_section_sizes(app: App, grid_width: usize, spacing: Spacing, r: ExploreView)
    requires
        app.explore_view_ok(grid_width, spacing, r),
        app.explore_page_opt is None,
        app.explore_results@.len() > 0,
    ensures
        r is Overview,
        forall|k: int| 0 <= k < r->Overview_0@.len() ==> {
            let sec = #[trigger] r->Overview_0@[k];
            let cols = spec_grid_cols(grid_width, spacing) as usize;
            let most: int = if cols == 1 { 4 } else if cols == 2 { 8 } else if cols == 3 { 9 } else { 2 * cols };
            &&& app.explore_results_for(sec.0) is Some
            &&& app.explore_results_for(sec.0)->0.len() > 0
            &&& sec.1 == min_nat(app.explore_results_for(sec.0)->0.len() as int, most) as usize
        },
{
    let cols = spec_grid_cols(grid_width, spacing) as usize;
    lemma_section_limit_values(cols);
    app.lemma_overview_sections_sizes(all_explore_pages(), explore_section_limit(cols));
}

/// The note about the switched-off repository of recommended applets shows
/// on the Applets page alone, and there exactly when its results are shown
/// and some recommended repository is off.
pub proof fn lemma_applets_banner_only_on_applets(app: App, nav_page: NavPage, r: CategoryView)
    requires
        app.category_view_ok(nav_page, r),
    ensures
        (r matches CategoryView::Results { applets_banner, .. } && applets_banner) <==> {
            &&& r is Results
            &&& nav_page == NavPage::Applets
            &&& exists|i: int| 0 <= i < app.sources@.len() && recommended_off(#[trigger] app.sources@[i])
        },
{
}

/// Each card of the installed page opens the first desktop entry of its
/// application, and a card of an application without one has no button.
pub proof fn lemma_installed_cards_open_first_entry(app: App, grid_width: usize, spacing: Spacing, r: Option<InstalledGrid>)
    requires
        app.installed_view_ok(grid_width, spacing, r),
        app.installed_results is Some,
    ensures
        r is Some,
        r->0.open@.len() == app.installed_results->0@.len(),
        forall|i: int| 0 <= i < app.installed_results->0@.len() ==> {
            let info = *app.installed_results->0@[i].info;
            &&& info.desktop_ids@.len() > 0 ==> (#[trigger] r->0.open@[i]) is Some
                && r->0.open@[i]->0@ == info.desktop_ids@[0]@
            &&& info.desktop_ids@.len() == 0 ==> r->0.open@[i] is None
        },
{
    let g = r->0;
    let v = app.installed_results->0;
    assert forall|i: int| 0 <= i < v@.len() implies {
        let info = *v@[i].info;
        &&& info.desktop_ids@.len() > 0 ==> (#[trigger] g.open@[i]) is Some && g.open@[i]->0@ == info.desktop_ids@[0]@
        &&& info.desktop_ids@.len() == 0 ==> g.open@[i] is None
    } by {
        assert(opt_view(g.open@[i]) == App::first_desktop_id(*v@[i].info));
    }
}

/// Each card of the updates page shows the progress of the pending
/// operation on that update while one is pending, waits while the store
/// refreshes after one, and otherwise offers the update.
pub proof fn lemma_update_cards_controls(app: App, grid_width: usize, spacing: Spacing, r: Option<UpdatesGrid>)
    requires
        app.updates_view_ok(grid_width, spacing, r),
        app.updates is Some,
    ensures
        r is Some,
        r->0.controls@.len() == app.updates->0@.len(),
        forall|i: int| 0 <= i < app.updates->0@.len() ==> {
            let p = app.updates->0@[i];
            let pending = app.spec_progress(p.0, p.1.info.source_id@, p.1.id@);
            let waiting = app.spec_is_waiting_refresh(p.0, p.1.info.source_id@, p.1.id@);
            &&& ((#[trigger] r->0.controls@[i]) is Progress <==> pending is Some)
            &&& (r->0.controls@[i] is Progress ==> r->0.controls@[i]->0 == pending->0)
            &&& (r->0.controls@[i] is Waiting <==> pending is None && waiting)
            &&& (r->0.controls@[i] is Offered <==> pending is None && !waiting)
        },
{
    let g = r->0;
    let v = app.updates->0;
    assert forall|i: int| 0 <= i < v@.len() implies {
        let p = v@[i];
        let pending = app.spec_progress(p.0, p.1.info.source_id@, p.1.id@);
        let waiting = app.spec_is_waiting_refresh(p.0, p.1.info.source_id@, p.1.id@);
        &&& ((#[trigger] g.controls@[i]) is Progress <==> pending is Some)
        &&& (g.controls@[i] is Progress ==> g.controls@[i]->0 == pending->0)
        &&& (g.controls@[i] is Waiting <==> pending is None && waiting)
        &&& (g.controls@[i] is Offered <==> pending is None && !waiting)
    } by {
        assert(g.controls@[i] == app.spec_update_controls(v@[i]));
    }
}

/// The details page names the only source of an application with one, and
/// otherwise offers the sources to pick from with the first one that is the
/// application's own (its backend and repository) selected, or none
/// selected when no source is.
pub proof fn lemma_selected_sources_display(app: App, selected: Selected, grid_width: usize, r: SelectedView)
    requires
        app.selected_view_ok(selected, grid_width, r),
    ensures
        (r.sources is Only) <==> selected.sources@.len() == 1,
        r.sources matches SourcesDisplay::Choice(Some(i)) ==> {
            &&& i < selected.sources@.len()
            &&& selected.sources@[i as int].backend_name == selected.backend_name
            &&& selected.sources@[i as int].source_id@ == selected.info.source_id@
            &&& forall|j: int| 0 <= j < i ==> !(#[trigger] selected.sources@[j].backend_name == selected.backend_name
                && selected.sources@[j].source_id@ == selected.info.source_id@)
        },
        r.sources matches SourcesDisplay::Choice(None) ==> forall|j: int| 0 <= j < selected.sources@.len() ==>
            !(#[trigger] selected.sources@[j].backend_name == selected.backend_name
                && selected.sources@[j].source_id@ == selected.info.source_id@),
{
    let pred = source_is(selected.backend_name, selected.info.source_id@);
    lemma_first_index_is_first(selected.sources@, pred);
    if let SourcesDisplay::Choice(Some(i)) = r.sources {
        let k = first_index(selected.sources@, pred)->0;
        assert(selected.sources.len() == selected.sources@.len());
        assert(0 <= k < selected.sources@.len());
        assert(k == i);
        assert(pred(selected.sources@[k]));
        assert forall|j: int| 0 <= j < i implies !(#[trigger] selected.sources@[j].backend_name == selected.backend_name
            && selected.sources@[j].source_id@ == selected.info.source_id@) by {
            assert(!pred(selected.sources@[j]));
        }
    }
    if let SourcesDisplay::Choice(None) = r.sources {
        assert forall|j: int| 0 <= j < selected.sources@.len() implies !(#[trigger] selected.sources@[j].backend_name == selected.backend_name
            && selected.sources@[j].source_id@ == selected.info.source_id@) by {
            assert(!pred(selected.sources@[j]));
        }
    }
}

/// The details page lists the first addons, all of them when asked for
/// more and at most four otherwise, each with the buttons of an addon; it
/// offers to show more exactly when some are left out.
pub proof fn lemma_selected_addons_listed(app: App, selected: Selected, grid_width: usize, r: SelectedView)
    requires
        app.selected_view_ok(selected, grid_width, r),
    ensures
        r.addon_buttons@.len() <= selected.addons@.len(),
        selected.addons_view_more ==> r.addon_buttons@.len() == selected.addons@.len(),
        !selected.addons_view_more ==> r.addon_buttons@.len() == min_nat(selected.addons@.len() as int, 4),
        r.addons_view_more <==> r.addon_buttons@.len() < selected.addons@.len(),
        forall|k: int| 0 <= k < r.addon_buttons@.len() ==> buttons_view((#[trigger] r.addon_buttons@[k])@)
            == app.spec_selected_buttons(selected.backend_name, selected.addons@[k].0@, *selected.addons@[k].1, true),
{
}

} // verus!
