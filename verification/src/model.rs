//! The store's data as the views read it: applications, their sources and
//! packages, and the pages the store can show.
use vstd::prelude::*;
use std::sync::Arc;

verus! {

/// Calls `Arc::clone`, which hands back another handle to the same value.
#[verifier::external_body]
pub(crate) fn share_info(info: &Arc<AppInfo>) -> (r: Arc<AppInfo>)
    ensures
        r == *info,
{
    Arc::clone(info)
}

/// The package backends the store talks to.
#[derive(Clone, Copy, Debug, PartialEq, Eq, Structural)]
pub enum BackendName {
    FlatpakUser,
    FlatpakSystem,
    Packagekit,
    Pkgar,
}

/// The identifier of an application (or of an addon, or of the system
/// package set).
#[derive(Debug)]
pub struct AppId {
    pub raw: String,
}

impl View for AppId {
    type V = Seq<char>;

    open spec fn view(&self) -> Seq<char> {
        self.raw@
    }
}

/// The identifier under which system packages are grouped.
pub open spec fn system_app_id() -> Seq<char> {
    "__SYSTEM__"@
}

impl Clone for AppId {
    fn clone(&self) -> (r: Self)
        ensures
            r == *self,
    {
        AppId { raw: self.raw.clone() }
    }
}

impl AppId {
    pub fn new(raw: String) -> (r: Self)
        ensures
            r@ == raw@,
    {
        AppId { raw }
    }

    /// Whether two identifiers are the same.
    pub fn same(&self, other: &AppId) -> (r: bool)
        ensures
            r == (self@ == other@),
    {
        self.raw == other.raw
    }

    /// Whether this identifier names the system package set.
    pub fn is_system(&self) -> (r: bool)
        ensures
            r == (self@ == system_app_id()),
    {
        let system = String::from_str("__SYSTEM__");
        self.raw == system
    }
}

/// Something an application declares that it provides.
#[derive(Debug)]
pub enum AppProvide {
    Id(String),
    MediaType(String),
}

/// A link that an application's metadata offers, by kind.
#[derive(Debug)]
pub enum AppUrl {
    BugTracker(String),
    Contact(String),
    Donation(String),
    Faq(String),
    Help(String),
    Homepage(String),
    Translate(String),
}

#[derive(Debug)]
pub struct AppScreenshot {
    pub caption: String,
}

#[derive(Debug)]
pub struct AppRelease {
    pub version: String,
    /// Seconds since the Unix epoch.
    pub timestamp: Option<i64>,
    pub description: Option<String>,
}

/// An application's metadata.
#[derive(Debug)]
pub struct AppInfo {
    pub source_id: String,
    pub source_name: String,
    pub name: String,
    pub summary: String,
    pub description: String,
    pub developer_name: String,
    pub monthly_downloads: u64,
    pub desktop_ids: Vec<String>,
    pub provides: Vec<AppProvide>,
    pub screenshots: Vec<AppScreenshot>,
    pub releases: Vec<AppRelease>,
    pub license_opt: Option<String>,
    pub urls: Vec<AppUrl>,
}

/// One source (backend and repository) an application is known from.
#[derive(Debug)]
pub struct AppEntry {
    pub backend_name: BackendName,
    pub info: Arc<AppInfo>,
    pub installed: bool,
}

/// A source offered for the selected application.
#[derive(Debug)]
pub struct SelectedSource {
    pub backend_name: BackendName,
    pub source_id: String,
    pub source_name: String,
    pub installed: bool,
}

impl View for SelectedSource {
    type V = (BackendName, Seq<char>, Seq<char>, bool);

    open spec fn view(&self) -> (BackendName, Seq<char>, Seq<char>, bool) {
        (self.backend_name, self.source_id@, self.source_name@, self.installed)
    }
}

impl SelectedSource {
    pub fn new(backend_name: BackendName, info: &AppInfo, installed: bool) -> (r: Self)
        ensures
            r@ == (backend_name, info.source_id@, info.source_name@, installed),
    {
        SelectedSource {
            backend_name,
            source_id: info.source_id.clone(),
            source_name: info.source_name.clone(),
            installed,
        }
    }
}

/// A package as a backend reports it.
#[derive(Debug)]
pub struct Package {
    pub id: AppId,
    pub info: Arc<AppInfo>,
}

/// One result of a search, a category or an explore list.
#[derive(Debug)]
pub struct SearchResult {
    pub backend_name: BackendName,
    pub id: AppId,
    pub info: Arc<AppInfo>,
}

/// What a backend knows about one repository: its applications' metadata
/// and, for each application, the identifiers of its addons.
#[derive(Debug)]
pub struct AppstreamCache {
    pub source_id: String,
    pub addons: Vec<(AppId, Vec<AppId>)>,
    pub infos: Vec<(AppId, Arc<AppInfo>)>,
}

#[derive(Clone, Copy, Debug, PartialEq, Eq, Structural)]
pub enum OperationKind {
    Install,
    Uninstall,
    Update,
}

/// An operation queued or running on a backend.
#[derive(Debug)]
pub struct Operation {
    pub kind: OperationKind,
    pub backend_name: BackendName,
    pub package_ids: Vec<AppId>,
    pub infos: Vec<Arc<AppInfo>>,
}

/// The application chosen for the details page, with what that page needs.
#[derive(Debug)]
pub struct Selected {
    pub backend_name: BackendName,
    pub id: AppId,
    pub info: Arc<AppInfo>,
    pub sources: Vec<SelectedSource>,
    pub addons: Vec<(AppId, Arc<AppInfo>)>,
    pub addons_view_more: bool,
    pub screenshot_shown: usize,
}

/// The pages of the navigation bar.
#[derive(Clone, Copy, Debug, PartialEq, Eq, Structural)]
pub enum NavPage {
    Explore,
    Create,
    Work,
    Develop,
    Learn,
    Game,
    Relax,
    Socialize,
    Utilities,
    Applets,
    Installed,
    Updates,
}

/// The category set a navigation page lists, by number; pages that list no
/// category have none.
pub open spec fn nav_page_categories(page: NavPage) -> Option<u8> {
    match page {
        NavPage::Create => Some(0u8),
        NavPage::Work => Some(1u8),
        NavPage::Develop => Some(2u8),
        NavPage::Learn => Some(3u8),
        NavPage::Game => Some(4u8),
        NavPage::Relax => Some(5u8),
        NavPage::Socialize => Some(6u8),
        NavPage::Utilities => Some(7u8),
        NavPage::Applets => Some(8u8),
        _ => None,
    }
}

impl NavPage {
    pub fn categories(self) -> (r: Option<u8>)
        ensures
            r == nav_page_categories(self),
    {
        match self {
            NavPage::Create => Some(0),
            NavPage::Work => Some(1),
            NavPage::Develop => Some(2),
            NavPage::Learn => Some(3),
            NavPage::Game => Some(4),
            NavPage::Relax => Some(5),
            NavPage::Socialize => Some(6),
            NavPage::Utilities => Some(7),
            NavPage::Applets => Some(8),
            _ => None,
        }
    }
}

/// The lists of the explore page.
#[derive(Clone, Copy, Debug, PartialEq, Eq, Structural)]
pub enum ExplorePage {
    EditorsChoice,
    PopularApps,
    MadeForCosmic,
    NewApps,
    RecentlyUpdated,
    DevelopmentTools,
    ScientificTools,
    ProductivityApps,
    GraphicsAndPhotographyTools,
    SocialNetworkingApps,
    Games,
    MusicAndVideoApps,
    AppsForLearning,
    Utilities,
}

/// The explore lists, in the order the explore page shows them.
pub open spec fn all_explore_pages() -> Seq<ExplorePage> {
    seq![
        ExplorePage::EditorsChoice,
        ExplorePage::PopularApps,
        ExplorePage::MadeForCosmic,
        ExplorePage::NewApps,
        ExplorePage::RecentlyUpdated,
        ExplorePage::DevelopmentTools,
        ExplorePage::ScientificTools,
        ExplorePage::ProductivityApps,
        ExplorePage::GraphicsAndPhotographyTools,
        ExplorePage::SocialNetworkingApps,
        ExplorePage::Games,
        ExplorePage::MusicAndVideoApps,
        ExplorePage::AppsForLearning,
        ExplorePage::Utilities,
    ]
}

/// Every explore list is among those the explore page shows.
pub proof fn lemma_all_explore_pages_complete(p: ExplorePage)
    ensures
        all_explore_pages().contains(p),
{
    let pages = all_explore_pages();
    let k: int = match p {
        ExplorePage::EditorsChoice => 0,
        ExplorePage::PopularApps => 1,
        ExplorePage::MadeForCosmic => 2,
        ExplorePage::NewApps => 3,
        ExplorePage::RecentlyUpdated => 4,
        ExplorePage::DevelopmentTools => 5,
        ExplorePage::ScientificTools => 6,
        ExplorePage::ProductivityApps => 7,
        ExplorePage::GraphicsAndPhotographyTools => 8,
        ExplorePage::SocialNetworkingApps => 9,
        ExplorePage::Games => 10,
        ExplorePage::MusicAndVideoApps => 11,
        ExplorePage::AppsForLearning => 12,
        ExplorePage::Utilities => 13,
    };
    assert(pages[k] == p);
}

impl ExplorePage {
    pub fn all() -> (r: Vec<ExplorePage>)
        ensures
            r@ == all_explore_pages(),
    {
        vec![
            ExplorePage::EditorsChoice,
            ExplorePage::PopularApps,
            ExplorePage::MadeForCosmic,
            ExplorePage::NewApps,
            ExplorePage::RecentlyUpdated,
            ExplorePage::DevelopmentTools,
            ExplorePage::ScientificTools,
            ExplorePage::ProductivityApps,
            ExplorePage::GraphicsAndPhotographyTools,
            ExplorePage::SocialNetworkingApps,
            ExplorePage::Games,
            ExplorePage::MusicAndVideoApps,
            ExplorePage::AppsForLearning,
            ExplorePage::Utilities,
        ]
    }
}

/// The colour theme the user chose.
#[derive(Clone, Copy, Debug, PartialEq, Eq, Structural)]
pub enum AppTheme {
    Dark,
    Light,
    System,
}

/// How a repository came to be known.
#[derive(Clone, Copy, Debug, PartialEq, Eq, Structural)]
pub enum SourceKind {
    Recommended { enabled: bool },
    Custom,
}

#[derive(Debug)]
pub struct Source {
    pub kind: SourceKind,
}

} // verus!
