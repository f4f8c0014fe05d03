//! The pieces of an application's details page and of its cards.
use vstd::prelude::*;
use crate::downloads::{decimal, decimal_string, downloads_text, format_downloads};
use crate::model::{AppInfo, AppUrl, AppTheme};

verus! {

/// A tag under a card's title.
#[derive(Debug)]
pub enum CardTag {
    /// The monthly downloads, in short form.
    Downloads(String),
    /// A line between two tags.
    Divider,
    /// The developer's name.
    Developer(String),
}

pub enum CardTagView {
    Downloads(Seq<char>),
    Divider,
    Developer(Seq<char>),
}

impl View for CardTag {
    type V = CardTagView;

    open spec fn view(&self) -> CardTagView {
        match self {
            CardTag::Downloads(s) => CardTagView::Downloads(s@),
            CardTag::Divider => CardTagView::Divider,
            CardTag::Developer(s) => CardTagView::Developer(s@),
        }
    }
}

pub open spec fn tags_view(s: Seq<CardTag>) -> Seq<CardTagView> {
    s.map_values(|t: CardTag| t@)
}

/// The tags of a card: the downloads when there are any, the developer when
/// named, and a divider between the two when both show.
pub open spec fn spec_card_tags(info: AppInfo) -> Seq<CardTagView> {
    let downloads: Seq<CardTagView> = if info.monthly_downloads > 0 {
        seq![CardTagView::Downloads(downloads_text(info.monthly_downloads))]
    } else {
        seq![]
    };
    if info.developer_name@.len() > 0 {
        if downloads.len() > 0 {
            downloads + seq![CardTagView::Divider, CardTagView::Developer(info.developer_name@)]
        } else {
            seq![CardTagView::Developer(info.developer_name@)]
        }
    } else {
        downloads
    }
}

/// The tags under a card's title.
pub fn card_tags(info: &AppInfo) -> (r: Vec<CardTag>)
    ensures
        tags_view(r@) == spec_card_tags(*info),
{
    let mut tags: Vec<CardTag> = Vec::new();
    if info.monthly_downloads > 0 {
        tags.push(CardTag::Downloads(format_downloads(info.monthly_downloads)));
    }
    let ghost first = tags_view(tags@);
    let has_downloads = tags.len() > 0;
    if info.developer_name.as_str().unicode_len() > 0 {
        if has_downloads {
            tags.push(CardTag::Divider);
        }
        tags.push(CardTag::Developer(info.developer_name.clone()));
    }
    assert(tags_view(tags@) =~= spec_card_tags(*info));
    tags
}

/// The place of a theme in the settings' theme list: following the
/// system, dark, light.
pub open spec fn theme_index(theme: AppTheme) -> usize {
    match theme {
        AppTheme::Dark => 1,
        AppTheme::Light => 2,
        AppTheme::System => 0,
    }
}

/// The theme at a place of the settings' theme list; any place past the
/// list follows the system.
pub open spec fn theme_at(index: usize) -> AppTheme {
    if index == 1 {
        AppTheme::Dark
    } else if index == 2 {
        AppTheme::Light
    } else {
        AppTheme::System
    }
}

/// The place of the chosen theme in the settings' theme list.
pub fn app_theme_index(theme: AppTheme) -> (r: usize)
    ensures
        r == theme_index(theme),
{
    match theme {
        AppTheme::Dark => 1,
        AppTheme::Light => 2,
        AppTheme::System => 0,
    }
}

/// The theme picked at a place of the settings' theme list.
pub fn app_theme_from_index(index: usize) -> (r: AppTheme)
    ensures
        r == theme_at(index),
{
    match index {
        1 => AppTheme::Dark,
        2 => AppTheme::Light,
        _ => AppTheme::System,
    }
}

/// Picking the theme that the settings show as selected keeps the theme;
/// and each of the three places of the list shows the theme picked there.
pub proof fn lemma_theme_round_trip(theme: AppTheme, index: usize)
    ensures
        theme_at(theme_index(theme)) == theme,
        index < 3 ==> theme_index(theme_at(index)) == index,
{
}

/// How the sources of the selected application show: its only source as
/// text, or else a list to pick from with the current source selected.
#[derive(Debug, PartialEq, Eq, Structural)]
pub enum SourcesDisplay {
    /// The name of the first (and only) source.
    Only,
    /// A list of the sources, with the one at this place selected.
    Choice(Option<usize>),
}

/// The heading of the developer column.
#[derive(Debug)]
pub enum DeveloperHeading {
    /// "The developers of" the named application, when no developer is named.
    AppDevelopers(String),
    /// The developer's name.
    Named(String),
}

pub enum DeveloperHeadingView {
    AppDevelopers(Seq<char>),
    Named(Seq<char>),
}

impl View for DeveloperHeading {
    type V = DeveloperHeadingView;

    open spec fn view(&self) -> DeveloperHeadingView {
        match self {
            DeveloperHeading::AppDevelopers(s) => DeveloperHeadingView::AppDevelopers(s@),
            DeveloperHeading::Named(s) => DeveloperHeadingView::Named(s@),
        }
    }
}

/// The developer heading of an application's details.
pub fn developer_heading(info: &AppInfo) -> (r: DeveloperHeading)
    ensures
        r@ == (if info.developer_name@.len() == 0 {
            DeveloperHeadingView::AppDevelopers(info.name@)
        } else {
            DeveloperHeadingView::Named(info.developer_name@)
        }),
{
    if info.developer_name.as_str().unicode_len() == 0 {
        DeveloperHeading::AppDevelopers(info.name.clone())
    } else {
        DeveloperHeading::Named(info.developer_name.clone())
    }
}

/// The downloads column of the details page: the monthly downloads written
/// out in full, shown only when there are any.
pub fn downloads_column(info: &AppInfo) -> (r: Option<String>)
    ensures
        match r {
            Some(s) => info.monthly_downloads > 0 && s@ == decimal(info.monthly_downloads as nat),
            None => info.monthly_downloads == 0,
        },
{
    if info.monthly_downloads > 0 {
        Some(decimal_string(info.monthly_downloads))
    } else {
        None
    }
}

/// The buttons beside the screenshot: each leads to the screenshot it would
/// show, and is off (`None`) when that is the one shown.
#[derive(Debug, PartialEq, Eq, Structural)]
pub struct ScreenshotNav {
    pub previous: Option<usize>,
    pub next: Option<usize>,
}

/// The screenshot before `shown`, going round from the first to the last.
pub open spec fn previous_screenshot(shown: usize, count: usize) -> usize {
    if shown == 0 {
        if count == 0 { 0 } else { (count - 1) as usize }
    } else {
        (shown - 1) as usize
    }
}

/// The screenshot after `shown`, going round from the last to the first.
pub open spec fn next_screenshot(shown: usize, count: usize) -> usize {
    if shown + 1 == count { 0 } else { (shown + 1) as usize }
}

/// The screenshot buttons for the screenshot `shown` of `count`; none when
/// there is no such screenshot.
pub fn screenshot_nav(shown: usize, count: usize) -> (r: Option<ScreenshotNav>)
    ensures
        match r {
            Some(nav) => shown < count
                && nav.previous == (if previous_screenshot(shown, count) != shown {
                    Some(previous_screenshot(shown, count))
                } else {
                    None
                })
                && nav.next == (if next_screenshot(shown, count) != shown {
                    Some(next_screenshot(shown, count))
                } else {
                    None
                }),
            None => shown >= count,
        },
{
    if shown < count {
        let prev = if shown == 0 { count - 1 } else { shown - 1 };
        let next = if shown + 1 == count { 0 } else { shown + 1 };
        Some(ScreenshotNav {
            previous: if prev != shown { Some(prev) } else { None },
            next: if next != shown { Some(next) } else { None },
        })
    } else {
        None
    }
}

/// Going back a screenshot and then forward again returns to where one
/// was, and so does going forward and then back; with a single screenshot
/// both buttons are off, and with more both are on.
pub proof fn lemma_screenshot_round_trip(shown: usize, count: usize)
    requires
        shown < count,
    ensures
        next_screenshot(previous_screenshot(shown, count), count) == shown,
        previous_screenshot(next_screenshot(shown, count), count) == shown,
        count == 1 ==> previous_screenshot(shown, count) == shown && next_screenshot(shown, count) == shown,
        count > 1 ==> previous_screenshot(shown, count) != shown && next_screenshot(shown, count) != shown,
{
}

/// How many addons the details page lists, and whether it offers to show
/// them all: four until asked for more.
pub fn addons_shown(count: usize, view_more: bool) -> (r: (usize, bool))
    ensures
        r.0 == (if view_more || count <= 4 { count } else { 4 }),
        r.1 == (count > 4 && !view_more),
{
    let take = if view_more { count } else { 4 };
    let shown = if count < take { count } else { take };
    (shown, count > 4 && !view_more)
}

/// What a link of the details page says.
#[derive(Clone, Copy, Debug, PartialEq, Eq, Structural)]
pub enum UrlLabel {
    BugTracker,
    Contact,
    Donation,
    Faq,
    Help,
    Homepage,
    Translate,
}

/// The label and address of a link.
pub open spec fn url_link(u: AppUrl) -> (UrlLabel, Seq<char>) {
    match u {
        AppUrl::BugTracker(s) => (UrlLabel::BugTracker, s@),
        AppUrl::Contact(s) => (UrlLabel::Contact, s@),
        AppUrl::Donation(s) => (UrlLabel::Donation, s@),
        AppUrl::Faq(s) => (UrlLabel::Faq, s@),
        AppUrl::Help(s) => (UrlLabel::Help, s@),
        AppUrl::Homepage(s) => (UrlLabel::Homepage, s@),
        AppUrl::Translate(s) => (UrlLabel::Translate, s@),
    }
}

pub open spec fn links_view(s: Seq<(UrlLabel, String)>) -> Seq<(UrlLabel, Seq<char>)> {
    s.map_values(|p: (UrlLabel, String)| (p.0, p.1@))
}

/// The links of an application's details, in the order of its metadata.
pub fn url_links(urls: &Vec<AppUrl>) -> (r: Vec<(UrlLabel, String)>)
    ensures
        links_view(r@) == urls@.map_values(|u: AppUrl| url_link(u)),
{
    let mut links: Vec<(UrlLabel, String)> = Vec::new();
    let n = urls.len();
    let mut i: usize = 0;
    while i < n
        invariant
            n == urls@.len(),
            i <= n,
            links_view(links@) =~= urls@.take(i as int).map_values(|u: AppUrl| url_link(u)),
        decreases n - i,
    {
        let ghost before = links@;
        let link = match &urls[i] {
            AppUrl::BugTracker(s) => (UrlLabel::BugTracker, s.clone()),
            AppUrl::Contact(s) => (UrlLabel::Contact, s.clone()),
            AppUrl::Donation(s) => (UrlLabel::Donation, s.clone()),
            AppUrl::Faq(s) => (UrlLabel::Faq, s.clone()),
            AppUrl::Help(s) => (UrlLabel::Help, s.clone()),
            AppUrl::Homepage(s) => (UrlLabel::Homepage, s.clone()),
            AppUrl::Translate(s) => (UrlLabel::Translate, s.clone()),
        };
        links.push(link);
        proof {
            assert(links_view(links@) =~= links_view(before).push((links@[i as int].0, links@[i as int].1@)));
            assert(urls@.take(i as int + 1) =~= urls@.take(i as int).push(urls@[i as int]));
        }
        i += 1;
    }
    assert(urls@.take(n as int) =~= urls@);
    links
}

/// Each link is labelled by the kind of its address, and keeps the address,
/// in the order of the metadata.
pub proof fn lemma_url_links_labels(urls: Seq<AppUrl>, links: Seq<(UrlLabel, Seq<char>)>)
    requires
        links == urls.map_values(|u: AppUrl| url_link(u)),
    ensures
        links.len() == urls.len(),
        forall|i: int| 0 <= i < urls.len() ==> {
            &&& (#[trigger] urls[i] matches AppUrl::BugTracker(s) ==> links[i] == (UrlLabel::BugTracker, s@))
            &&& (urls[i] matches AppUrl::Contact(s) ==> links[i] == (UrlLabel::Contact, s@))
            &&& (urls[i] matches AppUrl::Donation(s) ==> links[i] == (UrlLabel::Donation, s@))
            &&& (urls[i] matches AppUrl::Faq(s) ==> links[i] == (UrlLabel::Faq, s@))
            &&& (urls[i] matches AppUrl::Help(s) ==> links[i] == (UrlLabel::Help, s@))
            &&& (urls[i] matches AppUrl::Homepage(s) ==> links[i] == (UrlLabel::Homepage, s@))
            &&& (urls[i] matches AppUrl::Translate(s) ==> links[i] == (UrlLabel::Translate, s@))
        },
{
    assert forall|i: int| 0 <= i < urls.len() implies links[i] == url_link(#[trigger] urls[i]) by {}
}

/// A card shows the short downloads first when there are any, then the
/// developer when named, with a divider exactly when both show, and
/// nothing else.
pub proof fn lemma_card_tags_content(info: AppInfo)
    ensures
        ({
            let r = spec_card_tags(info);
            let d = info.monthly_downloads > 0;
            let n = info.developer_name@.len() > 0;
            &&& r.len() == (if d { 1int } else { 0 }) + (if n { 1int } else { 0 }) + (if d && n { 1int } else { 0 })
            &&& d ==> r[0] == CardTagView::Downloads(downloads_text(info.monthly_downloads))
            &&& n ==> r[r.len() - 1] == CardTagView::Developer(info.developer_name@)
            &&& d && n ==> r[1] is Divider
        }),
{
}

/// The screenshot buttons step round the screenshots: back from `shown` is
/// `shown - 1` taken round modulo `count`, and forward is `shown + 1`
/// taken round modulo `count`.
pub proof fn lemma_screenshot_steps(shown: usize, count: usize)
    requires
        shown < count,
    ensures
        previous_screenshot(shown, count) as int == (shown + count - 1) % (count as int),
        next_screenshot(shown, count) as int == (shown + 1) % (count as int),
{
    if shown == 0 {
        assert((count - 1) % (count as int) == count - 1) by (nonlinear_arith)
            requires count >= 1;
    } else {
        assert((shown + count - 1) % (count as int) == shown - 1) by (nonlinear_arith)
            requires 1 <= shown < count;
    }
    if shown + 1 == count {
        assert((shown + 1) % (count as int) == 0) by (nonlinear_arith)
            requires shown + 1 == count, count >= 1;
    } else {
        assert((shown + 1) % (count as int) == shown + 1) by (nonlinear_arith)
            requires shown + 1 < count;
    }
}

/// The settings' theme list reads: follow the system, dark, light; the
/// selected place is where the chosen theme stands in it.
pub proof fn lemma_theme_list(theme: AppTheme, index: usize)
    ensures
        ({
            let list = seq![AppTheme::System, AppTheme::Dark, AppTheme::Light];
            &&& index < 3 ==> theme_at(index) == list[index as int]
            &&& index >= 3 ==> theme_at(index) == AppTheme::System
            &&& theme_index(theme) < 3 && list[theme_index(theme) as int] == theme
        }),
{
}

} // verus!
