//! The store's state as the views read it, and the queries they make of it.
use vstd::prelude::*;
use std::sync::Arc;
use std::collections::BTreeMap;
use vstd::std_specs::btree::{increasing_seq, spec_btree_map_iter};
use vstd::std_specs::iter::IteratorSpec;
use crate::order::lemma_increasing_keys;
use crate::model::{nav_page_categories, SelectedSource, AppEntry, AppId, AppInfo, AppstreamCache, AppTheme, BackendName, ExplorePage, NavPage, Operation, Package, SearchResult, Selected, Source};

verus! {

/// The parts of the running store that the views read. The lists of pairs
/// stand for maps keyed by their first component: no key occurs twice in
/// them (see `wf`).
#[derive(Debug)]
pub struct App {
    pub apps: Vec<(AppId, Vec<AppEntry>)>,
    pub backends: Vec<(BackendName, Vec<AppstreamCache>)>,
    pub installed: Option<Vec<(BackendName, Package)>>,
    pub updates: Option<Vec<(BackendName, Package)>>,
    pub waiting_installed: Vec<(BackendName, String, AppId)>,
    pub waiting_updates: Vec<(BackendName, String, AppId)>,
    pub pending_operations: BTreeMap<u64, Operation>,
    pub category_results: Option<(u8, Vec<SearchResult>)>,
    pub explore_results: Vec<(ExplorePage, Vec<SearchResult>)>,
    pub explore_page_opt: Option<ExplorePage>,
    pub installed_results: Option<Vec<SearchResult>>,
    pub search_results: Option<(String, Vec<SearchResult>)>,
    pub selected_opt: Option<Selected>,
    pub app_theme: AppTheme,
    pub nav_page: Option<NavPage>,
    pub sources: Vec<Source>,
}

/// The index of the first element of `s` that satisfies `p`.
pub open spec fn first_index<T>(s: Seq<T>, p: spec_fn(T) -> bool) -> Option<int> {
    if exists|i: int| 0 <= i < s.len() && p(#[trigger] s[i]) {
        Some(choose|i: int| 0 <= i < s.len() && p(s[i]) && forall|j: int| 0 <= j < i ==> !p(#[trigger] s[j]))
    } else {
        None
    }
}

/// The first element that satisfies a predicate is the one a scan from the
/// front stops at.
pub proof fn lemma_first_index<T>(s: Seq<T>, p: spec_fn(T) -> bool, i: int)
    requires
        0 <= i < s.len(),
        p(s[i]),
        forall|j: int| 0 <= j < i ==> !p(#[trigger] s[j]),
    ensures
        first_index(s, p) == Some(i),
{
    let c = choose|c: int| 0 <= c < s.len() && p(s[c]) && forall|j: int| 0 <= j < c ==> !p(#[trigger] s[j]);
    assert(0 <= c < s.len() && p(s[c]) && forall|j: int| 0 <= j < c ==> !p(#[trigger] s[j]));
    if c < i {
        assert(!p(s[c]));
    } else if c > i {
        assert(!p(s[i]));
    }
}

/// What the first index of a predicate is: an index where it holds with
/// none before, or nothing when it holds nowhere.
pub proof fn lemma_first_index_is_first<T>(s: Seq<T>, p: spec_fn(T) -> bool)
    ensures
        first_index(s, p) matches Some(i) ==> 0 <= i < s.len() && p(s[i])
            && forall|j: int| 0 <= j < i ==> !p(#[trigger] s[j]),
        first_index(s, p) is None ==> forall|i: int| 0 <= i < s.len() ==> !p(#[trigger] s[i]),
{
    if exists|i: int| 0 <= i < s.len() && p(#[trigger] s[i]) {
        let w = choose|i: int| 0 <= i < s.len() && p(#[trigger] s[i]);
        lemma_least_index(s, p, w);
    }
}

proof fn lemma_least_index<T>(s: Seq<T>, p: spec_fn(T) -> bool, w: int)
    requires
        0 <= w < s.len(),
        p(s[w]),
    ensures
        exists|i: int| 0 <= i < s.len() && p(s[i]) && forall|j: int| 0 <= j < i ==> !p(#[trigger] s[j]),
    decreases w,
{
    if exists|j: int| 0 <= j < w && p(#[trigger] s[j]) {
        let v = choose|j: int| 0 <= j < w && p(#[trigger] s[j]);
        lemma_least_index(s, p, v);
    } else {
        assert(0 <= w < s.len() && p(s[w]) && forall|j: int| 0 <= j < w ==> !p(#[trigger] s[j]));
    }
}

/// The index of the first pair whose key is `id`.
pub open spec fn first_with_id<T>(s: Seq<(AppId, T)>, id: Seq<char>) -> Option<int> {
    if exists|i: int| 0 <= i < s.len() && (#[trigger] s[i]).0@ == id {
        Some(choose|i: int| 0 <= i < s.len() && s[i].0@ == id && forall|j: int| 0 <= j < i ==> (#[trigger] s[j]).0@ != id)
    } else {
        None
    }
}

/// The index of the first pair whose key is `b`.
pub open spec fn first_with_backend<T>(s: Seq<(BackendName, T)>, b: BackendName) -> Option<int> {
    if exists|i: int| 0 <= i < s.len() && (#[trigger] s[i]).0 == b {
        Some(choose|i: int| 0 <= i < s.len() && s[i].0 == b && forall|j: int| 0 <= j < i ==> (#[trigger] s[j]).0 != b)
    } else {
        None
    }
}

/// Whether an identifier occurs in a list of identifiers.
pub open spec fn ids_contain(ids: Seq<AppId>, id: Seq<char>) -> bool {
    exists|k: int| 0 <= k < ids.len() && (#[trigger] ids[k])@ == id
}

/// Whether one of `infos` comes from the repository `source_id`.
pub open spec fn infos_from_source(infos: Seq<Arc<AppInfo>>, source_id: Seq<char>) -> bool {
    exists|k: int| 0 <= k < infos.len() && (#[trigger] infos[k]).source_id@ == source_id
}

/// Whether a waiting entry is for this package of this repository on this backend.
pub open spec fn waiting_for(
    w: (BackendName, String, AppId),
    backend_name: BackendName,
    source_id: Seq<char>,
    package_id: Seq<char>,
) -> bool {
    w.0 == backend_name && w.1@ == source_id && w.2@ == package_id
}

/// Whether an operation acts on this package of this repository on this backend.
pub open spec fn operation_for(
    op: Operation,
    backend_name: BackendName,
    source_id: Seq<char>,
    package_id: Seq<char>,
) -> bool {
    &&& op.backend_name == backend_name
    &&& infos_from_source(op.infos@, source_id)
    &&& ids_contain(op.package_ids@, package_id)
}

/// Whether a package is this application of this repository on this backend.
pub open spec fn package_is(
    p: (BackendName, Package),
    backend_name: BackendName,
    source_id: Seq<char>,
    id: Seq<char>,
) -> bool {
    p.0 == backend_name && p.1.info.source_id@ == source_id && p.1.id@ == id
}

/// Whether one of the packages is this application of this repository on this backend.
pub open spec fn packages_contain(
    v: Seq<(BackendName, Package)>,
    backend_name: BackendName,
    source_id: Seq<char>,
    id: Seq<char>,
) -> bool {
    exists|i: int| 0 <= i < v.len() && package_is(#[trigger] v[i], backend_name, source_id, id)
}

/// The keys of a list of pairs are all different.
pub open spec fn unique_ids<T>(s: Seq<(AppId, T)>) -> bool {
    forall|i: int, j: int| 0 <= i < j < s.len() ==> (#[trigger] s[i]).0@ != (#[trigger] s[j]).0@
}

/// The first pair with a given key is the one found by a scan from the front.
pub proof fn lemma_first_with_id<T>(s: Seq<(AppId, T)>, id: Seq<char>, i: int)
    requires
        0 <= i < s.len(),
        s[i].0@ == id,
        forall|j: int| 0 <= j < i ==> (#[trigger] s[j]).0@ != id,
    ensures
        first_with_id(s, id) == Some(i),
{
    let c = choose|c: int| 0 <= c < s.len() && s[c].0@ == id && forall|j: int| 0 <= j < c ==> (#[trigger] s[j]).0@ != id;
    assert(0 <= c < s.len() && s[c].0@ == id && forall|j: int| 0 <= j < c ==> (#[trigger] s[j]).0@ != id);
    if c < i {
        assert(s[c].0@ != id);
    } else if c > i {
        assert(s[i].0@ != id);
    }
}

/// The first pair with a given backend is the one found by a scan from the front.
pub proof fn lemma_first_with_backend<T>(s: Seq<(BackendName, T)>, b: BackendName, i: int)
    requires
        0 <= i < s.len(),
        s[i].0 == b,
        forall|j: int| 0 <= j < i ==> (#[trigger] s[j]).0 != b,
    ensures
        first_with_backend(s, b) == Some(i),
{
    let c = choose|c: int| 0 <= c < s.len() && s[c].0 == b && forall|j: int| 0 <= j < c ==> (#[trigger] s[j]).0 != b;
    assert(0 <= c < s.len() && s[c].0 == b && forall|j: int| 0 <= j < c ==> (#[trigger] s[j]).0 != b);
    if c < i {
        assert(s[c].0 != b);
    } else if c > i {
        assert(s[i].0 != b);
    }
}

/// Finds the first pair whose key is `id`.
pub fn find_id<T>(s: &Vec<(AppId, T)>, id: &AppId) -> (r: Option<usize>)
    ensures
        r matches Some(i) ==> i < s@.len() && first_with_id(s@, id@) == Some(i as int),
        r is None ==> first_with_id(s@, id@) is None,
{
    let n = s.len();
    let mut i: usize = 0;
    while i < n
        invariant
            n == s@.len(),
            i <= n,
            forall|j: int| 0 <= j < i ==> (#[trigger] s@[j]).0@ != id@,
        decreases n - i,
    {
        if s[i].0.same(id) {
            proof { lemma_first_with_id(s@, id@, i as int); }
            return Some(i);
        }
        i += 1;
    }
    None
}

/// Finds the first pair whose key is `b`.
pub fn find_backend<T>(s: &Vec<(BackendName, T)>, b: BackendName) -> (r: Option<usize>)
    ensures
        r matches Some(i) ==> i < s@.len() && first_with_backend(s@, b) == Some(i as int),
        r is None ==> first_with_backend(s@, b) is None,
{
    let n = s.len();
    let mut i: usize = 0;
    while i < n
        invariant
            n == s@.len(),
            i <= n,
            forall|j: int| 0 <= j < i ==> (#[trigger] s@[j]).0 != b,
        decreases n - i,
    {
        if s[i].0 == b {
            proof { lemma_first_with_backend(s@, b, i as int); }
            return Some(i);
        }
        i += 1;
    }
    None
}

/// Whether one of `infos` comes from the repository `source_id`.
pub fn infos_have_source(infos: &Vec<Arc<AppInfo>>, source_id: &String) -> (r: bool)
    ensures
        r == infos_from_source(infos@, source_id@),
{
    let n = infos.len();
    let mut i: usize = 0;
    while i < n
        invariant
            n == infos@.len(),
            i <= n,
            forall|j: int| 0 <= j < i ==> (#[trigger] infos@[j]).source_id@ != source_id@,
        decreases n - i,
    {
        if infos[i].source_id == *source_id {
            return true;
        }
        i += 1;
    }
    false
}

/// Whether `id` occurs in `ids`.
pub fn ids_have(ids: &Vec<AppId>, id: &AppId) -> (r: bool)
    ensures
        r == ids_contain(ids@, id@),
{
    let n = ids.len();
    let mut i: usize = 0;
    while i < n
        invariant
            n == ids@.len(),
            i <= n,
            forall|j: int| 0 <= j < i ==> (#[trigger] ids@[j])@ != id@,
        decreases n - i,
    {
        if ids[i].same(id) {
            return true;
        }
        i += 1;
    }
    false
}

/// What a source entry of an application offers on the details page.
pub open spec fn entry_source(e: AppEntry) -> (BackendName, Seq<char>, Seq<char>, bool) {
    (e.backend_name, e.info.source_id@, e.info.source_name@, e.installed)
}

/// The views of a list of sources.
pub open spec fn sources_view(s: Seq<SelectedSource>) -> Seq<(BackendName, Seq<char>, Seq<char>, bool)> {
    s.map_values(|x: SelectedSource| x@)
}

impl App {
    /// The store's invariant: the lists that stand for maps hold each key
    /// once. `new` establishes it and the `insert_` methods keep it.
    pub open spec fn wf(&self) -> bool {
        &&& unique_ids(self.apps@)
        &&& forall|i: int, j: int| 0 <= i < j < self.backends@.len()
            ==> (#[trigger] self.backends@[i]).0 != (#[trigger] self.backends@[j]).0
        &&& forall|i: int, j: int| 0 <= i < j < self.explore_results@.len()
            ==> (#[trigger] self.explore_results@[i]).0 != (#[trigger] self.explore_results@[j]).0
    }

    pub open spec fn spec_is_installed(&self, backend_name: BackendName, id: Seq<char>, source_id: Seq<char>) -> bool {
        match self.installed {
            Some(v) => packages_contain(v@, backend_name, source_id, id),
            None => false,
        }
    }

    /// Whether the application is installed from this repository through this backend.
    pub fn is_installed(&self, backend_name: BackendName, id: &AppId, info: &AppInfo) -> (r: bool)
        ensures
            r == self.spec_is_installed(backend_name, id@, info.source_id@),
    {
        match &self.installed {
            Some(installed) => {
                let n = installed.len();
                let mut i: usize = 0;
                while i < n
                    invariant
                        self.installed == Some(*installed),
                        n == installed@.len(),
                        i <= n,
                        forall|j: int| 0 <= j < i ==> !package_is(#[trigger] installed@[j], backend_name, info.source_id@, id@),
                    decreases n - i,
                {
                    let p = &installed[i];
                    if p.0 == backend_name && p.1.info.source_id == info.source_id && p.1.id.same(id) {
                        assert(package_is(installed@[i as int], backend_name, info.source_id@, id@));
                        return true;
                    }
                    i += 1;
                }
                false
            },
            None => false,
        }
    }

    pub open spec fn spec_is_waiting_refresh(&self, backend_name: BackendName, source_id: Seq<char>, package_id: Seq<char>) -> bool {
        ||| exists|i: int| 0 <= i < self.waiting_installed@.len()
            && waiting_for(#[trigger] self.waiting_installed@[i], backend_name, source_id, package_id)
        ||| exists|i: int| 0 <= i < self.waiting_updates@.len()
            && waiting_for(#[trigger] self.waiting_updates@[i], backend_name, source_id, package_id)
    }

    /// Whether the package waits for the lists of installed packages or of
    /// updates to be refreshed after an operation.
    pub fn is_waiting_refresh(&self, backend_name: BackendName, source_id: &String, package_id: &AppId) -> (r: bool)
        ensures
            r == self.spec_is_waiting_refresh(backend_name, source_id@, package_id@),
    {
        let n = self.waiting_installed.len();
        let mut i: usize = 0;
        while i < n
            invariant
                n == self.waiting_installed@.len(),
                i <= n,
                forall|j: int| 0 <= j < i ==> !waiting_for(#[trigger] self.waiting_installed@[j], backend_name, source_id@, package_id@),
            decreases n - i,
        {
            let w = &self.waiting_installed[i];
            if w.0 == backend_name && w.1 == *source_id && w.2.same(package_id) {
                return true;
            }
            i += 1;
        }
        let m = self.waiting_updates.len();
        let mut k: usize = 0;
        while k < m
            invariant
                m == self.waiting_updates@.len(),
                k <= m,
                forall|j: int| 0 <= j < self.waiting_installed@.len() ==> !waiting_for(#[trigger] self.waiting_installed@[j], backend_name, source_id@, package_id@),
                forall|j: int| 0 <= j < k ==> !waiting_for(#[trigger] self.waiting_updates@[j], backend_name, source_id@, package_id@),
            decreases m - k,
        {
            let w = &self.waiting_updates[k];
            if w.0 == backend_name && w.1 == *source_id && w.2.same(package_id) {
                return true;
            }
            k += 1;
        }
        false
    }

    /// Whether the pending operation under `key` acts on this package of
    /// this repository on this backend.
    pub open spec fn operation_at(&self, key: u64, backend_name: BackendName, source_id: Seq<char>, package_id: Seq<char>) -> bool {
        self.pending_operations@.contains_key(key)
            && operation_for(self.pending_operations@[key], backend_name, source_id, package_id)
    }

    /// The least key of a pending operation that acts on this package of
    /// this repository on this backend.
    pub open spec fn spec_progress(&self, backend_name: BackendName, source_id: Seq<char>, package_id: Seq<char>) -> Option<u64> {
        if exists|k: u64| self.operation_at(k, backend_name, source_id, package_id) {
            Some(choose|k: u64| self.operation_at(k, backend_name, source_id, package_id)
                && forall|k2: u64| self.operation_at(k2, backend_name, source_id, package_id) ==> k <= k2)
        } else {
            None
        }
    }

    /// The key of the first pending operation (in key order) that acts on
    /// this package of this repository on this backend: the one whose
    /// progress the views show.
    pub fn progress_opt(&self, backend_name: BackendName, source_id: &String, package_id: &AppId) -> (r: Option<u64>)
        ensures
            r == self.spec_progress(backend_name, source_id@, package_id@),
    {
        let ghost m = self.pending_operations@;
        for (key, op) in it: self.pending_operations.iter()
            invariant
                m == self.pending_operations@,
                it.seq() == spec_btree_map_iter(&self.pending_operations).remaining(),
                increasing_seq(it.seq().map_values(|kv: (&u64, &Operation)| *kv.0)),
                forall|j: int| 0 <= j < it.index() ==> !operation_for(*it.seq()[j].1, backend_name, source_id@, package_id@),
        {
            if op.backend_name == backend_name && infos_have_source(&op.infos, source_id)
                && ids_have(&op.package_ids, package_id) {
                proof {
                    let s = it.seq();
                    let i = it.index();
                    let keys = s.map_values(|kv: (&u64, &Operation)| *kv.0);
                    assert(s[i] == (key, op));
                    assert(m.contains_key(*s[i].0) && m[*s[i].0] == *s[i].1);
                    assert(self.operation_at(*key, backend_name, source_id@, package_id@));
                    assert forall|k2: u64| self.operation_at(k2, backend_name, source_id@, package_id@) implies *key <= k2 by {
                        assert(s.contains((&k2, &m[k2])));
                        let p = choose|p: int| 0 <= p < s.len() && s[p] == (&k2, &m[k2]);
                        if p < i {
                            assert(!operation_for(*s[p].1, backend_name, source_id@, package_id@));
                        } else if p > i {
                            assert(keys[i] == *key);
                            assert(keys[p] == k2);
                            lemma_increasing_keys(keys, i, p);
                        }
                    }
                    let c = choose|k: u64| self.operation_at(k, backend_name, source_id@, package_id@)
                        && forall|k2: u64| self.operation_at(k2, backend_name, source_id@, package_id@) ==> k <= k2;
                    assert(self.operation_at(c, backend_name, source_id@, package_id@)
                        && forall|k2: u64| self.operation_at(k2, backend_name, source_id@, package_id@) ==> c <= k2);
                    assert(c <= *key && *key <= c);
                }
                return Some(*key);
            }
        }
        None
    }

    /// Whether the category results on hand belong to this page and hold
    /// at least one application.
    pub fn has_category_results_for_page(&self, nav_page: NavPage) -> (r: bool)
        ensures
            r == match self.category_results {
                Some(c) => c.1@.len() > 0 && nav_page_categories(nav_page) == Some(c.0),
                None => false,
            },
    {
        match &self.category_results {
            Some((cats, results)) => {
                if results.len() == 0 {
                    false
                } else {
                    match nav_page.categories() {
                        Some(page_cats) => page_cats == *cats,
                        None => false,
                    }
                }
            },
            None => false,
        }
    }

    /// The sources offered for an application on its details page.
    pub open spec fn spec_selected_sources(&self, backend_name: BackendName, id: Seq<char>, info: AppInfo)
        -> Seq<(BackendName, Seq<char>, Seq<char>, bool)>
    {
        match first_with_id(self.apps@, id) {
            Some(i) => self.apps@[i].1@.map_values(|e: AppEntry| entry_source(e)),
            None => seq![(backend_name, info.source_id@, info.source_name@,
                self.spec_is_installed(backend_name, id, info.source_id@))],
        }
    }

    /// The sources offered for an application: one per entry the store knows
    /// for it, or, for an application it does not know, the source it was
    /// found in.
    pub fn selected_sources(&self, backend_name: BackendName, id: &AppId, info: &AppInfo) -> (r: Vec<SelectedSource>)
        ensures
            sources_view(r@) == self.spec_selected_sources(backend_name, id@, *info),
    {
        let mut sources: Vec<SelectedSource> = Vec::new();
        match find_id(&self.apps, id) {
            Some(k) => {
                let infos = &self.apps[k].1;
                let n = infos.len();
                let mut i: usize = 0;
                while i < n
                    invariant
                        n == infos@.len(),
                        i <= n,
                        sources_view(sources@) =~= infos@.take(i as int).map_values(|e: AppEntry| entry_source(e)),
                    decreases n - i,
                {
                    let e = &infos[i];
                    let ghost before = sources@;
                    sources.push(SelectedSource::new(e.backend_name, &e.info, e.installed));
                    proof {
                        assert(sources_view(sources@) =~= sources_view(before).push(sources@[i as int]@));
                        assert(infos@.take(i as int + 1) =~= infos@.take(i as int).push(infos@[i as int]));
                    }
                    i += 1;
                }
                assert(infos@.take(n as int) =~= infos@);
            },
            None => {
                let installed = self.is_installed(backend_name, id, info);
                sources.push(SelectedSource::new(backend_name, info, installed));
            },
        }
        sources
    }
}

/// With each key held once, looking an application up finds the one entry
/// held under its identifier, wherever it stands: the lists behave as maps.
pub proof fn lemma_app_lookup_unique(app: App, i: int)
    requires
        app.wf(),
        0 <= i < app.apps@.len(),
    ensures
        first_with_id(app.apps@, app.apps@[i].0@) == Some(i),
{
    let s = app.apps@;
    assert(unique_ids(s));
    assert forall|j: int| 0 <= j < i implies (#[trigger] s[j]).0@ != s[i].0@ by {
        assert(s[j].0@ != s[i].0@);
    }
    lemma_first_with_id(s, s[i].0@, i);
}

impl App {
    /// A store that knows nothing yet: no applications, backends, results
    /// or operations, following the system's theme, with no page chosen.
    pub fn new() -> (r: App)
        ensures
            r.wf(),
            r.apps@.len() == 0,
            r.backends@.len() == 0,
            r.installed is None,
            r.updates is None,
            r.waiting_installed@.len() == 0,
            r.waiting_updates@.len() == 0,
            r.pending_operations@ == Map::<u64, Operation>::empty(),
            r.category_results is None,
            r.explore_results@.len() == 0,
            r.explore_page_opt is None,
            r.installed_results is None,
            r.search_results is None,
            r.selected_opt is None,
            r.app_theme == AppTheme::System,
            r.nav_page is None,
            r.sources@.len() == 0,
    {
        App {
            apps: Vec::new(),
            backends: Vec::new(),
            installed: None,
            updates: None,
            waiting_installed: Vec::new(),
            waiting_updates: Vec::new(),
            pending_operations: BTreeMap::new(),
            category_results: None,
            explore_results: Vec::new(),
            explore_page_opt: None,
            installed_results: None,
            search_results: None,
            selected_opt: None,
            app_theme: AppTheme::System,
            nav_page: None,
            sources: Vec::new(),
        }
    }

    /// Records the entries of an application, replacing those it had.
    pub fn insert_app(&mut self, id: AppId, entries: Vec<AppEntry>)
        requires
            old(self).wf(),
        ensures
            final(self).wf(),
            match first_with_id(old(self).apps@, id@) {
                Some(i) => final(self).apps@ == old(self).apps@.update(i, (id, entries)),
                None => final(self).apps@ == old(self).apps@.push((id, entries)),
            },
            *final(self) == (App { apps: final(self).apps, ..*old(self) }),
    {
        let ghost id_view = id@;
        match find_id(&self.apps, &id) {
            Some(i) => {
                self.apps.set(i, (id, entries));
                assert forall|a: int, b: int| 0 <= a < b < self.apps@.len()
                    implies (#[trigger] self.apps@[a]).0@ != (#[trigger] self.apps@[b]).0@ by {
                    if a == i {
                        assert(old(self).apps@[b].0@ != old(self).apps@[a].0@);
                    } else if b == i {
                        assert(old(self).apps@[a].0@ != old(self).apps@[b].0@);
                    } else {
                        assert(old(self).apps@[a].0@ != old(self).apps@[b].0@);
                    }
                }
            },
            None => {
                self.apps.push((id, entries));
                assert forall|a: int, b: int| 0 <= a < b < self.apps@.len()
                    implies (#[trigger] self.apps@[a]).0@ != (#[trigger] self.apps@[b]).0@ by {
                    if b == self.apps@.len() - 1 {
                        assert(old(self).apps@[a].0@ != id_view);
                    } else {
                        assert(old(self).apps@[a].0@ != old(self).apps@[b].0@);
                    }
                }
            },
        }
    }

    /// Records the repositories of a backend, replacing those it had.
    pub fn insert_backend(&mut self, backend_name: BackendName, caches: Vec<AppstreamCache>)
        requires
            old(self).wf(),
        ensures
            final(self).wf(),
            match first_with_backend(old(self).backends@, backend_name) {
                Some(i) => final(self).backends@ == old(self).backends@.update(i, (backend_name, caches)),
                None => final(self).backends@ == old(self).backends@.push((backend_name, caches)),
            },
            *final(self) == (App { backends: final(self).backends, ..*old(self) }),
    {
        match find_backend(&self.backends, backend_name) {
            Some(i) => {
                self.backends.set(i, (backend_name, caches));
                assert forall|a: int, b: int| 0 <= a < b < self.backends@.len()
                    implies (#[trigger] self.backends@[a]).0 != (#[trigger] self.backends@[b]).0 by {
                    assert(old(self).backends@[a].0 != old(self).backends@[b].0);
                }
            },
            None => {
                self.backends.push((backend_name, caches));
                assert forall|a: int, b: int| 0 <= a < b < self.backends@.len()
                    implies (#[trigger] self.backends@[a]).0 != (#[trigger] self.backends@[b]).0 by {
                    if b == self.backends@.len() - 1 {
                        assert(old(self).backends@[a].0 != backend_name);
                    } else {
                        assert(old(self).backends@[a].0 != old(self).backends@[b].0);
                    }
                }
            },
        }
    }

    /// Records the results of an explore list, replacing those it had.
    pub fn insert_explore_results(&mut self, page: ExplorePage, results: Vec<SearchResult>)
        requires
            old(self).wf(),
        ensures
            final(self).wf(),
            match first_index(old(self).explore_results@, |e: (ExplorePage, Vec<SearchResult>)| e.0 == page) {
                Some(i) => final(self).explore_results@ == old(self).explore_results@.update(i, (page, results)),
                None => final(self).explore_results@ == old(self).explore_results@.push((page, results)),
            },
            *final(self) == (App { explore_results: final(self).explore_results, ..*old(self) }),
    {
        let n = self.explore_results.len();
        let mut i: usize = 0;
        while i < n
            invariant
                *self == *old(self),
                old(self).wf(),
                n == self.explore_results@.len(),
                i <= n,
                forall|j: int| 0 <= j < i ==> (#[trigger] self.explore_results@[j]).0 != page,
            decreases n - i,
        {
            if self.explore_results[i].0 == page {
                proof {
                    lemma_first_index(self.explore_results@, |e: (ExplorePage, Vec<SearchResult>)| e.0 == page, i as int);
                }
                self.explore_results.set(i, (page, results));
                assert forall|a: int, b: int| 0 <= a < b < self.explore_results@.len()
                    implies (#[trigger] self.explore_results@[a]).0 != (#[trigger] self.explore_results@[b]).0 by {
                    if a == i {
                        assert(old(self).explore_results@[b].0 != old(self).explore_results@[a].0);
                    } else if b == i {
                        assert(old(self).explore_results@[a].0 != old(self).explore_results@[b].0);
                    } else {
                        assert(old(self).explore_results@[a].0 != old(self).explore_results@[b].0);
                    }
                }
                return;
            }
            i += 1;
        }
        self.explore_results.push((page, results));
        assert forall|a: int, b: int| 0 <= a < b < self.explore_results@.len()
            implies (#[trigger] self.explore_results@[a]).0 != (#[trigger] self.explore_results@[b]).0 by {
            if b == self.explore_results@.len() - 1 {
                assert(old(self).explore_results@[a].0 != page);
            } else {
                assert(old(self).explore_results@[a].0 != old(self).explore_results@[b].0);
            }
        }
    }
}

} // verus!
