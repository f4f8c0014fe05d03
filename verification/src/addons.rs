//! The addons offered on an application's details page, and their order.
use vstd::prelude::*;
use std::sync::Arc;
use crate::model::{share_info, AppId, AppInfo, AppstreamCache, BackendName};
use crate::store::{find_backend, find_id, first_with_backend, first_with_id, App};

verus! {

/// An addon as the details page lists it: its identifier and its metadata.
pub open spec fn addon_view(p: (AppId, Arc<AppInfo>)) -> (Seq<char>, Arc<AppInfo>) {
    (p.0@, p.1)
}

pub open spec fn addons_view(s: Seq<(AppId, Arc<AppInfo>)>) -> Seq<(Seq<char>, Arc<AppInfo>)> {
    s.map_values(|p: (AppId, Arc<AppInfo>)| addon_view(p))
}

/// The identifiers of `ids` that have metadata in `infos`, each with that
/// metadata, in the order of `ids`.
pub open spec fn ids_with_info(ids: Seq<AppId>, infos: Seq<(AppId, Arc<AppInfo>)>) -> Seq<(AppId, Arc<AppInfo>)>
    decreases ids.len(),
{
    if ids.len() == 0 {
        seq![]
    } else {
        let rest = ids_with_info(ids.drop_last(), infos);
        match first_with_id(infos, ids.last()@) {
            Some(j) => rest.push((ids.last(), infos[j].1)),
            None => rest,
        }
    }
}

/// The addons one repository lists for the application `id`, when the
/// repository is `source_id`.
pub open spec fn cache_addons(cache: AppstreamCache, source_id: Seq<char>, id: Seq<char>) -> Seq<(AppId, Arc<AppInfo>)> {
    if cache.source_id@ == source_id {
        match first_with_id(cache.addons@, id) {
            Some(a) => ids_with_info(cache.addons@[a].1@, cache.infos@),
            None => seq![],
        }
    } else {
        seq![]
    }
}

/// The addons all of a backend's repositories list, repository after repository.
pub open spec fn caches_addons(caches: Seq<AppstreamCache>, source_id: Seq<char>, id: Seq<char>) -> Seq<(AppId, Arc<AppInfo>)>
    decreases caches.len(),
{
    if caches.len() == 0 {
        seq![]
    } else {
        caches_addons(caches.drop_last(), source_id, id) + cache_addons(caches.last(), source_id, id)
    }
}

/// Whether addon `x` may come before addon `y`: more monthly downloads
/// first, and among equal downloads the name that sorts first (`rank`, the
/// place of each addon's name in the user's language's collation).
pub open spec fn addon_le(addons: Seq<(AppId, Arc<AppInfo>)>, rank: Seq<u64>, x: int, y: int) -> bool {
    let dx = addons[x].1.monthly_downloads;
    let dy = addons[y].1.monthly_downloads;
    dx > dy || (dx == dy && rank[x] <= rank[y])
}

/// Whether addon `x` comes before addon `y`: by `addon_le`, and where that
/// leaves them level, in the order they were gathered.
pub open spec fn addon_precedes(addons: Seq<(AppId, Arc<AppInfo>)>, rank: Seq<u64>, x: int, y: int) -> bool {
    let dx = addons[x].1.monthly_downloads;
    let dy = addons[y].1.monthly_downloads;
    dx > dy || (dx == dy && (rank[x] < rank[y] || (rank[x] == rank[y] && x < y)))
}

/// Whether `v` stands somewhere in `order`.
pub open spec fn occurs_in(order: Seq<usize>, v: int) -> bool {
    exists|k: int| 0 <= k < order.len() && #[trigger] order[k] == v
}

/// `order` lists each of `0..n` exactly once.
pub open spec fn is_permutation(order: Seq<usize>, n: nat) -> bool {
    &&& order.len() == n
    &&& forall|i: int| 0 <= i < n ==> (#[trigger] order[i]) < n
    &&& forall|i: int, j: int| 0 <= i < j < n ==> (#[trigger] order[i]) != (#[trigger] order[j])
    &&& forall|v: int| 0 <= v < n ==> #[trigger] occurs_in(order, v)
}

/// `order` arranges the addons by `addon_precedes`.
pub open spec fn sorted_order(addons: Seq<(AppId, Arc<AppInfo>)>, rank: Seq<u64>, order: Seq<usize>) -> bool {
    &&& is_permutation(order, addons.len())
    &&& forall|a: int, b: int| 0 <= a < b < order.len()
        ==> addon_precedes(addons, rank, #[trigger] order[a] as int, #[trigger] order[b] as int)
}

/// `r` holds the addons of `addons`, each once, most downloaded first, then
/// by name rank, and otherwise in the order given.
pub open spec fn sorted_addons(
    addons: Seq<(AppId, Arc<AppInfo>)>,
    rank: Seq<u64>,
    r: Seq<(AppId, Arc<AppInfo>)>,
) -> bool {
    exists|order: Seq<usize>| {
        &&& sorted_order(addons, rank, order)
        &&& r.len() == addons.len()
        &&& forall|k: int| 0 <= k < r.len() ==> #[trigger] r[k] == addons[order[k] as int]
    }
}

proof fn lemma_sorted_prefix_equal(
    addons: Seq<(AppId, Arc<AppInfo>)>,
    rank: Seq<u64>,
    o1: Seq<usize>,
    o2: Seq<usize>,
    k: int,
)
    requires
        sorted_order(addons, rank, o1),
        sorted_order(addons, rank, o2),
        0 <= k <= addons.len(),
    ensures
        forall|j: int| 0 <= j < k ==> o1[j] == o2[j],
    decreases k,
{
    if k > 0 {
        let i = k - 1;
        lemma_sorted_prefix_equal(addons, rank, o1, o2, i);
        let n = addons.len() as int;
        let x = o1[i] as int;
        let y = o2[i] as int;
        if x != y {
            assert(0 <= y < n);
            assert(occurs_in(o1, y));
            assert(occurs_in(o2, x));
            let p = choose|p: int| 0 <= p < n && #[trigger] o1[p] == y;
            let q = choose|q: int| 0 <= q < n && #[trigger] o2[q] == x;
            if p < i {
                assert(o2[p] == y);
            }
            if q < i {
                assert(o1[q] == x);
            }
            assert(addon_precedes(addons, rank, o1[i] as int, o1[p] as int));
            assert(addon_precedes(addons, rank, o2[i] as int, o2[q] as int));
        }
    }
}

/// The arrangement of addons by downloads, name rank and then the order
/// given is unique: two orders that both arrange a list so are the same.
pub proof fn lemma_sorted_addons_unique(
    addons: Seq<(AppId, Arc<AppInfo>)>,
    rank: Seq<u64>,
    r1: Seq<(AppId, Arc<AppInfo>)>,
    r2: Seq<(AppId, Arc<AppInfo>)>,
)
    requires
        sorted_addons(addons, rank, r1),
        sorted_addons(addons, rank, r2),
    ensures
        r1 == r2,
{
    let o1 = choose|order: Seq<usize>| {
        &&& sorted_order(addons, rank, order)
        &&& r1.len() == addons.len()
        &&& forall|k: int| 0 <= k < r1.len() ==> #[trigger] r1[k] == addons[order[k] as int]
    };
    let o2 = choose|order: Seq<usize>| {
        &&& sorted_order(addons, rank, order)
        &&& r2.len() == addons.len()
        &&& forall|k: int| 0 <= k < r2.len() ==> #[trigger] r2[k] == addons[order[k] as int]
    };
    lemma_sorted_prefix_equal(addons, rank, o1, o2, addons.len() as int);
    assert(r1 =~= r2);
}

/// Appends to `out` the addons that one repository lists for `id`.
fn push_cache_addons(
    cache: &AppstreamCache,
    source_id: &String,
    id: &AppId,
    out: &mut Vec<(AppId, Arc<AppInfo>)>,
)
    ensures
        final(out)@ == old(out)@ + cache_addons(*cache, source_id@, id@),
{
    let ghost start = out@;
    if cache.source_id == *source_id {
        match find_id(&cache.addons, id) {
            Some(a) => {
                let ids = &cache.addons[a].1;
                let n = ids.len();
                let mut i: usize = 0;
                while i < n
                    invariant
                        n == ids@.len(),
                        i <= n,
                        out@ == start + ids_with_info(ids@.take(i as int), cache.infos@),
                    decreases n - i,
                {
                    assert(ids@.take(i as int + 1).drop_last() =~= ids@.take(i as int));
                    assert(ids@.take(i as int + 1).last() == ids@[i as int]);
                    match find_id(&cache.infos, &ids[i]) {
                        Some(j) => {
                            out.push((ids[i].clone(), share_info(&cache.infos[j].1)));
                        },
                        None => {},
                    }
                    i += 1;
                }
                assert(ids@.take(n as int) =~= ids@);
            },
            None => {
                assert(out@ =~= start + seq![]);
            },
        }
    } else {
        assert(out@ =~= start + seq![]);
    }
}

impl App {
    /// The addons of an application: those that the backend's repositories
    /// of the application's own source list for it.
    pub open spec fn spec_addon_candidates(&self, backend_name: BackendName, id: Seq<char>, source_id: Seq<char>)
        -> Seq<(AppId, Arc<AppInfo>)>
    {
        match first_with_backend(self.backends@, backend_name) {
            Some(b) => caches_addons(self.backends@[b].1@, source_id, id),
            None => seq![],
        }
    }

    /// Gathers the addons of an application, repository after repository.
    pub fn addon_candidates(&self, backend_name: BackendName, id: &AppId, info: &AppInfo) -> (r: Vec<(AppId, Arc<AppInfo>)>)
        ensures
            r@ == self.spec_addon_candidates(backend_name, id@, info.source_id@),
    {
        let mut addons: Vec<(AppId, Arc<AppInfo>)> = Vec::new();
        match find_backend(&self.backends, backend_name) {
            Some(b) => {
                let caches = &self.backends[b].1;
                let n = caches.len();
                let mut i: usize = 0;
                while i < n
                    invariant
                        n == caches@.len(),
                        i <= n,
                        addons@ == caches_addons(caches@.take(i as int), info.source_id@, id@),
                    decreases n - i,
                {
                    assert(caches@.take(i as int + 1).drop_last() =~= caches@.take(i as int));
                    push_cache_addons(&caches[i], &info.source_id, id, &mut addons);
                    i += 1;
                }
                assert(caches@.take(n as int) =~= caches@);
            },
            None => {
                assert(addons@ =~= seq![]);
            },
        }
        addons
    }

    /// Whether `r` is the list of addons of the application `id` of the
    /// repository `source_id`, in the order the details page lists them.
    pub open spec fn selected_addons_ok(
        &self,
        backend_name: BackendName,
        id: Seq<char>,
        source_id: Seq<char>,
        name_rank: Seq<u64>,
        r: Seq<(AppId, Arc<AppInfo>)>,
    ) -> bool {
        sorted_addons(self.spec_addon_candidates(backend_name, id, source_id), name_rank, r)
    }

    /// The addons of an application, most downloaded first; among equal
    /// downloads, by name in the user's language (`name_rank[i]` is the
    /// place of the name of the `i`-th addon of `addon_candidates` in that
    /// language's collation, see `name_ranks`).
    pub fn selected_addons(&self, backend_name: BackendName, id: &AppId, info: &AppInfo, name_rank: &Vec<u64>)
        -> (r: Vec<(AppId, Arc<AppInfo>)>)
        requires
            name_rank@.len() == self.spec_addon_candidates(backend_name, id@, info.source_id@).len(),
        ensures
            self.selected_addons_ok(backend_name, id@, info.source_id@, name_rank@, r@),
    {
        let candidates = self.addon_candidates(backend_name, id, info);
        sort_addons(candidates, name_rank)
    }
}

/// The addons listed for an application depend on its metadata only through
/// the repository it comes from.
pub proof fn lemma_selected_addons_depend_on_source(
    app: App,
    backend_name: BackendName,
    id: Seq<char>,
    info1: AppInfo,
    info2: AppInfo,
    name_rank: Seq<u64>,
    r1: Seq<(AppId, Arc<AppInfo>)>,
    r2: Seq<(AppId, Arc<AppInfo>)>,
)
    requires
        info1.source_id@ == info2.source_id@,
        app.selected_addons_ok(backend_name, id, info1.source_id@, name_rank, r1),
        app.selected_addons_ok(backend_name, id, info2.source_id@, name_rank, r2),
    ensures
        r1 == r2,
{
    lemma_sorted_addons_unique(app.spec_addon_candidates(backend_name, id, info1.source_id@), name_rank, r1, r2);
}

/// Whether addon `x` may come before addon `y` (see `addon_le`).
fn addon_before(addons: &Vec<(AppId, Arc<AppInfo>)>, rank: &Vec<u64>, x: usize, y: usize) -> (r: bool)
    requires
        x < addons@.len(),
        y < addons@.len(),
        addons@.len() == rank@.len(),
    ensures
        r == addon_le(addons@, rank@, x as int, y as int),
{
    let dx = addons[x].1.monthly_downloads;
    let dy = addons[y].1.monthly_downloads;
    dx > dy || (dx == dy && rank[x] <= rank[y])
}

/// Orders addons: more monthly downloads first, among equal downloads by
/// `name_rank`, the place of each addon's name in the user's language's
/// collation, and otherwise as given.
pub fn sort_addons(addons: Vec<(AppId, Arc<AppInfo>)>, name_rank: &Vec<u64>) -> (r: Vec<(AppId, Arc<AppInfo>)>)
    requires
        name_rank@.len() == addons@.len(),
    ensures
        sorted_addons(addons@, name_rank@, r@),
{
    let n = addons.len();
    let mut order: Vec<usize> = Vec::new();
    let mut i: usize = 0;
    while i < n
        invariant
            n == addons@.len(),
            i <= n,
            order@.len() == i,
            forall|k: int| 0 <= k < i ==> #[trigger] order@[k] == k,
        decreases n - i,
    {
        order.push(i);
        i += 1;
    }
    assert forall|v: int| 0 <= v < n implies #[trigger] occurs_in(order@, v) by {
        assert(order@[v] == v);
    }
    let mut i: usize = 1;
    while i < n
        invariant
            n == addons@.len(),
            n == name_rank@.len(),
            order@.len() == n,
            forall|k: int| 0 <= k < n ==> (#[trigger] order@[k]) < n,
            forall|a: int, b: int| 0 <= a < b < n ==> (#[trigger] order@[a]) != (#[trigger] order@[b]),
            forall|v: int| 0 <= v < n ==> #[trigger] occurs_in(order@, v),
            n == 0 || 1 <= i <= n,
            forall|k: int| i <= k < n ==> #[trigger] order@[k] == k,
            forall|k: int| 0 <= k < i && k < n ==> #[trigger] order@[k] < i,
            forall|a: int, b: int| 0 <= a < b < i
                ==> addon_precedes(addons@, name_rank@, #[trigger] order@[a] as int, #[trigger] order@[b] as int),
        decreases n - i,
    {
        let mut j: usize = i;
        while j > 0 && !addon_before(&addons, name_rank, order[j - 1], order[j])
            invariant
                n == addons@.len(),
                n == name_rank@.len(),
                order@.len() == n,
                1 <= i < n,
                j <= i,
                order@[j as int] == i,
                forall|k: int| 0 <= k < n ==> (#[trigger] order@[k]) < n,
                forall|a: int, b: int| 0 <= a < b < n ==> (#[trigger] order@[a]) != (#[trigger] order@[b]),
                forall|v: int| 0 <= v < n ==> #[trigger] occurs_in(order@, v),
                forall|k: int| i < k < n ==> #[trigger] order@[k] == k,
                forall|k: int| 0 <= k <= i && k != j ==> #[trigger] order@[k] < i,
                forall|a: int, b: int| 0 <= a < b <= i && a != j && b != j
                    ==> addon_precedes(addons@, name_rank@, #[trigger] order@[a] as int, #[trigger] order@[b] as int),
                forall|b: int| j < b <= i
                    ==> addon_precedes(addons@, name_rank@, order@[j as int] as int, #[trigger] order@[b] as int),
            decreases j,
        {
            let ghost before = order@;
            let x = order[j - 1];
            let y = order[j];
            order.set(j - 1, y);
            order.set(j, x);
            proof {
                assert forall|v: int| 0 <= v < n implies #[trigger] occurs_in(order@, v) by {
                    assert(occurs_in(before, v));
                    let k0 = choose|k: int| 0 <= k < n && #[trigger] before[k] == v;
                    if k0 == j - 1 {
                        assert(order@[j as int] == v);
                    } else if k0 == j {
                        assert(order@[j - 1] == v);
                    } else {
                        assert(order@[k0] == v);
                    }
                }
            }
            j -= 1;
        }
        assert forall|a: int, b: int| 0 <= a < b <= i implies
            addon_precedes(addons@, name_rank@, #[trigger] order@[a] as int, #[trigger] order@[b] as int) by {
            if b == j && a < j - 1 {
                assert(addon_precedes(addons@, name_rank@, order@[a] as int, order@[j - 1] as int));
                assert(addon_precedes(addons@, name_rank@, order@[j - 1] as int, order@[j as int] as int));
            }
        }
        i += 1;
    }
    let mut r: Vec<(AppId, Arc<AppInfo>)> = Vec::new();
    let mut k: usize = 0;
    while k < n
        invariant
            n == addons@.len(),
            order@.len() == n,
            forall|m: int| 0 <= m < n ==> (#[trigger] order@[m]) < n,
            k <= n,
            r@.len() == k,
            forall|m: int| 0 <= m < k ==> #[trigger] r@[m] == addons@[order@[m] as int],
        decreases n - k,
    {
        let p = &addons[order[k]];
        r.push((p.0.clone(), share_info(&p.1)));
        k += 1;
    }
    assert(sorted_order(addons@, name_rank@, order@));
    r
}

/// The place of the `k`-th name of a collation-ordered list: the number of
/// times, up to it, that a name collates after the one before it.
pub open spec fn rank_at(same_as_previous: Seq<bool>, k: int) -> int
    decreases k,
{
    if k <= 0 {
        0
    } else {
        rank_at(same_as_previous, k - 1) + if same_as_previous[k] { 0int } else { 1int }
    }
}

proof fn lemma_rank_at_bound(same_as_previous: Seq<bool>, k: int)
    requires
        k >= 0,
    ensures
        0 <= rank_at(same_as_previous, k) <= k,
    decreases k,
{
    if k > 0 {
        lemma_rank_at_bound(same_as_previous, k - 1);
    }
}

/// The collation rank of each name, given the names' indices in collation
/// order (`order`) and, for each place of that order, whether its name
/// collates equal to the one before it (`same_as_previous`): names that
/// collate equal share a rank, and each later name ranks one above.
pub fn name_ranks(order: &Vec<usize>, same_as_previous: &Vec<bool>) -> (r: Vec<u64>)
    requires
        is_permutation(order@, order@.len()),
        same_as_previous@.len() == order@.len(),
    ensures
        r@.len() == order@.len(),
        forall|k: int| 0 <= k < order@.len() ==> r@[#[trigger] order@[k] as int] == rank_at(same_as_previous@, k),
{
    let n = order.len();
    let mut ranks: Vec<u64> = Vec::new();
    let mut i: usize = 0;
    while i < n
        invariant
            i <= n,
            ranks@.len() == i,
        decreases n - i,
    {
        ranks.push(0);
        i += 1;
    }
    let mut rank: u64 = 0;
    let mut k: usize = 0;
    while k < n
        invariant
            n == order@.len(),
            n == same_as_previous@.len(),
            is_permutation(order@, n as nat),
            ranks@.len() == n,
            k <= n,
            k > 0 ==> rank == rank_at(same_as_previous@, k - 1),
            forall|j: int| 0 <= j < k ==> ranks@[#[trigger] order@[j] as int] == rank_at(same_as_previous@, j),
        decreases n - k,
    {
        proof { lemma_rank_at_bound(same_as_previous@, k as int); }
        if k > 0 && !same_as_previous[k] {
            rank = rank + 1;
        }
        if k == 0 {
            rank = 0;
        }
        let ghost before = ranks@;
        ranks.set(order[k], rank);
        assert forall|j: int| 0 <= j < k + 1 implies ranks@[#[trigger] order@[j] as int] == rank_at(same_as_previous@, j) by {
            if j < k {
                assert(order@[j] != order@[k as int]);
                assert(ranks@[order@[j] as int] == before[order@[j] as int]);
            }
        }
        k += 1;
    }
    ranks
}

} // verus!
