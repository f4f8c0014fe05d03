//! The buttons an application offers on its details page and in lists.
use vstd::prelude::*;
use crate::model::{system_app_id, AppId, AppInfo, AppProvide, BackendName, Package};
use crate::store::{first_index, lemma_first_index, lemma_first_index_is_first, package_is, App};

verus! {

/// A control shown for an application.
#[derive(Debug)]
pub enum ButtonKind {
    /// A progress bar for the pending operation with this key.
    Progress(u64),
    /// "Place on desktop", for installed applets.
    PlaceOnDesktop,
    /// "Open", launching this desktop entry.
    Open(String),
    /// "Update", applying the update at this index of the list of updates.
    Update(usize),
    /// "Uninstall".
    Uninstall,
    /// "Install"; shown as the suggested action except for addons.
    Install { suggested: bool },
}

/// What a control is, with its texts taken by their characters.
pub enum ButtonView {
    Progress(u64),
    PlaceOnDesktop,
    Open(Seq<char>),
    Update(usize),
    Uninstall,
    Install(bool),
}

impl View for ButtonKind {
    type V = ButtonView;

    open spec fn view(&self) -> ButtonView {
        match self {
            ButtonKind::Progress(k) => ButtonView::Progress(*k),
            ButtonKind::PlaceOnDesktop => ButtonView::PlaceOnDesktop,
            ButtonKind::Open(d) => ButtonView::Open(d@),
            ButtonKind::Update(u) => ButtonView::Update(*u),
            ButtonKind::Uninstall => ButtonView::Uninstall,
            ButtonKind::Install { suggested } => ButtonView::Install(*suggested),
        }
    }
}

pub open spec fn buttons_view(s: Seq<ButtonKind>) -> Seq<ButtonView> {
    s.map_values(|b: ButtonKind| b@)
}

/// The identifier that an applet declares it provides.
pub open spec fn applet_provide_id() -> Seq<char> {
    "com.system76.CosmicApplet"@
}

/// Whether a declaration is the applet one.
pub open spec fn is_applet_provide(p: AppProvide) -> bool {
    match p {
        AppProvide::Id(s) => s@ == applet_provide_id(),
        _ => false,
    }
}

/// Whether an application declares itself an applet.
pub open spec fn provides_applet(info: AppInfo) -> bool {
    exists|k: int| 0 <= k < info.provides@.len() && is_applet_provide(#[trigger] info.provides@[k])
}

fn is_applet(info: &AppInfo) -> (r: bool)
    ensures
        r == provides_applet(*info),
{
    let applet = String::from_str("com.system76.CosmicApplet");
    let n = info.provides.len();
    let mut i: usize = 0;
    while i < n
        invariant
            n == info.provides@.len(),
            i <= n,
            applet@ == applet_provide_id(),
            forall|k: int| 0 <= k < i ==> !is_applet_provide(#[trigger] info.provides@[k]),
        decreases n - i,
    {
        match &info.provides[i] {
            AppProvide::Id(s) => {
                if *s == applet {
                    assert(is_applet_provide(info.provides@[i as int]));
                    return true;
                }
            },
            AppProvide::MediaType(_) => {},
        }
        i += 1;
    }
    false
}

impl App {
    /// The index of the first update that is this application of this
    /// repository on this backend.
    pub open spec fn spec_update_index(&self, backend_name: BackendName, source_id: Seq<char>, id: Seq<char>) -> Option<int> {
        match self.updates {
            Some(v) => first_index(v@, |p: (BackendName, Package)| package_is(p, backend_name, source_id, id)),
            None => None,
        }
    }

    fn update_index(&self, backend_name: BackendName, source_id: &String, id: &AppId) -> (r: Option<usize>)
        ensures
            r matches Some(u) ==> self.spec_update_index(backend_name, source_id@, id@) == Some(u as int),
            r is None ==> self.spec_update_index(backend_name, source_id@, id@) is None,
    {
        match &self.updates {
            Some(updates) => {
                let n = updates.len();
                let mut i: usize = 0;
                while i < n
                    invariant
                        self.updates == Some(*updates),
                        n == updates@.len(),
                        i <= n,
                        forall|j: int| 0 <= j < i ==> !package_is(#[trigger] updates@[j], backend_name, source_id@, id@),
                    decreases n - i,
                {
                    let p = &updates[i];
                    if p.0 == backend_name && p.1.info.source_id == *source_id && p.1.id.same(id) {
                        proof {
                            lemma_first_index(updates@, |p: (BackendName, Package)| package_is(p, backend_name, source_id@, id@), i as int);
                        }
                        return Some(i);
                    }
                    i += 1;
                }
                None
            },
            None => None,
        }
    }

    /// The controls offered for an application: the progress of a pending
    /// operation on it; nothing while the store waits to refresh its lists
    /// after one; for an installed application, a way to open it (or to
    /// place an applet on the desktop), its update if there is one, and
    /// uninstalling unless it is the system; otherwise, installing it.
    pub open spec fn spec_selected_buttons(&self, backend_name: BackendName, id: Seq<char>, info: AppInfo, addon: bool)
        -> Seq<ButtonView>
    {
        match self.spec_progress(backend_name, info.source_id@, id) {
            Some(k) => seq![ButtonView::Progress(k)],
            None => if self.spec_is_waiting_refresh(backend_name, info.source_id@, id) {
                seq![]
            } else if self.spec_is_installed(backend_name, id, info.source_id@) {
                (if info.desktop_ids@.len() > 0 {
                    if provides_applet(info) {
                        seq![ButtonView::PlaceOnDesktop]
                    } else {
                        seq![ButtonView::Open(info.desktop_ids@[0]@)]
                    }
                } else {
                    seq![]
                }) + (match self.spec_update_index(backend_name, info.source_id@, id) {
                    Some(u) => seq![ButtonView::Update(u as usize)],
                    None => seq![],
                }) + (if id != system_app_id() {
                    seq![ButtonView::Uninstall]
                } else {
                    seq![]
                })
            } else {
                seq![ButtonView::Install(!addon)]
            },
        }
    }

    /// The controls offered for an application (see `spec_selected_buttons`).
    pub fn selected_buttons(&self, backend_name: BackendName, id: &AppId, info: &AppInfo, addon: bool)
        -> (r: Vec<ButtonKind>)
        ensures
            buttons_view(r@) == self.spec_selected_buttons(backend_name, id@, *info, addon),
    {
        let waiting_refresh = self.is_waiting_refresh(backend_name, &info.source_id, id);
        let progress_opt = self.progress_opt(backend_name, &info.source_id, id);
        let is_installed = self.is_installed(backend_name, id, info);
        let update_opt = self.update_index(backend_name, &info.source_id, id);
        let mut buttons: Vec<ButtonKind> = Vec::new();
        if let Some(progress) = progress_opt {
            buttons.push(ButtonKind::Progress(progress));
            assert(buttons_view(buttons@) =~= seq![ButtonView::Progress(progress)]);
        } else if waiting_refresh {
            assert(buttons_view(buttons@) =~= seq![]);
        } else if is_installed {
            if info.desktop_ids.len() > 0 {
                if is_applet(info) {
                    buttons.push(ButtonKind::PlaceOnDesktop);
                } else {
                    buttons.push(ButtonKind::Open(info.desktop_ids[0].clone()));
                }
            }
            let ghost after_open = buttons_view(buttons@);
            if let Some(u) = update_opt {
                buttons.push(ButtonKind::Update(u));
            }
            let ghost after_update = buttons_view(buttons@);
            if !id.is_system() {
                buttons.push(ButtonKind::Uninstall);
            }
            proof {
                let open_part: Seq<ButtonView> = if info.desktop_ids@.len() > 0 {
                    if provides_applet(*info) {
                        seq![ButtonView::PlaceOnDesktop]
                    } else {
                        seq![ButtonView::Open(info.desktop_ids@[0]@)]
                    }
                } else {
                    seq![]
                };
                let update_part: Seq<ButtonView> = match self.spec_update_index(backend_name, info.source_id@, id@) {
                    Some(u) => seq![ButtonView::Update(u as usize)],
                    None => seq![],
                };
                let uninstall_part: Seq<ButtonView> = if id@ != system_app_id() {
                    seq![ButtonView::Uninstall]
                } else {
                    seq![]
                };
                assert(after_open =~= open_part);
                assert(after_update =~= open_part + update_part);
                assert(buttons_view(buttons@) =~= open_part + update_part + uninstall_part);
            }
        } else {
            buttons.push(ButtonKind::Install { suggested: !addon });
            assert(buttons_view(buttons@) =~= seq![ButtonView::Install(!addon)]);
        }
        buttons
    }
}

/// An application offers at most three controls; a progress bar or an
/// install button stands alone; and uninstalling is offered only for an
/// installed application other than the system, with nothing pending on it.
pub proof fn lemma_buttons_shape(app: App, backend_name: BackendName, id: Seq<char>, info: AppInfo, addon: bool)
    ensures
        app.spec_selected_buttons(backend_name, id, info, addon).len() <= 3,
        forall|i: int| 0 <= i < app.spec_selected_buttons(backend_name, id, info, addon).len()
            ==> ((#[trigger] app.spec_selected_buttons(backend_name, id, info, addon)[i]) is Install
                || app.spec_selected_buttons(backend_name, id, info, addon)[i] is Progress)
            ==> app.spec_selected_buttons(backend_name, id, info, addon).len() == 1,
        forall|i: int| 0 <= i < app.spec_selected_buttons(backend_name, id, info, addon).len()
            ==> (#[trigger] app.spec_selected_buttons(backend_name, id, info, addon)[i]) is Uninstall
            ==> app.spec_is_installed(backend_name, id, info.source_id@) && id != system_app_id()
                && app.spec_progress(backend_name, info.source_id@, id) is None
                && !app.spec_is_waiting_refresh(backend_name, info.source_id@, id),
{
    let r = app.spec_selected_buttons(backend_name, id, info, addon);
    if app.spec_progress(backend_name, info.source_id@, id) is None
        && !app.spec_is_waiting_refresh(backend_name, info.source_id@, id)
        && app.spec_is_installed(backend_name, id, info.source_id@) {
        let open_part: Seq<ButtonView> = if info.desktop_ids@.len() > 0 {
            if provides_applet(info) {
                seq![ButtonView::PlaceOnDesktop]
            } else {
                seq![ButtonView::Open(info.desktop_ids@[0]@)]
            }
        } else {
            seq![]
        };
        let update_part: Seq<ButtonView> = match app.spec_update_index(backend_name, info.source_id@, id) {
            Some(u) => seq![ButtonView::Update(u as usize)],
            None => seq![],
        };
        let uninstall_part: Seq<ButtonView> = if id != system_app_id() {
            seq![ButtonView::Uninstall]
        } else {
            seq![]
        };
        assert(r == open_part + update_part + uninstall_part);
        assert forall|i: int| 0 <= i < r.len() implies !(#[trigger] r[i] is Install) && !(r[i] is Progress) by {
            if i < open_part.len() {
                assert(r[i] == open_part[i]);
            } else if i < open_part.len() + update_part.len() {
                assert(r[i] == update_part[i - open_part.len()]);
            } else {
                assert(r[i] == uninstall_part[i - open_part.len() - update_part.len()]);
            }
        }
        assert forall|i: int| 0 <= i < r.len() && (#[trigger] r[i] is Uninstall) implies id != system_app_id() by {
            if i < open_part.len() {
                assert(r[i] == open_part[i]);
            } else if i < open_part.len() + update_part.len() {
                assert(r[i] == update_part[i - open_part.len()]);
            } else {
                assert(r[i] == uninstall_part[i - open_part.len() - update_part.len()]);
            }
        }
    }
}

/// An installed application with nothing pending and nothing awaited is
/// offered an update exactly when the list of updates holds it: the button
/// applies the first update that is this application of this repository on
/// this backend, whatever the application, the system included.
pub proof fn lemma_update_offered(app: App, backend_name: BackendName, id: Seq<char>, info: AppInfo, addon: bool, u: usize)
    requires
        app.spec_progress(backend_name, info.source_id@, id) is None,
        !app.spec_is_waiting_refresh(backend_name, info.source_id@, id),
        app.spec_is_installed(backend_name, id, info.source_id@),
    ensures
        (exists|i: int| 0 <= i < app.spec_selected_buttons(backend_name, id, info, addon).len()
            && #[trigger] app.spec_selected_buttons(backend_name, id, info, addon)[i] == ButtonView::Update(u))
        <==> (app.updates matches Some(v) && u < v@.len()
            && package_is(v@[u as int], backend_name, info.source_id@, id)
            && forall|j: int| 0 <= j < u ==> !package_is(#[trigger] v@[j], backend_name, info.source_id@, id)),
{
    let r = app.spec_selected_buttons(backend_name, id, info, addon);
    let open_part: Seq<ButtonView> = if info.desktop_ids@.len() > 0 {
        if provides_applet(info) {
            seq![ButtonView::PlaceOnDesktop]
        } else {
            seq![ButtonView::Open(info.desktop_ids@[0]@)]
        }
    } else {
        seq![]
    };
    let update_part: Seq<ButtonView> = match app.spec_update_index(backend_name, info.source_id@, id) {
        Some(k) => seq![ButtonView::Update(k as usize)],
        None => seq![],
    };
    let uninstall_part: Seq<ButtonView> = if id != system_app_id() {
        seq![ButtonView::Uninstall]
    } else {
        seq![]
    };
    assert(r == open_part + update_part + uninstall_part);
    let pred = |p: (BackendName, Package)| package_is(p, backend_name, info.source_id@, id);
    let rhs = app.updates matches Some(v) && u < v@.len()
        && package_is(v@[u as int], backend_name, info.source_id@, id)
        && forall|j: int| 0 <= j < u ==> !package_is(#[trigger] v@[j], backend_name, info.source_id@, id);
    match app.updates {
        Some(v) => {
            lemma_first_index_is_first(v@, pred);
            if rhs {
                lemma_first_index(v@, pred, u as int);
                assert(r[open_part.len() as int] == ButtonView::Update(u));
            }
        },
        None => {},
    }
    if exists|i: int| 0 <= i < r.len() && #[trigger] r[i] == ButtonView::Update(u) {
        let i = choose|i: int| 0 <= i < r.len() && #[trigger] r[i] == ButtonView::Update(u);
        if i < open_part.len() {
            assert(r[i] == open_part[i]);
        } else if i < open_part.len() + update_part.len() {
            assert(r[i] == update_part[i - open_part.len()]);
            let v = app.updates->0;
            let k = app.spec_update_index(backend_name, info.source_id@, id)->0;
            assert(0 <= k < v@.len());
            assert(v.len() == v@.len());
            assert(k as usize == u);
        } else {
            assert(r[i] == uninstall_part[i - open_part.len() - update_part.len()]);
        }
    }
}

proof fn lemma_contains_concat3<T>(a: Seq<T>, b: Seq<T>, c: Seq<T>, x: T)
    ensures
        (a + b + c).contains(x) <==> (a.contains(x) || b.contains(x) || c.contains(x)),
{
    let s = a + b + c;
    if s.contains(x) {
        let i = choose|i: int| 0 <= i < s.len() && s[i] == x;
        if i < a.len() {
            assert(a[i] == x);
        } else if i < a.len() + b.len() {
            assert(b[i - a.len()] == x);
        } else {
            assert(c[i - a.len() - b.len()] == x);
        }
    }
    if a.contains(x) {
        let i = choose|i: int| 0 <= i < a.len() && a[i] == x;
        assert(s[i] == x);
    }
    if b.contains(x) {
        let i = choose|i: int| 0 <= i < b.len() && b[i] == x;
        assert(s[a.len() + i] == x);
    }
    if c.contains(x) {
        let i = choose|i: int| 0 <= i < c.len() && c[i] == x;
        assert(s[a.len() + b.len() + i] == x);
    }
}

/// Which controls an application is offered: the progress of its pending
/// operation alone while one is pending; nothing while the store waits to
/// refresh after one; for an installed application, "Place on desktop" for
/// an applet with a desktop entry, else "Open" on its first desktop entry,
/// and "Uninstall" unless it is the system; and for one not installed,
/// "Install", suggested unless it is an addon. The update an installed
/// application is offered is the one `lemma_update_offered` describes.
pub proof fn lemma_buttons_offered(app: App, backend_name: BackendName, id: Seq<char>, info: AppInfo, addon: bool, b: ButtonView)
    ensures
        ({
            let r = app.spec_selected_buttons(backend_name, id, info, addon);
            let pending = app.spec_progress(backend_name, info.source_id@, id);
            let waiting = app.spec_is_waiting_refresh(backend_name, info.source_id@, id);
            let installed = app.spec_is_installed(backend_name, id, info.source_id@);
            let idle = pending is None && !waiting;
            r.contains(b) <==> match b {
                ButtonView::Progress(k) => pending == Some(k),
                ButtonView::PlaceOnDesktop => idle && installed && info.desktop_ids@.len() > 0 && provides_applet(info),
                ButtonView::Open(d) => idle && installed && info.desktop_ids@.len() > 0 && !provides_applet(info)
                    && d == info.desktop_ids@[0]@,
                ButtonView::Update(u) => idle && installed && (app.updates matches Some(v) && u < v@.len()
                    && package_is(v@[u as int], backend_name, info.source_id@, id)
                    && forall|j: int| 0 <= j < u ==> !package_is(#[trigger] v@[j], backend_name, info.source_id@, id)),
                ButtonView::Uninstall => idle && installed && id != system_app_id(),
                ButtonView::Install(suggested) => idle && !installed && suggested == !addon,
            }
        }),
{
    let r = app.spec_selected_buttons(backend_name, id, info, addon);
    let pending = app.spec_progress(backend_name, info.source_id@, id);
    let waiting = app.spec_is_waiting_refresh(backend_name, info.source_id@, id);
    let installed = app.spec_is_installed(backend_name, id, info.source_id@);
    if let Some(k) = pending {
        assert(r == seq![ButtonView::Progress(k)]);
        if r.contains(b) {
            let i = choose|i: int| 0 <= i < r.len() && r[i] == b;
            assert(r[i] == ButtonView::Progress(k));
        }
        if b == ButtonView::Progress(k) {
            assert(r[0] == b);
        }
    } else if waiting {
        assert(r.len() == 0);
    } else if installed {
        let open_part: Seq<ButtonView> = if info.desktop_ids@.len() > 0 {
            if provides_applet(info) {
                seq![ButtonView::PlaceOnDesktop]
            } else {
                seq![ButtonView::Open(info.desktop_ids@[0]@)]
            }
        } else {
            seq![]
        };
        let update_part: Seq<ButtonView> = match app.spec_update_index(backend_name, info.source_id@, id) {
            Some(k) => seq![ButtonView::Update(k as usize)],
            None => seq![],
        };
        let uninstall_part: Seq<ButtonView> = if id != system_app_id() {
            seq![ButtonView::Uninstall]
        } else {
            seq![]
        };
        assert(r == open_part + update_part + uninstall_part);
        lemma_contains_concat3(open_part, update_part, uninstall_part, b);
        if let ButtonView::Update(u) = b {
            lemma_update_offered(app, backend_name, id, info, addon, u);
        }
        if open_part.contains(b) {
            let i = choose|i: int| 0 <= i < open_part.len() && open_part[i] == b;
            assert(open_part[i] == open_part[0]);
        }
        if update_part.contains(b) {
            let i = choose|i: int| 0 <= i < update_part.len() && update_part[i] == b;
            assert(update_part[i] == update_part[0]);
        }
        if uninstall_part.contains(b) {
            let i = choose|i: int| 0 <= i < uninstall_part.len() && uninstall_part[i] == b;
            assert(uninstall_part[i] == uninstall_part[0]);
        }
        if b == ButtonView::PlaceOnDesktop && info.desktop_ids@.len() > 0 && provides_applet(info) {
            assert(open_part[0] == b);
        }
        if (b matches ButtonView::Open(d) && d == info.desktop_ids@[0]@) && info.desktop_ids@.len() > 0 && !provides_applet(info) {
            assert(open_part[0] == b);
        }
        if b == ButtonView::Uninstall && id != system_app_id() {
            assert(uninstall_part[0] == b);
        }
    } else {
        assert(r == seq![ButtonView::Install(!addon)]);
        if r.contains(b) {
            let i = choose|i: int| 0 <= i < r.len() && r[i] == b;
            assert(r[i] == ButtonView::Install(!addon));
        }
        if b == ButtonView::Install(!addon) {
            assert(r[0] == b);
        }
    }
}

} // verus!
