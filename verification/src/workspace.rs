//! The running applications as the window server lists them, and the
//! questions the daemon asks of that list.
use vstd::prelude::*;
use vstd::string::*;
use crate::protocol::AppInfo;
use crate::text::{opt_view, str_equal, views};

verus! {

/// A running application as the system reports it.
pub struct RunningApp {
    /// Its localized name, when it has one.
    pub name: Option<String>,
    pub pid: i32,
    pub is_active: bool,
    /// Whether it is an ordinary GUI app (not a background or accessory one).
    pub regular: bool,
}

/// The abstract content of an `AppInfo`.
pub struct AppInfoView {
    pub name: Seq<char>,
    pub pid: i32,
    pub is_active: bool,
}

impl View for AppInfo {
    type V = AppInfoView;

    open spec fn view(&self) -> AppInfoView {
        AppInfoView { name: self.name@, pid: self.pid, is_active: self.is_active }
    }
}

/// The views of a sequence of app descriptions.
pub open spec fn app_views(s: Seq<AppInfo>) -> Seq<AppInfoView> {
    s.map_values(|a: AppInfo| a@)
}

/// A GUI app is listed when it is a regular app with a non-empty name.
pub open spec fn listed(a: RunningApp) -> bool {
    a.regular && a.name is Some && a.name.unwrap()@.len() > 0
}

/// The listed apps, in the order the system reports them.
pub open spec fn gui_apps(apps: Seq<RunningApp>) -> Seq<AppInfoView>
    decreases apps.len(),
{
    if apps.len() == 0 {
        Seq::empty()
    } else {
        let rest = gui_apps(apps.drop_last());
        let a = apps.last();
        if listed(a) {
            rest.push(AppInfoView { name: a.name.unwrap()@, pid: a.pid, is_active: a.is_active })
        } else {
            rest
        }
    }
}

/// The names of the listed apps, in order.
pub open spec fn gui_app_names(apps: Seq<RunningApp>) -> Seq<Seq<char>> {
    gui_apps(apps).map_values(|a: AppInfoView| a.name)
}

/// The pid of the first regular app named `name`, if any.
pub open spec fn first_pid_named(apps: Seq<RunningApp>, name: Seq<char>) -> Option<i32>
    decreases apps.len(),
{
    if apps.len() == 0 {
        None
    } else if apps[0].regular && opt_view(apps[0].name) == Some(name) {
        Some(apps[0].pid)
    } else {
        first_pid_named(apps.drop_first(), name)
    }
}

/// The running GUI apps: the regular apps with a non-empty name, with their
/// pid and whether each is active.
pub fn get_running_gui_apps(apps: &Vec<RunningApp>) -> (r: Vec<AppInfo>)
    ensures
        app_views(r@) == gui_apps(apps@),
{
    let n = apps.len();
    let mut out: Vec<AppInfo> = Vec::new();
    let mut i: usize = 0;
    while i < n
        invariant
            n == apps.len(),
            i <= n,
            app_views(out@) == gui_apps(apps@.take(i as int)),
        decreases n - i,
    {
        let a = &apps[i];
        assert(apps@.take(i + 1).drop_last() =~= apps@.take(i as int));
        let ghost before = out@;
        if a.regular {
            match &a.name {
                Some(name) => {
                    if name.unicode_len() > 0 {
                        out.push(AppInfo { name: name.clone(), pid: a.pid, is_active: a.is_active });
                        assert(app_views(out@) =~= app_views(before).push(
                            AppInfoView { name: name@, pid: a.pid, is_active: a.is_active },
                        ));
                    }
                },
                None => {},
            }
        }
        i = i + 1;
    }
    assert(apps@.take(n as int) =~= apps@);
    out
}

/// The names of the running GUI apps, in order.
pub fn get_running_app_names(apps: &Vec<RunningApp>) -> (r: Vec<String>)
    ensures
        views(r@) == gui_app_names(apps@),
{
    let infos = get_running_gui_apps(apps);
    let n = infos.len();
    let mut out: Vec<String> = Vec::new();
    let mut i: usize = 0;
    while i < n
        invariant
            n == infos.len(),
            i <= n,
            app_views(infos@) == gui_apps(apps@),
            views(out@) =~= gui_app_names(apps@).take(i as int),
        decreases n - i,
    {
        let ghost before = out@;
        out.push(infos[i].name.clone());
        assert(app_views(infos@)[i as int] == infos@[i as int]@);
        assert(views(out@) =~= views(before).push(infos@[i as int].name@));
        assert(gui_app_names(apps@).take(i + 1) =~= gui_app_names(apps@).take(i as int).push(gui_app_names(apps@)[i as int]));
        i = i + 1;
    }
    assert(gui_app_names(apps@).take(n as int) =~= gui_app_names(apps@));
    out
}

/// The pid of the first regular app named exactly `name`.
pub fn get_app_pid_by_name(apps: &Vec<RunningApp>, name: &str) -> (r: Option<i32>)
    ensures
        r == first_pid_named(apps@, name@),
{
    let n = apps.len();
    let mut i: usize = 0;
    assert(apps@.subrange(0, n as int) =~= apps@);
    while i < n
        invariant
            n == apps.len(),
            i <= n,
            first_pid_named(apps@, name@) == first_pid_named(apps@.subrange(i as int, n as int), name@),
        decreases n - i,
    {
        let a = &apps[i];
        let ghost tail = apps@.subrange(i as int, n as int);
        assert(tail[0] == apps@[i as int]);
        assert(tail.drop_first() =~= apps@.subrange(i + 1, n as int));
        if a.regular {
            match &a.name {
                Some(app_name) => {
                    if str_equal(app_name.as_str(), name) {
                        return Some(a.pid);
                    }
                },
                None => {},
            }
        }
        i = i + 1;
    }
    None
}

/// Whether a regular app named exactly `name` is running.
pub fn is_app_running(apps: &Vec<RunningApp>, name: &str) -> (r: bool)
    ensures
        r == first_pid_named(apps@, name@) is Some,
        name@.len() > 0 ==> r == gui_app_names(apps@).contains(name@),
{
    proof {
        if name@.len() > 0 {
            law_app_running_iff_named(apps@, name@);
        }
    }
    get_app_pid_by_name(apps, name).is_some()
}

/// A regular app whose name is exactly `name`.
pub open spec fn regular_named(a: RunningApp, name: Seq<char>) -> bool {
    a.regular && opt_view(a.name) == Some(name)
}

/// A pid is found for `name` exactly when some regular app has that name.
proof fn lemma_first_pid_some(apps: Seq<RunningApp>, name: Seq<char>)
    ensures
        (first_pid_named(apps, name) is Some) <==> exists|i: int| 0 <= i < apps.len() && #[trigger] regular_named(apps[i], name),
    decreases apps.len(),
{
    if apps.len() > 0 {
        let tail = apps.drop_first();
        lemma_first_pid_some(tail, name);
        if !regular_named(apps[0], name) {
            if exists|i: int| 0 <= i < apps.len() && #[trigger] regular_named(apps[i], name) {
                let i = choose|i: int| 0 <= i < apps.len() && #[trigger] regular_named(apps[i], name);
                assert(tail[i - 1] == apps[i]);
                assert(regular_named(tail[i - 1], name));
            }
            if exists|i: int| 0 <= i < tail.len() && #[trigger] regular_named(tail[i], name) {
                let i = choose|i: int| 0 <= i < tail.len() && #[trigger] regular_named(tail[i], name);
                assert(tail[i] == apps[i + 1]);
                assert(regular_named(apps[i + 1], name));
            }
        } else {
            assert(regular_named(apps[0], name));
        }
    }
}

/// The listed apps are named `n` somewhere exactly when some listed app
/// of the system has that name.
proof fn lemma_gui_apps_named(apps: Seq<RunningApp>, n: Seq<char>)
    ensures
        (exists|j: int| 0 <= j < gui_apps(apps).len() && #[trigger] gui_apps(apps)[j].name == n)
            <==> exists|i: int| 0 <= i < apps.len() && #[trigger] listed(apps[i]) && apps[i].name.unwrap()@ == n,
    decreases apps.len(),
{
    if apps.len() > 0 {
        let init = apps.drop_last();
        lemma_gui_apps_named(init, n);
        let rest = gui_apps(init);
        let g = gui_apps(apps);
        let a = apps.last();
        if exists|j: int| 0 <= j < g.len() && #[trigger] g[j].name == n {
            let j = choose|j: int| 0 <= j < g.len() && #[trigger] g[j].name == n;
            if j < rest.len() {
                assert(g[j] == rest[j]);
                let i = choose|i: int| 0 <= i < init.len() && #[trigger] listed(init[i]) && init[i].name.unwrap()@ == n;
                assert(init[i] == apps[i]);
                assert(listed(apps[i]));
            } else {
                assert(listed(a));
                assert(listed(apps[apps.len() - 1]));
            }
        }
        if exists|i: int| 0 <= i < apps.len() && #[trigger] listed(apps[i]) && apps[i].name.unwrap()@ == n {
            let i = choose|i: int| 0 <= i < apps.len() && #[trigger] listed(apps[i]) && apps[i].name.unwrap()@ == n;
            if i < init.len() {
                assert(init[i] == apps[i]);
                assert(listed(init[i]));
                let j = choose|j: int| 0 <= j < rest.len() && #[trigger] rest[j].name == n;
                assert(g[j] == rest[j]);
            } else {
                assert(g[rest.len() as int].name == n);
            }
        }
    }
}

/// A regular app named `name` runs exactly when `name` is among the names of
/// the running GUI apps (for a non-empty name: apps without a name are not
/// listed).
pub proof fn law_app_running_iff_named(apps: Seq<RunningApp>, name: Seq<char>)
    requires
        name.len() > 0,
    ensures
        (first_pid_named(apps, name) is Some) == gui_app_names(apps).contains(name),
{
    lemma_first_pid_some(apps, name);
    lemma_gui_apps_named(apps, name);
    let names = gui_app_names(apps);
    let g = gui_apps(apps);
    if names.contains(name) {
        let j = choose|j: int| 0 <= j < names.len() && names[j] == name;
        assert(g[j].name == name);
        let i = choose|i: int| 0 <= i < apps.len() && #[trigger] listed(apps[i]) && apps[i].name.unwrap()@ == name;
        assert(regular_named(apps[i], name));
    }
    if first_pid_named(apps, name) is Some {
        let i = choose|i: int| 0 <= i < apps.len() && #[trigger] regular_named(apps[i], name);
        assert(listed(apps[i]) && apps[i].name.unwrap()@ == name);
        let j = choose|j: int| 0 <= j < g.len() && #[trigger] g[j].name == name;
        assert(names[j] == name);
    }
}

/// An answer that names an app: a non-empty name and a positive pid.
pub open spec fn names_app(answer: Option<(String, i32)>) -> bool {
    answer matches Some((name, pid)) && name@.len() > 0 && pid > 0
}

/// The source gave an answer that names no app (none, an empty name or a
/// pid that is not positive).
pub open spec fn gave_nothing<S: Fn() -> Option<(String, i32)>>(source: S) -> bool {
    exists|a: Option<(String, i32)>| #[trigger] call_ensures(source, (), a) && !names_app(a)
}

/// Whether an answer of a source names an app.
fn usable(answer: &Option<(String, i32)>) -> (r: bool)
    ensures
        r == names_app(*answer),
{
    match answer {
        Some((name, pid)) => name.unicode_len() > 0 && *pid > 0,
        None => false,
    }
}

/// The frontmost app and its pid, asking three sources in turn and keeping
/// the first answer that names an app: the accessibility API, the
/// workspace, the window list.
pub fn get_frontmost_app<A, W, L>(via_accessibility: A, via_workspace: W, via_window_list: L) -> (r: Option<(String, i32)>)
    where
        A: Fn() -> Option<(String, i32)>,
        W: Fn() -> Option<(String, i32)>,
        L: Fn() -> Option<(String, i32)>,
    requires
        call_requires(via_accessibility, ()),
        call_requires(via_workspace, ()),
        call_requires(via_window_list, ()),
    ensures
        r is Some ==> names_app(r) && (call_ensures(via_accessibility, (), r)
            || (gave_nothing(via_accessibility) && (call_ensures(via_workspace, (), r)
                || (gave_nothing(via_workspace) && call_ensures(via_window_list, (), r))))),
        r is None ==> gave_nothing(via_accessibility) && gave_nothing(via_workspace) && gave_nothing(via_window_list),
{
    let first = via_accessibility();
    if usable(&first) {
        return first;
    }
    let second = via_workspace();
    if usable(&second) {
        return second;
    }
    let third = via_window_list();
    if usable(&third) {
        return third;
    }
    None
}

/// An on-screen window as the window list reports it, front to back: its
/// layer and owner pid when they are present and readable as `i32`, and
/// its owner's name when present.
pub struct WindowOwner {
    pub layer: Option<i32>,
    pub pid: Option<i32>,
    pub owner_name: Option<String>,
}

/// A window that can stand for the frontmost app: in the normal layer and
/// owned by another live process than `own_pid`.
pub open spec fn fronts_app(w: WindowOwner, own_pid: i32) -> bool {
    w.layer == Some(0i32) && (w.pid matches Some(p) && p != own_pid && p != 0)
}

/// The owner name and pid of the first window in `windows` (from position
/// `i` on) that can stand for the frontmost app.
pub open spec fn first_front_window(windows: Seq<WindowOwner>, own_pid: i32, i: int) -> Option<(Seq<char>, i32)>
    decreases windows.len() - i,
{
    if i < 0 || i >= windows.len() {
        None
    } else if fronts_app(windows[i], own_pid) {
        Some((
            match windows[i].owner_name {
                Some(n) => n@,
                None => "Unknown"@,
            },
            windows[i].pid.unwrap(),
        ))
    } else {
        first_front_window(windows, own_pid, i + 1)
    }
}

/// The frontmost app as read from the window list: the owner of the first
/// window in the normal layer that belongs to another process (`Unknown`
/// when the owner has no name).
pub fn frontmost_from_windows(windows: &Vec<WindowOwner>, own_pid: i32) -> (r: Option<(String, i32)>)
    ensures
        match first_front_window(windows@, own_pid, 0) {
            Some((n, p)) => r matches Some((name, pid)) && name@ == n && pid == p,
            None => r is None,
        },
{
    let n = windows.len();
    let mut i: usize = 0;
    while i < n
        invariant
            n == windows@.len(),
            i <= n,
            first_front_window(windows@, own_pid, 0) == first_front_window(windows@, own_pid, i as int),
        decreases n - i,
    {
        let w = &windows[i];
        let eligible = match (w.layer, w.pid) {
            (Some(layer), Some(pid)) => layer == 0 && pid != own_pid && pid != 0,
            _ => false,
        };
        if eligible {
            let pid = match w.pid {
                Some(p) => p,
                None => 0,
            };
            let name = match &w.owner_name {
                Some(x) => x.clone(),
                None => String::from_str("Unknown"),
            };
            return Some((name, pid));
        }
        i = i + 1;
    }
    None
}

} // verus!
