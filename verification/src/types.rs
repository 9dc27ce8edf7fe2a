//! The element references that snapshots hand out, the app kinds that
//! detection tells apart, and where the daemon's socket lives.
use vstd::prelude::*;
use vstd::string::*;
use crate::text::{opt_view, str_equal};

verus! {

/// Which engine produced an element reference.
#[derive(Clone, Copy, Debug, PartialEq, Eq, Structural)]
pub enum RefSource {
    AX,
    CDP,
    Coordinate,
}

/// One step of an accessibility path: the child's role and its position
/// among the siblings that share that role.
pub struct PathSegment {
    pub role: String,
    pub index: usize,
}

/// The abstract content of a path segment.
pub struct PathSegmentView {
    pub role: Seq<char>,
    pub index: usize,
}

impl View for PathSegment {
    type V = PathSegmentView;

    open spec fn view(&self) -> PathSegmentView {
        PathSegmentView { role: self.role@, index: self.index }
    }
}

/// The views of a sequence of path segments.
pub open spec fn path_view(p: Seq<PathSegment>) -> Seq<PathSegmentView> {
    p.map_values(|s: PathSegment| s@)
}

impl PathSegment {
    /// A copy of this segment.
    pub fn duplicate(&self) -> (r: PathSegment)
        ensures
            r@ == self@,
    {
        PathSegment { role: self.role.clone(), index: self.index }
    }
}

/// A copy of an accessibility path.
pub fn duplicate_path(p: &Vec<PathSegment>) -> (r: Vec<PathSegment>)
    ensures
        path_view(r@) == path_view(p@),
{
    let mut out: Vec<PathSegment> = Vec::new();
    let mut i: usize = 0;
    while i < p.len()
        invariant
            i <= p.len(),
            path_view(out@) =~= path_view(p@).take(i as int),
        decreases p.len() - i,
    {
        let ghost before = out@;
        out.push(p[i].duplicate());
        assert(path_view(out@) =~= path_view(before).push(p@[i as int]@));
        assert(path_view(p@).take(i + 1) =~= path_view(p@).take(i as int).push(p@[i as int]@));
        i = i + 1;
    }
    assert(path_view(p@).take(p.len() as int) =~= path_view(p@));
    out
}

/// A copy of a list of strings.
pub fn duplicate_strings(v: &Vec<String>) -> (r: Vec<String>)
    ensures
        crate::text::views(r@) == crate::text::views(v@),
{
    let mut out: Vec<String> = Vec::new();
    let mut i: usize = 0;
    while i < v.len()
        invariant
            i <= v.len(),
            crate::text::views(out@) =~= crate::text::views(v@).take(i as int),
        decreases v.len() - i,
    {
        let ghost before = out@;
        out.push(v[i].clone());
        assert(crate::text::views(out@) =~= crate::text::views(before).push(v@[i as int]@));
        assert(crate::text::views(v@).take(i + 1) =~= crate::text::views(v@).take(i as int).push(v@[i as int]@));
        i = i + 1;
    }
    assert(crate::text::views(v@).take(v.len() as int) =~= crate::text::views(v@));
    out
}

/// A copy of an optional string.
pub fn duplicate_opt(o: &Option<String>) -> (r: Option<String>)
    ensures
        opt_view(r) == opt_view(*o),
{
    match o {
        Some(s) => Some(s.clone()),
        None => None,
    }
}

/// A screen rectangle. Each field holds the IEEE-754 bit pattern of the
/// `f64` coordinate that the accessibility API reported; the library carries
/// these values but never computes with them.
#[derive(Clone, Copy, Debug, PartialEq, Eq, Structural)]
pub struct Rect {
    pub x: u64,
    pub y: u64,
    pub width: u64,
    pub height: u64,
}

/// A reference to a UI element, as stored in the reference map.
pub struct ElementRef {
    pub id: String,
    pub source: RefSource,
    pub role: String,
    pub label: Option<String>,
    pub frame: Option<Rect>,
    pub ax_path: Option<Vec<PathSegment>>,
    pub ax_actions: Option<Vec<String>>,
    pub ax_pid: Option<i32>,
    pub cdp_node_id: Option<i64>,
    pub cdp_backend_node_id: Option<i64>,
    pub cdp_port: Option<u16>,
    pub ab_ref: Option<String>,
    pub ab_session: Option<String>,
}

/// The abstract content of an element reference.
pub struct ElementRefView {
    pub id: Seq<char>,
    pub source: RefSource,
    pub role: Seq<char>,
    pub label: Option<Seq<char>>,
    pub frame: Option<Rect>,
    pub ax_path: Option<Seq<PathSegmentView>>,
    pub ax_actions: Option<Seq<Seq<char>>>,
    pub ax_pid: Option<i32>,
    pub cdp_node_id: Option<i64>,
    pub cdp_backend_node_id: Option<i64>,
    pub cdp_port: Option<u16>,
    pub ab_ref: Option<Seq<char>>,
    pub ab_session: Option<Seq<char>>,
}

impl View for ElementRef {
    type V = ElementRefView;

    open spec fn view(&self) -> ElementRefView {
        ElementRefView {
            id: self.id@,
            source: self.source,
            role: self.role@,
            label: opt_view(self.label),
            frame: self.frame,
            ax_path: match self.ax_path {
                Some(p) => Some(path_view(p@)),
                None => None,
            },
            ax_actions: match self.ax_actions {
                Some(a) => Some(crate::text::views(a@)),
                None => None,
            },
            ax_pid: self.ax_pid,
            cdp_node_id: self.cdp_node_id,
            cdp_backend_node_id: self.cdp_backend_node_id,
            cdp_port: self.cdp_port,
            ab_ref: opt_view(self.ab_ref),
            ab_session: opt_view(self.ab_session),
        }
    }
}

/// `e` with its id replaced.
pub open spec fn with_id(e: ElementRefView, id: Seq<char>) -> ElementRefView {
    ElementRefView { id, ..e }
}

impl ElementRef {
    /// A copy of this reference.
    pub fn duplicate(&self) -> (r: ElementRef)
        ensures
            r@ == self@,
    {
        ElementRef {
            id: self.id.clone(),
            source: self.source,
            role: self.role.clone(),
            label: duplicate_opt(&self.label),
            frame: self.frame,
            ax_path: match &self.ax_path {
                Some(p) => Some(duplicate_path(p)),
                None => None,
            },
            ax_actions: match &self.ax_actions {
                Some(a) => Some(duplicate_strings(a)),
                None => None,
            },
            ax_pid: self.ax_pid,
            cdp_node_id: self.cdp_node_id,
            cdp_backend_node_id: self.cdp_backend_node_id,
            cdp_port: self.cdp_port,
            ab_ref: duplicate_opt(&self.ab_ref),
            ab_session: duplicate_opt(&self.ab_session),
        }
    }
}

/// The kind of an application, as detection reports it.
#[derive(Clone, Copy, Debug, PartialEq, Eq, Structural)]
pub enum AppKind {
    Native,
    Browser { cdp_port: Option<u16> },
    Electron { cdp_port: Option<u16> },
    CEF { cdp_port: Option<u16> },
    Unknown,
}

/// The accessibility roles that count as interactive.
pub open spec fn interactive_roles() -> Set<Seq<char>> {
    set![
        "AXButton"@, "AXTextField"@, "AXTextArea"@, "AXCheckBox"@,
        "AXRadioButton"@, "AXPopUpButton"@, "AXComboBox"@, "AXSlider"@,
        "AXLink"@, "AXMenuItem"@, "AXMenuButton"@, "AXTab"@,
        "AXTabGroup"@, "AXScrollArea"@, "AXTable"@, "AXOutline"@,
        "AXSwitch"@, "AXSearchField"@, "AXIncrementor"@
    ]
}

/// Whether `role` is one of the interactive accessibility roles.
pub fn is_interactive_role(role: &str) -> (r: bool)
    ensures
        r == interactive_roles().contains(role@),
{
    str_equal(role, "AXButton") || str_equal(role, "AXTextField") || str_equal(role, "AXTextArea")
        || str_equal(role, "AXCheckBox") || str_equal(role, "AXRadioButton")
        || str_equal(role, "AXPopUpButton") || str_equal(role, "AXComboBox")
        || str_equal(role, "AXSlider") || str_equal(role, "AXLink") || str_equal(role, "AXMenuItem")
        || str_equal(role, "AXMenuButton") || str_equal(role, "AXTab") || str_equal(role, "AXTabGroup")
        || str_equal(role, "AXScrollArea") || str_equal(role, "AXTable") || str_equal(role, "AXOutline")
        || str_equal(role, "AXSwitch") || str_equal(role, "AXSearchField")
        || str_equal(role, "AXIncrementor")
}

/// The bundle identifiers of the browsers that detection recognises.
pub open spec fn known_browser_bundle_ids() -> Set<Seq<char>> {
    set![
        "com.apple.Safari"@, "com.google.Chrome"@, "org.mozilla.firefox"@,
        "com.microsoft.edgemac"@, "com.brave.Browser"@, "company.thebrowser.Browser"@,
        "com.vivaldi.Vivaldi"@, "com.operasoftware.Opera"@
    ]
}

/// The known browsers are exactly the eight documented ones: Safari, Chrome,
/// Firefox, Edge, Brave, Arc, Vivaldi and Opera.
pub proof fn law_documented_browsers(bundle_id: Seq<char>)
    ensures
        known_browser_bundle_ids().contains(bundle_id) <==> (bundle_id == "com.apple.Safari"@
            || bundle_id == "com.google.Chrome"@ || bundle_id == "org.mozilla.firefox"@
            || bundle_id == "com.microsoft.edgemac"@ || bundle_id == "com.brave.Browser"@
            || bundle_id == "company.thebrowser.Browser"@ || bundle_id == "com.vivaldi.Vivaldi"@
            || bundle_id == "com.operasoftware.Opera"@),
{
}

/// Whether `bundle_id` belongs to a known browser.
pub fn is_known_browser(bundle_id: &str) -> (r: bool)
    ensures
        r == known_browser_bundle_ids().contains(bundle_id@),
{
    str_equal(bundle_id, "com.apple.Safari") || str_equal(bundle_id, "com.google.Chrome")
        || str_equal(bundle_id, "org.mozilla.firefox") || str_equal(bundle_id, "com.microsoft.edgemac")
        || str_equal(bundle_id, "com.brave.Browser") || str_equal(bundle_id, "company.thebrowser.Browser")
        || str_equal(bundle_id, "com.vivaldi.Vivaldi") || str_equal(bundle_id, "com.operasoftware.Opera")
}


/// The user's home directory (`dirs::home_dir`): `$HOME` when it is set and
/// not empty, else the current user's entry in the password database, else
/// nothing. What comes back depends on the environment, so nothing is
/// claimed of it.
#[verifier::external_body]
fn home_dir() -> (r: Option<String>)
{
    match dirs::home_dir() {
        Some(p) => Some(p.to_string_lossy().into_owned()),
        None => None,
    }
}

/// The daemon's directory under a home directory (`/tmp` without one).
pub open spec fn socket_dir_under(home: Option<Seq<char>>) -> Seq<char> {
    crate::detector::path_join(
        match home {
            Some(h) => h,
            None => "/tmp"@,
        },
        ".agent-desktop"@,
    )
}

/// The daemon's directory, `.agent-desktop` under the given home directory,
/// or under `/tmp` when there is none.
pub fn socket_dir_in(home: Option<&str>) -> (r: String)
    ensures
        r@ == socket_dir_under(match home { Some(h) => Some(h@), None => None }),
{
    match home {
        Some(h) => crate::detector::join_path(h, ".agent-desktop"),
        None => crate::detector::join_path("/tmp", ".agent-desktop"),
    }
}

/// The daemon's directory: `.agent-desktop` under the user's home directory
/// (under `/tmp` when it cannot be found).
pub fn daemon_socket_dir() -> (r: String)
    ensures
        exists|home: Option<Seq<char>>| r@ == #[trigger] socket_dir_under(home),
{
    let home = home_dir();
    let r = match &home {
        Some(h) => socket_dir_in(Some(h.as_str())),
        None => socket_dir_in(None),
    };
    assert(r@ == socket_dir_under(crate::text::opt_view(home)));
    r
}

/// The socket path: the path in `custom` when one is configured, else
/// `daemon.sock` in the daemon's directory.
pub fn daemon_socket_path(custom: Option<String>) -> (r: String)
    ensures
        custom matches Some(c) ==> r@ == c@,
        custom is None ==> exists|home: Option<Seq<char>>|
            r@ == crate::detector::path_join(#[trigger] socket_dir_under(home), "daemon.sock"@),
{
    match custom {
        Some(c) => c,
        None => {
            let dir = daemon_socket_dir();
            let ghost home = choose|home: Option<Seq<char>>| dir@ == #[trigger] socket_dir_under(home);
            let r = crate::detector::join_path(dir.as_str(), "daemon.sock");
            assert(r@ == crate::detector::path_join(socket_dir_under(home), "daemon.sock"@));
            r
        },
    }
}

} // verus!
