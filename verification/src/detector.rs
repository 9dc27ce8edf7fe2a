//! App detection (browser, Electron, CEF or native) and the choice of engine
//! for snapshots and interactions.
use vstd::prelude::*;
use vstd::string::*;
use crate::cdp::{CDP_PORT_FIRST, CDP_PORT_LAST};
use crate::refmap::{InteractionRoute, RouteView};
use crate::types::{is_known_browser, known_browser_bundle_ids, AppKind, Rect};

verus! {

/// `base` joined with the relative component `comp`, as `PathBuf::join` does.
pub open spec fn path_join(base: Seq<char>, comp: Seq<char>) -> Seq<char> {
    if base.len() == 0 || base.last() == '/' {
        base + comp
    } else {
        base + seq!['/'] + comp
    }
}

/// Joins the relative component `comp` onto `base`.
pub fn join_path(base: &str, comp: &str) -> (r: String)
    ensures
        r@ == path_join(base@, comp@),
{
    let mut s = String::from_str(base);
    let n = base.unicode_len();
    if n == 0 || base.get_char(n - 1) == '/' {
        s.append(comp);
    } else {
        crate::text::push_char(&mut s, '/');
        s.append(comp);
    }
    s
}

/// The frameworks directory of an app bundle.
pub open spec fn frameworks_dir(bundle: Seq<char>) -> Seq<char> {
    path_join(path_join(bundle, "Contents"@), "Frameworks"@)
}

/// Where the Electron framework sits inside an app bundle.
pub open spec fn electron_framework_at(bundle: Seq<char>) -> Seq<char> {
    path_join(frameworks_dir(bundle), "Electron Framework.framework"@)
}

/// The usual place of the Chromium Embedded Framework inside an app bundle.
pub open spec fn cef_framework_at(bundle: Seq<char>) -> Seq<char> {
    path_join(frameworks_dir(bundle), "Chromium Embedded Framework.framework"@)
}

/// The second place some apps put the Chromium Embedded Framework.
pub open spec fn cef_helper_at(bundle: Seq<char>) -> Seq<char> {
    path_join(frameworks_dir(bundle), "Chromium Embedded Framework"@)
}

/// The place of the Electron framework inside an app bundle.
pub fn electron_framework_path(bundle_path: &str) -> (r: String)
    ensures
        r@ == electron_framework_at(bundle_path@),
{
    let contents = join_path(bundle_path, "Contents");
    let frameworks = join_path(contents.as_str(), "Frameworks");
    join_path(frameworks.as_str(), "Electron Framework.framework")
}

/// The two places where a Chromium Embedded Framework may sit in an app bundle.
pub fn cef_framework_paths(bundle_path: &str) -> (r: (String, String))
    ensures
        r.0@ == cef_framework_at(bundle_path@),
        r.1@ == cef_helper_at(bundle_path@),
{
    let contents = join_path(bundle_path, "Contents");
    let frameworks = join_path(contents.as_str(), "Frameworks");
    (
        join_path(frameworks.as_str(), "Chromium Embedded Framework.framework"),
        join_path(frameworks.as_str(), "Chromium Embedded Framework"),
    )
}

/// The existence check `is_present`, asked about `path`, answered `b`.
pub open spec fn answered<E: Fn(&str) -> bool>(is_present: E, path: Seq<char>, b: bool) -> bool {
    exists|s: &str| s@ == path && #[trigger] call_ensures(is_present, (s,), b)
}

/// The Chromium Embedded Framework was found: at its usual place, or, after
/// that place was found empty, at the second one.
pub open spec fn cef_found<E: Fn(&str) -> bool>(is_present: E, bundle: Seq<char>) -> bool {
    answered(is_present, cef_framework_at(bundle), true)
        || (answered(is_present, cef_framework_at(bundle), false) && answered(is_present, cef_helper_at(bundle), true))
}

/// Both places of the Chromium Embedded Framework were found empty.
pub open spec fn cef_absent<E: Fn(&str) -> bool>(is_present: E, bundle: Seq<char>) -> bool {
    answered(is_present, cef_framework_at(bundle), false) && answered(is_present, cef_helper_at(bundle), false)
}

/// Whether the bundle ships the Electron framework: the answer of `is_present`
/// (a check of the file system) about `electron_framework_path`.
pub fn has_electron_framework<E: Fn(&str) -> bool>(bundle_path: &str, is_present: &E) -> (r: bool)
    requires
        forall|s: &str| call_requires(*is_present, (s,)),
    ensures
        answered(*is_present, electron_framework_at(bundle_path@), r),
{
    let p = electron_framework_path(bundle_path);
    is_present(p.as_str())
}

/// Whether the bundle ships the Chromium Embedded Framework: `is_present` is
/// asked about the places of `cef_framework_paths` in turn, until one is
/// found.
pub fn has_cef_framework<E: Fn(&str) -> bool>(bundle_path: &str, is_present: &E) -> (r: bool)
    requires
        forall|s: &str| call_requires(*is_present, (s,)),
    ensures
        r ==> cef_found(*is_present, bundle_path@),
        !r ==> cef_absent(*is_present, bundle_path@),
{
    let (a, b) = cef_framework_paths(bundle_path);
    if is_present(a.as_str()) {
        return true;
    }
    is_present(b.as_str())
}

/// Some probe of port `q` answered that nothing listens there.
pub open spec fn port_silent<F: Fn(u16) -> bool>(probe: F, q: u16) -> bool {
    call_ensures(probe, (q,), false)
}

/// What a scan of the standard ports may return: the first port whose probe
/// answered, every earlier port having been found silent; or nothing, every
/// port having been found silent.
pub open spec fn scan_outcome<F: Fn(u16) -> bool>(probe: F, r: Option<u16>) -> bool {
    match r {
        Some(p) => CDP_PORT_FIRST <= p <= CDP_PORT_LAST && call_ensures(probe, (p,), true)
            && forall|q: u16| CDP_PORT_FIRST <= q < p ==> #[trigger] port_silent(probe, q),
        None => forall|q: u16| CDP_PORT_FIRST <= q <= CDP_PORT_LAST ==> #[trigger] port_silent(probe, q),
    }
}

/// Scans the standard DevTools ports in increasing order and returns the first
/// whose probe answers.
pub fn scan_cdp_ports<F: Fn(u16) -> bool>(probe: &F) -> (r: Option<u16>)
    requires
        forall|p: u16| call_requires(*probe, (p,)),
    ensures
        scan_outcome(*probe, r),
{
    let mut port: u16 = CDP_PORT_FIRST;
    while port <= CDP_PORT_LAST
        invariant
            CDP_PORT_FIRST <= port <= CDP_PORT_LAST + 1,
            forall|p: u16| call_requires(*probe, (p,)),
            forall|q: u16| CDP_PORT_FIRST <= q < port ==> #[trigger] port_silent(*probe, q),
        decreases CDP_PORT_LAST + 1 - port,
    {
        if probe(port) {
            return Some(port);
        }
        port = port + 1;
    }
    None
}

/// Looks for a DevTools port of an app: `specific_port` first when given,
/// then the standard range.
pub fn probe_app_cdp_port<F: Fn(u16) -> bool>(pid: i32, specific_port: Option<u16>, probe: &F) -> (r: Option<u16>)
    requires
        forall|p: u16| call_requires(*probe, (p,)),
    ensures
        (specific_port matches Some(p) && r == Some(p) && call_ensures(*probe, (p,), true))
            || ((specific_port matches Some(p) ==> port_silent(*probe, p)) && scan_outcome(*probe, r)),
{
    if let Some(port) = specific_port {
        if probe(port) {
            return Some(port);
        }
    }
    scan_cdp_ports(probe)
}

/// The family an app belongs to, before its DevTools port is known.
pub open spec fn is_browser_id(bundle_id: Option<&str>) -> bool {
    bundle_id matches Some(b) && known_browser_bundle_ids().contains(b@)
}

/// Detects the kind of an app. A known browser bundle id makes it a browser;
/// otherwise `is_present` is asked whether the bundle holds the Electron, then
/// the CEF framework; otherwise it is native. Browsers, Electron and CEF
/// apps get the DevTools port that a scan with `probe` finds.
pub fn detect_app<E: Fn(&str) -> bool, F: Fn(u16) -> bool>(
    pid: i32,
    bundle_id: Option<&str>,
    bundle_path: Option<&str>,
    is_present: &E,
    probe: &F,
) -> (r: AppKind)
    requires
        forall|s: &str| call_requires(*is_present, (s,)),
        forall|p: u16| call_requires(*probe, (p,)),
    ensures
        is_browser_id(bundle_id) ==> (r matches AppKind::Browser { cdp_port } && scan_outcome(*probe, cdp_port)),
        !is_browser_id(bundle_id) ==> match bundle_path {
            None => r == AppKind::Native,
            Some(p) => match r {
                AppKind::Electron { cdp_port } => answered(*is_present, electron_framework_at(p@), true)
                    && scan_outcome(*probe, cdp_port),
                AppKind::CEF { cdp_port } => answered(*is_present, electron_framework_at(p@), false)
                    && cef_found(*is_present, p@) && scan_outcome(*probe, cdp_port),
                AppKind::Native => answered(*is_present, electron_framework_at(p@), false) && cef_absent(*is_present, p@),
                _ => false,
            },
        },
{
    if let Some(bid) = bundle_id {
        if is_known_browser(bid) {
            let cdp_port = probe_app_cdp_port(pid, None, probe);
            return AppKind::Browser { cdp_port };
        }
    }
    if let Some(path) = bundle_path {
        if has_electron_framework(path, is_present) {
            let cdp_port = probe_app_cdp_port(pid, None, probe);
            return AppKind::Electron { cdp_port };
        }
        if has_cef_framework(path, is_present) {
            let cdp_port = probe_app_cdp_port(pid, None, probe);
            return AppKind::CEF { cdp_port };
        }
    }
    AppKind::Native
}

/// How a snapshot of an app is taken.
#[derive(Debug)]
pub enum SnapshotStrategy {
    /// Native app: accessibility tree only.
    AXOnly,
    /// Browser with DevTools: accessibility for the chrome, DevTools for the page, merged.
    MergedAXAndCDP { cdp_port: u16 },
    /// Electron or CEF app with DevTools: DevTools only.
    CDPOnly { cdp_port: u16 },
    /// No DevTools endpoint: accessibility only, with the reason.
    AXFallback { reason: String },
    /// Neither accessibility nor DevTools: screenshot only, with the reason.
    ScreenshotFallback { reason: String },
}

/// The abstract content of a snapshot strategy.
pub enum StrategyView {
    AXOnly,
    MergedAXAndCDP { cdp_port: u16 },
    CDPOnly { cdp_port: u16 },
    AXFallback { reason: Seq<char> },
    ScreenshotFallback { reason: Seq<char> },
}

impl View for SnapshotStrategy {
    type V = StrategyView;

    open spec fn view(&self) -> StrategyView {
        match self {
            SnapshotStrategy::AXOnly => StrategyView::AXOnly,
            SnapshotStrategy::MergedAXAndCDP { cdp_port } => StrategyView::MergedAXAndCDP { cdp_port: *cdp_port },
            SnapshotStrategy::CDPOnly { cdp_port } => StrategyView::CDPOnly { cdp_port: *cdp_port },
            SnapshotStrategy::AXFallback { reason } => StrategyView::AXFallback { reason: reason@ },
            SnapshotStrategy::ScreenshotFallback { reason } => StrategyView::ScreenshotFallback { reason: reason@ },
        }
    }
}

/// The snapshot strategy for each app kind.
pub open spec fn strategy_for(kind: AppKind) -> StrategyView {
    match kind {
        AppKind::Native => StrategyView::AXOnly,
        AppKind::Browser { cdp_port } => match cdp_port {
            Some(port) => StrategyView::MergedAXAndCDP { cdp_port: port },
            None => StrategyView::AXFallback {
                reason: "Browser has no CDP port. Use `open --with-cdp` to enable rich web content access."@,
            },
        },
        AppKind::Electron { cdp_port } => match cdp_port {
            Some(port) => StrategyView::CDPOnly { cdp_port: port },
            None => StrategyView::AXFallback {
                reason: "Electron app has no CDP port. Use `open --with-cdp` to enable rich UI access."@,
            },
        },
        AppKind::CEF { cdp_port } => match cdp_port {
            Some(port) => StrategyView::CDPOnly { cdp_port: port },
            None => StrategyView::AXFallback {
                reason: "CEF app has no CDP port. Use `open --with-cdp` to enable rich UI access."@,
            },
        },
        AppKind::Unknown => StrategyView::AXFallback {
            reason: "Unknown app type, using accessibility fallback."@,
        },
    }
}

/// Chooses how to take a snapshot of an app of the given kind.
pub fn snapshot_strategy(app_kind: &AppKind) -> (r: SnapshotStrategy)
    ensures
        r@ == strategy_for(*app_kind),
{
    match app_kind {
        AppKind::Native => SnapshotStrategy::AXOnly,
        AppKind::Browser { cdp_port } => match cdp_port {
            Some(port) => SnapshotStrategy::MergedAXAndCDP { cdp_port: *port },
            None => SnapshotStrategy::AXFallback {
                reason: String::from_str("Browser has no CDP port. Use `open --with-cdp` to enable rich web content access."),
            },
        },
        AppKind::Electron { cdp_port } => match cdp_port {
            Some(port) => SnapshotStrategy::CDPOnly { cdp_port: *port },
            None => SnapshotStrategy::AXFallback {
                reason: String::from_str("Electron app has no CDP port. Use `open --with-cdp` to enable rich UI access."),
            },
        },
        AppKind::CEF { cdp_port } => match cdp_port {
            Some(port) => SnapshotStrategy::CDPOnly { cdp_port: *port },
            None => SnapshotStrategy::AXFallback {
                reason: String::from_str("CEF app has no CDP port. Use `open --with-cdp` to enable rich UI access."),
            },
        },
        AppKind::Unknown => SnapshotStrategy::AXFallback {
            reason: String::from_str("Unknown app type, using accessibility fallback."),
        },
    }
}

/// The engine that performs an interaction.
pub enum InteractionEngine {
    /// Native accessibility actions.
    AX,
    /// The browser bridge for a DevTools session.
    AgentBrowser { session: String, cdp_port: u16, ab_ref: String },
    /// Synthetic input at the centre of `frame`.
    Input { frame: Rect },
}

/// The abstract content of an engine choice.
pub enum EngineView {
    AX,
    AgentBrowser { session: Seq<char>, cdp_port: u16, ab_ref: Seq<char> },
    Input { frame: Rect },
}

impl View for InteractionEngine {
    type V = EngineView;

    open spec fn view(&self) -> EngineView {
        match self {
            InteractionEngine::AX => EngineView::AX,
            InteractionEngine::AgentBrowser { session, cdp_port, ab_ref } => EngineView::AgentBrowser {
                session: session@,
                cdp_port: *cdp_port,
                ab_ref: ab_ref@,
            },
            InteractionEngine::Input { frame } => EngineView::Input { frame: *frame },
        }
    }
}

/// The engine each route leads to.
pub open spec fn engine_for(route: RouteView) -> EngineView {
    match route {
        RouteView::AX { .. } => EngineView::AX,
        RouteView::AgentBrowser { session, cdp_port, ab_ref, .. } => EngineView::AgentBrowser { session, cdp_port, ab_ref },
        RouteView::Coordinate { frame, .. } => EngineView::Input { frame },
    }
}

/// Chooses the engine for a resolved route.
pub fn route_interaction(route: &InteractionRoute) -> (r: InteractionEngine)
    ensures
        r@ == engine_for(route@),
{
    match route {
        InteractionRoute::AX { .. } => InteractionEngine::AX,
        InteractionRoute::AgentBrowser { session, cdp_port, ab_ref, .. } => InteractionEngine::AgentBrowser {
            session: session.clone(),
            cdp_port: *cdp_port,
            ab_ref: ab_ref.clone(),
        },
        InteractionRoute::Coordinate { frame, .. } => InteractionEngine::Input { frame: *frame },
    }
}

} // verus!
