//! Discovery of Chrome DevTools Protocol endpoints on the standard ports.
use vstd::prelude::*;

verus! {

/// The first port of the standard DevTools range.
pub const CDP_PORT_FIRST: u16 = 9222;
/// The last port of the standard DevTools range.
pub const CDP_PORT_LAST: u16 = 9229;

/// What a DevTools endpoint reports at `/json/version`.
pub struct CdpVersionInfo {
    pub browser: Option<String>,
    pub protocol_version: Option<String>,
    pub user_agent: Option<String>,
    pub v8_version: Option<String>,
    pub webkit_version: Option<String>,
    pub web_socket_debugger_url: Option<String>,
}

/// The outcome of probing one port.
pub struct CdpProbeResult {
    pub available: bool,
    pub port: u16,
    pub version_info: Option<CdpVersionInfo>,
}

impl CdpProbeResult {
    /// The probe of `port` found an endpoint that reported `info`.
    pub fn found(port: u16, info: CdpVersionInfo) -> (r: CdpProbeResult)
        ensures
            r.available,
            r.port == port,
            r.version_info == Some(info),
    {
        CdpProbeResult { available: true, port, version_info: Some(info) }
    }

    /// The probe of `port` found no endpoint.
    pub fn unavailable(port: u16) -> (r: CdpProbeResult)
        ensures
            !r.available,
            r.port == port,
            r.version_info is None,
    {
        CdpProbeResult { available: false, port, version_info: None }
    }
}

/// Every answer of `probe` is about the port it was asked to probe.
pub open spec fn reports_own_port<F: Fn(u16) -> CdpProbeResult>(probe: F) -> bool {
    forall|p: u16, x: CdpProbeResult| #[trigger] call_ensures(probe, (p,), x) ==> x.port == p
}

/// Asked twice about one port, `probe` gives the same availability.
pub open spec fn answers_steadily<F: Fn(u16) -> CdpProbeResult>(probe: F) -> bool {
    forall|p: u16, x: CdpProbeResult, y: CdpProbeResult|
        #[trigger] call_ensures(probe, (p,), x) && #[trigger] call_ensures(probe, (p,), y) ==> x.available == y.available
}

/// Some probe of port `q` answered that no endpoint is there.
pub open spec fn probed_unavailable<F: Fn(u16) -> CdpProbeResult>(probe: F, q: u16) -> bool {
    exists|x: CdpProbeResult| #[trigger] call_ensures(probe, (q,), x) && !x.available
}

/// What a scan of the standard ports may return: the probe of the first port
/// that found an endpoint, every earlier port having been found empty; or
/// nothing, every port having been found empty.
pub open spec fn scan_found<F: Fn(u16) -> CdpProbeResult>(probe: F, r: Option<CdpProbeResult>) -> bool {
    match r {
        Some(res) => res.available && CDP_PORT_FIRST <= res.port <= CDP_PORT_LAST
            && call_ensures(probe, (res.port,), res)
            && forall|q: u16| CDP_PORT_FIRST <= q < res.port ==> #[trigger] probed_unavailable(probe, q),
        None => forall|q: u16| CDP_PORT_FIRST <= q <= CDP_PORT_LAST ==> #[trigger] probed_unavailable(probe, q),
    }
}

/// Probes the standard ports in increasing order and returns the first
/// probe that found an endpoint. `probe` performs the probe of one port.
pub fn scan_cdp_ports<F: Fn(u16) -> CdpProbeResult>(probe: F) -> (r: Option<CdpProbeResult>)
    requires
        forall|p: u16| call_requires(probe, (p,)),
        reports_own_port(probe),
    ensures
        scan_found(probe, r),
{
    let mut port: u16 = CDP_PORT_FIRST;
    while port <= CDP_PORT_LAST
        invariant
            CDP_PORT_FIRST <= port <= CDP_PORT_LAST + 1,
            forall|p: u16| call_requires(probe, (p,)),
            reports_own_port(probe),
            forall|q: u16| CDP_PORT_FIRST <= q < port ==> #[trigger] probed_unavailable(probe, q),
        decreases CDP_PORT_LAST + 1 - port,
    {
        let result = probe(port);
        assert(call_ensures(probe, (port,), result));
        if result.available {
            return Some(result);
        }
        port = port + 1;
    }
    None
}

/// Probes `specific_port` when one is given (and returns its probe only if
/// an endpoint answered), otherwise scans the standard ports.
pub fn find_cdp_port<F: Fn(u16) -> CdpProbeResult>(specific_port: Option<u16>, probe: F) -> (r: Option<CdpProbeResult>)
    requires
        forall|p: u16| call_requires(probe, (p,)),
        reports_own_port(probe),
    ensures
        specific_port matches Some(p) ==> (r matches Some(res) ==> res.available && res.port == p && call_ensures(probe, (p,), res))
            && (r is None ==> probed_unavailable(probe, p)),
        specific_port is None ==> scan_found(probe, r),
{
    match specific_port {
        Some(port) => {
            let result = probe(port);
            assert(call_ensures(probe, (port,), result));
            if result.available {
                Some(result)
            } else {
                None
            }
        },
        None => scan_cdp_ports(probe),
    }
}

/// With no port given, the search finds what a scan of the standard ports
/// finds: for a probe that reports its own port and answers steadily, any
/// two outcomes of the scan find the same port, or both find none.
pub proof fn law_find_without_port_is_scan<F: Fn(u16) -> CdpProbeResult>(
    probe: F,
    found: Option<CdpProbeResult>,
    scanned: Option<CdpProbeResult>,
)
    requires
        reports_own_port(probe),
        answers_steadily(probe),
        scan_found(probe, found),
        scan_found(probe, scanned),
    ensures
        found is None <==> scanned is None,
        found matches Some(a) ==> (scanned matches Some(b) && a.port == b.port),
{
    match (found, scanned) {
        (Some(a), Some(b)) => {
            if a.port < b.port {
                assert(probed_unavailable(probe, a.port));
                let x = choose|x: CdpProbeResult| #[trigger] call_ensures(probe, (a.port,), x) && !x.available;
                assert(call_ensures(probe, (a.port,), a));
            } else if b.port < a.port {
                assert(probed_unavailable(probe, b.port));
                let x = choose|x: CdpProbeResult| #[trigger] call_ensures(probe, (b.port,), x) && !x.available;
                assert(call_ensures(probe, (b.port,), b));
            }
        },
        (Some(a), None) => {
            assert(probed_unavailable(probe, a.port));
            let x = choose|x: CdpProbeResult| #[trigger] call_ensures(probe, (a.port,), x) && !x.available;
            assert(call_ensures(probe, (a.port,), a));
        },
        (None, Some(b)) => {
            assert(probed_unavailable(probe, b.port));
            let x = choose|x: CdpProbeResult| #[trigger] call_ensures(probe, (b.port,), x) && !x.available;
            assert(call_ensures(probe, (b.port,), b));
        },
        (None, None) => {},
    }
}

} // verus!
