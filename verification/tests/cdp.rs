use agent_computer::cdp::{find_cdp_port, scan_cdp_ports, CdpProbeResult, CdpVersionInfo};

fn info(browser: &str) -> CdpVersionInfo {
    CdpVersionInfo {
        browser: Some(browser.to_string()),
        protocol_version: Some("1.3".to_string()),
        user_agent: None,
        v8_version: None,
        webkit_version: None,
        web_socket_debugger_url: Some(format!("ws://localhost/{browser}")),
    }
}

fn endpoints_at(ports: &'static [u16]) -> impl Fn(u16) -> CdpProbeResult {
    move |p: u16| {
        if ports.contains(&p) {
            CdpProbeResult::found(p, info("Chrome"))
        } else {
            CdpProbeResult::unavailable(p)
        }
    }
}

#[test]
fn scan_returns_first_endpoint_in_range() {
    let r = scan_cdp_ports(endpoints_at(&[9225, 9227])).unwrap();
    assert!(r.available);
    assert_eq!(r.port, 9225);
    assert_eq!(r.version_info.unwrap().browser.as_deref(), Some("Chrome"));
    assert!(scan_cdp_ports(endpoints_at(&[9221, 9230])).is_none());
    assert_eq!(scan_cdp_ports(endpoints_at(&[9222])).unwrap().port, 9222);
    assert_eq!(scan_cdp_ports(endpoints_at(&[9229])).unwrap().port, 9229);
}

#[test]
fn find_with_and_without_a_port() {
    let probe = endpoints_at(&[9224, 9300]);
    assert_eq!(find_cdp_port(Some(9300), &probe).unwrap().port, 9300);
    assert!(find_cdp_port(Some(9301), &probe).is_none());
    let found = find_cdp_port(None, &probe).map(|r| r.port);
    let scanned = scan_cdp_ports(&probe).map(|r| r.port);
    assert_eq!(found, Some(9224));
    assert_eq!(found, scanned);
    assert_eq!(find_cdp_port(None, endpoints_at(&[])).map(|r| r.port), None);
}

#[test]
fn probe_result_constructors() {
    let f = CdpProbeResult::found(9222, info("Edge"));
    assert!(f.available);
    assert_eq!(f.port, 9222);
    let u = CdpProbeResult::unavailable(9223);
    assert!(!u.available);
    assert_eq!(u.port, 9223);
    assert!(u.version_info.is_none());
}
