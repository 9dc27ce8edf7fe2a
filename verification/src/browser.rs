//! The decisions around the external browser-automation CLI: the command
//! lines it is given, how its answers become results, and the sessions the
//! bridge keeps open.
use vstd::prelude::*;
use vstd::string::*;
use crate::sessions::SessionTable;
use crate::text::{concat2, concat3, decimal, format_decimal, format_signed, opt_view, signed_decimal, parse_usize, parse_usize_str, starts_with, starts_with_char, strip_all, trim_start_char, views};
use crate::types::duplicate_opt;
use crate::detector::{answered, join_path, path_join};

verus! {

/// What the CLI reports about one element reference of a snapshot.
pub struct RefInfo {
    pub name: Option<String>,
    pub role: Option<String>,
}

/// The snapshot part of a CLI answer: the page origin, the element
/// references keyed by id (each id once) and the preformatted text.
pub struct SnapshotJsonData {
    pub origin: Option<String>,
    pub refs: Option<Vec<(String, RefInfo)>>,
    pub snapshot: Option<String>,
}

/// An element of a browser snapshot.
pub struct ParsedElement {
    /// The CLI's own reference id, such as `e14`.
    pub ref_id: String,
    /// The element's role, `unknown` when the CLI gave none.
    pub role: String,
    pub label: Option<String>,
}

/// The abstract content of a `ParsedElement`.
pub struct ParsedElementView {
    pub ref_id: Seq<char>,
    pub role: Seq<char>,
    pub label: Option<Seq<char>>,
}

impl View for ParsedElement {
    type V = ParsedElementView;

    open spec fn view(&self) -> ParsedElementView {
        ParsedElementView { ref_id: self.ref_id@, role: self.role@, label: opt_view(self.label) }
    }
}

/// The elements of a snapshot together with its text and origin.
pub struct SnapshotResult {
    pub elements: Vec<ParsedElement>,
    pub snapshot_text: Option<String>,
    pub origin: Option<String>,
}

/// The views of a sequence of parsed elements.
pub open spec fn element_views(s: Seq<ParsedElement>) -> Seq<ParsedElementView> {
    s.map_values(|e: ParsedElement| e@)
}

/// The element that a reference entry of a snapshot answer describes.
pub open spec fn parsed_view(entry: (String, RefInfo)) -> ParsedElementView {
    ParsedElementView {
        ref_id: entry.0@,
        role: match entry.1.role {
            Some(r) => r@,
            None => "unknown"@,
        },
        label: opt_view(entry.1.name),
    }
}

/// The number a reference id is ordered by: what follows its leading `e`s,
/// read as a `usize`, or 0 when that is not a number.
pub open spec fn element_number(id: Seq<char>) -> nat {
    match parse_usize(strip_all(id, 'e')) {
        Some(v) => v,
        None => 0,
    }
}

/// `out` is `refs` rearranged by `idx` (a permutation of its positions),
/// ordered by reference number, entries with equal numbers in their order
/// in `refs`.
pub open spec fn sorted_arrangement(
    idx: Seq<int>,
    out: Seq<ParsedElementView>,
    refs: Seq<(String, RefInfo)>,
) -> bool {
    &&& idx.len() == refs.len()
    &&& out.len() == refs.len()
    &&& forall|t: int| 0 <= t < idx.len() ==> 0 <= #[trigger] idx[t] < refs.len()
    &&& forall|a: int, b: int| 0 <= a < idx.len() && 0 <= b < idx.len() && a != b ==> #[trigger] idx[a] != #[trigger] idx[b]
    &&& forall|t: int| 0 <= t < out.len() ==> #[trigger] out[t] == parsed_view(refs[idx[t]])
    &&& forall|a: int, b: int| 0 <= a <= b < out.len() ==> element_number(#[trigger] out[a].ref_id) <= element_number(#[trigger] out[b].ref_id)
    &&& forall|a: int, b: int| 0 <= a < b < out.len() && element_number(#[trigger] out[a].ref_id) == element_number(#[trigger] out[b].ref_id) ==> idx[a] < idx[b]
}

/// The ordering number of a reference id.
pub fn element_number_of(id: &str) -> (r: usize)
    ensures
        r as nat == element_number(id@),
{
    match parse_usize_str(trim_start_char(id, 'e')) {
        Some(v) => v,
        None => 0,
    }
}

/// The positions of `keys` in a stable ascending order of the keys.
fn sort_order(keys: &Vec<usize>) -> (r: Vec<usize>)
    ensures
        r.len() == keys.len(),
        forall|t: int| 0 <= t < r.len() ==> #[trigger] r@[t] < keys.len(),
        forall|a: int, b: int| 0 <= a < r.len() && 0 <= b < r.len() && a != b ==> #[trigger] r@[a] != #[trigger] r@[b],
        forall|a: int, b: int| 0 <= a <= b < r.len() ==> keys@[#[trigger] r@[a] as int] <= keys@[#[trigger] r@[b] as int],
        forall|a: int, b: int| 0 <= a < b < r.len() && keys@[#[trigger] r@[a] as int] == keys@[#[trigger] r@[b] as int] ==> r@[a] < r@[b],
{
    let n = keys.len();
    let mut out: Vec<usize> = Vec::new();
    let mut i: usize = 0;
    while i < n
        invariant
            n == keys.len(),
            i <= n,
            out.len() == i,
            forall|t: int| 0 <= t < out.len() ==> #[trigger] out@[t] < i,
            forall|a: int, b: int| 0 <= a < out.len() && 0 <= b < out.len() && a != b ==> #[trigger] out@[a] != #[trigger] out@[b],
            forall|a: int, b: int| 0 <= a <= b < out.len() ==> keys@[#[trigger] out@[a] as int] <= keys@[#[trigger] out@[b] as int],
            forall|a: int, b: int| 0 <= a < b < out.len() && keys@[#[trigger] out@[a] as int] == keys@[#[trigger] out@[b] as int] ==> out@[a] < out@[b],
        decreases n - i,
    {
        let k = keys[i];
        let mut j: usize = 0;
        while j < out.len() && keys[out[j]] <= k
            invariant
                n == keys.len(),
                out.len() == i,
                i < n,
                j <= i,
                forall|t: int| 0 <= t < out.len() ==> #[trigger] out@[t] < i,
                forall|t: int| 0 <= t < j ==> keys@[#[trigger] out@[t] as int] <= k,
            decreases i - j,
        {
            j = j + 1;
        }
        proof {
            assert forall|t: int| j <= t < i implies keys@[#[trigger] out@[t] as int] > k by {
                assert(keys@[out@[j as int] as int] <= keys@[out@[t] as int]);
            }
        }
        let ghost old_out = out@;
        out.insert(j, i);
        proof {
            assert forall|t: int| 0 <= t < out.len() implies #[trigger] out@[t] < i + 1 by {
                if t < j {
                    assert(out@[t] == old_out[t]);
                } else if t > j {
                    assert(out@[t] == old_out[t - 1]);
                }
            }
            assert forall|a: int, b: int| 0 <= a < out.len() && 0 <= b < out.len() && a != b implies #[trigger] out@[a] != #[trigger] out@[b] by {
                let oa = if a < j { a } else { a - 1 };
                let ob = if b < j { b } else { b - 1 };
                if a != j && b != j {
                    assert(out@[a] == old_out[oa] && out@[b] == old_out[ob]);
                } else if a == j {
                    assert(out@[b] == old_out[ob]);
                } else {
                    assert(out@[a] == old_out[oa]);
                }
            }
            assert forall|a: int, b: int| 0 <= a <= b < out.len() implies keys@[#[trigger] out@[a] as int] <= keys@[#[trigger] out@[b] as int] by {
                let oa = if a < j { a } else { a - 1 };
                let ob = if b < j { b } else { b - 1 };
                if a != j && b != j {
                    assert(out@[a] == old_out[oa] && out@[b] == old_out[ob]);
                } else if a == j && b != j {
                    assert(out@[b] == old_out[ob]);
                } else if a != j && b == j {
                    assert(out@[a] == old_out[oa]);
                }
            }
            assert forall|a: int, b: int| 0 <= a < b < out.len() && keys@[#[trigger] out@[a] as int] == keys@[#[trigger] out@[b] as int] implies out@[a] < out@[b] by {
                let oa = if a < j { a } else { a - 1 };
                let ob = if b < j { b } else { b - 1 };
                if a != j && b != j {
                    assert(out@[a] == old_out[oa] && out@[b] == old_out[ob]);
                } else if a == j {
                    assert(out@[b] == old_out[ob]);
                } else {
                    assert(out@[a] == old_out[oa]);
                }
            }
        }
        i = i + 1;
    }
    out
}

/// The element an entry of a snapshot answer describes.
fn parsed_element(entry: &(String, RefInfo)) -> (r: ParsedElement)
    ensures
        r@ == parsed_view(*entry),
{
    let role = match &entry.1.role {
        Some(r) => r.clone(),
        None => String::from_str("unknown"),
    };
    proof {
        reveal_strlit("unknown");
    }
    ParsedElement { ref_id: entry.0.clone(), role, label: duplicate_opt(&entry.1.name) }
}

/// The elements of a snapshot answer, ordered by reference number.
pub fn elements_from_refs(refs: &Vec<(String, RefInfo)>) -> (r: Vec<ParsedElement>)
    ensures
        exists|idx: Seq<int>| #[trigger] sorted_arrangement(idx, element_views(r@), refs@),
{
    let n = refs.len();
    let mut keys: Vec<usize> = Vec::new();
    let mut i: usize = 0;
    while i < n
        invariant
            n == refs.len(),
            i <= n,
            keys.len() == i,
            forall|t: int| 0 <= t < i ==> #[trigger] keys@[t] as nat == element_number(refs@[t].0@),
        decreases n - i,
    {
        keys.push(element_number_of(refs[i].0.as_str()));
        i = i + 1;
    }
    let order = sort_order(&keys);
    let mut out: Vec<ParsedElement> = Vec::new();
    let mut t: usize = 0;
    while t < n
        invariant
            n == refs.len(),
            n == keys.len(),
            order.len() == n,
            forall|s: int| 0 <= s < n ==> #[trigger] order@[s] < n,
            t <= n,
            out.len() == t,
            forall|s: int| 0 <= s < t ==> (#[trigger] out@[s])@ == parsed_view(refs@[order@[s] as int]),
        decreases n - t,
    {
        out.push(parsed_element(&refs[order[t]]));
        t = t + 1;
    }
    let ghost idx = order@.map_values(|v: usize| v as int);
    proof {
        let ev = element_views(out@);
        assert forall|a: int, b: int| 0 <= a <= b < ev.len() implies element_number(#[trigger] ev[a].ref_id) <= element_number(#[trigger] ev[b].ref_id) by {
            assert(keys@[order@[a] as int] <= keys@[order@[b] as int]);
        }
        assert forall|a: int, b: int| 0 <= a < b < ev.len() && element_number(#[trigger] ev[a].ref_id) == element_number(#[trigger] ev[b].ref_id) implies idx[a] < idx[b] by {
            assert(keys@[order@[a] as int] == keys@[order@[b] as int]);
        }
        assert forall|a: int, b: int| 0 <= a < idx.len() && 0 <= b < idx.len() && a != b implies #[trigger] idx[a] != #[trigger] idx[b] by {
            assert(order@[a] != order@[b]);
        }
        assert(sorted_arrangement(idx, ev, refs@));
    }
    out
}


/// The payload of a CLI answer: its JSON rendering, and the text itself
/// when the payload is a JSON string.
pub struct BridgeData {
    pub json: String,
    pub text: Option<String>,
}

/// An answer of the CLI in its JSON mode.
pub struct AgentBrowserResponse {
    pub success: bool,
    pub data: Option<BridgeData>,
    pub error: Option<String>,
}

/// The operations the bridge asks the CLI for.
#[derive(Clone, Copy, PartialEq, Eq, Structural)]
pub enum BridgeAction {
    Snapshot,
    Click,
    Fill,
    Type,
    Press,
    Scroll,
    Wait,
    Get,
    Connect,
    Close,
}

/// The message reported when a failed answer carries no error text.
pub open spec fn fallback_message(action: BridgeAction) -> Seq<char> {
    match action {
        BridgeAction::Snapshot => "Snapshot failed"@,
        BridgeAction::Click => "Click failed"@,
        BridgeAction::Fill => "Fill failed"@,
        BridgeAction::Type => "Type failed"@,
        BridgeAction::Press => "Press failed"@,
        BridgeAction::Scroll => "Scroll failed"@,
        BridgeAction::Wait => "Wait failed"@,
        BridgeAction::Get => "Get failed"@,
        BridgeAction::Connect => "Connect failed"@,
        BridgeAction::Close => "Close failed"@,
    }
}

/// The message reported when a failed answer of `action` carries no error text.
pub fn fallback_text(action: BridgeAction) -> (r: &'static str)
    ensures
        r@ == fallback_message(action),
{
    proof {
        reveal_strlit("Snapshot failed");
        reveal_strlit("Click failed");
        reveal_strlit("Fill failed");
        reveal_strlit("Type failed");
        reveal_strlit("Press failed");
        reveal_strlit("Scroll failed");
        reveal_strlit("Wait failed");
        reveal_strlit("Get failed");
        reveal_strlit("Connect failed");
        reveal_strlit("Close failed");
    }
    match action {
        BridgeAction::Snapshot => "Snapshot failed",
        BridgeAction::Click => "Click failed",
        BridgeAction::Fill => "Fill failed",
        BridgeAction::Type => "Type failed",
        BridgeAction::Press => "Press failed",
        BridgeAction::Scroll => "Scroll failed",
        BridgeAction::Wait => "Wait failed",
        BridgeAction::Get => "Get failed",
        BridgeAction::Connect => "Connect failed",
        BridgeAction::Close => "Close failed",
    }
}

/// The error text of a failed answer: its own, or the action's fallback.
pub open spec fn failure_text(action: BridgeAction, error: Option<String>) -> Seq<char> {
    match error {
        Some(e) => e@,
        None => fallback_message(action),
    }
}

/// What a successful answer yields: for `get`, the text of a string payload
/// or else the payload's JSON; for the other actions the payload's JSON;
/// empty without a payload.
pub open spec fn payload_text(action: BridgeAction, data: Option<BridgeData>) -> Seq<char> {
    match data {
        None => Seq::empty(),
        Some(d) => if action == BridgeAction::Get && d.text is Some {
            d.text.unwrap()@
        } else {
            d.json@
        },
    }
}

/// The result of an answer of the CLI to `action`.
pub fn action_outcome(action: BridgeAction, response: AgentBrowserResponse) -> (r: Result<String, String>)
    ensures
        response.success ==> (r matches Ok(t) && t@ == payload_text(action, response.data)),
        !response.success ==> (r matches Err(e) && e@ == failure_text(action, response.error)),
{
    if response.success {
        match response.data {
            None => Ok(String::new()),
            Some(d) => {
                if action == BridgeAction::Get {
                    match d.text {
                        Some(t) => Ok(t),
                        None => Ok(d.json),
                    }
                } else {
                    Ok(d.json)
                }
            },
        }
    } else {
        match response.error {
            Some(e) => Err(e),
            None => Err(String::from_str(fallback_text(action))),
        }
    }
}

/// The message when the CLI binary is unavailable.
pub const BRIDGE_NOT_FOUND: &'static str = "agent-browser not found. Install with: npm install -g agent-browser";

/// The message when a CLI call exceeds its time limit.
pub const BRIDGE_TIMEOUT: &'static str = "agent-browser command timed out after 10 seconds";

/// How long one CLI call may take, in seconds.
pub const COMMAND_TIMEOUT_SECS: u64 = 10;

/// The CLI release that is installed when none is found.
pub const AGENT_BROWSER_VERSION: &'static str = "0.22.1";

/// The arguments of one CLI call: the session, the DevTools port when
/// there is one, JSON output, then the operation's own arguments.
pub open spec fn invocation_args(session: Seq<char>, cdp_port: Option<u16>, args: Seq<Seq<char>>) -> Seq<Seq<char>> {
    let port_part = match cdp_port {
        Some(p) => seq!["--cdp"@, decimal(p as nat)],
        None => Seq::empty(),
    };
    seq!["--session"@, session] + port_part + seq!["--json"@] + args
}

/// Pushes a copy of `s` onto `v`.
fn push_str(v: &mut Vec<String>, s: &str)
    ensures
        views(final(v)@) == views(old(v)@).push(s@),
{
    let ghost before = v@;
    v.push(String::from_str(s));
    assert(views(v@) =~= views(before).push(s@));
}

/// The full argument list of a CLI call.
pub fn invocation(session: &str, cdp_port: Option<u16>, args: &Vec<String>) -> (r: Vec<String>)
    ensures
        views(r@) == invocation_args(session@, cdp_port, views(args@)),
{
    let mut out: Vec<String> = Vec::new();
    push_str(&mut out, "--session");
    push_str(&mut out, session);
    match cdp_port {
        Some(p) => {
            push_str(&mut out, "--cdp");
            let d = format_decimal(p as u64);
            push_str(&mut out, d.as_str());
        },
        None => {},
    }
    push_str(&mut out, "--json");
    let ghost head = views(out@);
    let n = args.len();
    let mut i: usize = 0;
    while i < n
        invariant
            n == args.len(),
            i <= n,
            views(out@) == head + views(args@).take(i as int),
        decreases n - i,
    {
        push_str(&mut out, args[i].as_str());
        assert(views(args@).take(i + 1) =~= views(args@).take(i as int).push(args@[i as int]@));
        i = i + 1;
    }
    proof {
        reveal_strlit("--session");
        reveal_strlit("--cdp");
        reveal_strlit("--json");
        assert(views(args@).take(n as int) =~= views(args@));
        assert(head + views(args@) =~= invocation_args(session@, cdp_port, views(args@)));
    }
    out
}

/// The error text of a CLI call that exited with failure: the error of its
/// JSON answer when it has one, else its standard error, else its output.
pub fn failure_message(json_error: Option<String>, stdout: String, stderr: String) -> (r: String)
    ensures
        r@ == (match json_error {
            Some(e) => e@,
            None => if stderr@.len() == 0 { stdout@ } else { stderr@ },
        }),
{
    match json_error {
        Some(e) => e,
        None => if stderr.unicode_len() == 0 { stdout } else { stderr },
    }
}

/// The error text of a CLI answer that is not valid JSON.
pub fn parse_failure_message(detail: &str, stdout: &str) -> (r: String)
    ensures
        r@ == "Failed to parse agent-browser JSON response: "@ + detail@ + " — raw output: "@ + stdout@,
{
    let mut s = concat3("Failed to parse agent-browser JSON response: ", detail, " — raw output: ");
    s.append(stdout);
    s
}

/// The error text of a CLI call that could not be started.
pub fn launch_failure_message(detail: &str) -> (r: String)
    ensures
        r@ == "Failed to execute agent-browser: "@ + detail@,
{
    concat2("Failed to execute agent-browser: ", detail)
}

/// An element reference as the CLI expects it, with a leading `@`.
pub open spec fn at_ref(ab_ref: Seq<char>) -> Seq<char> {
    if starts_with_char(ab_ref, '@') { ab_ref } else { seq!['@'] + ab_ref }
}

/// Adds the leading `@` of a CLI element reference when it is missing.
pub fn ref_arg(ab_ref: &str) -> (r: String)
    ensures
        r@ == at_ref(ab_ref@),
{
    if starts_with(ab_ref, '@') {
        String::from_str(ab_ref)
    } else {
        proof {
            reveal_strlit("@");
        }
        concat2("@", ab_ref)
    }
}


/// The arguments of a snapshot call: interactive elements only when asked,
/// scoped to a CSS selector when one is given.
pub fn snapshot_args(interactive: bool, selector: Option<&str>) -> (r: Vec<String>)
    ensures
        views(r@) == seq!["snapshot"@] + (if interactive { seq!["-i"@] } else { Seq::empty() })
            + (match selector {
                Some(sel) => seq!["-s"@, sel@],
                None => Seq::empty(),
            }),
{
    let mut out: Vec<String> = Vec::new();
    push_str(&mut out, "snapshot");
    if interactive {
        push_str(&mut out, "-i");
    }
    match selector {
        Some(sel) => {
            push_str(&mut out, "-s");
            push_str(&mut out, sel);
        },
        None => {},
    }
    proof {
        let tail = match selector {
            Some(sel) => seq!["-s"@, sel@],
            None => Seq::<Seq<char>>::empty(),
        };
        assert(views(out@) =~= seq!["snapshot"@] + (if interactive { seq!["-i"@] } else { Seq::<Seq<char>>::empty() }) + tail);
    }
    out
}

/// The arguments of a click on an element.
pub fn click_args(ab_ref: &str) -> (r: Vec<String>)
    ensures
        views(r@) == seq!["click"@, at_ref(ab_ref@)],
{
    let mut out: Vec<String> = Vec::new();
    push_str(&mut out, "click");
    let a = ref_arg(ab_ref);
    push_str(&mut out, a.as_str());
    assert(views(out@) =~= seq!["click"@, at_ref(ab_ref@)]);
    out
}

/// The arguments of filling an element with text (clearing it first).
pub fn fill_args(ab_ref: &str, text: &str) -> (r: Vec<String>)
    ensures
        views(r@) == seq!["fill"@, at_ref(ab_ref@), text@],
{
    let mut out: Vec<String> = Vec::new();
    push_str(&mut out, "fill");
    let a = ref_arg(ab_ref);
    push_str(&mut out, a.as_str());
    push_str(&mut out, text);
    assert(views(out@) =~= seq!["fill"@, at_ref(ab_ref@), text@]);
    out
}

/// The arguments of typing text into an element (appending to it).
pub fn type_args(ab_ref: &str, text: &str) -> (r: Vec<String>)
    ensures
        views(r@) == seq!["type"@, at_ref(ab_ref@), text@],
{
    let mut out: Vec<String> = Vec::new();
    push_str(&mut out, "type");
    let a = ref_arg(ab_ref);
    push_str(&mut out, a.as_str());
    push_str(&mut out, text);
    assert(views(out@) =~= seq!["type"@, at_ref(ab_ref@), text@]);
    out
}

/// The arguments of a key press.
pub fn press_args(key: &str) -> (r: Vec<String>)
    ensures
        views(r@) == seq!["press"@, key@],
{
    let mut out: Vec<String> = Vec::new();
    push_str(&mut out, "press");
    push_str(&mut out, key);
    assert(views(out@) =~= seq!["press"@, key@]);
    out
}

/// The arguments of a scroll by `amount` pixels.
pub fn scroll_args(direction: &str, amount: i32) -> (r: Vec<String>)
    ensures
        views(r@) == seq!["scroll"@, direction@, signed_decimal(amount as int)],
{
    let mut out: Vec<String> = Vec::new();
    push_str(&mut out, "scroll");
    push_str(&mut out, direction);
    let a = format_signed(amount);
    push_str(&mut out, a.as_str());
    assert(views(out@) =~= seq!["scroll"@, direction@, signed_decimal(amount as int)]);
    out
}

/// The arguments of a wait: `wait` followed by what to wait for.
pub fn wait_args(args: &Vec<String>) -> (r: Vec<String>)
    ensures
        views(r@) == seq!["wait"@] + views(args@),
{
    let mut out: Vec<String> = Vec::new();
    push_str(&mut out, "wait");
    let n = args.len();
    let mut i: usize = 0;
    while i < n
        invariant
            n == args.len(),
            i <= n,
            views(out@) == seq!["wait"@] + views(args@).take(i as int),
        decreases n - i,
    {
        push_str(&mut out, args[i].as_str());
        assert(views(args@).take(i + 1) =~= views(args@).take(i as int).push(args@[i as int]@));
        i = i + 1;
    }
    assert(views(args@).take(n as int) =~= views(args@));
    out
}

/// The arguments of reading `what` (text, title, url) from the page or an element.
pub fn get_args(what: &str, ab_ref: Option<&str>) -> (r: Vec<String>)
    ensures
        views(r@) == seq!["get"@, what@] + (match ab_ref {
            Some(a) => seq![at_ref(a@)],
            None => Seq::empty(),
        }),
{
    let mut out: Vec<String> = Vec::new();
    push_str(&mut out, "get");
    push_str(&mut out, what);
    match ab_ref {
        Some(a) => {
            let r = ref_arg(a);
            push_str(&mut out, r.as_str());
            assert(views(out@) =~= seq!["get"@, what@, at_ref(a@)]);
        },
        None => {
            assert(views(out@) =~= seq!["get"@, what@]);
        },
    }
    out
}

/// The arguments of attaching a session to a DevTools port.
pub fn connect_args(cdp_port: u16) -> (r: Vec<String>)
    ensures
        views(r@) == seq!["connect"@, decimal(cdp_port as nat)],
{
    let mut out: Vec<String> = Vec::new();
    push_str(&mut out, "connect");
    let d = format_decimal(cdp_port as u64);
    push_str(&mut out, d.as_str());
    assert(views(out@) =~= seq!["connect"@, decimal(cdp_port as nat)]);
    out
}

/// The arguments of closing a session.
pub fn close_args() -> (r: Vec<String>)
    ensures
        views(r@) == seq!["close"@],
{
    let mut out: Vec<String> = Vec::new();
    push_str(&mut out, "close");
    assert(views(out@) =~= seq!["close"@]);
    out
}


/// The result of a snapshot call from whether it succeeded, its error text
/// and its payload read as snapshot data (`None` without a payload, `Err`
/// with the reader's message when the payload is not snapshot data).
pub fn snapshot_result(
    success: bool,
    error: Option<String>,
    data: Option<Result<SnapshotJsonData, String>>,
) -> (r: Result<SnapshotResult, String>)
    ensures
        !success ==> (r matches Err(e) && e@ == failure_text(BridgeAction::Snapshot, error)),
        success ==> match data {
            None => r matches Err(e) && e@ == "No data in snapshot response"@,
            Some(Err(m)) => r matches Err(e) && e@ == "Failed to parse snapshot data: "@ + m@,
            Some(Ok(d)) => r matches Ok(res) && {
                &&& opt_view(res.snapshot_text) == opt_view(d.snapshot)
                &&& opt_view(res.origin) == opt_view(d.origin)
                &&& match d.refs {
                    None => res.elements@.len() == 0,
                    Some(refs) => exists|idx: Seq<int>| #[trigger] sorted_arrangement(idx, element_views(res.elements@), refs@),
                }
            },
        },
{
    if !success {
        return match error {
            Some(e) => Err(e),
            None => Err(String::from_str(fallback_text(BridgeAction::Snapshot))),
        };
    }
    match data {
        None => Err(String::from_str("No data in snapshot response")),
        Some(Err(m)) => Err(concat2("Failed to parse snapshot data: ", m.as_str())),
        Some(Ok(d)) => {
            let ghost refs_in = d.refs;
            let elements = match d.refs {
                Some(refs) => elements_from_refs(&refs),
                None => Vec::new(),
            };
            proof {
                if let Some(refs) = refs_in {
                    assert(exists|idx: Seq<int>| #[trigger] sorted_arrangement(idx, element_views(elements@), refs@));
                }
            }
            let res = SnapshotResult { elements, snapshot_text: d.snapshot, origin: d.origin };
            assert(res.elements@ == elements@);
            Ok(res)
        },
    }
}

/// Bridge to the browser-automation CLI: where its binary is, and which
/// named sessions are attached to which DevTools ports.
pub struct BrowserBridge {
    pub binary_path: Option<String>,
    pub active_sessions: SessionTable,
}

impl BrowserBridge {
    /// The session table is well formed.
    pub open spec fn wf(&self) -> bool {
        self.active_sessions.wf()
    }

    /// Where the CLI binary is, if it was found.
    pub open spec fn binary(&self) -> Option<Seq<char>> {
        opt_view(self.binary_path)
    }

    /// A bridge to the binary at `binary_path` (none when it was not
    /// found), with no session attached.
    pub fn new(binary_path: Option<String>) -> (r: BrowserBridge)
        ensures
            r.wf(),
            r.binary() == opt_view(binary_path),
            r.active_sessions@ == Map::<Seq<char>, u16>::empty(),
    {
        BrowserBridge { binary_path, active_sessions: SessionTable::new() }
    }

    /// Whether the CLI binary was found.
    pub fn is_available(&self) -> (r: bool)
        ensures
            r == self.binary() is Some,
    {
        self.binary_path.is_some()
    }

    /// Where the CLI binary is.
    pub fn binary_path(&self) -> (r: Option<&String>)
        ensures
            match r {
                Some(p) => self.binary() == Some(p@),
                None => self.binary() is None,
            },
    {
        match &self.binary_path {
            Some(p) => Some(p),
            None => None,
        }
    }

    /// The binary to run a CLI call with, or the message that it is missing.
    pub fn binary_for_call(&self) -> (r: Result<&String, String>)
        ensures
            match r {
                Ok(p) => self.binary() == Some(p@),
                Err(e) => self.binary() is None && e@ == BRIDGE_NOT_FOUND@,
            },
    {
        match &self.binary_path {
            Some(p) => Ok(p),
            None => Err(String::from_str(BRIDGE_NOT_FOUND)),
        }
    }

    /// Records the answer to attaching `session` to `cdp_port`: a successful
    /// answer attaches it; a failure leaves the sessions as they were.
    pub fn finish_connect(
        &mut self,
        session: &str,
        cdp_port: u16,
        response: Result<AgentBrowserResponse, String>,
    ) -> (r: Result<(), String>)
        requires
            old(self).wf(),
        ensures
            final(self).wf(),
            final(self).binary() == old(self).binary(),
            match response {
                Err(m) => (r matches Err(e) && e@ == m@) && final(self).active_sessions@ == old(self).active_sessions@,
                Ok(a) => if a.success {
                    r is Ok && final(self).active_sessions@ == old(self).active_sessions@.insert(session@, cdp_port)
                } else {
                    (r matches Err(e) && e@ == failure_text(BridgeAction::Connect, a.error))
                        && final(self).active_sessions@ == old(self).active_sessions@
                },
            },
    {
        match response {
            Err(m) => Err(m),
            Ok(a) => {
                if a.success {
                    self.active_sessions.insert(String::from_str(session), cdp_port);
                    Ok(())
                } else {
                    match a.error {
                        Some(e) => Err(e),
                        None => Err(String::from_str(fallback_text(BridgeAction::Connect))),
                    }
                }
            },
        }
    }

    /// Records the answer to closing `session`: the session is detached
    /// whatever the answer was.
    pub fn finish_close(&mut self, session: &str, response: Result<AgentBrowserResponse, String>) -> (r: Result<(), String>)
        requires
            old(self).wf(),
        ensures
            final(self).wf(),
            final(self).binary() == old(self).binary(),
            final(self).active_sessions@ == old(self).active_sessions@.remove(session@),
            match response {
                Err(m) => r matches Err(e) && e@ == m@,
                Ok(a) => if a.success {
                    r is Ok
                } else {
                    r matches Err(e) && e@ == failure_text(BridgeAction::Close, a.error)
                },
            },
    {
        self.active_sessions.remove(session);
        match response {
            Err(m) => Err(m),
            Ok(a) => {
                if a.success {
                    Ok(())
                } else {
                    match a.error {
                        Some(e) => Err(e),
                        None => Err(String::from_str(fallback_text(BridgeAction::Close))),
                    }
                }
            },
        }
    }

    /// The attached sessions, each once (the ones to close at shutdown).
    pub fn session_names(&self) -> (r: Vec<String>)
        requires
            self.wf(),
        ensures
            views(r@).no_duplicates(),
            views(r@).to_set() == self.active_sessions@.dom(),
    {
        self.active_sessions.keys()
    }
}

/// The platform part of the CLI's binary name for a Rust target OS name.
pub open spec fn platform_os(target_os: Seq<char>) -> Option<Seq<char>> {
    if target_os == "macos"@ {
        Some("darwin"@)
    } else if target_os == "linux"@ {
        Some("linux"@)
    } else {
        None
    }
}

/// The architecture part of the CLI's binary name for a Rust target architecture.
pub open spec fn platform_arch(target_arch: Seq<char>) -> Option<Seq<char>> {
    if target_arch == "aarch64"@ {
        Some("arm64"@)
    } else if target_arch == "x86_64"@ {
        Some("x64"@)
    } else {
        None
    }
}

/// Why no binary of the CLI fits this machine.
#[derive(Clone, Copy, Debug, PartialEq, Eq, Structural)]
pub enum PlatformError {
    UnsupportedOs,
    UnsupportedArch,
}

/// The name of the CLI binary for a target OS and architecture
/// (`agent-browser-darwin-arm64` and the like).
pub fn binary_name(target_os: &str, target_arch: &str) -> (r: Result<String, PlatformError>)
    ensures
        match r {
            Ok(n) => platform_os(target_os@) is Some && platform_arch(target_arch@) is Some
                && n@ == "agent-browser-"@ + platform_os(target_os@).unwrap() + "-"@ + platform_arch(target_arch@).unwrap(),
            Err(PlatformError::UnsupportedOs) => platform_os(target_os@) is None,
            Err(PlatformError::UnsupportedArch) => platform_os(target_os@) is Some && platform_arch(target_arch@) is None,
        },
{
    let os: &str = if crate::text::str_equal(target_os, "macos") {
        "darwin"
    } else if crate::text::str_equal(target_os, "linux") {
        "linux"
    } else {
        return Err(PlatformError::UnsupportedOs);
    };
    let arch: &str = if crate::text::str_equal(target_arch, "aarch64") {
        "arm64"
    } else if crate::text::str_equal(target_arch, "x86_64") {
        "x64"
    } else {
        return Err(PlatformError::UnsupportedArch);
    };
    let mut name = concat3("agent-browser-", os, "-");
    name.append(arch);
    Ok(name)
}

/// Where the CLI's package of a release is published.
pub fn package_url(version: &str) -> (r: String)
    ensures
        r@ == "https://registry.npmjs.org/agent-browser/-/agent-browser-"@ + version@ + ".tgz"@,
{
    concat3("https://registry.npmjs.org/agent-browser/-/agent-browser-", version, ".tgz")
}

/// The installed place of the CLI binary under a home directory.
pub fn bundled_binary_path(home: &str) -> (r: String)
    ensures
        r@ == crate::detector::path_join(home@, ".agent-computer/bin/agent-browser"@),
{
    crate::detector::join_path(home, ".agent-computer/bin/agent-browser")
}

/// The usual global install places of the CLI binary, searched in order
/// after the installed place and the search path.
pub fn common_binary_paths(home: &str) -> (r: Vec<String>)
    ensures
        views(r@) == seq![
            crate::detector::path_join(home@, ".nvm/versions/node/v24.14.0/bin/agent-browser"@),
            "/usr/local/bin/agent-browser"@,
            "/opt/homebrew/bin/agent-browser"@,
            crate::detector::path_join(home@, ".npm-global/bin/agent-browser"@),
        ],
{
    let mut out: Vec<String> = Vec::new();
    let a = crate::detector::join_path(home, ".nvm/versions/node/v24.14.0/bin/agent-browser");
    push_str(&mut out, a.as_str());
    push_str(&mut out, "/usr/local/bin/agent-browser");
    push_str(&mut out, "/opt/homebrew/bin/agent-browser");
    let b = crate::detector::join_path(home, ".npm-global/bin/agent-browser");
    push_str(&mut out, b.as_str());
    assert(views(out@) =~= seq![a@, "/usr/local/bin/agent-browser"@, "/opt/homebrew/bin/agent-browser"@, b@]);
    out
}

/// The places searched for the CLI binary, in order: the installed place,
/// the search path's answer (when it is not empty), the usual global install
/// places, then `bin/agent-browser` inside each Node version directory.
pub open spec fn binary_candidates(home: Seq<char>, which: Option<Seq<char>>, node_dirs: Seq<Seq<char>>) -> Seq<Seq<char>> {
    seq![path_join(home, ".agent-computer/bin/agent-browser"@)]
        + match which {
            Some(w) => if w.len() > 0 { seq![w] } else { Seq::empty() },
            None => Seq::empty(),
        }
        + seq![
            path_join(home, ".nvm/versions/node/v24.14.0/bin/agent-browser"@),
            "/usr/local/bin/agent-browser"@,
            "/opt/homebrew/bin/agent-browser"@,
            path_join(home, ".npm-global/bin/agent-browser"@),
        ]
        + node_dirs.map_values(|d: Seq<char>| path_join(d, "bin/agent-browser"@))
}

/// `r` is the first of `paths` that `is_present` found, every earlier one
/// having been found missing; or nothing, every one having been found
/// missing.
pub open spec fn first_found<E: Fn(&str) -> bool>(is_present: E, paths: Seq<Seq<char>>, r: Option<Seq<char>>) -> bool {
    match r {
        Some(p) => exists|i: int| 0 <= i < paths.len() && #[trigger] paths[i] == p && answered(is_present, p, true)
            && forall|j: int| 0 <= j < i ==> #[trigger] answered(is_present, paths[j], false),
        None => forall|j: int| 0 <= j < paths.len() ==> #[trigger] answered(is_present, paths[j], false),
    }
}

/// The first of `paths` that `is_present` finds, asking in order.
fn first_present<E: Fn(&str) -> bool>(paths: &Vec<String>, is_present: &E) -> (r: Option<String>)
    requires
        forall|s: &str| call_requires(*is_present, (s,)),
    ensures
        first_found(*is_present, views(paths@), opt_view(r)),
{
    let n = paths.len();
    let mut i: usize = 0;
    while i < n
        invariant
            n == paths.len(),
            i <= n,
            forall|s: &str| call_requires(*is_present, (s,)),
            forall|j: int| 0 <= j < i ==> #[trigger] answered(*is_present, views(paths@)[j], false),
        decreases n - i,
    {
        let p = paths[i].as_str();
        let found = is_present(p);
        assert(views(paths@)[i as int] == p@);
        assert(answered(*is_present, p@, found));
        if found {
            let r = paths[i].clone();
            assert(views(paths@)[i as int] == r@);
            return Some(r);
        }
        i = i + 1;
    }
    None
}

/// Looks for the CLI binary: the installed place under `home`, then `which`
/// (the search path's answer), the usual global install places and the Node
/// version directories `node_dirs`, in that order, taking the first place
/// where `is_present` (a check of the file system) finds a file.
pub fn locate_binary<E: Fn(&str) -> bool>(
    home: &str,
    which: Option<String>,
    node_dirs: &Vec<String>,
    is_present: &E,
) -> (r: Option<String>)
    requires
        forall|s: &str| call_requires(*is_present, (s,)),
    ensures
        first_found(*is_present, binary_candidates(home@, opt_view(which), views(node_dirs@)), opt_view(r)),
{
    let mut paths: Vec<String> = Vec::new();
    paths.push(bundled_binary_path(home));
    let ghost head = seq![path_join(home@, ".agent-computer/bin/agent-browser"@)];
    assert(views(paths@) =~= head);
    let ghost mid = match opt_view(which) {
        Some(w) => if w.len() > 0 { seq![w] } else { Seq::<Seq<char>>::empty() },
        None => Seq::<Seq<char>>::empty(),
    };
    match which {
        Some(w) => {
            if w.unicode_len() > 0 {
                let ghost before = paths@;
                paths.push(w);
                assert(views(paths@) =~= views(before).push(mid[0]));
            }
        },
        None => {},
    }
    assert(views(paths@) =~= head + mid);
    let common = common_binary_paths(home);
    let ghost base = views(paths@);
    let mut k: usize = 0;
    while k < common.len()
        invariant
            k <= common.len(),
            views(paths@) == base + views(common@).take(k as int),
        decreases common.len() - k,
    {
        let ghost before = paths@;
        paths.push(common[k].clone());
        assert(views(common@).take(k + 1) =~= views(common@).take(k as int).push(common@[k as int]@));
        assert(views(paths@) =~= views(before).push(common@[k as int]@));
        k = k + 1;
    }
    assert(views(common@).take(common.len() as int) =~= views(common@));
    let ghost base2 = views(paths@);
    let ghost tail = views(node_dirs@).map_values(|d: Seq<char>| path_join(d, "bin/agent-browser"@));
    let mut m: usize = 0;
    assert(tail.take(0) =~= Seq::<Seq<char>>::empty());
    assert(base2 + tail.take(0) =~= base2);
    while m < node_dirs.len()
        invariant
            m <= node_dirs.len(),
            tail == views(node_dirs@).map_values(|d: Seq<char>| path_join(d, "bin/agent-browser"@)),
            views(paths@) == base2 + tail.take(m as int),
        decreases node_dirs.len() - m,
    {
        let ghost before = paths@;
        let c = join_path(node_dirs[m].as_str(), "bin/agent-browser");
        paths.push(c);
        assert(tail[m as int] == path_join(node_dirs@[m as int]@, "bin/agent-browser"@));
        assert(tail.take(m + 1) =~= tail.take(m as int).push(tail[m as int]));
        assert(views(paths@) =~= views(before).push(c@));
        m = m + 1;
    }
    assert(tail.take(node_dirs.len() as int) =~= tail);
    assert(views(paths@) =~= binary_candidates(home@, opt_view(which), views(node_dirs@)));
    first_present(&paths, is_present)
}

} // verus!
