//! The daemon's decisions for each request: which command a name selects,
//! what happens when its arguments cannot be read, the answers that need no
//! system call, and the state the daemon keeps between requests.
use vstd::prelude::*;
use vstd::string::*;
use crate::cli::{lowercase, to_lower};
use crate::errors::{
    daemon_error, daemon_error_report, invalid_command, invalid_command_report, no_ref_map,
    no_ref_map_report, ref_not_found, ref_not_found_report, ErrorInfo, ErrorInfoView,
};
use crate::protocol::{
    FillArgs, FillData, GetArgs, GetTextData, PressArgs, PressData, ScreenshotArgs, ScrollArgs,
    ScrollData, SnapshotArgs, SnapshotData, TypeArgs, TypeData,
};
use crate::refmap::{lookup_key, RefMap};
use crate::sessions::SessionTable;
use crate::text::{concat2, concat3, decimal, format_decimal, opt_view, str_equal, views};
use crate::types::{duplicate_opt, ElementRef};

verus! {

/// The commands the daemon answers.
#[derive(Clone, Copy, PartialEq, Eq, Structural)]
pub enum CommandKind {
    Snapshot,
    Click,
    Fill,
    Type,
    Press,
    Scroll,
    Screenshot,
    Open,
    Get,
    Status,
}

/// The command a request's command name selects.
pub open spec fn command_named(name: Seq<char>) -> Option<CommandKind> {
    if name == "snapshot"@ {
        Some(CommandKind::Snapshot)
    } else if name == "click"@ {
        Some(CommandKind::Click)
    } else if name == "fill"@ {
        Some(CommandKind::Fill)
    } else if name == "type"@ {
        Some(CommandKind::Type)
    } else if name == "press"@ {
        Some(CommandKind::Press)
    } else if name == "scroll"@ {
        Some(CommandKind::Scroll)
    } else if name == "screenshot"@ {
        Some(CommandKind::Screenshot)
    } else if name == "open"@ {
        Some(CommandKind::Open)
    } else if name == "get"@ {
        Some(CommandKind::Get)
    } else if name == "status"@ {
        Some(CommandKind::Status)
    } else {
        None
    }
}

/// Each of the ten command names selects the command of that name, no other
/// name selects a command, and no two names select the same one.
pub proof fn law_command_names(a: Seq<char>, b: Seq<char>)
    ensures
        command_named("snapshot"@) == Some(CommandKind::Snapshot),
        command_named("click"@) == Some(CommandKind::Click),
        command_named("fill"@) == Some(CommandKind::Fill),
        command_named("type"@) == Some(CommandKind::Type),
        command_named("press"@) == Some(CommandKind::Press),
        command_named("scroll"@) == Some(CommandKind::Scroll),
        command_named("screenshot"@) == Some(CommandKind::Screenshot),
        command_named("open"@) == Some(CommandKind::Open),
        command_named("get"@) == Some(CommandKind::Get),
        command_named("status"@) == Some(CommandKind::Status),
        command_named(a) is Some <==> (a == "snapshot"@ || a == "click"@ || a == "fill"@ || a == "type"@
            || a == "press"@ || a == "scroll"@ || a == "screenshot"@ || a == "open"@ || a == "get"@ || a == "status"@),
        command_named(a) is Some && command_named(a) == command_named(b) ==> a == b,
{
    reveal_strlit("snapshot");
    reveal_strlit("click");
    reveal_strlit("fill");
    reveal_strlit("type");
    reveal_strlit("press");
    reveal_strlit("scroll");
    reveal_strlit("screenshot");
    reveal_strlit("open");
    reveal_strlit("get");
    reveal_strlit("status");
    assert("snapshot"@.len() != "click"@.len());
    assert("snapshot"@.len() != "fill"@.len());
    assert("snapshot"@.len() != "type"@.len());
    assert("snapshot"@.len() != "press"@.len());
    assert("snapshot"@.len() != "scroll"@.len());
    assert("snapshot"@.len() != "screenshot"@.len());
    assert("snapshot"@.len() != "open"@.len());
    assert("snapshot"@.len() != "get"@.len());
    assert("snapshot"@.len() != "status"@.len());
    assert("click"@.len() != "fill"@.len());
    assert("click"@.len() != "type"@.len());
    assert("click"@[0] != "press"@[0]);
    assert("click"@.len() != "scroll"@.len());
    assert("click"@.len() != "screenshot"@.len());
    assert("click"@.len() != "open"@.len());
    assert("click"@.len() != "get"@.len());
    assert("click"@.len() != "status"@.len());
    assert("fill"@[0] != "type"@[0]);
    assert("fill"@.len() != "press"@.len());
    assert("fill"@.len() != "scroll"@.len());
    assert("fill"@.len() != "screenshot"@.len());
    assert("fill"@[0] != "open"@[0]);
    assert("fill"@.len() != "get"@.len());
    assert("fill"@.len() != "status"@.len());
    assert("type"@.len() != "press"@.len());
    assert("type"@.len() != "scroll"@.len());
    assert("type"@.len() != "screenshot"@.len());
    assert("type"@[0] != "open"@[0]);
    assert("type"@.len() != "get"@.len());
    assert("type"@.len() != "status"@.len());
    assert("press"@.len() != "scroll"@.len());
    assert("press"@.len() != "screenshot"@.len());
    assert("press"@.len() != "open"@.len());
    assert("press"@.len() != "get"@.len());
    assert("press"@.len() != "status"@.len());
    assert("scroll"@.len() != "screenshot"@.len());
    assert("scroll"@.len() != "open"@.len());
    assert("scroll"@.len() != "get"@.len());
    assert("scroll"@[1] != "status"@[1]);
    assert("screenshot"@.len() != "open"@.len());
    assert("screenshot"@.len() != "get"@.len());
    assert("screenshot"@.len() != "status"@.len());
    assert("open"@.len() != "get"@.len());
    assert("open"@.len() != "status"@.len());
    assert("get"@.len() != "status"@.len());
}

/// The command named by a request, or the error for an unknown name.
pub fn parse_command(name: &str) -> (r: Result<CommandKind, ErrorInfo>)
    ensures
        match command_named(name@) {
            Some(k) => r matches Ok(c) && c == k,
            None => r matches Err(e) && e@ == invalid_command_report("Unknown command: '"@ + name@ + "'"@),
        },
{
    if str_equal(name, "snapshot") {
        Ok(CommandKind::Snapshot)
    } else if str_equal(name, "click") {
        Ok(CommandKind::Click)
    } else if str_equal(name, "fill") {
        Ok(CommandKind::Fill)
    } else if str_equal(name, "type") {
        Ok(CommandKind::Type)
    } else if str_equal(name, "press") {
        Ok(CommandKind::Press)
    } else if str_equal(name, "scroll") {
        Ok(CommandKind::Scroll)
    } else if str_equal(name, "screenshot") {
        Ok(CommandKind::Screenshot)
    } else if str_equal(name, "open") {
        Ok(CommandKind::Open)
    } else if str_equal(name, "get") {
        Ok(CommandKind::Get)
    } else if str_equal(name, "status") {
        Ok(CommandKind::Status)
    } else {
        let detail = concat3("Unknown command: '", name, "'");
        Err(invalid_command(detail.as_str()))
    }
}

/// What a command needs of its arguments, said when they cannot be read;
/// `None` for the commands that fall back to defaults or take none.
pub open spec fn args_requirement(kind: CommandKind) -> Option<Seq<char>> {
    match kind {
        CommandKind::Click => Some("click requires args with ref or x/y"@),
        CommandKind::Fill => Some("fill requires args with ref and text"@),
        CommandKind::Type => Some("type requires args with text"@),
        CommandKind::Press => Some("press requires args with key"@),
        CommandKind::Scroll => Some("scroll requires args with direction"@),
        CommandKind::Open => Some("open requires args with target"@),
        CommandKind::Get => Some("get requires args with what"@),
        CommandKind::Snapshot | CommandKind::Screenshot | CommandKind::Status => None,
    }
}

/// The error for a command whose arguments cannot be read, or `None` when
/// the command goes on with default arguments.
pub fn unreadable_args(kind: CommandKind) -> (r: Option<ErrorInfo>)
    ensures
        match args_requirement(kind) {
            Some(m) => r matches Some(e) && e@ == invalid_command_report(m),
            None => r is None,
        },
{
    let detail: &str = match kind {
        CommandKind::Click => "click requires args with ref or x/y",
        CommandKind::Fill => "fill requires args with ref and text",
        CommandKind::Type => "type requires args with text",
        CommandKind::Press => "press requires args with key",
        CommandKind::Scroll => "scroll requires args with direction",
        CommandKind::Open => "open requires args with target",
        CommandKind::Get => "get requires args with what",
        CommandKind::Snapshot | CommandKind::Screenshot | CommandKind::Status => {
            return None;
        },
    };
    Some(invalid_command(detail))
}

/// The snapshot arguments used when a request's cannot be read:
/// interactive, not compact, no depth, app or selector.
pub fn default_snapshot_args() -> (r: SnapshotArgs)
    ensures
        r.interactive,
        !r.compact,
        r.depth is None,
        r.app is None,
        r.selector is None,
{
    SnapshotArgs { interactive: true, compact: false, depth: None, app: None, selector: None }
}

/// The screenshot arguments used when a request's cannot be read.
pub fn default_screenshot_args() -> (r: ScreenshotArgs)
    ensures
        !r.full,
        r.app is None,
{
    ScreenshotArgs { full: false, app: None }
}

/// The text of the snapshot answer given while no snapshot engine runs.
pub const PLACEHOLDER_SNAPSHOT_TEXT: &'static str = "[No snapshot engine available yet]";

/// The snapshot answer given while no snapshot engine runs.
pub fn placeholder_snapshot() -> (r: SnapshotData)
    ensures
        r.text@ == PLACEHOLDER_SNAPSHOT_TEXT@,
        r.ref_count == 0,
        r.app@ == "Unknown"@,
        r.window is None,
        r.profile is None,
{
    SnapshotData {
        text: String::from_str(PLACEHOLDER_SNAPSHOT_TEXT),
        ref_count: 0,
        app: String::from_str("Unknown"),
        window: None,
        profile: None,
    }
}

/// The scroll distance when a request gives none.
pub const DEFAULT_SCROLL_AMOUNT: i32 = 300;

/// The answer to a fill: the element and the text.
pub fn fill_data(args: FillArgs) -> (r: FillData)
    ensures
        r.ref_id@ == args.ref_id@,
        r.text@ == args.text@,
{
    FillData { ref_id: args.ref_id, text: args.text }
}

/// The answer to typing: the element, if any, and the text.
pub fn type_data(args: TypeArgs) -> (r: TypeData)
    ensures
        opt_view(r.ref_id) == opt_view(args.ref_id),
        r.text@ == args.text@,
{
    TypeData { ref_id: args.ref_id, text: args.text }
}

/// The answer to a key press: the key and its modifiers (none when the
/// request gives none).
pub fn press_data(args: PressArgs) -> (r: PressData)
    ensures
        r.key@ == args.key@,
        views(r.modifiers@) == match args.modifiers {
            Some(m) => views(m@),
            None => Seq::empty(),
        },
{
    let modifiers = match args.modifiers {
        Some(m) => m,
        None => {
            let v: Vec<String> = Vec::new();
            assert(views(v@) =~= Seq::<Seq<char>>::empty());
            v
        },
    };
    PressData { key: args.key, modifiers }
}

/// The answer to a scroll: the direction and the distance, 300 by default.
pub fn scroll_data(args: ScrollArgs) -> (r: ScrollData)
    ensures
        r.direction@ == args.direction@,
        r.amount == match args.amount {
            Some(a) => a,
            None => DEFAULT_SCROLL_AMOUNT,
        },
{
    let amount = match args.amount {
        Some(a) => a,
        None => DEFAULT_SCROLL_AMOUNT,
    };
    ScrollData { direction: args.direction, amount }
}

/// What a `get` request asks for.
pub enum GetAnswer {
    /// The running GUI apps (read from the system by the caller).
    Apps,
    /// The text of an element.
    Text(GetTextData),
}

/// The element that a command names by `ref_id` (with or without its
/// leading `@`): refused when no snapshot has produced references yet, and
/// when the current map holds no such reference.
pub fn resolve_target<'a>(refs: &'a RefMap, ref_id: &str) -> (r: Result<&'a ElementRef, ErrorInfo>)
    requires
        refs.wf(),
    ensures
        refs@.len() == 0 ==> (r matches Err(e) && e@ == no_ref_map_report()),
        refs@.len() > 0 && refs@.contains_key(lookup_key(ref_id@)) ==> (r matches Ok(e) && e@ == refs@[lookup_key(ref_id@)]),
        refs@.len() > 0 && !refs@.contains_key(lookup_key(ref_id@)) ==> (r matches Err(e) && e@ == ref_not_found_report(ref_id@)),
{
    if refs.is_empty() {
        return Err(no_ref_map());
    }
    match refs.resolve(ref_id) {
        Some(e) => Ok(e),
        None => Err(ref_not_found(ref_id)),
    }
}

/// The answer to `get` for the targets the daemon serves from its own state,
/// with the error for the others. The target is matched case-insensitively;
/// `text` needs a reference that the current map holds, and answers with
/// the element's label (empty without one).
pub fn answer_get(args: &GetArgs, refs: &RefMap) -> (r: Result<GetAnswer, ErrorInfo>)
    requires
        refs.wf(),
    ensures
        lowercase(args.what@) == "apps"@ ==> (r matches Ok(GetAnswer::Apps)),
        lowercase(args.what@) == "text"@ ==> (match args.ref_id {
            None => r matches Err(e) && e@ == invalid_command_report("'get text' requires a @ref"@),
            Some(id) => if refs@.len() == 0 {
                r matches Err(e) && e@ == no_ref_map_report()
            } else if refs@.contains_key(lookup_key(id@)) {
                r matches Ok(GetAnswer::Text(d)) && opt_view(d.ref_id) == Some(id@) && d.text@ == match refs@[lookup_key(id@)].label {
                    Some(l) => l,
                    None => Seq::empty(),
                }
            } else {
                r matches Err(e) && e@ == ref_not_found_report(id@)
            },
        }),
        lowercase(args.what@) != "apps"@ && lowercase(args.what@) != "text"@ ==> (r matches Err(e) && e@ == invalid_command_report(
            "Unknown get target: '"@ + args.what@ + "'. Valid: apps, text"@,
        )),
{
    let what = to_lower(args.what.as_str());
    proof {
        reveal_strlit("apps");
        reveal_strlit("text");
        assert("apps"@[0] != "text"@[0]);
        assert("apps"@ != "text"@);
    }
    if str_equal(what.as_str(), "apps") {
        return Ok(GetAnswer::Apps);
    }
    if !str_equal(what.as_str(), "text") {
        let detail = concat3("Unknown get target: '", args.what.as_str(), "'. Valid: apps, text");
        return Err(invalid_command(detail.as_str()));
    }
    match &args.ref_id {
        None => Err(invalid_command("'get text' requires a @ref")),
        Some(id) => match resolve_target(refs, id.as_str()) {
            Ok(e) => {
                let text = match &e.label {
                    Some(l) => l.clone(),
                    None => String::new(),
                };
                Ok(GetAnswer::Text(GetTextData { ref_id: Some(id.clone()), text }))
            },
            Err(err) => Err(err),
        },
    }
}

/// What the daemon keeps between requests: the element references of the
/// last snapshot, the apps relaunched with a DevTools port and the ports
/// assigned to them.
pub struct DaemonState {
    pub ref_map: RefMap,
    pub cdp_connections: SessionTable,
    pub port_assignments: SessionTable,
}

impl DaemonState {
    /// All three tables are well formed.
    pub open spec fn wf(&self) -> bool {
        &&& self.ref_map.wf()
        &&& self.cdp_connections.wf()
        &&& self.port_assignments.wf()
    }

    /// A state with no references and no DevTools connection.
    pub fn new() -> (r: DaemonState)
        ensures
            r.wf(),
            r.ref_map@ == Map::<Seq<char>, crate::types::ElementRefView>::empty(),
            r.cdp_connections@ == Map::<Seq<char>, u16>::empty(),
            r.port_assignments@ == Map::<Seq<char>, u16>::empty(),
    {
        DaemonState { ref_map: RefMap::new(), cdp_connections: SessionTable::new(), port_assignments: SessionTable::new() }
    }

    /// The number of references of the last snapshot (as an `i32`).
    pub fn ref_map_count(&self) -> (r: i32)
        requires
            self.wf(),
        ensures
            r == self.ref_map@.len() as i32,
    {
        self.ref_map.len() as i32
    }

    /// The number of DevTools connections (as an `i32`).
    pub fn active_cdp_connections(&self) -> (r: i32)
        requires
            self.wf(),
        ensures
            r == self.cdp_connections@.len() as i32,
    {
        self.cdp_connections.len() as i32
    }

    /// Records that `app` was relaunched with its DevTools endpoint on `port`.
    pub fn record_cdp_launch(&mut self, app: &str, port: u16)
        requires
            old(self).wf(),
        ensures
            final(self).wf(),
            final(self).ref_map@ == old(self).ref_map@,
            final(self).cdp_connections@ == old(self).cdp_connections@.insert(app@, port),
            final(self).port_assignments@ == old(self).port_assignments@.insert(app@, port),
    {
        self.cdp_connections.insert(String::from_str(app), port);
        self.port_assignments.insert(String::from_str(app), port);
    }
}

/// The launch argument that opens an app's DevTools endpoint on `port`.
pub fn cdp_launch_flag(port: u16) -> (r: String)
    ensures
        r@ == "--remote-debugging-port="@ + decimal(port as nat),
{
    let d = format_decimal(port as u64);
    concat2("--remote-debugging-port=", d.as_str())
}

/// The script that asks an app to quit.
pub fn quit_script(app: &str) -> (r: String)
    ensures
        r@ == "tell application \""@ + app@ + "\" to quit"@,
{
    concat3("tell application \"", app, "\" to quit")
}

/// The error of an app that did not relaunch with its DevTools endpoint.
pub fn relaunch_failure(app: &str, stderr: &str) -> (r: ErrorInfo)
    ensures
        r@ == daemon_error_report("Failed to relaunch "@ + app@ + " with CDP: "@ + stderr@),
{
    let mut d = concat3("Failed to relaunch ", app, " with CDP: ");
    d.append(stderr);
    daemon_error(d.as_str())
}

/// The error of an app whose relaunch could not be started.
pub fn launch_failure(app: &str, detail: &str) -> (r: ErrorInfo)
    ensures
        r@ == daemon_error_report("Failed to launch "@ + app@ + " with CDP: "@ + detail@),
{
    let mut d = concat3("Failed to launch ", app, " with CDP: ");
    d.append(detail);
    daemon_error(d.as_str())
}

/// The error of an app that could not be opened.
pub fn open_failure(detail: &str) -> (r: ErrorInfo)
    ensures
        r@ == daemon_error_report("Failed to open app: "@ + detail@),
{
    let d = concat2("Failed to open app: ", detail);
    daemon_error(d.as_str())
}

} // verus!
