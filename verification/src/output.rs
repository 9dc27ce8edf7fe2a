//! The human-readable lines the command-line client prints for each answer
//! of the daemon, with ANSI colours.
use vstd::prelude::*;
use vstd::string::*;
use crate::cli::{lowercase, to_lower};
use crate::errors::{ErrorInfo, ErrorInfoView};
use crate::protocol::{ElementInfo, FillData, GetAppsData, GetTextData, OpenData, PressData, ScrollData, TypeData, WaitData};
use crate::text::{
    concat2, concat3, decimal, format_decimal, format_signed, join, join_strings, opt_view,
    push_char, signed_decimal, views,
};
use crate::workspace::{app_views, AppInfoView};

verus! {

pub const RESET: &'static str = "\x1b[0m";
pub const BOLD: &'static str = "\x1b[1m";
pub const DIM: &'static str = "\x1b[2m";
pub const RED: &'static str = "\x1b[31m";
pub const GREEN: &'static str = "\x1b[32m";
pub const YELLOW: &'static str = "\x1b[33m";
pub const CYAN: &'static str = "\x1b[36m";

/// `text` in bold.
pub open spec fn bold(text: Seq<char>) -> Seq<char> {
    BOLD@ + text + RESET@
}

/// `text` quoted, in bold.
pub open spec fn bold_quoted(text: Seq<char>) -> Seq<char> {
    BOLD@ + "\""@ + text + "\""@ + RESET@
}

/// An element reference in cyan, with its `@`.
pub open spec fn cyan_ref(r: Seq<char>) -> Seq<char> {
    CYAN@ + "@"@ + r + RESET@
}

/// The line printed after a fill.
pub fn describe_fill(data: &FillData) -> (r: String)
    ensures
        r@ == "Filled "@ + cyan_ref(data.ref_id@) + " with "@ + bold_quoted(data.text@),
{
    let mut s = String::from_str("Filled ");
    s.append(CYAN);
    s.append("@");
    s.append(data.ref_id.as_str());
    s.append(RESET);
    s.append(" with ");
    s.append(BOLD);
    s.append("\"");
    s.append(data.text.as_str());
    s.append("\"");
    s.append(RESET);
    assert(s@ =~= "Filled "@ + cyan_ref(data.ref_id@) + " with "@ + bold_quoted(data.text@));
    s
}

/// The line printed after typing.
pub fn describe_type(data: &TypeData) -> (r: String)
    ensures
        r@ == "Typed "@ + bold_quoted(data.text@) + match data.ref_id {
            Some(x) => " into "@ + cyan_ref(x@),
            None => Seq::empty(),
        },
{
    let mut s = String::from_str("Typed ");
    s.append(BOLD);
    s.append("\"");
    s.append(data.text.as_str());
    s.append("\"");
    s.append(RESET);
    let ghost head = s@;
    match &data.ref_id {
        Some(x) => {
            s.append(" into ");
            s.append(CYAN);
            s.append("@");
            s.append(x.as_str());
            s.append(RESET);
            assert(s@ =~= head + (" into "@ + cyan_ref(x@)));
        },
        None => {
            assert(s@ =~= head + Seq::<char>::empty());
        },
    }
    s
}

/// A key combination as printed: the modifiers joined by `+`, then `+` and
/// the key when that is not empty, else the key alone.
pub open spec fn combo_text(key: Seq<char>, modifiers: Seq<Seq<char>>) -> Seq<char> {
    let joined = join(modifiers, "+"@);
    if joined.len() == 0 { key } else { joined + "+"@ + key }
}

/// The line printed after a key press.
pub fn describe_press(data: &PressData) -> (r: String)
    ensures
        r@ == "Pressed "@ + bold(combo_text(data.key@, views(data.modifiers@))),
{
    let mut combo = join_strings(data.modifiers.as_slice(), "+");
    let ghost joined = combo@;
    if combo.unicode_len() > 0 {
        push_char(&mut combo, '+');
        proof {
            reveal_strlit("+");
        }
    }
    combo.append(data.key.as_str());
    assert(combo@ =~= combo_text(data.key@, views(data.modifiers@)));
    let mut s = String::from_str("Pressed ");
    s.append(BOLD);
    s.append(combo.as_str());
    s.append(RESET);
    s
}

/// The line printed after a scroll.
pub fn describe_scroll(data: &ScrollData) -> (r: String)
    ensures
        r@ == "Scrolled "@ + bold(data.direction@) + " by "@ + signed_decimal(data.amount as int) + " pixels"@,
{
    let mut s = String::from_str("Scrolled ");
    s.append(BOLD);
    s.append(data.direction.as_str());
    s.append(RESET);
    s.append(" by ");
    let a = format_signed(data.amount);
    s.append(a.as_str());
    s.append(" pixels");
    assert(s@ =~= "Scrolled "@ + bold(data.direction@) + " by "@ + signed_decimal(data.amount as int) + " pixels"@);
    s
}

/// The line printed after a screenshot.
pub fn describe_screenshot(path: &str, width: u32, height: u32) -> (r: String)
    ensures
        r@ == "Screenshot saved to "@ + CYAN@ + path@ + RESET@ + " ("@ + decimal(width as nat) + "×"@ + decimal(height as nat) + ")"@,
{
    let mut s = String::from_str("Screenshot saved to ");
    s.append(CYAN);
    s.append(path);
    s.append(RESET);
    s.append(" (");
    let w = format_decimal(width as u64);
    s.append(w.as_str());
    s.append("×");
    let h = format_decimal(height as u64);
    s.append(h.as_str());
    s.append(")");
    assert(s@ =~= "Screenshot saved to "@ + CYAN@ + path@ + RESET@ + " ("@ + decimal(width as nat) + "×"@ + decimal(height as nat) + ")"@);
    s
}

/// The lines printed after opening an app: whether it was activated or
/// launched, and the DevTools port when one was opened.
pub fn describe_open(data: &OpenData) -> (r: Vec<String>)
    ensures
        views(r@) == seq![
            (if data.was_running { "Activated "@ } else { "Launched "@ }) + bold(data.app@) + " (pid "@ + signed_decimal(data.pid as int) + ")"@,
        ] + match data.cdp_port {
            Some(p) => seq!["  CDP enabled on port "@ + CYAN@ + decimal(p as nat) + RESET@],
            None => Seq::empty(),
        },
{
    let mut s = if data.was_running { String::from_str("Activated ") } else { String::from_str("Launched ") };
    s.append(BOLD);
    s.append(data.app.as_str());
    s.append(RESET);
    s.append(" (pid ");
    let p = format_signed(data.pid);
    s.append(p.as_str());
    s.append(")");
    let ghost first = s@;
    assert(first =~= (if data.was_running { "Activated "@ } else { "Launched "@ }) + bold(data.app@) + " (pid "@ + signed_decimal(data.pid as int) + ")"@);
    let mut lines: Vec<String> = Vec::new();
    lines.push(s);
    match data.cdp_port {
        Some(port) => {
            let mut t = String::from_str("  CDP enabled on port ");
            t.append(CYAN);
            let d = format_decimal(port as u64);
            t.append(d.as_str());
            t.append(RESET);
            let ghost second = t@;
            lines.push(t);
            assert(views(lines@) =~= seq![first, second]);
        },
        None => {
            assert(views(lines@) =~= seq![first]);
        },
    }
    lines
}

/// The line of one running app, with a green dot when it is active.
pub open spec fn app_line(a: AppInfoView) -> Seq<char> {
    bold(a.name) + " (pid "@ + signed_decimal(a.pid as int) + ")"@
        + if a.is_active { " "@ + GREEN@ + "●"@ + RESET@ } else { Seq::empty() }
}

/// The lines printed for the running apps: one per app, or a dimmed notice
/// when there is none.
pub fn describe_get_apps(data: &GetAppsData) -> (r: Vec<String>)
    ensures
        views(r@) == if data.apps@.len() == 0 {
            seq![DIM@ + "No running GUI applications found."@ + RESET@]
        } else {
            app_views(data.apps@).map_values(|a: AppInfoView| app_line(a))
        },
{
    let n = data.apps.len();
    let mut lines: Vec<String> = Vec::new();
    let mut i: usize = 0;
    while i < n
        invariant
            n == data.apps.len(),
            i <= n,
            views(lines@) =~= app_views(data.apps@).map_values(|a: AppInfoView| app_line(a)).take(i as int),
        decreases n - i,
    {
        let a = &data.apps[i];
        let mut s = String::from_str(BOLD);
        s.append(a.name.as_str());
        s.append(RESET);
        s.append(" (pid ");
        let p = format_signed(a.pid);
        s.append(p.as_str());
        s.append(")");
        if a.is_active {
            s.append(" ");
            s.append(GREEN);
            s.append("●");
            s.append(RESET);
        }
        assert(s@ =~= app_line(a@));
        let ghost before = lines@;
        lines.push(s);
        assert(views(lines@) =~= views(before).push(app_line(a@)));
        assert(app_views(data.apps@).map_values(|a: AppInfoView| app_line(a)).take(i + 1)
            =~= app_views(data.apps@).map_values(|a: AppInfoView| app_line(a)).take(i as int).push(app_line(a@)));
        i = i + 1;
    }
    if n == 0 {
        let mut s = String::from_str(DIM);
        s.append("No running GUI applications found.");
        s.append(RESET);
        lines.push(s);
        assert(views(lines@) =~= seq![DIM@ + "No running GUI applications found."@ + RESET@]);
    } else {
        assert(app_views(data.apps@).map_values(|a: AppInfoView| app_line(a)).take(n as int)
            =~= app_views(data.apps@).map_values(|a: AppInfoView| app_line(a)));
    }
    lines
}

/// The line printed for an element's text.
pub fn describe_get_text(data: &GetTextData) -> (r: String)
    ensures
        r@ == match data.ref_id {
            Some(x) => cyan_ref(x@) + ": "@ + data.text@,
            None => data.text@,
        },
{
    match &data.ref_id {
        Some(x) => {
            let mut s = String::from_str(CYAN);
            s.append("@");
            s.append(x.as_str());
            s.append(RESET);
            s.append(": ");
            s.append(data.text.as_str());
            assert(s@ =~= cyan_ref(x@) + ": "@ + data.text@);
            s
        },
        None => data.text.clone(),
    }
}

/// The line printed after a wait.
pub fn describe_wait(data: &WaitData) -> (r: String)
    ensures
        r@ == "Waited "@ + BOLD@ + decimal(data.waited_ms as nat) + "ms"@ + RESET@,
{
    let mut s = String::from_str("Waited ");
    s.append(BOLD);
    let d = format_decimal(data.waited_ms);
    s.append(d.as_str());
    s.append("ms");
    s.append(RESET);
    assert(s@ =~= "Waited "@ + BOLD@ + decimal(data.waited_ms as nat) + "ms"@ + RESET@);
    s
}

/// The suggestion line of an error, when it has one.
pub open spec fn suggestion_lines(suggestion: Option<Seq<char>>) -> Seq<Seq<char>> {
    match suggestion {
        Some(s) => seq![YELLOW@ + "Suggestion: "@ + s + RESET@],
        None => Seq::empty(),
    }
}

/// The lines printed (to standard error) for an error of the daemon.
pub fn describe_error(error: &ErrorInfo) -> (r: Vec<String>)
    ensures
        views(r@) == seq![RED@ + BOLD@ + "Error"@ + RESET@ + RED@ + " ["@ + error.code@ + "]: "@ + error.message@ + RESET@]
            + suggestion_lines(opt_view(error.suggestion)),
{
    let mut s = String::from_str(RED);
    s.append(BOLD);
    s.append("Error");
    s.append(RESET);
    s.append(RED);
    s.append(" [");
    s.append(error.code.as_str());
    s.append("]: ");
    s.append(error.message.as_str());
    s.append(RESET);
    let ghost first = s@;
    let mut lines: Vec<String> = Vec::new();
    lines.push(s);
    push_suggestion(&mut lines, &error.suggestion);
    assert(views(lines@) =~= seq![first] + suggestion_lines(opt_view(error.suggestion)));
    lines
}

/// Appends the suggestion line, when there is a suggestion.
fn push_suggestion(lines: &mut Vec<String>, suggestion: &Option<String>)
    ensures
        views(final(lines)@) == views(old(lines)@) + suggestion_lines(opt_view(*suggestion)),
{
    let ghost before = views(lines@);
    match suggestion {
        Some(x) => {
            let mut t = String::from_str(YELLOW);
            t.append("Suggestion: ");
            t.append(x.as_str());
            t.append(RESET);
            lines.push(t);
            assert(views(lines@) =~= before + suggestion_lines(opt_view(*suggestion)));
        },
        None => {
            assert(views(lines@) =~= before + suggestion_lines(opt_view(*suggestion)));
        },
    }
}

/// The lines printed (to standard error) for a failure of the client itself.
pub fn describe_local_error(message: &str, suggestion: Option<&str>) -> (r: Vec<String>)
    ensures
        views(r@) == seq![RED@ + BOLD@ + "Error"@ + RESET@ + RED@ + ": "@ + message@ + RESET@]
            + suggestion_lines(match suggestion { Some(s) => Some(s@), None => None }),
{
    let mut s = String::from_str(RED);
    s.append(BOLD);
    s.append("Error");
    s.append(RESET);
    s.append(RED);
    s.append(": ");
    s.append(message);
    s.append(RESET);
    let ghost first = s@;
    let mut lines: Vec<String> = Vec::new();
    lines.push(s);
    let owned: Option<String> = match suggestion {
        Some(x) => Some(String::from_str(x)),
        None => None,
    };
    push_suggestion(&mut lines, &owned);
    assert(views(lines@) =~= seq![first] + suggestion_lines(match suggestion { Some(s) => Some(s@), None => None }));
    lines
}

/// The error shown for a failed answer that carries no error.
pub fn unknown_failure() -> (r: ErrorInfo)
    ensures
        r@ == (ErrorInfoView { code: "UNKNOWN"@, message: "Command failed with no error details."@, suggestion: None }),
{
    ErrorInfo {
        code: String::from_str("UNKNOWN"),
        message: String::from_str("Command failed with no error details."),
        suggestion: None,
    }
}

/// `s` with every `AX` removed, scanning left to right.
pub open spec fn without_ax(s: Seq<char>) -> Seq<char>
    decreases s.len(),
{
    if s.len() >= 2 && s[0] == 'A' && s[1] == 'X' {
        without_ax(s.subrange(2, s.len() as int))
    } else if s.len() == 0 {
        s
    } else {
        seq![s[0]] + without_ax(s.drop_first())
    }
}

/// An accessibility role without its `AX` prefix, in lower case
/// (`AXButton` becomes `button`).
pub fn short_role(role: &str) -> (r: String)
    ensures
        r@ == lowercase(without_ax(role@)),
{
    let n = role.unicode_len();
    let mut out = String::new();
    let mut i: usize = 0;
    assert(role@.subrange(0, n as int) =~= role@);
    assert(out@ + without_ax(role@) =~= without_ax(role@));
    while i < n
        invariant
            n == role@.len(),
            i <= n,
            without_ax(role@) == out@ + without_ax(role@.subrange(i as int, n as int)),
        decreases n - i,
    {
        let ghost rest = role@.subrange(i as int, n as int);
        if i + 1 < n && role.get_char(i) == 'A' && role.get_char(i + 1) == 'X' {
            assert(rest.subrange(2, rest.len() as int) =~= role@.subrange(i + 2, n as int));
            i = i + 2;
        } else {
            let c = role.get_char(i);
            assert(rest.drop_first() =~= role@.subrange(i + 1, n as int));
            push_char(&mut out, c);
            i = i + 1;
        }
    }
    assert(role@.subrange(n as int, n as int) =~= Seq::<char>::empty());
    assert(without_ax(role@) =~= out@);
    to_lower(out.as_str())
}

/// The parts of the line printed after a click, joined with spaces.
pub open spec fn click_parts(ref_id: Option<Seq<char>>, role: Option<Seq<char>>, label: Option<Seq<char>>, x: i32, y: i32) -> Seq<Seq<char>> {
    seq!["Clicked"@]
        + (match ref_id { Some(r) => seq![cyan_ref(r)], None => Seq::empty() })
        + (match role {
            Some(role) => seq![lowercase(without_ax(role))] + match label {
                Some(l) => seq![bold_quoted(l)],
                None => Seq::empty(),
            },
            None => Seq::empty(),
        })
        + seq!["at "@ + DIM@ + "("@ + signed_decimal(x as int) + ", "@ + signed_decimal(y as int) + ")"@ + RESET@]
}

/// The line printed after a click: the reference, the element's short role
/// and label when known, and the point clicked (whole pixels).
pub fn describe_click(ref_id: Option<&str>, element: Option<&ElementInfo>, x: i32, y: i32) -> (r: String)
    ensures
        r@ == join(click_parts(
            match ref_id { Some(s) => Some(s@), None => None },
            match element { Some(e) => Some(e.role@), None => None },
            match element { Some(e) => opt_view(e.label), None => None },
            x,
            y,
        ), " "@),
{
    let mut parts: Vec<String> = Vec::new();
    parts.push(String::from_str("Clicked"));
    let ghost p0 = views(parts@);
    match ref_id {
        Some(r) => {
            let mut s = String::from_str(CYAN);
            s.append("@");
            s.append(r);
            s.append(RESET);
            parts.push(s);
        },
        None => {},
    }
    let ghost p1 = views(parts@);
    match element {
        Some(e) => {
            parts.push(short_role(e.role.as_str()));
            match &e.label {
                Some(l) => {
                    let mut s = String::from_str(BOLD);
                    s.append("\"");
                    s.append(l.as_str());
                    s.append("\"");
                    s.append(RESET);
                    parts.push(s);
                },
                None => {},
            }
        },
        None => {},
    }
    let ghost p2 = views(parts@);
    let mut s = String::from_str("at ");
    s.append(DIM);
    s.append("(");
    let xs = format_signed(x);
    s.append(xs.as_str());
    s.append(", ");
    let ys = format_signed(y);
    s.append(ys.as_str());
    s.append(")");
    s.append(RESET);
    parts.push(s);
    assert(views(parts@) =~= click_parts(
        match ref_id { Some(s) => Some(s@), None => None },
        match element { Some(e) => Some(e.role@), None => None },
        match element { Some(e) => opt_view(e.label), None => None },
        x,
        y,
    ));
    join_strings(parts.as_slice(), " ")
}

} // verus!
