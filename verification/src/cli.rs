//! Command-line argument rules: element references, key combinations and
//! the checks each subcommand makes before a request is sent.
use vstd::prelude::*;
use vstd::string::*;
use crate::protocol::{OpenArgs, PressArgs};
use crate::text::{all_digits, concat3, is_digit, join, push_char, str_equal, strip_one, strip_prefix_char, views};

verus! {

/// `s` in lower case (`str::to_lowercase`, full Unicode case mapping).
pub uninterp spec fn lowercase(s: Seq<char>) -> Seq<char>;

/// Lower-cases a string with `str::to_lowercase`. The mapping is Unicode's
/// full lower-case mapping, which depends on the string alone; its tables are
/// not restated here, so the result is only tied to `lowercase`.
#[verifier::external_body]
pub(crate) fn to_lower(s: &str) -> (r: String)
    ensures
        r@ == lowercase(s@),
{
    s.to_lowercase()
}

/// Whether `s` is a reference id: `e` followed by at least one ASCII digit.
pub open spec fn is_ref_id(s: Seq<char>) -> bool {
    s.len() > 1 && s[0] == 'e' && all_digits(s.drop_first())
}

/// The reference named by a command-line argument (`@e3` or `e3`), if valid.
pub open spec fn parsed_ref(input: Seq<char>) -> Option<Seq<char>> {
    let stripped = strip_one(input, '@');
    if is_ref_id(stripped) { Some(stripped) } else { None }
}

/// Parses an `@ref` argument: strips one `@` and checks the `e<digits>` form.
pub fn parse_ref(input: &str) -> (r: Option<String>)
    ensures
        r matches Some(s) ==> parsed_ref(input@) == Some(s@),
        r is None ==> parsed_ref(input@) is None,
{
    let stripped = strip_prefix_char(input, '@');
    let n = stripped.unicode_len();
    if n <= 1 || stripped.get_char(0) != 'e' {
        return None;
    }
    let mut i: usize = 1;
    while i < n
        invariant
            n == stripped@.len(),
            stripped@ == strip_one(input@, '@'),
            stripped@[0] == 'e',
            1 <= i <= n,
            forall|j: int| 1 <= j < i ==> is_digit(#[trigger] stripped@[j]),
        decreases n - i,
    {
        let c = stripped.get_char(i);
        if !('0' <= c && c <= '9') {
            assert(stripped@.drop_first()[i - 1] == c);
            assert(!is_digit(stripped@.drop_first()[i - 1]));
            assert(!all_digits(stripped@.drop_first()));
            return None;
        }
        i = i + 1;
    }
    assert forall|j: int| 0 <= j < stripped@.drop_first().len() implies is_digit(#[trigger] stripped@.drop_first()[j]) by {
        assert(stripped@.drop_first()[j] == stripped@[j + 1]);
    }
    Some(String::from_str(stripped))
}

/// `s` cut at every `sep` (`s.split(sep)`); there is always at least one piece.
pub open spec fn split_on(s: Seq<char>, sep: char) -> Seq<Seq<char>>
    decreases s.len(),
{
    if s.len() == 0 {
        seq![Seq::empty()]
    } else {
        let p = split_on(s.drop_last(), sep);
        if s.last() == sep {
            p.push(Seq::empty())
        } else {
            p.update(p.len() - 1, p.last().push(s.last()))
        }
    }
}

/// Splitting always yields at least one piece.
pub proof fn lemma_split_nonempty(s: Seq<char>, sep: char)
    ensures
        split_on(s, sep).len() >= 1,
    decreases s.len(),
{
    if s.len() > 0 {
        lemma_split_nonempty(s.drop_last(), sep);
    }
}

/// Splits `s` at every `sep`.
pub fn split_char(s: &str, sep: char) -> (r: Vec<String>)
    ensures
        crate::text::views(r@) == split_on(s@, sep),
{
    let n = s.unicode_len();
    let mut parts: Vec<String> = Vec::new();
    parts.push(String::new());
    let mut i: usize = 0;
    proof {
        assert(s@.take(0) =~= Seq::<char>::empty());
        assert(crate::text::views(parts@) =~= seq![Seq::<char>::empty()]);
    }
    while i < n
        invariant
            n == s@.len(),
            i <= n,
            parts@.len() >= 1,
            crate::text::views(parts@) == split_on(s@.take(i as int), sep),
        decreases n - i,
    {
        let c = s.get_char(i);
        let ghost before = crate::text::views(parts@);
        proof {
            assert(s@.take(i + 1).drop_last() =~= s@.take(i as int));
            assert(s@.take(i + 1).last() == c);
        }
        if c == sep {
            parts.push(String::new());
            assert(crate::text::views(parts@) =~= before.push(Seq::empty()));
        } else {
            let last = parts.len() - 1;
            let mut piece = parts[last].clone();
            push_char(&mut piece, c);
            parts.set(last, piece);
            assert(crate::text::views(parts@) =~= before.update(before.len() - 1, before.last().push(c)));
        }
        i = i + 1;
    }
    assert(s@.take(n as int) =~= s@);
    parts
}

/// The modifier names of a key combination.
pub open spec fn modifier_names() -> Set<Seq<char>> {
    set!["cmd"@, "command"@, "shift"@, "alt"@, "option"@, "ctrl"@, "control"@, "fn"@]
}

/// The usual spelling of a modifier.
pub open spec fn normalized_modifier(m: Seq<char>) -> Seq<char> {
    if m == "command"@ {
        "cmd"@
    } else if m == "option"@ {
        "alt"@
    } else if m == "control"@ {
        "ctrl"@
    } else {
        m
    }
}

/// The normalized modifiers among `parts`, in order.
pub open spec fn modifiers_in(parts: Seq<Seq<char>>) -> Seq<Seq<char>>
    decreases parts.len(),
{
    if parts.len() == 0 {
        Seq::empty()
    } else if modifier_names().contains(parts.last()) {
        modifiers_in(parts.drop_last()).push(normalized_modifier(parts.last()))
    } else {
        modifiers_in(parts.drop_last())
    }
}

/// The parts of `parts` that are not modifiers, in order.
pub open spec fn keys_in(parts: Seq<Seq<char>>) -> Seq<Seq<char>>
    decreases parts.len(),
{
    if parts.len() == 0 {
        Seq::empty()
    } else if modifier_names().contains(parts.last()) {
        keys_in(parts.drop_last())
    } else {
        keys_in(parts.drop_last()).push(parts.last())
    }
}

/// The key and modifiers of a combination such as `cmd+shift+s`: the input is
/// lower-cased and split at `+`; modifiers are normalized; the remaining parts,
/// joined with `+`, are the key, or the last part when all are modifiers.
pub open spec fn key_combo(input: Seq<char>) -> (Seq<char>, Seq<Seq<char>>) {
    let parts = split_on(lowercase(input), '+');
    let keys = keys_in(parts);
    let key = if keys.len() == 0 { parts.last() } else { join(keys, "+"@) };
    (key, modifiers_in(parts))
}

/// Every modifier among `parts` appears, normalized, among the modifiers.
proof fn lemma_modifiers_in_contains(parts: Seq<Seq<char>>, i: int)
    requires
        0 <= i < parts.len(),
        modifier_names().contains(parts[i]),
    ensures
        modifiers_in(parts).contains(normalized_modifier(parts[i])),
    decreases parts.len(),
{
    let init = parts.drop_last();
    if i == parts.len() - 1 {
        assert(modifiers_in(parts).last() == normalized_modifier(parts[i]));
    } else {
        assert(init[i] == parts[i]);
        lemma_modifiers_in_contains(init, i);
        let m = modifiers_in(init);
        let j = choose|j: int| 0 <= j < m.len() && m[j] == normalized_modifier(parts[i]);
        if modifier_names().contains(parts.last()) {
            assert(modifiers_in(parts)[j] == m[j]);
        }
    }
}

/// A combination that names a modifier, in any of its spellings and any
/// case, holds that modifier: `ctrl` for `ctrl` or `control`, `cmd` for
/// `cmd` or `command`, `alt` for `alt` or `option`, `shift` for `shift`.
pub proof fn law_key_combo_modifiers(input: Seq<char>, i: int)
    requires
        0 <= i < split_on(lowercase(input), '+').len(),
    ensures
        ({
            let part = split_on(lowercase(input), '+')[i];
            &&& part == "ctrl"@ || part == "control"@ ==> key_combo(input).1.contains("ctrl"@)
            &&& part == "cmd"@ || part == "command"@ ==> key_combo(input).1.contains("cmd"@)
            &&& part == "alt"@ || part == "option"@ ==> key_combo(input).1.contains("alt"@)
            &&& part == "shift"@ ==> key_combo(input).1.contains("shift"@)
        }),
{
    let parts = split_on(lowercase(input), '+');
    let part = parts[i];
    reveal_strlit("ctrl");
    reveal_strlit("control");
    reveal_strlit("cmd");
    reveal_strlit("command");
    reveal_strlit("alt");
    reveal_strlit("option");
    reveal_strlit("shift");
    if modifier_names().contains(part) {
        lemma_modifiers_in_contains(parts, i);
    }
    assert("ctrl"@.len() != "command"@.len() && "ctrl"@.len() != "option"@.len());
    assert("control"@[2] != "command"@[2] && "control"@.len() != "option"@.len());
    assert("cmd"@.len() != "command"@.len() && "cmd"@.len() != "option"@.len() && "cmd"@.len() != "control"@.len());
    assert("alt"@.len() != "command"@.len() && "alt"@.len() != "option"@.len() && "alt"@.len() != "control"@.len());
    assert("option"@.len() != "command"@.len());
    assert("shift"@.len() != "command"@.len() && "shift"@.len() != "option"@.len() && "shift"@.len() != "control"@.len());
}

/// Whether `m` is a modifier name.
fn is_modifier(m: &str) -> (r: bool)
    ensures
        r == modifier_names().contains(m@),
{
    str_equal(m, "cmd") || str_equal(m, "command") || str_equal(m, "shift") || str_equal(m, "alt")
        || str_equal(m, "option") || str_equal(m, "ctrl") || str_equal(m, "control") || str_equal(m, "fn")
}

/// The usual spelling of a modifier.
fn normalize_modifier(m: &str) -> (r: String)
    ensures
        r@ == normalized_modifier(m@),
{
    if str_equal(m, "command") {
        String::from_str("cmd")
    } else if str_equal(m, "option") {
        String::from_str("alt")
    } else if str_equal(m, "control") {
        String::from_str("ctrl")
    } else {
        String::from_str(m)
    }
}

/// Parses a key combination such as `cmd+shift+s` into its key and modifiers.
pub fn parse_key_combo(input: &str) -> (r: (String, Vec<String>))
    ensures
        r.0@ == key_combo(input@).0,
        crate::text::views(r.1@) == key_combo(input@).1,
{
    let lower = to_lower(input);
    let parts = split_char(lower.as_str(), '+');
    let ghost pv = crate::text::views(parts@);
    proof {
        lemma_split_nonempty(lower@, '+');
    }
    let mut modifiers: Vec<String> = Vec::new();
    let mut key_parts: Vec<String> = Vec::new();
    let n = parts.len();
    let mut i: usize = 0;
    proof {
        assert(pv.take(0) =~= Seq::<Seq<char>>::empty());
        assert(crate::text::views(modifiers@) =~= Seq::<Seq<char>>::empty());
        assert(crate::text::views(key_parts@) =~= Seq::<Seq<char>>::empty());
    }
    while i < n
        invariant
            n == parts@.len(),
            pv == crate::text::views(parts@),
            i <= n,
            crate::text::views(modifiers@) == modifiers_in(pv.take(i as int)),
            crate::text::views(key_parts@) == keys_in(pv.take(i as int)),
        decreases n - i,
    {
        let part = parts[i].as_str();
        proof {
            assert(pv.take(i + 1).drop_last() =~= pv.take(i as int));
            assert(pv.take(i + 1).last() == part@);
        }
        if is_modifier(part) {
            let ghost before = modifiers@;
            modifiers.push(normalize_modifier(part));
            assert(crate::text::views(modifiers@) =~= crate::text::views(before).push(normalized_modifier(part@)));
        } else {
            let ghost before = key_parts@;
            key_parts.push(String::from_str(part));
            assert(crate::text::views(key_parts@) =~= crate::text::views(before).push(part@));
        }
        i = i + 1;
    }
    assert(pv.take(n as int) =~= pv);
    let key = if key_parts.len() == 0 {
        parts[n - 1].clone()
    } else {
        crate::text::join_strings(key_parts.as_slice(), "+")
    };
    (key, modifiers)
}


/// The scroll directions the client accepts.
pub open spec fn scroll_directions() -> Set<Seq<char>> {
    set!["up"@, "down"@, "left"@, "right"@]
}

/// The lower-cased scroll direction, or the message for an invalid one.
pub fn scroll_direction(direction: &str) -> (r: Result<String, String>)
    ensures
        scroll_directions().contains(lowercase(direction@)) ==> (r matches Ok(d) && d@ == lowercase(direction@)),
        !scroll_directions().contains(lowercase(direction@)) ==> (r matches Err(m)
            && m@ == "Invalid direction '"@ + direction@ + "'. Use: up, down, left, right."@),
{
    let lower = to_lower(direction);
    let l = lower.as_str();
    if str_equal(l, "up") || str_equal(l, "down") || str_equal(l, "left") || str_equal(l, "right") {
        Ok(lower)
    } else {
        Err(concat3("Invalid direction '", direction, "'. Use: up, down, left, right."))
    }
}

/// The `get` targets the client accepts.
pub open spec fn get_targets() -> Set<Seq<char>> {
    set!["text"@, "title"@, "url"@, "apps"@, "windows"@]
}

/// The `get` targets accepted are exactly the five that the refusal message
/// names: text, title, url, apps and windows.
pub proof fn law_get_targets_named_in_refusal(target: Seq<char>)
    ensures
        get_targets().contains(target) <==> (target == "text"@ || target == "title"@ || target == "url"@
            || target == "apps"@ || target == "windows"@),
{
}

/// The lower-cased `get` target, or the message for an invalid one.
pub fn get_target(what: &str) -> (r: Result<String, String>)
    ensures
        get_targets().contains(lowercase(what@)) ==> (r matches Ok(w) && w@ == lowercase(what@)),
        !get_targets().contains(lowercase(what@)) ==> (r matches Err(m)
            && m@ == "Invalid target '"@ + what@ + "'. Use: text, title, url, apps, windows."@),
{
    let lower = to_lower(what);
    let l = lower.as_str();
    if str_equal(l, "text") || str_equal(l, "title") || str_equal(l, "url") || str_equal(l, "apps") || str_equal(l, "windows") {
        Ok(lower)
    } else {
        Err(concat3("Invalid target '", what, "'. Use: text, title, url, apps, windows."))
    }
}

/// The message for an argument that is not an element reference; `example`
/// is the reference shown as an example.
pub open spec fn invalid_ref_message(input: Seq<char>, example: Seq<char>) -> Seq<char> {
    "Invalid ref '"@ + input + "'. Use @e<number> format (e.g. "@ + example + ")."@
}

/// The element reference an argument names, or the message for an invalid one.
pub fn require_ref(input: &str, example: &str) -> (r: Result<String, String>)
    ensures
        parsed_ref(input@) matches Some(p) ==> (r matches Ok(s) && s@ == p),
        parsed_ref(input@) is None ==> (r matches Err(m) && m@ == invalid_ref_message(input@, example@)),
{
    match parse_ref(input) {
        Some(s) => Ok(s),
        None => {
            let mut m = concat3("Invalid ref '", input, "'. Use @e<number> format (e.g. ");
            m.append(example);
            m.append(").");
            Err(m)
        },
    }
}

/// The arguments of `type`: with two arguments the first is the element
/// and the second the text; with one, it is the text.
pub fn type_target(ref_or_text: &str, text: Option<&str>) -> (r: Result<(Option<String>, String), String>)
    ensures
        match text {
            Some(t) => match parsed_ref(ref_or_text@) {
                Some(p) => r matches Ok((Some(x), y)) && x@ == p && y@ == t@,
                None => r matches Err(m) && m@ == invalid_ref_message(ref_or_text@, "@e4"@),
            },
            None => r matches Ok((None, y)) && y@ == ref_or_text@,
        },
{
    match text {
        Some(t) => match require_ref(ref_or_text, "@e4") {
            Ok(x) => Ok((Some(x), String::from_str(t))),
            Err(m) => Err(m),
        },
        None => Ok((None, String::from_str(ref_or_text))),
    }
}

/// What a click argument designates.
pub enum ClickTarget {
    /// A point, given by two numbers.
    Coordinates,
    /// An element reference.
    Ref(String),
}

/// What `click` was given: with a second value, a point (the first value
/// must then be a number); otherwise an element reference. `x_is_number`
/// says whether the first value reads as a number.
pub fn click_target(ref_or_x: &str, has_y: bool, x_is_number: bool) -> (r: Result<ClickTarget, String>)
    ensures
        has_y && x_is_number ==> (r matches Ok(ClickTarget::Coordinates)),
        has_y && !x_is_number ==> (r matches Err(m) && m@ == "Invalid X coordinate '"@ + ref_or_x@ + "'"@),
        !has_y ==> match parsed_ref(ref_or_x@) {
            Some(p) => r matches Ok(ClickTarget::Ref(s)) && s@ == p,
            None => if x_is_number {
                r matches Err(m) && m@ == "Click by coordinates requires both X and Y values."@
            } else {
                r matches Err(m) && m@ == "Invalid ref '"@ + ref_or_x@ + "'. Use @e<number> format (e.g. @e3) or provide X Y coordinates."@
            },
        },
{
    if has_y {
        if x_is_number {
            Ok(ClickTarget::Coordinates)
        } else {
            Err(concat3("Invalid X coordinate '", ref_or_x, "'"))
        }
    } else {
        match parse_ref(ref_or_x) {
            Some(s) => Ok(ClickTarget::Ref(s)),
            None => if x_is_number {
                Err(String::from_str("Click by coordinates requires both X and Y values."))
            } else {
                Err(concat3("Invalid ref '", ref_or_x, "'. Use @e<number> format (e.g. @e3) or provide X Y coordinates."))
            },
        }
    }
}

/// The arguments of `press`: the parsed key and its modifiers, none when
/// the combination has no modifier.
pub fn press_request(key: &str, app: Option<String>) -> (r: PressArgs)
    ensures
        r.key@ == key_combo(key@).0,
        key_combo(key@).1.len() == 0 ==> r.modifiers is None,
        key_combo(key@).1.len() > 0 ==> (r.modifiers matches Some(m) && views(m@) == key_combo(key@).1),
        r.app == app,
{
    let (parsed_key, modifiers) = parse_key_combo(key);
    let mods = if modifiers.len() == 0 { None } else { Some(modifiers) };
    PressArgs { key: parsed_key, modifiers: mods, app }
}

/// The arguments of `open`: opening with a DevTools port implies opening in
/// the background.
pub fn open_request(target: String, with_cdp: bool, background: bool) -> (r: OpenArgs)
    ensures
        r.target@ == target@,
        r.with_cdp == with_cdp,
        r.background == (background || with_cdp),
{
    OpenArgs { target, with_cdp, background: background || with_cdp }
}

} // verus!
