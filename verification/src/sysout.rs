//! Reading what system tools print: trimming, lines, separators, signed
//! numbers, and the app lists, pids and window titles the daemon asks
//! AppleScript and `pgrep` for.
use vstd::prelude::*;
use vstd::string::*;
use crate::protocol::AppInfo;
use crate::cli::{lemma_split_nonempty, split_char, split_on};
use crate::text::{
    all_digits, digit_value, digits_value, is_digit, lemma_digits_value_monotone, str_equal, strip_all, trim_start_char, views,
};
use crate::workspace::{app_views, AppInfoView};

verus! {

/// Whether `c` has the Unicode `White_Space` property (`char::is_whitespace`).
pub open spec fn is_space(c: char) -> bool {
    ('\u{9}' <= c && c <= '\u{d}') || c == ' ' || c == '\u{85}' || c == '\u{a0}' || c == '\u{1680}'
        || ('\u{2000}' <= c && c <= '\u{200a}') || c == '\u{2028}' || c == '\u{2029}' || c == '\u{202f}'
        || c == '\u{205f}' || c == '\u{3000}'
}

/// Tests `char::is_whitespace`.
pub fn char_is_space(c: char) -> (r: bool)
    ensures
        r == is_space(c),
{
    ('\u{9}' <= c && c <= '\u{d}') || c == ' ' || c == '\u{85}' || c == '\u{a0}' || c == '\u{1680}'
        || ('\u{2000}' <= c && c <= '\u{200a}') || c == '\u{2028}' || c == '\u{2029}' || c == '\u{202f}'
        || c == '\u{205f}' || c == '\u{3000}'
}

/// The number of leading whitespace characters of `s`.
pub open spec fn leading_space(s: Seq<char>) -> nat
    decreases s.len(),
{
    if s.len() > 0 && is_space(s[0]) { 1 + leading_space(s.drop_first()) } else { 0 }
}

/// The number of trailing whitespace characters of `s`.
pub open spec fn trailing_space(s: Seq<char>) -> nat
    decreases s.len(),
{
    if s.len() > 0 && is_space(s.last()) { 1 + trailing_space(s.drop_last()) } else { 0 }
}

/// `s` without leading and trailing whitespace (`str::trim`).
pub open spec fn trimmed(s: Seq<char>) -> Seq<char> {
    let front = s.skip(leading_space(s) as int);
    front.take(front.len() - trailing_space(front))
}

proof fn lemma_leading_space_bound(s: Seq<char>)
    ensures
        leading_space(s) <= s.len(),
    decreases s.len(),
{
    if s.len() > 0 && is_space(s[0]) {
        lemma_leading_space_bound(s.drop_first());
    }
}

/// `s` without its leading and trailing whitespace.
pub fn trim(s: &str) -> (r: &str)
    ensures
        r@ == trimmed(s@),
{
    let n = s.unicode_len();
    let mut i: usize = 0;
    assert(s@.skip(0) =~= s@);
    while i < n && char_is_space(s.get_char(i))
        invariant
            n == s@.len(),
            i <= n,
            leading_space(s@) == i + leading_space(s@.skip(i as int)),
        decreases n - i,
    {
        proof {
            let t = s@.skip(i as int);
            assert(t[0] == s@[i as int]);
            assert(t.drop_first() =~= s@.skip(i + 1));
        }
        i = i + 1;
    }
    proof {
        let t = s@.skip(i as int);
        if i < n {
            assert(t[0] == s@[i as int]);
        }
        assert(leading_space(t) == 0);
        lemma_leading_space_bound(s@);
    }
    let ghost front = s@.skip(i as int);
    let mut j: usize = n;
    assert(front.take(front.len() as int) =~= front);
    while j > i && char_is_space(s.get_char(j - 1))
        invariant
            n == s@.len(),
            i <= j <= n,
            front == s@.skip(i as int),
            trailing_space(front) == (n - j) + trailing_space(front.take(j - i)),
        decreases j,
    {
        proof {
            let t = front.take(j - i);
            assert(t.last() == s@[j - 1]);
            assert(t.drop_last() =~= front.take(j - 1 - i));
        }
        j = j - 1;
    }
    proof {
        let t = front.take(j - i);
        if j > i {
            assert(t.last() == s@[j - 1]);
        }
        assert(trailing_space(t) == 0);
        assert(front.take(front.len() - trailing_space(front)) =~= s@.subrange(i as int, j as int));
    }
    s.substring_char(i, j)
}

/// `s` cut at every occurrence of the non-empty `sep`, scanning left to
/// right (`str::split` with a string pattern).
pub open spec fn split_str(s: Seq<char>, sep: Seq<char>) -> Seq<Seq<char>>
    decreases s.len(),
{
    if sep.len() == 0 || s.len() < sep.len() {
        seq![s]
    } else if s.take(sep.len() as int) == sep {
        seq![Seq::<char>::empty()] + split_str(s.skip(sep.len() as int), sep)
    } else {
        let rest = split_str(s.drop_first(), sep);
        rest.update(0, seq![s[0]] + rest[0])
    }
}

/// Splitting always yields at least one piece.
pub proof fn lemma_split_str_nonempty(s: Seq<char>, sep: Seq<char>)
    ensures
        split_str(s, sep).len() >= 1,
    decreases s.len(),
{
    if sep.len() > 0 && s.len() >= sep.len() {
        if s.take(sep.len() as int) == sep {
            lemma_split_str_nonempty(s.skip(sep.len() as int), sep);
        } else {
            lemma_split_str_nonempty(s.drop_first(), sep);
        }
    }
}

/// `list` with `p` put in front of its first element.
pub open spec fn prefix_first(p: Seq<char>, list: Seq<Seq<char>>) -> Seq<Seq<char>> {
    list.update(0, p + list[0])
}

/// Whether `sep` occurs in `s` at position `i`.
fn occurs_at(s: &str, sep: &str, i: usize) -> (r: bool)
    requires
        i <= s@.len(),
    ensures
        r == (i + sep@.len() <= s@.len() && s@.subrange(i as int, i + sep@.len()) == sep@),
{
    let n = s.unicode_len();
    let k = sep.unicode_len();
    if k > n - i {
        return false;
    }
    let mut t: usize = 0;
    while t < k
        invariant
            n == s@.len(),
            k == sep@.len(),
            i + k <= n,
            t <= k,
            forall|u: int| 0 <= u < t ==> s@[i + u] == sep@[u],
        decreases k - t,
    {
        if s.get_char(i + t) != sep.get_char(t) {
            assert(s@.subrange(i as int, i + k)[t as int] != sep@[t as int]);
            return false;
        }
        t = t + 1;
    }
    assert(s@.subrange(i as int, i + k) =~= sep@);
    true
}

/// Cuts `s` at every occurrence of the non-empty `sep`.
pub fn split_by(s: &str, sep: &str) -> (r: Vec<String>)
    requires
        sep@.len() > 0,
    ensures
        views(r@) == split_str(s@, sep@),
{
    let n = s.unicode_len();
    let k = sep.unicode_len();
    let mut out: Vec<String> = Vec::new();
    let mut start: usize = 0;
    let mut i: usize = 0;
    assert(s@.subrange(0, n as int) =~= s@);
    assert(s@.subrange(0, 0) =~= Seq::<char>::empty());
    proof {
        lemma_split_str_nonempty(s@, sep@);
        assert(prefix_first(Seq::empty(), split_str(s@, sep@)) =~= split_str(s@, sep@));
    }
    while i < n
        invariant
            n == s@.len(),
            k == sep@.len(),
            k > 0,
            start <= i <= n,
            views(out@) + prefix_first(s@.subrange(start as int, i as int), split_str(s@.subrange(i as int, n as int), sep@))
                == split_str(s@, sep@),
        decreases n - i,
    {
        let ghost tail = s@.subrange(i as int, n as int);
        proof {
            lemma_split_str_nonempty(tail, sep@);
        }
        if occurs_at(s, sep, i) {
            proof {
                assert(tail.take(k as int) =~= sep@);
                assert(tail.skip(k as int) =~= s@.subrange(i + k, n as int));
                lemma_split_str_nonempty(tail.skip(k as int), sep@);
                let piece = s@.subrange(start as int, i as int);
                let after = split_str(s@.subrange(i + k, n as int), sep@);
                assert(prefix_first(piece, seq![Seq::<char>::empty()] + after) =~= seq![piece] + after);
                assert(prefix_first(Seq::<char>::empty(), after) =~= after);
            }
            let ghost before = views(out@);
            out.push(s.substring_char(start, i).to_owned());
            assert(views(out@) =~= before.push(s@.subrange(start as int, i as int)));
            i = i + k;
            start = i;
            proof {
                let piece = s@.subrange(start as int, i as int);
                assert(piece =~= Seq::<char>::empty());
            }
        } else {
            proof {
                let rest_s = s@.subrange(i + 1, n as int);
                assert(tail.drop_first() =~= rest_s);
                assert(tail[0] == s@[i as int]);
                lemma_split_str_nonempty(rest_s, sep@);
                if tail.len() >= k {
                    assert(tail.take(k as int) != sep@) by {
                        if tail.take(k as int) == sep@ {
                            assert(s@.subrange(i as int, i + k) =~= tail.take(k as int));
                        }
                    }
                } else {
                    assert(split_str(rest_s, sep@) == seq![rest_s]);
                    assert(seq![tail[0]] + rest_s =~= tail);
                    assert(split_str(tail, sep@) == seq![tail]);
                    assert(seq![tail] =~= split_str(rest_s, sep@).update(0, seq![tail[0]] + split_str(rest_s, sep@)[0]));
                }
                let rest = split_str(rest_s, sep@);
                assert(split_str(tail, sep@) == rest.update(0, seq![tail[0]] + rest[0]));
                let p = s@.subrange(start as int, i as int);
                assert(s@.subrange(start as int, i + 1) =~= p + seq![tail[0]]);
                assert(p + (seq![tail[0]] + rest[0]) =~= (p + seq![tail[0]]) + rest[0]);
                assert(prefix_first(s@.subrange(start as int, i as int), split_str(tail, sep@))
                    =~= prefix_first(s@.subrange(start as int, i + 1), rest));
            }
            i = i + 1;
        }
    }
    proof {
        let empty_tail = s@.subrange(n as int, n as int);
        assert(empty_tail =~= Seq::<char>::empty());
        assert(split_str(empty_tail, sep@) == seq![empty_tail]);
        assert(prefix_first(s@.subrange(start as int, n as int), seq![empty_tail]) =~= seq![s@.subrange(start as int, n as int)]);
    }
    let ghost before = views(out@);
    out.push(s.substring_char(start, n).to_owned());
    assert(views(out@) =~= before.push(s@.subrange(start as int, n as int)));
    out
}


/// A line without the `\r` of a `\r\n` ending.
pub open spec fn strip_cr(l: Seq<char>) -> Seq<char> {
    if l.len() > 0 && l.last() == '\r' { l.drop_last() } else { l }
}

/// The lines of `s` (`str::lines`): cut at `\n`, a `\r` before a `\n`
/// dropped, no final empty line after a closing `\n`, none at all for the
/// empty string.
pub open spec fn lines_of(s: Seq<char>) -> Seq<Seq<char>> {
    let parts = split_on(s, '\n');
    let m = parts.len() - 1;
    let body = parts.take(m).map_values(|l: Seq<char>| strip_cr(l));
    if parts[m].len() == 0 { body } else { body.push(parts[m]) }
}

/// The lines of `s`.
pub fn lines(s: &str) -> (r: Vec<String>)
    ensures
        views(r@) == lines_of(s@),
{
    let parts = split_char(s, '\n');
    proof {
        lemma_split_nonempty(s@, '\n');
    }
    let ghost pv = views(parts@);
    let m = parts.len() - 1;
    let mut out: Vec<String> = Vec::new();
    let mut i: usize = 0;
    while i < m
        invariant
            pv == views(parts@),
            pv == split_on(s@, '\n'),
            m == parts.len() - 1,
            i <= m,
            views(out@) =~= pv.take(i as int).map_values(|l: Seq<char>| strip_cr(l)),
        decreases m - i,
    {
        let line = parts[i].as_str();
        let k = line.unicode_len();
        let piece: String = if k > 0 && line.get_char(k - 1) == '\r' {
            line.substring_char(0, k - 1).to_owned()
        } else {
            line.to_owned()
        };
        proof {
            assert(line@ == pv[i as int]);
            if k > 0 && line@.last() == '\r' {
                assert(line@.subrange(0, k - 1) =~= line@.drop_last());
            }
        }
        let ghost before = views(out@);
        out.push(piece);
        assert(views(out@) =~= before.push(strip_cr(pv[i as int])));
        assert(pv.take(i + 1).map_values(|l: Seq<char>| strip_cr(l)) =~= pv.take(i as int).map_values(|l: Seq<char>| strip_cr(l)).push(strip_cr(pv[i as int])));
        i = i + 1;
    }
    if parts[m].unicode_len() > 0 {
        let ghost before = views(out@);
        out.push(parts[m].clone());
        assert(views(out@) =~= before.push(pv[m as int]));
    }
    out
}

/// The value of a decimal `i32` (`str::parse::<i32>`): an optional sign and
/// at least one ASCII digit, within the range of `i32`.
pub open spec fn parse_i32(s: Seq<char>) -> Option<int> {
    let signed = s.len() > 0 && (s[0] == '+' || s[0] == '-');
    let negative = s.len() > 0 && s[0] == '-';
    let body = if signed { s.drop_first() } else { s };
    if body.len() > 0 && all_digits(body) {
        let v = digits_value(body);
        if negative {
            if v <= 0x8000_0000 { Some(-v) } else { None }
        } else {
            if v <= 0x7fff_ffff { Some(v as int) } else { None }
        }
    } else {
        None
    }
}

/// Reads a decimal `i32`.
pub fn parse_i32_str(s: &str) -> (r: Option<i32>)
    ensures
        match parse_i32(s@) {
            Some(v) => r == Some(v as i32) && v == r.unwrap() as int,
            None => r is None,
        },
{
    let n = s.unicode_len();
    let signed = n > 0 && (s.get_char(0) == '+' || s.get_char(0) == '-');
    let negative = n > 0 && s.get_char(0) == '-';
    let start: usize = if signed { 1 } else { 0 };
    let limit: u64 = if negative { 0x8000_0000 } else { 0x7fff_ffff };
    let ghost body = if signed { s@.drop_first() } else { s@ };
    assert(body =~= s@.subrange(start as int, n as int));
    if start >= n {
        return None;
    }
    let mut value: u64 = 0;
    let mut i: usize = start;
    while i < n
        invariant
            n == s@.len(),
            start <= i <= n,
            body =~= s@.subrange(start as int, n as int),
            signed == (s@.len() > 0 && (s@[0] == '+' || s@[0] == '-')),
            negative == (s@.len() > 0 && s@[0] == '-'),
            body == (if signed { s@.drop_first() } else { s@ }),
            start == (if signed { 1usize } else { 0usize }),
            limit == (if negative { 0x8000_0000u64 } else { 0x7fff_ffffu64 }),
            all_digits(s@.subrange(start as int, i as int)),
            value as nat == digits_value(s@.subrange(start as int, i as int)),
            value <= limit,
        decreases n - i,
    {
        let c = s.get_char(i);
        if !('0' <= c && c <= '9') {
            proof {
                assert(body[i - start] == c);
                assert(!is_digit(body[i - start]));
            }
            return None;
        }
        let d: u64 = (c as u32 - 48) as u64;
        let ghost prefix = s@.subrange(start as int, i + 1);
        assert(prefix.drop_last() =~= s@.subrange(start as int, i as int));
        assert(digits_value(prefix) == value * 10 + d);
        if value * 10 + d > limit {
            proof {
                if all_digits(body) {
                    lemma_digits_value_monotone(body, (i + 1 - start) as int);
                    assert(body.subrange(0, (i + 1 - start) as int) =~= prefix);
                }
            }
            return None;
        }
        value = value * 10 + d;
        i = i + 1;
    }
    assert(s@.subrange(start as int, n as int) =~= body);
    if negative {
        let v: i64 = -(value as i64);
        Some(v as i32)
    } else {
        Some(value as i32)
    }
}

/// The non-empty pieces of `pieces`, in order.
pub open spec fn non_empty(pieces: Seq<Seq<char>>) -> Seq<Seq<char>>
    decreases pieces.len(),
{
    if pieces.len() == 0 {
        Seq::empty()
    } else {
        let rest = non_empty(pieces.drop_last());
        if pieces.last().len() > 0 { rest.push(pieces.last()) } else { rest }
    }
}

/// The app names in AppleScript's list output (`a, b, c`), without empty ones.
pub open spec fn app_names_in(stdout: Seq<char>) -> Seq<Seq<char>> {
    non_empty(split_str(trimmed(stdout), ", "@))
}

/// The app names that AppleScript printed as a comma-separated list.
pub fn parse_app_names(stdout: &str) -> (r: Vec<String>)
    ensures
        views(r@) == app_names_in(stdout@),
{
    let t = trim(stdout);
    proof {
        reveal_strlit(", ");
    }
    let pieces = split_by(t, ", ");
    let ghost pv = views(pieces@);
    let n = pieces.len();
    let mut out: Vec<String> = Vec::new();
    let mut i: usize = 0;
    while i < n
        invariant
            n == pieces.len(),
            pv == views(pieces@),
            i <= n,
            views(out@) == non_empty(pv.take(i as int)),
        decreases n - i,
    {
        assert(pv.take(i + 1).drop_last() =~= pv.take(i as int));
        let ghost before = views(out@);
        if pieces[i].unicode_len() > 0 {
            out.push(pieces[i].clone());
            assert(views(out@) =~= before.push(pv[i as int]));
        }
        i = i + 1;
    }
    assert(pv.take(n as int) =~= pv);
    out
}

/// The app a line `name||pid||frontmost` describes, when it has three
/// fields; a pid that is not a number reads as 0.
pub open spec fn app_line_entry(line: Seq<char>) -> Option<AppInfoView> {
    let parts = split_str(line, "||"@);
    if parts.len() >= 3 {
        Some(AppInfoView {
            name: parts[0],
            pid: match parse_i32(parts[1]) {
                Some(v) => v as i32,
                None => 0,
            },
            is_active: trimmed(parts[2]) == "true"@,
        })
    } else {
        None
    }
}

/// The apps described by the lines that have three fields, in order.
pub open spec fn app_entries(lines: Seq<Seq<char>>) -> Seq<AppInfoView>
    decreases lines.len(),
{
    if lines.len() == 0 {
        Seq::empty()
    } else {
        let rest = app_entries(lines.drop_last());
        match app_line_entry(lines.last()) {
            Some(a) => rest.push(a),
            None => rest,
        }
    }
}

/// The running GUI apps that AppleScript printed one per line as
/// `name||pid||frontmost`.
pub fn parse_gui_apps(stdout: &str) -> (r: Vec<AppInfo>)
    ensures
        app_views(r@) == app_entries(lines_of(trimmed(stdout@))),
{
    let t = trim(stdout);
    let ls = lines(t);
    let ghost lv = views(ls@);
    let n = ls.len();
    let mut out: Vec<AppInfo> = Vec::new();
    let mut i: usize = 0;
    proof {
        reveal_strlit("||");
        reveal_strlit("true");
    }
    while i < n
        invariant
            n == ls.len(),
            lv == views(ls@),
            i <= n,
            app_views(out@) == app_entries(lv.take(i as int)),
        decreases n - i,
    {
        assert(lv.take(i + 1).drop_last() =~= lv.take(i as int));
        proof {
            reveal_strlit("||");
            reveal_strlit("true");
        }
        let parts = split_by(ls[i].as_str(), "||");
        let ghost before = app_views(out@);
        if parts.len() >= 3 {
            let pid = match parse_i32_str(parts[1].as_str()) {
                Some(v) => v,
                None => 0,
            };
            let active = str_equal(trim(parts[2].as_str()), "true");
            out.push(AppInfo { name: parts[0].clone(), pid, is_active: active });
            proof {
                assert(views(parts@)[0] == parts@[0]@);
                assert(views(parts@)[1] == parts@[1]@);
                assert(views(parts@)[2] == parts@[2]@);
            }
            assert(app_views(out@) =~= before.push(app_line_entry(lv[i as int]).unwrap()));
        }
        i = i + 1;
    }
    assert(lv.take(n as int) =~= lv);
    out
}

/// The pid on the first line `pgrep` printed, if that line is a number.
pub open spec fn first_pid(stdout: Seq<char>) -> Option<int> {
    let ls = lines_of(trimmed(stdout));
    if ls.len() == 0 { None } else { parse_i32(ls[0]) }
}

/// The pid on the first line of `pgrep`'s output.
pub fn parse_first_pid(stdout: &str) -> (r: Option<i32>)
    ensures
        match first_pid(stdout@) {
            Some(v) => r matches Some(p) && p as int == v,
            None => r is None,
        },
{
    let t = trim(stdout);
    let ls = lines(t);
    if ls.len() == 0 {
        return None;
    }
    assert(views(ls@)[0] == ls@[0]@);
    parse_i32_str(ls[0].as_str())
}

/// A window title AppleScript printed: the trimmed text, none when empty.
pub fn parse_window_title(stdout: &str) -> (r: Option<String>)
    ensures
        trimmed(stdout@).len() == 0 ==> r is None,
        trimmed(stdout@).len() > 0 ==> (r matches Some(t) && t@ == trimmed(stdout@)),
{
    let t = trim(stdout);
    if t.unicode_len() == 0 { None } else { Some(t.to_owned()) }
}

/// Whether AppleScript printed anything but whitespace (a process was found).
pub fn printed_something(stdout: &str) -> (r: bool)
    ensures
        r == (trimmed(stdout@).len() > 0),
{
    trim(stdout).unicode_len() > 0
}


/// `s` with every trailing `c` removed.
pub open spec fn strip_trailing(s: Seq<char>, c: char) -> Seq<char>
    decreases s.len(),
{
    if s.len() > 0 && s.last() == c { strip_trailing(s.drop_last(), c) } else { s }
}

/// `s` with every leading and trailing `c` removed (`str::trim_matches`).
pub open spec fn strip_both(s: Seq<char>, c: char) -> Seq<char> {
    strip_trailing(strip_all(s, c), c)
}

/// `s` with every leading and trailing `c` removed.
pub fn trim_char(s: &str, c: char) -> (r: &str)
    ensures
        r@ == strip_both(s@, c),
{
    let t = trim_start_char(s, c);
    let n = t.unicode_len();
    let mut j: usize = n;
    assert(t@.take(n as int) =~= t@);
    while j > 0 && t.get_char(j - 1) == c
        invariant
            n == t@.len(),
            j <= n,
            strip_trailing(t@, c) == strip_trailing(t@.take(j as int), c),
        decreases j,
    {
        proof {
            let u = t@.take(j as int);
            assert(u.drop_last() =~= t@.take(j - 1));
        }
        j = j - 1;
    }
    proof {
        let u = t@.take(j as int);
        assert(!(u.len() > 0 && u.last() == c));
        assert(t@.subrange(0, j as int) =~= u);
    }
    t.substring_char(0, j)
}

/// The bundle id a line of `lsappinfo` output names, if it is a
/// `"bundleid"=` line with a non-empty value.
pub open spec fn bundle_id_in_line(line: Seq<char>) -> Option<Seq<char>> {
    let key = "\"bundleid\"="@;
    if line.len() >= key.len() && line.take(key.len() as int) == key {
        let bid = strip_both(trimmed(line.skip(key.len() as int)), '"');
        if bid.len() > 0 { Some(bid) } else { None }
    } else {
        None
    }
}

/// The bundle id of the first line, from `k` on, that names one.
pub open spec fn first_bundle_id(lines: Seq<Seq<char>>, k: int) -> Option<Seq<char>>
    decreases lines.len() - k,
{
    if k < 0 || k >= lines.len() {
        None
    } else {
        match bundle_id_in_line(lines[k]) {
            Some(b) => Some(b),
            None => first_bundle_id(lines, k + 1),
        }
    }
}

/// The bundle id in `lsappinfo info -only bundleid` output.
pub fn parse_bundle_id(stdout: &str) -> (r: Option<String>)
    ensures
        match first_bundle_id(lines_of(stdout@), 0) {
            Some(b) => r matches Some(x) && x@ == b,
            None => r is None,
        },
{
    let ls = lines(stdout);
    let ghost lv = views(ls@);
    let n = ls.len();
    let mut i: usize = 0;
    let key = "\"bundleid\"=";
    proof {
        reveal_strlit("\"bundleid\"=");
    }
    let k = key.unicode_len();
    while i < n
        invariant
            n == ls.len(),
            lv == views(ls@),
            lv == lines_of(stdout@),
            i <= n,
            k == key@.len(),
            key@ == "\"bundleid\"="@,
            first_bundle_id(lv, 0) == first_bundle_id(lv, i as int),
        decreases n - i,
    {
        let line = ls[i].as_str();
        assert(line@ == lv[i as int]);
        let m = line.unicode_len();
        if m >= k && str_equal(line.substring_char(0, k), key) {
            let rest = line.substring_char(k, m);
            assert(rest@ =~= line@.skip(k as int));
            assert(line@.subrange(0, k as int) =~= line@.take(k as int));
            let bid = trim_char(trim(rest), '"');
            if bid.unicode_len() > 0 {
                return Some(bid.to_owned());
            }
        } else {
            proof {
                if line@.len() >= k && line@.take(k as int) == key@ {
                    assert(line@.subrange(0, k as int) =~= line@.take(k as int));
                }
            }
        }
        i = i + 1;
    }
    None
}

/// `Path::new(s).parent()`, as text.
pub uninterp spec fn path_parent(s: Seq<char>) -> Option<Seq<char>>;

/// `Path::new(s).extension()`, as text.
pub uninterp spec fn path_extension(s: Seq<char>) -> Option<Seq<char>>;

/// The parent of a path (`Path::parent`): the path without its final
/// component, none for a root, a prefix or the empty path. The component
/// rules are std's and are not restated; the result is tied to `path_parent`.
#[verifier::external_body]
fn parent_of(s: &str) -> (r: Option<String>)
    ensures
        match path_parent(s@) {
            Some(p) => r matches Some(x) && x@ == p,
            None => r is None,
        },
{
    match std::path::Path::new(s).parent() {
        Some(p) => Some(p.to_string_lossy().into_owned()),
        None => None,
    }
}

/// The extension of a path's file name (`Path::extension`): the text after
/// its last `.`, none when the name has no `.` other than a leading one. The
/// rules are std's and are not restated; the result is tied to `path_extension`.
#[verifier::external_body]
fn extension_of(s: &str) -> (r: Option<String>)
    ensures
        match path_extension(s@) {
            Some(e) => r matches Some(x) && x@ == e,
            None => r is None,
        },
{
    match std::path::Path::new(s).extension() {
        Some(e) => Some(e.to_string_lossy().into_owned()),
        None => None,
    }
}

/// Walking up from `path` (at most `steps` paths), the first whose file
/// name has the extension `app`.
pub open spec fn enclosing_app(path: Seq<char>, steps: nat) -> Option<Seq<char>>
    decreases steps,
{
    if steps == 0 {
        None
    } else if path_extension(path) == Some("app"@) {
        Some(path)
    } else {
        match path_parent(path) {
            Some(p) => enclosing_app(p, (steps - 1) as nat),
            None => None,
        }
    }
}

/// The `.app` bundle that holds an executable: the path itself or the
/// nearest ancestor whose name has the extension `app`. Each step up is a
/// shorter path, so `path.len() + 1` steps cover the whole walk.
pub fn enclosing_app_bundle(path: &str) -> (r: Option<String>)
    ensures
        match enclosing_app(path@, (path@.len() + 1) as nat) {
            Some(b) => r matches Some(x) && x@ == b,
            None => r is None,
        },
{
    let mut current = path.to_owned();
    let mut steps: u128 = path.unicode_len() as u128 + 1;
    proof {
        reveal_strlit("app");
    }
    while steps > 0
        invariant
            enclosing_app(path@, (path@.len() + 1) as nat) == enclosing_app(current@, steps as nat),
        decreases steps,
    {
        match extension_of(current.as_str()) {
            Some(e) => {
                if str_equal(e.as_str(), "app") {
                    return Some(current);
                }
            },
            None => {},
        }
        match parent_of(current.as_str()) {
            Some(p) => {
                current = p;
            },
            None => {
                return None;
            },
        }
        steps = steps - 1;
    }
    None
}


/// The `.app` bundle of the executable path that `ps -o comm=` printed,
/// none when it printed nothing.
pub fn bundle_path_from_ps(stdout: &str) -> (r: Option<String>)
    ensures
        trimmed(stdout@).len() == 0 ==> r is None,
        trimmed(stdout@).len() > 0 ==> match enclosing_app(trimmed(stdout@), (trimmed(stdout@).len() + 1) as nat) {
            Some(b) => r matches Some(x) && x@ == b,
            None => r is None,
        },
{
    let t = trim(stdout);
    if t.unicode_len() == 0 {
        return None;
    }
    enclosing_app_bundle(t)
}

} // verus!
