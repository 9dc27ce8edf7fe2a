//! The decisions behind synthetic input: modifier flags, scroll deltas and the
//! plan for typing text in chunks with Return for line breaks.
use vstd::prelude::*;
use vstd::string::*;
use crate::cli::{lowercase, to_lower};
use crate::text::{str_equal, views};

verus! {

/// Which modifier keys are held.
#[derive(Clone, Copy, Debug, PartialEq, Eq, Structural)]
pub struct ModifierFlags {
    pub command: bool,
    pub shift: bool,
    pub alternate: bool,
    pub control: bool,
}

/// Names that hold Command.
pub open spec fn command_names() -> Set<Seq<char>> {
    set!["cmd"@, "command"@, "meta"@]
}

/// Names that hold Option.
pub open spec fn alternate_names() -> Set<Seq<char>> {
    set!["alt"@, "option"@, "opt"@]
}

/// Names that hold Control.
pub open spec fn control_names() -> Set<Seq<char>> {
    set!["ctrl"@, "control"@]
}

/// Some modifier, lower-cased, is one of `names`.
pub open spec fn names_any(modifiers: Seq<Seq<char>>, names: Set<Seq<char>>) -> bool {
    exists|i: int| 0 <= i < modifiers.len() && names.contains(lowercase(#[trigger] modifiers[i]))
}

/// The flags that a list of modifier names holds; unknown names are ignored.
pub open spec fn flags_of(modifiers: Seq<Seq<char>>) -> ModifierFlags {
    ModifierFlags {
        command: names_any(modifiers, command_names()),
        shift: names_any(modifiers, set!["shift"@]),
        alternate: names_any(modifiers, alternate_names()),
        control: names_any(modifiers, control_names()),
    }
}

/// Each spelling of a modifier that the client sends holds its key, and
/// nothing else does: Command for `cmd`, `command` and `meta`, Shift for
/// `shift`, Option for `alt`, `option` and `opt`, Control for `ctrl` and
/// `control`, whatever their case.
pub proof fn law_modifier_spellings(modifiers: Seq<Seq<char>>)
    ensures
        flags_of(modifiers).command <==> exists|i: int| 0 <= i < modifiers.len()
            && (lowercase(#[trigger] modifiers[i]) == "cmd"@ || lowercase(modifiers[i]) == "command"@ || lowercase(modifiers[i]) == "meta"@),
        flags_of(modifiers).shift <==> exists|i: int| 0 <= i < modifiers.len() && lowercase(#[trigger] modifiers[i]) == "shift"@,
        flags_of(modifiers).alternate <==> exists|i: int| 0 <= i < modifiers.len()
            && (lowercase(#[trigger] modifiers[i]) == "alt"@ || lowercase(modifiers[i]) == "option"@ || lowercase(modifiers[i]) == "opt"@),
        flags_of(modifiers).control <==> exists|i: int| 0 <= i < modifiers.len()
            && (lowercase(#[trigger] modifiers[i]) == "ctrl"@ || lowercase(modifiers[i]) == "control"@),
{
}

/// Parses modifier names (case-insensitively) into flags.
pub fn parse_modifier_flags(modifiers: &[String]) -> (r: ModifierFlags)
    ensures
        r == flags_of(views(modifiers@)),
{
    let ghost v = views(modifiers@);
    let mut flags = ModifierFlags { command: false, shift: false, alternate: false, control: false };
    let n = modifiers.len();
    let mut i: usize = 0;
    while i < n
        invariant
            n == modifiers@.len(),
            v == views(modifiers@),
            i <= n,
            flags == flags_of(v.take(i as int)),
        decreases n - i,
    {
        let m = to_lower(modifiers[i].as_str());
        let s = m.as_str();
        proof {
            let t = v.take(i + 1);
            assert(t.drop_last() =~= v.take(i as int));
            assert(t[i as int] == v[i as int]);
            assert forall|names: Set<Seq<char>>| #[trigger] names_any(t, names) == (names_any(v.take(i as int), names) || names.contains(lowercase(v[i as int]))) by {
                if names_any(t, names) {
                    let k = choose|k: int| 0 <= k < t.len() && names.contains(lowercase(#[trigger] t[k]));
                    if k < i {
                        assert(v.take(i as int)[k] == t[k]);
                    }
                }
                if names_any(v.take(i as int), names) {
                    let k = choose|k: int| 0 <= k < i && names.contains(lowercase(#[trigger] v.take(i as int)[k]));
                    assert(t[k] == v.take(i as int)[k]);
                }
            }
        }
        if str_equal(s, "cmd") || str_equal(s, "command") || str_equal(s, "meta") {
            flags.command = true;
        }
        if str_equal(s, "shift") {
            flags.shift = true;
        }
        if str_equal(s, "alt") || str_equal(s, "option") || str_equal(s, "opt") {
            flags.alternate = true;
        }
        if str_equal(s, "ctrl") || str_equal(s, "control") {
            flags.control = true;
        }
        i = i + 1;
    }
    assert(v.take(n as int) =~= v);
    flags
}

/// The scroll wheel deltas (vertical, horizontal) for a direction, read
/// case-insensitively; `None` for an unknown direction.
pub open spec fn scroll_delta(direction: Seq<char>, amount: int) -> Option<(int, int)> {
    let d = lowercase(direction);
    if d == "up"@ {
        Some((amount, 0))
    } else if d == "down"@ {
        Some((-amount, 0))
    } else if d == "left"@ {
        Some((0, amount))
    } else if d == "right"@ {
        Some((0, -amount))
    } else {
        None
    }
}

/// Computes the scroll wheel deltas for a direction.
pub fn scroll_deltas(direction: &str, amount: i32) -> (r: Option<(i32, i32)>)
    requires
        lowercase(direction@) == "down"@ || lowercase(direction@) == "right"@ ==> amount > i32::MIN,
    ensures
        r matches Some(d) ==> scroll_delta(direction@, amount as int) == Some((d.0 as int, d.1 as int)),
        r is None ==> scroll_delta(direction@, amount as int) is None,
{
    let lower = to_lower(direction);
    let d = lower.as_str();
    if str_equal(d, "up") {
        Some((amount, 0))
    } else if str_equal(d, "down") {
        Some((-amount, 0))
    } else if str_equal(d, "left") {
        Some((0, amount))
    } else if str_equal(d, "right") {
        Some((0, -amount))
    } else {
        None
    }
}

/// The scroll wheel deltas for a direction, refusing (with `None`) the one
/// amount whose negation does not fit in an `i32` when the direction is
/// down or right.
pub fn scroll_deltas_checked(direction: &str, amount: i32) -> (r: Option<(i32, i32)>)
    ensures
        r matches Some(d) ==> scroll_delta(direction@, amount as int) == Some((d.0 as int, d.1 as int)),
        r is None ==> scroll_delta(direction@, amount as int) is None || (amount == i32::MIN
            && (lowercase(direction@) == "down"@ || lowercase(direction@) == "right"@)),
{
    let lower = to_lower(direction);
    let d = lower.as_str();
    if (str_equal(d, "down") || str_equal(d, "right")) && amount == i32::MIN {
        return None;
    }
    scroll_deltas(direction, amount)
}

/// The UTF-16 code units of one character.
pub open spec fn utf16_char(c: char) -> Seq<u16> {
    if (c as u32) < 0x10000 {
        seq![c as u16]
    } else {
        let v = (c as u32 - 0x10000) as u32;
        seq![(0xD800 + v / 0x400) as u16, (0xDC00 + v % 0x400) as u16]
    }
}

/// The UTF-16 encoding of a string (`str::encode_utf16`).
pub open spec fn utf16(s: Seq<char>) -> Seq<u16>
    decreases s.len(),
{
    if s.len() == 0 {
        Seq::empty()
    } else {
        utf16(s.drop_last()) + utf16_char(s.last())
    }
}

/// Encodes a string as UTF-16 code units.
pub fn encode_utf16(s: &str) -> (r: Vec<u16>)
    ensures
        r@ == utf16(s@),
{
    let n = s.unicode_len();
    let mut out: Vec<u16> = Vec::new();
    let mut i: usize = 0;
    assert(s@.take(0) =~= Seq::<char>::empty());
    while i < n
        invariant
            n == s@.len(),
            i <= n,
            out@ == utf16(s@.take(i as int)),
        decreases n - i,
    {
        let c = s.get_char(i);
        let u = c as u32;
        let ghost before = out@;
        if u < 0x10000 {
            out.push(u as u16);
        } else {
            let v = u - 0x10000;
            out.push((0xD800 + v / 0x400) as u16);
            out.push((0xDC00 + v % 0x400) as u16);
        }
        proof {
            assert(s@.take(i + 1).drop_last() =~= s@.take(i as int));
            assert(s@.take(i + 1).last() == c);
            assert(out@ =~= before + utf16_char(c));
        }
        i = i + 1;
    }
    assert(s@.take(n as int) =~= s@);
    out
}

/// The most code units sent in one typing event.
pub const TYPING_CHUNK: usize = 20;

/// The UTF-16 code unit of a line break.
pub const NEWLINE: u16 = 0x000A;

/// One event of typing: a run of text, or a press of Return.
pub enum TypingStep {
    Return,
    Text(Vec<u16>),
}

/// The abstract content of a typing step.
pub enum TypingStepView {
    Return,
    Text(Seq<u16>),
}

impl View for TypingStep {
    type V = TypingStepView;

    open spec fn view(&self) -> TypingStepView {
        match self {
            TypingStep::Return => TypingStepView::Return,
            TypingStep::Text(t) => TypingStepView::Text(t@),
        }
    }
}

/// The views of a sequence of typing steps.
pub open spec fn step_views(s: Seq<TypingStep>) -> Seq<TypingStepView> {
    s.map_values(|t: TypingStep| t@)
}

/// How many leading code units, at most `cap`, precede the first line break.
pub open spec fn run_len(u: Seq<u16>, cap: nat) -> nat
    decreases cap,
{
    if cap == 0 || u.len() == 0 || u[0] == NEWLINE {
        0
    } else {
        1 + run_len(u.drop_first(), (cap - 1) as nat)
    }
}

/// A UTF-16 code unit that opens a surrogate pair.
pub open spec fn is_high_surrogate(c: u16) -> bool {
    0xD800 <= c <= 0xDBFF
}

/// A UTF-16 code unit that closes a surrogate pair.
pub open spec fn is_low_surrogate(c: u16) -> bool {
    0xDC00 <= c <= 0xDFFF
}

/// The length of the next typed chunk: the run before the first line break,
/// capped at `TYPING_CHUNK`, one unit shorter when the cap would fall
/// between the two halves of a surrogate pair.
pub open spec fn chunk_len(u: Seq<u16>) -> nat {
    let k = run_len(u, TYPING_CHUNK as nat);
    if 1 < k < u.len() && is_high_surrogate(u[k - 1]) && is_low_surrogate(u[k as int]) {
        (k - 1) as nat
    } else {
        k
    }
}

/// The typing plan: a Return for each line break, the text between them in
/// chunks of at most `TYPING_CHUNK` code units that never part a surrogate
/// pair.
pub open spec fn typing_plan(u: Seq<u16>) -> Seq<TypingStepView>
    decreases u.len(),
{
    if u.len() == 0 {
        Seq::empty()
    } else if u[0] == NEWLINE {
        seq![TypingStepView::Return] + typing_plan(u.drop_first())
    } else {
        let k = chunk_len(u);
        if 0 < k <= u.len() {
            seq![TypingStepView::Text(u.take(k as int))] + typing_plan(u.skip(k as int))
        } else {
            Seq::empty()
        }
    }
}

/// A run is non-empty when the text does not start with a line break, and
/// never longer than the cap or the text.
pub proof fn lemma_run_len(u: Seq<u16>, cap: nat)
    ensures
        run_len(u, cap) <= cap,
        run_len(u, cap) <= u.len(),
        cap > 0 && u.len() > 0 && u[0] != NEWLINE ==> run_len(u, cap) > 0,
        forall|j: int| 0 <= j < run_len(u, cap) ==> u[j] != NEWLINE,
        run_len(u, cap) < cap && run_len(u, cap) < u.len() ==> u[run_len(u, cap) as int] == NEWLINE,
    decreases cap,
{
    if !(cap == 0 || u.len() == 0 || u[0] == NEWLINE) {
        lemma_run_len(u.drop_first(), (cap - 1) as nat);
        assert forall|j: int| 0 <= j < run_len(u, cap) implies u[j] != NEWLINE by {
            if j > 0 {
                assert(u[j] == u.drop_first()[j - 1]);
            }
        }
    }
}

/// A chunk is non-empty when the text does not start with a line break, never
/// longer than the cap or the text, free of line breaks, and followed by a
/// line break, the end of the text, or a unit that does not close a pair
/// opened by its last unit.
pub proof fn lemma_chunk_len(u: Seq<u16>)
    ensures
        chunk_len(u) <= TYPING_CHUNK,
        chunk_len(u) <= u.len(),
        u.len() > 0 && u[0] != NEWLINE ==> chunk_len(u) > 0,
        forall|j: int| 0 <= j < chunk_len(u) ==> u[j] != NEWLINE,
        0 < chunk_len(u) < u.len() ==> !(is_high_surrogate(u[chunk_len(u) - 1]) && is_low_surrogate(u[chunk_len(u) as int])),
{
    lemma_run_len(u, TYPING_CHUNK as nat);
}

/// What the plan types.
pub open spec fn typed(steps: Seq<TypingStepView>) -> Seq<u16>
    decreases steps.len(),
{
    if steps.len() == 0 {
        Seq::empty()
    } else {
        let first = match steps[0] {
            TypingStepView::Return => seq![NEWLINE],
            TypingStepView::Text(t) => t,
        };
        first + typed(steps.drop_first())
    }
}

/// Typing follows a concatenation of plans piece by piece.
proof fn lemma_typed_concat(a: Seq<TypingStepView>, b: Seq<TypingStepView>)
    ensures
        typed(a + b) == typed(a) + typed(b),
    decreases a.len(),
{
    if a.len() > 0 {
        assert((a + b).drop_first() =~= a.drop_first() + b);
        lemma_typed_concat(a.drop_first(), b);
        assert((a + b)[0] == a[0]);
    } else {
        assert(a + b =~= b);
    }
}

/// Carrying out the typing plan types exactly the text, line breaks as Return.
pub proof fn law_typing_plan_types_text(u: Seq<u16>)
    ensures
        typed(typing_plan(u)) == u,
    decreases u.len(),
{
    if u.len() > 0 {
        if u[0] == NEWLINE {
            law_typing_plan_types_text(u.drop_first());
            let head = seq![TypingStepView::Return];
            lemma_typed_concat(head, typing_plan(u.drop_first()));
            assert(head.drop_first() =~= Seq::<TypingStepView>::empty());
            assert(typed(head) == seq![NEWLINE] + typed(head.drop_first()));
            assert(typed(head) =~= seq![NEWLINE]);
            assert(seq![NEWLINE] + u.drop_first() =~= u);
        } else {
            let k = chunk_len(u);
            lemma_chunk_len(u);
            law_typing_plan_types_text(u.skip(k as int));
            let head = seq![TypingStepView::Text(u.take(k as int))];
            lemma_typed_concat(head, typing_plan(u.skip(k as int)));
            assert(head.drop_first() =~= Seq::<TypingStepView>::empty());
            assert(typed(head) == u.take(k as int) + typed(head.drop_first()));
            assert(typed(head) =~= u.take(k as int));
            assert(u.take(k as int) + u.skip(k as int) =~= u);
        }
    }
}

/// Every text run of the plan is non-empty, at most `TYPING_CHUNK` code units
/// long, and free of line breaks.
pub proof fn law_typing_plan_chunks(u: Seq<u16>)
    ensures
        forall|i: int| 0 <= i < typing_plan(u).len() ==> (#[trigger] typing_plan(u)[i] matches TypingStepView::Text(t)
            ==> 0 < t.len() <= TYPING_CHUNK && forall|j: int| 0 <= j < t.len() ==> t[j] != NEWLINE),
    decreases u.len(),
{
    if u.len() > 0 {
        if u[0] == NEWLINE {
            law_typing_plan_chunks(u.drop_first());
            let rest = typing_plan(u.drop_first());
            assert forall|i: int| 0 <= i < typing_plan(u).len() implies (#[trigger] typing_plan(u)[i] matches TypingStepView::Text(t)
                ==> 0 < t.len() <= TYPING_CHUNK && forall|j: int| 0 <= j < t.len() ==> t[j] != NEWLINE) by {
                if i > 0 {
                    assert(typing_plan(u)[i] == rest[i - 1]);
                }
            }
        } else {
            let k = chunk_len(u);
            lemma_chunk_len(u);
            law_typing_plan_chunks(u.skip(k as int));
            let rest = typing_plan(u.skip(k as int));
            assert forall|i: int| 0 <= i < typing_plan(u).len() implies (#[trigger] typing_plan(u)[i] matches TypingStepView::Text(t)
                ==> 0 < t.len() <= TYPING_CHUNK && forall|j: int| 0 <= j < t.len() ==> t[j] != NEWLINE) by {
                if i > 0 {
                    assert(typing_plan(u)[i] == rest[i - 1]);
                }
            }
        }
    }
}

/// Step `a` is a chunk ending in a high surrogate and step `b` a chunk
/// opening with a low surrogate: one character parted across two events.
pub open spec fn parts_pair(a: TypingStepView, b: TypingStepView) -> bool {
    a matches TypingStepView::Text(t) && b matches TypingStepView::Text(t2) && t.len() > 0 && t2.len() > 0
        && is_high_surrogate(t.last()) && is_low_surrogate(t2[0])
}

/// The first step of a plan types the first unit of the text.
proof fn lemma_plan_opens_with_text(v: Seq<u16>)
    ensures
        typing_plan(v).len() > 0 ==> v.len() > 0 && (typing_plan(v)[0] matches TypingStepView::Text(t) ==> t.len() > 0 && t[0] == v[0]),
{
    if v.len() > 0 && v[0] != NEWLINE {
        lemma_chunk_len(v);
    }
}

/// No two consecutive steps of the plan part a surrogate pair: every
/// character is typed whole, within one event.
pub proof fn law_typing_plan_keeps_pairs(u: Seq<u16>)
    ensures
        forall|i: int| 0 <= i && i + 1 < typing_plan(u).len() ==> !#[trigger] parts_pair(typing_plan(u)[i], typing_plan(u)[i + 1]),
    decreases u.len(),
{
    if u.len() > 0 {
        let plan = typing_plan(u);
        if u[0] == NEWLINE {
            law_typing_plan_keeps_pairs(u.drop_first());
            let rest = typing_plan(u.drop_first());
            assert forall|i: int| 0 <= i && i + 1 < plan.len() implies !#[trigger] parts_pair(plan[i], plan[i + 1]) by {
                if i > 0 {
                    let j = i - 1;
                    assert(!parts_pair(rest[j], rest[j + 1]));
                    assert(plan[i] == rest[j]);
                    assert(plan[i + 1] == rest[j + 1]);
                }
            }
        } else {
            let k = chunk_len(u);
            lemma_chunk_len(u);
            let v = u.skip(k as int);
            law_typing_plan_keeps_pairs(v);
            lemma_plan_opens_with_text(v);
            let rest = typing_plan(v);
            assert forall|i: int| 0 <= i && i + 1 < plan.len() implies !#[trigger] parts_pair(plan[i], plan[i + 1]) by {
                if i > 0 {
                    let j = i - 1;
                    assert(!parts_pair(rest[j], rest[j + 1]));
                    assert(plan[i] == rest[j]);
                    assert(plan[i + 1] == rest[j + 1]);
                } else {
                    assert(plan[0] == TypingStepView::Text(u.take(k as int)));
                    assert(plan[1] == rest[0]);
                    assert(u.take(k as int).last() == u[k - 1]);
                    match rest[0] {
                        TypingStepView::Text(t2) => {
                            assert(t2[0] == v[0]);
                            assert(v[0] == u[k as int]);
                        },
                        TypingStepView::Return => {},
                    }
                }
            }
        }
    }
}

/// Plans how to type `text`: its UTF-16 code units in chunks of at most
/// `TYPING_CHUNK`, with a Return for each line break; a character outside
/// the Basic Multilingual Plane (a surrogate pair) is never split between
/// two chunks.
pub fn plan_typing(text: &str) -> (r: Vec<TypingStep>)
    ensures
        step_views(r@) == typing_plan(utf16(text@)),
        forall|i: int| 0 <= i && i + 1 < r@.len() ==> !#[trigger] parts_pair(r@[i]@, r@[i + 1]@),
{
    let utf16_units = encode_utf16(text);
    let ghost u = utf16_units@;
    let n = utf16_units.len();
    let mut steps: Vec<TypingStep> = Vec::new();
    let mut offset: usize = 0;
    assert(u.skip(0) =~= u);
    assert(step_views(steps@) =~= Seq::<TypingStepView>::empty());
    while offset < n
        invariant
            n == u.len(),
            u == utf16_units@,
            offset <= n,
            step_views(steps@) + typing_plan(u.skip(offset as int)) == typing_plan(u),
        decreases n - offset,
    {
        let ghost rest = u.skip(offset as int);
        let ghost before = step_views(steps@);
        let limit: usize = if n - offset > TYPING_CHUNK { offset + TYPING_CHUNK } else { n };
        let mut i: usize = offset;
        while i < limit && utf16_units[i] != NEWLINE
            invariant
                offset <= i <= limit <= n,
                n == u.len(),
                u == utf16_units@,
                forall|j: int| offset <= j < i ==> u[j] != NEWLINE,
            decreases limit - i,
        {
            i = i + 1;
        }
        let has_newline = i < limit;
        let run_end = i;
        proof {
            lemma_run_len(rest, TYPING_CHUNK as nat);
            assert forall|j: int| 0 <= j < run_end - offset implies rest[j] != NEWLINE by {
                assert(rest[j] == u[offset + j]);
            }
            // the scan stops exactly where the run stops
            lemma_run_len_exact(rest, TYPING_CHUNK as nat, (run_end - offset) as nat, has_newline);
        }
        // a cap between the two halves of a surrogate pair moves one unit back
        let end: usize = if run_end - offset > 1 && run_end < n && 0xD800 <= utf16_units[run_end - 1]
            && utf16_units[run_end - 1] <= 0xDBFF && 0xDC00 <= utf16_units[run_end] && utf16_units[run_end] <= 0xDFFF {
            run_end - 1
        } else {
            run_end
        };
        proof {
            if run_end > offset {
                assert(rest[run_end - offset - 1] == u[run_end - 1]);
            }
            if run_end < n {
                assert(rest[run_end - offset] == u[run_end as int]);
            }
            assert(chunk_len(rest) == end - offset);
            lemma_chunk_len(rest);
        }
        if has_newline && end == offset {
            steps.push(TypingStep::Return);
            proof {
                assert(rest[0] == NEWLINE);
                assert(rest.drop_first() =~= u.skip(offset + 1));
                assert(step_views(steps@) =~= before.push(TypingStepView::Return));
                assert(before.push(TypingStepView::Return) + typing_plan(u.skip(offset + 1))
                    =~= before + (seq![TypingStepView::Return] + typing_plan(rest.drop_first())));
            }
            offset = offset + 1;
        } else {
            let mut chunk: Vec<u16> = Vec::new();
            let mut j: usize = offset;
            while j < end
                invariant
                    offset <= j <= end <= n,
                    n == u.len(),
                    u == utf16_units@,
                    chunk@ == u.subrange(offset as int, j as int),
                decreases end - j,
            {
                chunk.push(utf16_units[j]);
                assert(chunk@ =~= u.subrange(offset as int, j + 1));
                j = j + 1;
            }
            proof {
                assert(chunk@ =~= rest.take((end - offset) as int));
                assert(rest.skip((end - offset) as int) =~= u.skip(end as int));
            }
            steps.push(TypingStep::Text(chunk));
            proof {
                assert(step_views(steps@) =~= before.push(TypingStepView::Text(chunk@)));
                assert(before.push(TypingStepView::Text(chunk@)) + typing_plan(u.skip(end as int))
                    =~= before + (seq![TypingStepView::Text(rest.take((end - offset) as int))] + typing_plan(rest.skip((end - offset) as int))));
            }
            offset = end;
        }
    }
    assert(u.skip(n as int) =~= Seq::<u16>::empty());
    assert(step_views(steps@) + Seq::<TypingStepView>::empty() =~= step_views(steps@));
    proof {
        law_typing_plan_keeps_pairs(u);
        assert forall|i: int| 0 <= i && i + 1 < steps@.len() implies !#[trigger] parts_pair(steps@[i]@, steps@[i + 1]@) by {
            assert(step_views(steps@)[i] == steps@[i]@);
            assert(step_views(steps@)[i + 1] == steps@[i + 1]@);
        }
    }
    steps
}

/// The scan of the typing loop finds the run: it stops at a line break, or at
/// the cap or the end of the text.
proof fn lemma_run_len_exact(rest: Seq<u16>, cap: nat, k: nat, found: bool)
    requires
        rest.len() > 0,
        cap > 0,
        k <= cap,
        k <= rest.len(),
        forall|j: int| 0 <= j < k ==> rest[j] != NEWLINE,
        found ==> k < rest.len() && rest[k as int] == NEWLINE,
        !found ==> k == cap || k == rest.len(),
    ensures
        run_len(rest, cap) == k,
    decreases cap,
{
    if k == 0 {
        if !found {
            assert(false);
        }
    } else {
        assert(rest[0] != NEWLINE);
        assert forall|j: int| 0 <= j < k - 1 implies rest.drop_first()[j] != NEWLINE by {
            assert(rest.drop_first()[j] == rest[j + 1]);
        }
        if found {
            assert(rest.drop_first()[k - 1] == rest[k as int]);
        }
        if rest.len() > 1 && cap > 1 {
            lemma_run_len_exact(rest.drop_first(), (cap - 1) as nat, (k - 1) as nat, found);
        } else {
            lemma_run_len_zero(rest.drop_first(), (cap - 1) as nat);
        }
    }
}

proof fn lemma_run_len_zero(u: Seq<u16>, cap: nat)
    requires
        cap == 0 || u.len() == 0,
    ensures
        run_len(u, cap) == 0,
{
}


/// A mouse button.
#[derive(Clone, Copy, Debug, PartialEq, Eq, Structural)]
pub enum MouseButton {
    Left,
    Right,
}

/// One synthetic mouse event of a click: a button going down or up, with
/// the click count the event carries.
#[derive(Clone, Copy, Debug, PartialEq, Eq, Structural)]
pub struct MouseEventStep {
    pub button: MouseButton,
    pub down: bool,
    pub click_state: i64,
}

/// The events of a click with `button`, posted in order: a double click is
/// two down/up pairs carrying click states 1 and 2; any other count is one
/// pair carrying that count.
pub open spec fn click_plan(button: MouseButton, click_count: u32) -> Seq<MouseEventStep> {
    if click_count == 2 {
        seq![
            MouseEventStep { button, down: true, click_state: 1 },
            MouseEventStep { button, down: false, click_state: 1 },
            MouseEventStep { button, down: true, click_state: 2 },
            MouseEventStep { button, down: false, click_state: 2 },
        ]
    } else {
        seq![
            MouseEventStep { button, down: true, click_state: click_count as i64 },
            MouseEventStep { button, down: false, click_state: click_count as i64 },
        ]
    }
}

/// The mouse events that make up a click.
pub fn click_events(button: MouseButton, click_count: u32) -> (r: Vec<MouseEventStep>)
    ensures
        r@ == click_plan(button, click_count),
{
    let mut out: Vec<MouseEventStep> = Vec::new();
    if click_count == 2 {
        out.push(MouseEventStep { button, down: true, click_state: 1 });
        out.push(MouseEventStep { button, down: false, click_state: 1 });
        out.push(MouseEventStep { button, down: true, click_state: 2 });
        out.push(MouseEventStep { button, down: false, click_state: 2 });
    } else {
        let state = click_count as i64;
        out.push(MouseEventStep { button, down: true, click_state: state });
        out.push(MouseEventStep { button, down: false, click_state: state });
    }
    assert(out@ =~= click_plan(button, click_count));
    out
}

} // verus!
