//! The reference map: element references keyed by their ids ("e1", "e2", ...),
//! and the routing of a reference to the engine that can act on it.
use vstd::prelude::*;
use vstd::string::*;
use crate::text::{
    decimal, format_decimal, lemma_decimal_injective, lemma_parse_decimal, parse_usize,
    parse_usize_str, starts_with, starts_with_char, strip_one, strip_prefix_char,
};
use crate::types::{ElementRef, ElementRefView, Rect, RefSource};

verus! {

/// The views of a sequence of element references.
pub open spec fn element_views(s: Seq<ElementRef>) -> Seq<ElementRefView> {
    s.map_values(|e: ElementRef| e@)
}

/// No two references share an id.
pub open spec fn distinct_ids(s: Seq<ElementRefView>) -> bool {
    forall|i: int, j: int| 0 <= i < s.len() && 0 <= j < s.len() && i != j ==> #[trigger] s[i].id != #[trigger] s[j].id
}

/// The map from id to reference that a sequence of references describes;
/// a later reference with the same id replaces an earlier one.
pub open spec fn map_of(s: Seq<ElementRefView>) -> Map<Seq<char>, ElementRefView>
    decreases s.len(),
{
    if s.len() == 0 {
        Map::empty()
    } else {
        map_of(s.drop_last()).insert(s.last().id, s.last())
    }
}

/// The keys and values of `map_of` for references with distinct ids.
pub proof fn lemma_map_of(s: Seq<ElementRefView>)
    requires
        distinct_ids(s),
    ensures
        map_of(s).dom().finite(),
        map_of(s).dom().len() == s.len(),
        forall|k: Seq<char>| #[trigger] map_of(s).contains_key(k) <==> exists|i: int| 0 <= i < s.len() && s[i].id == k,
        forall|i: int| 0 <= i < s.len() ==> #[trigger] map_of(s)[s[i].id] == s[i],
    decreases s.len(),
{
    if s.len() > 0 {
        let p = s.drop_last();
        assert(distinct_ids(p)) by {
            assert forall|i: int, j: int| 0 <= i < p.len() && 0 <= j < p.len() && i != j implies #[trigger] p[i].id != #[trigger] p[j].id by {
                assert(p[i] == s[i] && p[j] == s[j]);
            }
        }
        lemma_map_of(p);
        let last = s.last();
        assert(!map_of(p).contains_key(last.id)) by {
            if map_of(p).contains_key(last.id) {
                let i = choose|i: int| 0 <= i < p.len() && p[i].id == last.id;
                assert(s[i].id == s[s.len() - 1].id);
            }
        }
        assert forall|k: Seq<char>| #[trigger] map_of(s).contains_key(k) <==> exists|i: int| 0 <= i < s.len() && s[i].id == k by {
            if map_of(s).contains_key(k) && k != last.id {
                let i = choose|i: int| 0 <= i < p.len() && p[i].id == k;
                assert(s[i].id == k);
            }
            if exists|i: int| 0 <= i < s.len() && s[i].id == k {
                let i = choose|i: int| 0 <= i < s.len() && s[i].id == k;
                if i < s.len() - 1 {
                    assert(p[i].id == k);
                }
            }
        }
        assert forall|i: int| 0 <= i < s.len() implies #[trigger] map_of(s)[s[i].id] == s[i] by {
            if i < s.len() - 1 {
                assert(p[i] == s[i]);
                assert(s[i].id != last.id);
            }
        }
    }
}

/// Replacing a reference by one with the same id is an insert into the map.
pub proof fn lemma_map_of_update(s: Seq<ElementRefView>, i: int, e: ElementRefView)
    requires
        distinct_ids(s),
        0 <= i < s.len(),
        s[i].id == e.id,
    ensures
        distinct_ids(s.update(i, e)),
        map_of(s.update(i, e)) == map_of(s).insert(e.id, e),
{
    let t = s.update(i, e);
    assert(distinct_ids(t)) by {
        assert forall|a: int, b: int| 0 <= a < t.len() && 0 <= b < t.len() && a != b implies #[trigger] t[a].id != #[trigger] t[b].id by {
            assert(t[a].id == s[a].id && t[b].id == s[b].id);
        }
    }
    lemma_map_of(s);
    lemma_map_of(t);
    assert forall|k: Seq<char>| #[trigger] map_of(t).contains_key(k) == map_of(s).insert(e.id, e).contains_key(k) by {
        if exists|j: int| 0 <= j < s.len() && s[j].id == k {
            let j = choose|j: int| 0 <= j < s.len() && s[j].id == k;
            assert(t[j].id == k);
        }
        if exists|j: int| 0 <= j < t.len() && t[j].id == k {
            let j = choose|j: int| 0 <= j < t.len() && t[j].id == k;
            assert(s[j].id == k);
        }
    }
    assert forall|k: Seq<char>| #[trigger] map_of(t).contains_key(k) implies map_of(t)[k] == map_of(s).insert(e.id, e)[k] by {
        let j = choose|j: int| 0 <= j < t.len() && t[j].id == k;
        assert(map_of(t)[t[j].id] == t[j]);
        if j != i {
            assert(map_of(s)[s[j].id] == s[j]);
        }
    }
    assert(map_of(t) =~= map_of(s).insert(e.id, e));
}

/// Appending a reference with a fresh id keeps ids distinct.
pub proof fn lemma_distinct_push(s: Seq<ElementRefView>, e: ElementRefView)
    requires
        distinct_ids(s),
        forall|j: int| 0 <= j < s.len() ==> s[j].id != e.id,
    ensures
        distinct_ids(s.push(e)),
{
    let t = s.push(e);
    assert forall|a: int, b: int| 0 <= a < t.len() && 0 <= b < t.len() && a != b implies #[trigger] t[a].id != #[trigger] t[b].id by {
        if a < s.len() && b < s.len() {
            assert(t[a] == s[a] && t[b] == s[b]);
        } else if a < s.len() {
            assert(t[a] == s[a]);
        } else if b < s.len() {
            assert(t[b] == s[b]);
        }
    }
}

/// The key a lookup uses: the reference with one leading `@` removed.
pub open spec fn lookup_key(ref_id: Seq<char>) -> Seq<char> {
    strip_one(ref_id, '@')
}

/// The id given to the `n`-th reference: `e` followed by `n` in decimal.
pub open spec fn ref_id(n: nat) -> Seq<char> {
    seq!['e'] + decimal(n)
}

/// The number by which references are ordered: the digits after a leading
/// `e`, or 0 when the id has no such form.
pub open spec fn ref_number(id: Seq<char>) -> nat {
    if starts_with_char(id, 'e') {
        match parse_usize(id.drop_first()) {
            Some(v) => v,
            None => 0,
        }
    } else {
        0
    }
}

/// The id of the `n`-th reference (`format!("e{n}")`).
pub fn format_ref_id(n: usize) -> (r: String)
    ensures
        r@ == ref_id(n as nat),
{
    let mut s = String::from_str("e");
    let d = format_decimal(n as u64);
    s.append(d.as_str());
    proof {
        reveal_strlit("e");
    }
    s
}

/// The ordering number of a reference id.
pub fn ref_number_of(id: &str) -> (r: usize)
    ensures
        r as nat == ref_number(id@),
{
    if starts_with(id, 'e') {
        let rest = strip_prefix_char(id, 'e');
        match parse_usize_str(rest) {
            Some(v) => v,
            None => 0,
        }
    } else {
        0
    }
}

/// The number written into a reference id reads back from it.
pub proof fn lemma_ref_number_of_ref_id(n: nat)
    requires
        n <= usize::MAX,
    ensures
        ref_number(ref_id(n)) == n,
{
    lemma_parse_decimal(n);
    assert(ref_id(n).drop_first() =~= decimal(n));
}

/// Different numbers give different reference ids.
pub proof fn lemma_ref_id_injective(a: nat, b: nat)
    requires
        ref_id(a) == ref_id(b),
    ensures
        a == b,
{
    assert(ref_id(a).drop_first() =~= decimal(a));
    assert(ref_id(b).drop_first() =~= decimal(b));
    lemma_decimal_injective(a, b);
}

/// Element references keyed by their ids.
pub struct RefMap {
    entries: Vec<ElementRef>,
}

impl View for RefMap {
    type V = Map<Seq<char>, ElementRefView>;

    closed spec fn view(&self) -> Map<Seq<char>, ElementRefView> {
        map_of(element_views(self.entries@))
    }
}

impl RefMap {
    /// The stored references have distinct ids.
    pub closed spec fn wf(&self) -> bool {
        distinct_ids(element_views(self.entries@))
    }

    /// An empty map.
    pub fn new() -> (r: RefMap)
        ensures
            r.wf(),
            r@ == Map::<Seq<char>, ElementRefView>::empty(),
    {
        let r = RefMap { entries: Vec::new() };
        assert(element_views(r.entries@) =~= Seq::<ElementRefView>::empty());
        r
    }

    /// Stores `element` under its id, replacing any reference with the same id.
    pub fn insert(&mut self, element: ElementRef)
        requires
            old(self).wf(),
        ensures
            final(self).wf(),
            final(self)@ == old(self)@.insert(element@.id, element@),
    {
        let n = self.entries.len();
        let ghost s = element_views(self.entries@);
        let mut i: usize = 0;
        while i < n
            invariant
                n == self.entries.len(),
                s == element_views(self.entries@),
                self.entries@ == old(self).entries@,
                distinct_ids(s),
                i <= n,
                forall|j: int| 0 <= j < i ==> s[j].id != element@.id,
            decreases n - i,
        {
            if self.entries[i].id == element.id {
                proof {
                    lemma_map_of_update(s, i as int, element@);
                }
                self.entries.set(i, element);
                proof {
                    assert(element_views(self.entries@) =~= s.update(i as int, element@));
                }
                return;
            }
            i = i + 1;
        }
        proof {
            lemma_distinct_push(s, element@);
        }
        self.entries.push(element);
        proof {
            assert(element_views(self.entries@) =~= s.push(element@));
            assert(element_views(self.entries@).drop_last() =~= s);
        }
    }

    /// The reference stored under `ref_id`, which may carry a leading `@`.
    pub fn resolve(&self, ref_id: &str) -> (r: Option<&ElementRef>)
        requires
            self.wf(),
        ensures
            r is Some <==> self@.contains_key(lookup_key(ref_id@)),
            r matches Some(e) ==> e@ == self@[lookup_key(ref_id@)],
    {
        let clean = strip_prefix_char(ref_id, '@');
        let key = String::from_str(clean);
        let ghost s = element_views(self.entries@);
        let n = self.entries.len();
        let mut i: usize = 0;
        while i < n
            invariant
                n == self.entries.len(),
                s == element_views(self.entries@),
                i <= n,
                key@ == lookup_key(ref_id@),
                distinct_ids(s),
                forall|j: int| 0 <= j < i ==> s[j].id != key@,
            decreases n - i,
        {
            if self.entries[i].id == key {
                proof {
                    lemma_map_of(s);
                    assert(s[i as int].id == key@);
                    assert(map_of(s)[s[i as int].id] == s[i as int]);
                }
                return Some(&self.entries[i]);
            }
            i = i + 1;
        }
        proof {
            lemma_map_of(s);
        }
        None
    }

    /// The number of stored references.
    pub fn len(&self) -> (r: usize)
        requires
            self.wf(),
        ensures
            r == self@.len(),
    {
        proof {
            lemma_map_of(element_views(self.entries@));
        }
        self.entries.len()
    }

    /// Whether the map holds no reference.
    pub fn is_empty(&self) -> (r: bool)
        requires
            self.wf(),
        ensures
            r == (self@.len() == 0),
    {
        proof {
            lemma_map_of(element_views(self.entries@));
        }
        self.entries.len() == 0
    }

    /// Removes every reference.
    pub fn clear(&mut self)
        ensures
            final(self).wf(),
            final(self)@ == Map::<Seq<char>, ElementRefView>::empty(),
    {
        self.entries = Vec::new();
        assert(element_views(self.entries@) =~= Seq::<ElementRefView>::empty());
    }

    /// The stored references ordered by their reference numbers
    /// (references whose ids carry no number sort as 0).
    pub fn sorted_entries(&self) -> (r: Vec<&ElementRef>)
        requires
            self.wf(),
        ensures
            r.len() == self@.len(),
            forall|k: int| 0 <= k < r.len() ==> #[trigger] self@.contains_key(r@[k]@.id) && self@[r@[k]@.id] == r@[k]@,
            forall|a: int, b: int| 0 <= a < r.len() && 0 <= b < r.len() && a != b ==> #[trigger] r@[a]@.id != #[trigger] r@[b]@.id,
            forall|a: int, b: int| 0 <= a <= b < r.len() ==> ref_number(#[trigger] r@[a]@.id) <= ref_number(#[trigger] r@[b]@.id),
    {
        let ghost s = element_views(self.entries@);
        proof {
            lemma_map_of(s);
        }
        let n = self.entries.len();
        let mut out: Vec<&ElementRef> = Vec::new();
        let mut keys: Vec<usize> = Vec::new();
        let ghost mut idx: Seq<int> = Seq::empty();
        let mut i: usize = 0;
        while i < n
            invariant
                n == self.entries.len(),
                s == element_views(self.entries@),
                distinct_ids(s),
                i <= n,
                out.len() == i,
                keys.len() == i,
                idx.len() == i,
                forall|t: int| 0 <= t < i ==> 0 <= #[trigger] idx[t] < i,
                forall|a: int, b: int| 0 <= a < i && 0 <= b < i && a != b ==> #[trigger] idx[a] != #[trigger] idx[b],
                forall|t: int| 0 <= t < i ==> (#[trigger] out@[t])@ == s[idx[t]],
                forall|t: int| 0 <= t < i ==> #[trigger] keys@[t] as nat == ref_number(s[idx[t]].id),
                forall|a: int, b: int| 0 <= a <= b < i ==> #[trigger] keys@[a] <= #[trigger] keys@[b],
            decreases n - i,
        {
            let e = &self.entries[i];
            let k = ref_number_of(e.id.as_str());
            let mut j: usize = 0;
            while j < out.len() && keys[j] <= k
                invariant
                    out.len() == i,
                    keys.len() == i,
                    j <= i,
                    forall|t: int| 0 <= t < j ==> #[trigger] keys@[t] <= k,
                decreases i - j,
            {
                j = j + 1;
            }
            proof {
                assert forall|t: int| j <= t < i implies #[trigger] keys@[t] > k by {
                    assert(keys@[j as int] <= keys@[t]);
                }
            }
            let ghost old_out = out@;
            let ghost old_keys = keys@;
            let ghost old_idx = idx;
            out.insert(j, e);
            keys.insert(j, k);
            proof {
                idx = idx.insert(j as int, i as int);
                assert forall|t: int| 0 <= t < i + 1 implies (#[trigger] out@[t])@ == s[idx[t]] by {
                    if t < j {
                        assert(out@[t] == old_out[t] && idx[t] == old_idx[t]);
                    } else if t > j {
                        assert(out@[t] == old_out[t - 1] && idx[t] == old_idx[t - 1]);
                    }
                }
                assert forall|t: int| 0 <= t < i + 1 implies #[trigger] keys@[t] as nat == ref_number(s[idx[t]].id) by {
                    if t < j {
                        assert(keys@[t] == old_keys[t] && idx[t] == old_idx[t]);
                    } else if t > j {
                        assert(keys@[t] == old_keys[t - 1] && idx[t] == old_idx[t - 1]);
                    }
                }
                assert forall|a: int, b: int| 0 <= a <= b < i + 1 implies #[trigger] keys@[a] <= #[trigger] keys@[b] by {
                    if a < j && b < j {
                        assert(keys@[a] == old_keys[a] && keys@[b] == old_keys[b]);
                    } else if a < j && b > j {
                        assert(keys@[a] == old_keys[a] && keys@[b] == old_keys[b - 1]);
                    } else if a > j && b > j {
                        assert(keys@[a] == old_keys[a - 1] && keys@[b] == old_keys[b - 1]);
                    } else if a < j && b == j {
                        assert(keys@[a] == old_keys[a]);
                    } else if a == j && b > j {
                        assert(keys@[b] == old_keys[b - 1]);
                    }
                }
                assert forall|t: int| 0 <= t < i + 1 implies 0 <= #[trigger] idx[t] < i + 1 by {
                    if t < j {
                        assert(idx[t] == old_idx[t]);
                    } else if t > j {
                        assert(idx[t] == old_idx[t - 1]);
                    }
                }
                assert forall|a: int, b: int| 0 <= a < i + 1 && 0 <= b < i + 1 && a != b implies #[trigger] idx[a] != #[trigger] idx[b] by {
                    let oa = if a < j { a } else { a - 1 };
                    let ob = if b < j { b } else { b - 1 };
                    if a != j && b != j {
                        assert(idx[a] == old_idx[oa] && idx[b] == old_idx[ob]);
                    } else if a == j {
                        assert(idx[b] == old_idx[ob]);
                    } else {
                        assert(idx[a] == old_idx[oa]);
                    }
                }
            }
            i = i + 1;
        }
        proof {
            assert forall|a: int, b: int| 0 <= a < n && 0 <= b < n && a != b implies #[trigger] out@[a]@.id != #[trigger] out@[b]@.id by {
                assert(out@[a]@ == s[idx[a]]);
                assert(out@[b]@ == s[idx[b]]);
            }
            assert forall|k: int| 0 <= k < n implies #[trigger] self@.contains_key(out@[k]@.id) && self@[out@[k]@.id] == out@[k]@ by {
                assert(out@[k]@ == s[idx[k]]);
                assert(map_of(s)[s[idx[k]].id] == s[idx[k]]);
            }
            assert forall|a: int, b: int| 0 <= a <= b < n implies ref_number(#[trigger] out@[a]@.id) <= ref_number(#[trigger] out@[b]@.id) by {
                assert(keys@[a] <= keys@[b]);
            }
        }
        out
    }

    /// The stored references, in no particular order.
    pub fn entries(&self) -> (r: &Vec<ElementRef>)
        requires
            self.wf(),
        ensures
            distinct_ids(element_views(r@)),
            map_of(element_views(r@)) == self@,
    {
        &self.entries
    }
}


/// `all` with the `i`-th reference renamed `e{i+1}`.
pub open spec fn renumbered(all: Seq<ElementRefView>) -> Seq<ElementRefView> {
    Seq::new(all.len(), |i: int| crate::types::with_id(all[i], ref_id((i + 1) as nat)))
}

/// Renumbered references have distinct ids.
pub proof fn lemma_renumbered_distinct(all: Seq<ElementRefView>)
    ensures
        distinct_ids(renumbered(all)),
{
    let r = renumbered(all);
    assert forall|a: int, b: int| 0 <= a < r.len() && 0 <= b < r.len() && a != b implies #[trigger] r[a].id != #[trigger] r[b].id by {
        if r[a].id == r[b].id {
            lemma_ref_id_injective((a + 1) as nat, (b + 1) as nat);
        }
    }
}

/// Builds a map from accessibility references followed by DevTools references,
/// numbering them `e1`, `e2`, ... in that order.
pub fn build_merged_refmap(ax_refs: Vec<ElementRef>, cdp_refs: Vec<ElementRef>) -> (r: RefMap)
    requires
        ax_refs.len() + cdp_refs.len() < usize::MAX,
    ensures
        r.wf(),
        r@ == map_of(renumbered(element_views(ax_refs@) + element_views(cdp_refs@))),
{
    let ghost all = element_views(ax_refs@) + element_views(cdp_refs@);
    let mut refmap = RefMap::new();
    let mut counter: usize = 1;
    let mut i: usize = 0;
    proof {
        assert(renumbered(all).take(0) =~= Seq::<ElementRefView>::empty());
    }
    while i < ax_refs.len()
        invariant
            all == element_views(ax_refs@) + element_views(cdp_refs@),
            ax_refs.len() + cdp_refs.len() < usize::MAX,
            i <= ax_refs.len(),
            counter == i + 1,
            refmap.wf(),
            refmap@ == map_of(renumbered(all).take(i as int)),
        decreases ax_refs.len() - i,
    {
        let mut elem = ax_refs[i].duplicate();
        elem.id = format_ref_id(counter);
        proof {
            assert(all[i as int] == ax_refs@[i as int]@);
            assert(renumbered(all).take(i + 1).drop_last() =~= renumbered(all).take(i as int));
            assert(renumbered(all).take(i + 1).last() == elem@);
        }
        refmap.insert(elem);
        counter = counter + 1;
        i = i + 1;
    }
    let mut j: usize = 0;
    while j < cdp_refs.len()
        invariant
            all == element_views(ax_refs@) + element_views(cdp_refs@),
            ax_refs.len() + cdp_refs.len() < usize::MAX,
            j <= cdp_refs.len(),
            counter == ax_refs.len() + j + 1,
            refmap.wf(),
            refmap@ == map_of(renumbered(all).take(ax_refs.len() + j)),
        decreases cdp_refs.len() - j,
    {
        let mut elem = cdp_refs[j].duplicate();
        elem.id = format_ref_id(counter);
        proof {
            let k = ax_refs.len() + j;
            assert(all[k] == cdp_refs@[j as int]@);
            assert(renumbered(all).take(k + 1).drop_last() =~= renumbered(all).take(k));
            assert(renumbered(all).take(k + 1).last() == elem@);
        }
        refmap.insert(elem);
        counter = counter + 1;
        j = j + 1;
    }
    proof {
        assert(renumbered(all).take(all.len() as int) =~= renumbered(all));
    }
    refmap
}

/// Builds a map from accessibility references only.
pub fn build_ax_refmap(ax_refs: Vec<ElementRef>) -> (r: RefMap)
    requires
        ax_refs.len() < usize::MAX,
    ensures
        r.wf(),
        r@ == map_of(renumbered(element_views(ax_refs@))),
{
    let r = build_merged_refmap(ax_refs, Vec::new());
    assert(element_views(ax_refs@) + element_views(Seq::<ElementRef>::empty()) =~= element_views(ax_refs@));
    r
}

/// Builds a map from DevTools references only.
pub fn build_cdp_refmap(cdp_refs: Vec<ElementRef>) -> (r: RefMap)
    requires
        cdp_refs.len() < usize::MAX,
    ensures
        r.wf(),
        r@ == map_of(renumbered(element_views(cdp_refs@))),
{
    let r = build_merged_refmap(Vec::new(), cdp_refs);
    assert(element_views(Seq::<ElementRef>::empty()) + element_views(cdp_refs@) =~= element_views(cdp_refs@));
    r
}

/// After merging, `e{i+1}` names the `i`-th reference (accessibility
/// references first, then DevTools references), with its id rewritten, and
/// nothing else is stored.
pub proof fn lemma_merged_numbering(ax: Seq<ElementRefView>, cdp: Seq<ElementRefView>, i: int)
    requires
        0 <= i < ax.len() + cdp.len(),
    ensures
        map_of(renumbered(ax + cdp)).len() == ax.len() + cdp.len(),
        map_of(renumbered(ax + cdp)).contains_key(ref_id((i + 1) as nat)),
        map_of(renumbered(ax + cdp))[ref_id((i + 1) as nat)]
            == crate::types::with_id((ax + cdp)[i], ref_id((i + 1) as nat)),
{
    let r = renumbered(ax + cdp);
    lemma_renumbered_distinct(ax + cdp);
    lemma_map_of(r);
    assert(r[i].id == ref_id((i + 1) as nat));
}

/// Where an interaction with a resolved reference is dispatched.
pub enum InteractionRoute {
    /// The native accessibility engine, for an element of process `pid`.
    AX { pid: i32, element: ElementRef },
    /// The browser bridge, for an element of a DevTools session.
    AgentBrowser { session: String, cdp_port: u16, ab_ref: String, element: ElementRef },
    /// Coordinate input at the centre of `frame`.
    Coordinate { frame: Rect, element: ElementRef },
}

/// The abstract content of a route.
pub enum RouteView {
    AX { pid: i32, element: ElementRefView },
    AgentBrowser { session: Seq<char>, cdp_port: u16, ab_ref: Seq<char>, element: ElementRefView },
    Coordinate { frame: Rect, element: ElementRefView },
}

impl View for InteractionRoute {
    type V = RouteView;

    open spec fn view(&self) -> RouteView {
        match self {
            InteractionRoute::AX { pid, element } => RouteView::AX { pid: *pid, element: element@ },
            InteractionRoute::AgentBrowser { session, cdp_port, ab_ref, element } => RouteView::AgentBrowser {
                session: session@,
                cdp_port: *cdp_port,
                ab_ref: ab_ref@,
                element: element@,
            },
            InteractionRoute::Coordinate { frame, element } => RouteView::Coordinate { frame: *frame, element: element@ },
        }
    }
}

/// The view of a routing outcome.
pub open spec fn route_result_view(r: Result<InteractionRoute, String>) -> Result<RouteView, Seq<char>> {
    match r {
        Ok(route) => Ok(route@),
        Err(msg) => Err(msg@),
    }
}

/// How the reference `ref_id` of map `m` is routed, or why it cannot be.
pub open spec fn route_of(m: Map<Seq<char>, ElementRefView>, ref_id: Seq<char>) -> Result<RouteView, Seq<char>> {
    let key = lookup_key(ref_id);
    if !m.contains_key(key) {
        Err("Ref @"@ + ref_id + " not found"@)
    } else {
        let e = m[key];
        match e.source {
            RefSource::AX => match e.ax_pid {
                Some(pid) => Ok(RouteView::AX { pid, element: e }),
                None => Err("AX ref @"@ + ref_id + " has no PID"@),
            },
            RefSource::CDP => match e.cdp_port {
                None => Err("CDP ref @"@ + ref_id + " has no port"@),
                Some(port) => match e.ab_ref {
                    None => Err("CDP ref @"@ + ref_id + " has no agent-browser ref"@),
                    Some(ab_ref) => match e.ab_session {
                        None => Err("CDP ref @"@ + ref_id + " has no agent-browser session"@),
                        Some(session) => Ok(RouteView::AgentBrowser { session, cdp_port: port, ab_ref, element: e }),
                    },
                },
            },
            RefSource::Coordinate => match e.frame {
                Some(frame) => Ok(RouteView::Coordinate { frame, element: e }),
                None => Err("Coordinate ref @"@ + ref_id + " has no frame"@),
            },
        }
    }
}

/// `prefix` + `ref_id` + `suffix` as a new string.
fn ref_message(prefix: &str, ref_id: &str, suffix: &str) -> (r: String)
    ensures
        r@ == prefix@ + ref_id@ + suffix@,
{
    let mut m = String::from_str(prefix);
    m.append(ref_id);
    m.append(suffix);
    m
}

impl RefMap {
    /// Resolves `ref_id` and picks the engine that can act on its element.
    pub fn route(&self, ref_id: &str) -> (r: Result<InteractionRoute, String>)
        requires
            self.wf(),
        ensures
            route_result_view(r) == route_of(self@, ref_id@),
    {
        let element = match self.resolve(ref_id) {
            Some(e) => e,
            None => {
                return Err(ref_message("Ref @", ref_id, " not found"));
            },
        };
        match element.source {
            RefSource::AX => match element.ax_pid {
                Some(pid) => Ok(InteractionRoute::AX { pid, element: element.duplicate() }),
                None => Err(ref_message("AX ref @", ref_id, " has no PID")),
            },
            RefSource::CDP => {
                let port = match element.cdp_port {
                    Some(p) => p,
                    None => {
                        return Err(ref_message("CDP ref @", ref_id, " has no port"));
                    },
                };
                let ab_ref = match &element.ab_ref {
                    Some(a) => a.clone(),
                    None => {
                        return Err(ref_message("CDP ref @", ref_id, " has no agent-browser ref"));
                    },
                };
                let session = match &element.ab_session {
                    Some(a) => a.clone(),
                    None => {
                        return Err(ref_message("CDP ref @", ref_id, " has no agent-browser session"));
                    },
                };
                Ok(InteractionRoute::AgentBrowser { session, cdp_port: port, ab_ref, element: element.duplicate() })
            },
            RefSource::Coordinate => match element.frame {
                Some(frame) => Ok(InteractionRoute::Coordinate { frame, element: element.duplicate() }),
                None => Err(ref_message("Coordinate ref @", ref_id, " has no frame")),
            },
        }
    }
}

/// A lookup strips exactly one leading `@`, so `@k` and `k` find the same
/// reference whenever `k` itself does not start with `@`.
pub proof fn law_at_prefix_is_transparent(m: Map<Seq<char>, ElementRefView>, k: Seq<char>)
    requires
        !starts_with_char(k, '@'),
    ensures
        lookup_key(seq!['@'] + k) == lookup_key(k),
        m.contains_key(lookup_key(seq!['@'] + k)) == m.contains_key(lookup_key(k)),
        route_of(m, seq!['@'] + k) is Ok == route_of(m, k) is Ok,
{
    assert((seq!['@'] + k).drop_first() =~= k);
}

/// What was inserted under an id is what a lookup of that id finds.
pub proof fn law_resolve_after_insert(m: Map<Seq<char>, ElementRefView>, e: ElementRefView, ref_id: Seq<char>)
    requires
        lookup_key(ref_id) == e.id,
    ensures
        m.insert(e.id, e).contains_key(lookup_key(ref_id)),
        m.insert(e.id, e)[lookup_key(ref_id)] == e,
{
}

/// A strictly increasing run of `n` numbers drawn from `1..=n` is `1, 2, ..., n`.
proof fn lemma_strict_fill(nums: Seq<int>, n: int)
    requires
        nums.len() == n,
        forall|k: int| 0 <= k < n ==> 1 <= #[trigger] nums[k] <= n,
        forall|a: int, b: int| 0 <= a < b < n ==> #[trigger] nums[a] < #[trigger] nums[b],
    ensures
        forall|k: int| 0 <= k < n ==> #[trigger] nums[k] == k + 1,
{
    assert forall|k: int| 0 <= k < n implies #[trigger] nums[k] == k + 1 by {
        lemma_strict_lower(nums, n, k);
        lemma_strict_upper(nums, n, k);
    }
}

proof fn lemma_strict_lower(nums: Seq<int>, n: int, k: int)
    requires
        nums.len() == n,
        0 <= k < n,
        forall|j: int| 0 <= j < n ==> 1 <= #[trigger] nums[j] <= n,
        forall|a: int, b: int| 0 <= a < b < n ==> #[trigger] nums[a] < #[trigger] nums[b],
    ensures
        nums[k] >= k + 1,
    decreases k,
{
    if k > 0 {
        lemma_strict_lower(nums, n, k - 1);
        assert(nums[k - 1] < nums[k]);
    }
}

proof fn lemma_strict_upper(nums: Seq<int>, n: int, k: int)
    requires
        nums.len() == n,
        0 <= k < n,
        forall|j: int| 0 <= j < n ==> 1 <= #[trigger] nums[j] <= n,
        forall|a: int, b: int| 0 <= a < b < n ==> #[trigger] nums[a] < #[trigger] nums[b],
    ensures
        nums[k] <= k + 1,
    decreases n - k,
{
    if k < n - 1 {
        lemma_strict_upper(nums, n, k + 1);
        assert(nums[k] < nums[k + 1]);
    }
}

/// The entries of a merged map, listed in reference-number order without
/// repeats, are exactly `e1, e2, ..., en`: numbering and ordering agree.
pub proof fn law_sorted_merged_is_numbering_order(all: Seq<ElementRefView>, r: Seq<ElementRefView>)
    requires
        all.len() <= usize::MAX,
        r.len() == map_of(renumbered(all)).len(),
        forall|k: int| 0 <= k < r.len() ==> #[trigger] map_of(renumbered(all)).contains_key(r[k].id),
        forall|a: int, b: int| 0 <= a < r.len() && 0 <= b < r.len() && a != b ==> #[trigger] r[a].id != #[trigger] r[b].id,
        forall|a: int, b: int| 0 <= a <= b < r.len() ==> ref_number(#[trigger] r[a].id) <= ref_number(#[trigger] r[b].id),
    ensures
        r.len() == all.len(),
        forall|k: int| 0 <= k < r.len() ==> #[trigger] r[k].id == ref_id((k + 1) as nat),
{
    let m = map_of(renumbered(all));
    let rn = renumbered(all);
    lemma_renumbered_distinct(all);
    lemma_map_of(rn);
    let n = r.len() as int;
    let nums = Seq::new(r.len(), |k: int| ref_number(r[k].id) as int);
    assert forall|k: int| 0 <= k < n implies r[k].id == ref_id((nums[k]) as nat) && 1 <= #[trigger] nums[k] <= n by {
        assert(m.contains_key(r[k].id));
        let i = choose|i: int| 0 <= i < rn.len() && rn[i].id == r[k].id;
        assert(rn[i].id == ref_id((i + 1) as nat));
        lemma_ref_number_of_ref_id((i + 1) as nat);
    }
    assert forall|a: int, b: int| 0 <= a < b < n implies #[trigger] nums[a] < #[trigger] nums[b] by {
        assert(ref_number(r[a].id) <= ref_number(r[b].id));
        if nums[a] == nums[b] {
            assert(r[a].id == ref_id(nums[a] as nat));
            assert(r[b].id == ref_id(nums[b] as nat));
        }
    }
    lemma_strict_fill(nums, n);
    assert forall|k: int| 0 <= k < r.len() implies #[trigger] r[k].id == ref_id((k + 1) as nat) by {
        assert(1 <= nums[k] <= n);
        assert(nums[k] == k + 1);
    }
}
} // verus!
