//! A table of named sessions and the DevTools port each one is attached to.
use vstd::prelude::*;
use vstd::string::*;

verus! {

/// The names of a table's rows, in storage order.
pub open spec fn names_of(rows: Seq<(String, u16)>) -> Seq<Seq<char>> {
    rows.map_values(|r: (String, u16)| r.0@)
}

/// The map a sequence of rows with distinct names describes.
pub open spec fn table_map(rows: Seq<(String, u16)>) -> Map<Seq<char>, u16>
    decreases rows.len(),
{
    if rows.len() == 0 {
        Map::empty()
    } else {
        table_map(rows.drop_last()).insert(rows.last().0@, rows.last().1)
    }
}

/// The keys, values and size of `table_map` for rows with distinct names.
pub proof fn lemma_table_map(rows: Seq<(String, u16)>)
    requires
        names_of(rows).no_duplicates(),
    ensures
        table_map(rows).dom().finite(),
        table_map(rows).dom().len() == rows.len(),
        forall|k: Seq<char>| #[trigger] table_map(rows).contains_key(k) <==> names_of(rows).contains(k),
        forall|i: int| 0 <= i < rows.len() ==> #[trigger] table_map(rows)[rows[i].0@] == rows[i].1,
    decreases rows.len(),
{
    if rows.len() > 0 {
        let p = rows.drop_last();
        assert(names_of(p) =~= names_of(rows).drop_last());
        lemma_table_map(p);
        let last = rows.last();
        assert(names_of(rows)[rows.len() - 1] == last.0@);
        assert(!names_of(p).contains(last.0@)) by {
            if names_of(p).contains(last.0@) {
                let i = choose|i: int| 0 <= i < names_of(p).len() && names_of(p)[i] == last.0@;
                assert(names_of(rows)[i] == names_of(rows)[rows.len() - 1]);
            }
        }
        assert forall|k: Seq<char>| #[trigger] table_map(rows).contains_key(k) <==> names_of(rows).contains(k) by {
            if names_of(rows).contains(k) && k != last.0@ {
                let i = choose|i: int| 0 <= i < names_of(rows).len() && names_of(rows)[i] == k;
                assert(names_of(p)[i] == k);
            }
            if names_of(p).contains(k) {
                let i = choose|i: int| 0 <= i < names_of(p).len() && names_of(p)[i] == k;
                assert(names_of(rows)[i] == k);
            }
        }
        assert forall|i: int| 0 <= i < rows.len() implies #[trigger] table_map(rows)[rows[i].0@] == rows[i].1 by {
            if i < rows.len() - 1 {
                assert(p[i] == rows[i]);
                assert(names_of(rows)[i] != names_of(rows)[rows.len() - 1]);
            }
        }
    }
}

/// Named sessions and their ports.
pub struct SessionTable {
    rows: Vec<(String, u16)>,
}

impl View for SessionTable {
    type V = Map<Seq<char>, u16>;

    closed spec fn view(&self) -> Map<Seq<char>, u16> {
        table_map(self.rows@)
    }
}

impl SessionTable {
    /// No two rows share a name.
    pub closed spec fn wf(&self) -> bool {
        names_of(self.rows@).no_duplicates()
    }

    /// An empty table.
    pub fn new() -> (r: SessionTable)
        ensures
            r.wf(),
            r@ == Map::<Seq<char>, u16>::empty(),
    {
        let r = SessionTable { rows: Vec::new() };
        assert(names_of(r.rows@) =~= Seq::<Seq<char>>::empty());
        r
    }

    /// The position of the row named `name`, if any.
    fn find(&self, name: &str) -> (r: Option<usize>)
        requires
            self.wf(),
        ensures
            r matches Some(i) ==> i < self.rows@.len() && self.rows@[i as int].0@ == name@,
            r is None ==> !names_of(self.rows@).contains(name@),
    {
        let key = String::from_str(name);
        let n = self.rows.len();
        let mut i: usize = 0;
        while i < n
            invariant
                n == self.rows@.len(),
                i <= n,
                key@ == name@,
                forall|j: int| 0 <= j < i ==> self.rows@[j].0@ != name@,
            decreases n - i,
        {
            if self.rows[i].0 == key {
                return Some(i);
            }
            i = i + 1;
        }
        assert(!names_of(self.rows@).contains(name@)) by {
            if names_of(self.rows@).contains(name@) {
                let j = choose|j: int| 0 <= j < names_of(self.rows@).len() && names_of(self.rows@)[j] == name@;
                assert(self.rows@[j].0@ == name@);
            }
        }
        None
    }

    /// Attaches `name` to `port`, replacing an earlier port; returns the earlier port.
    pub fn insert(&mut self, name: String, port: u16) -> (r: Option<u16>)
        requires
            old(self).wf(),
        ensures
            final(self).wf(),
            final(self)@ == old(self)@.insert(name@, port),
            r == (if old(self)@.contains_key(name@) { Some(old(self)@[name@]) } else { None }),
    {
        proof {
            lemma_table_map(self.rows@);
        }
        let ghost old_rows = self.rows@;
        match self.find(name.as_str()) {
            Some(i) => {
                let previous = self.rows[i].1;
                self.rows.set(i, (name, port));
                proof {
                    let new_rows = self.rows@;
                    assert(names_of(new_rows) =~= names_of(old_rows));
                    lemma_table_map(new_rows);
                    assert forall|k: Seq<char>| #[trigger] table_map(new_rows).contains_key(k) == table_map(old_rows).insert(name@, port).contains_key(k) by {
                        assert(names_of(old_rows)[i as int] == name@);
                    }
                    assert forall|k: Seq<char>| #[trigger] table_map(new_rows).contains_key(k) implies table_map(new_rows)[k] == table_map(old_rows).insert(name@, port)[k] by {
                        let j = choose|j: int| 0 <= j < names_of(new_rows).len() && names_of(new_rows)[j] == k;
                        assert(table_map(new_rows)[new_rows[j].0@] == new_rows[j].1);
                        if j != i {
                            assert(new_rows[j] == old_rows[j]);
                            assert(names_of(old_rows)[j] != names_of(old_rows)[i as int]);
                            assert(k != name@);
                            assert(table_map(old_rows)[old_rows[j].0@] == old_rows[j].1);
                        } else {
                            assert(k == name@);
                        }
                    }
                    assert(table_map(new_rows) =~= table_map(old_rows).insert(name@, port));
                }
                Some(previous)
            },
            None => {
                self.rows.push((name, port));
                proof {
                    assert(names_of(self.rows@) =~= names_of(old_rows).push(name@));
                    assert(self.rows@.drop_last() =~= old_rows);
                }
                None
            },
        }
    }

    /// Detaches `name`; returns its port when it was attached.
    pub fn remove(&mut self, name: &str) -> (r: Option<u16>)
        requires
            old(self).wf(),
        ensures
            final(self).wf(),
            final(self)@ == old(self)@.remove(name@),
            r == (if old(self)@.contains_key(name@) { Some(old(self)@[name@]) } else { None }),
    {
        proof {
            lemma_table_map(self.rows@);
        }
        let ghost old_rows = self.rows@;
        match self.find(name) {
            Some(i) => {
                let (_, port) = self.rows.remove(i);
                proof {
                    let new_rows = self.rows@;
                    assert(new_rows =~= old_rows.remove(i as int));
                    assert(names_of(new_rows) =~= names_of(old_rows).remove(i as int));
                    assert(names_of(new_rows).no_duplicates()) by {
                        let a = names_of(new_rows);
                        let b = names_of(old_rows);
                        assert forall|x: int, y: int| 0 <= x < a.len() && 0 <= y < a.len() && x != y implies a[x] != a[y] by {
                            let ox = if x < i { x } else { x + 1 };
                            let oy = if y < i { y } else { y + 1 };
                            assert(a[x] == b[ox] && a[y] == b[oy]);
                        }
                    }
                    lemma_table_map(new_rows);
                    assert forall|k: Seq<char>| #[trigger] table_map(new_rows).contains_key(k) == table_map(old_rows).remove(name@).contains_key(k) by {
                        let a = names_of(new_rows);
                        let b = names_of(old_rows);
                        if a.contains(k) {
                            let x = choose|x: int| 0 <= x < a.len() && a[x] == k;
                            let ox = if x < i { x } else { x + 1 };
                            assert(b[ox] == k);
                            assert(ox != i);
                            assert(b[i as int] == name@);
                        }
                        if b.contains(k) && k != name@ {
                            let y = choose|y: int| 0 <= y < b.len() && b[y] == k;
                            assert(y != i);
                            let ny = if y < i { y } else { y - 1 };
                            assert(a[ny] == k);
                        }
                    }
                    assert forall|k: Seq<char>| #[trigger] table_map(new_rows).contains_key(k) implies table_map(new_rows)[k] == table_map(old_rows).remove(name@)[k] by {
                        let x = choose|x: int| 0 <= x < names_of(new_rows).len() && names_of(new_rows)[x] == k;
                        let ox = if x < i { x } else { x + 1 };
                        assert(table_map(new_rows)[new_rows[x].0@] == new_rows[x].1);
                        assert(new_rows[x] == old_rows[ox]);
                        assert(table_map(old_rows)[old_rows[ox].0@] == old_rows[ox].1);
                    }
                    assert(table_map(new_rows) =~= table_map(old_rows).remove(name@));
                }
                Some(port)
            },
            None => {
                proof {
                    assert(table_map(old_rows) =~= table_map(old_rows).remove(name@));
                }
                None
            },
        }
    }

    /// Whether `name` is attached.
    pub fn contains_key(&self, name: &str) -> (r: bool)
        requires
            self.wf(),
        ensures
            r == self@.contains_key(name@),
    {
        proof {
            lemma_table_map(self.rows@);
        }
        let found = self.find(name);
        proof {
            if let Some(i) = found {
                assert(names_of(self.rows@)[i as int] == name@);
            }
        }
        found.is_some()
    }

    /// The port `name` is attached to.
    pub fn get(&self, name: &str) -> (r: Option<u16>)
        requires
            self.wf(),
        ensures
            r == (if self@.contains_key(name@) { Some(self@[name@]) } else { None }),
    {
        proof {
            lemma_table_map(self.rows@);
        }
        match self.find(name) {
            Some(i) => {
                proof {
                    assert(names_of(self.rows@)[i as int] == name@);
                    assert(table_map(self.rows@)[self.rows@[i as int].0@] == self.rows@[i as int].1);
                }
                Some(self.rows[i].1)
            },
            None => None,
        }
    }

    /// The number of attached sessions.
    pub fn len(&self) -> (r: usize)
        requires
            self.wf(),
        ensures
            r == self@.len(),
    {
        proof {
            lemma_table_map(self.rows@);
        }
        self.rows.len()
    }

    /// Whether no session is attached.
    pub fn is_empty(&self) -> (r: bool)
        requires
            self.wf(),
        ensures
            r == (self@.len() == 0),
    {
        proof {
            lemma_table_map(self.rows@);
        }
        self.rows.len() == 0
    }

    /// The attached session names, each once, in no particular order.
    pub fn keys(&self) -> (r: Vec<String>)
        requires
            self.wf(),
        ensures
            crate::text::views(r@).no_duplicates(),
            crate::text::views(r@).to_set() == self@.dom(),
    {
        proof {
            lemma_table_map(self.rows@);
        }
        let n = self.rows.len();
        let mut out: Vec<String> = Vec::new();
        let mut i: usize = 0;
        while i < n
            invariant
                n == self.rows@.len(),
                i <= n,
                crate::text::views(out@) =~= names_of(self.rows@).take(i as int),
            decreases n - i,
        {
            let ghost before = out@;
            out.push(self.rows[i].0.clone());
            assert(crate::text::views(out@) =~= crate::text::views(before).push(self.rows@[i as int].0@));
            assert(names_of(self.rows@).take(i + 1) =~= names_of(self.rows@).take(i as int).push(self.rows@[i as int].0@));
            i = i + 1;
        }
        assert(names_of(self.rows@).take(n as int) =~= names_of(self.rows@));
        assert(crate::text::views(out@).to_set() =~= self@.dom());
        out
    }
}


/// Detaching a session that was attached by the last change, and was not
/// attached before it, leaves the table as it was before that change.
pub proof fn law_remove_undoes_insert(table: Map<Seq<char>, u16>, name: Seq<char>, port: u16)
    requires
        !table.contains_key(name),
    ensures
        table.insert(name, port).remove(name) == table,
{
    assert(table.insert(name, port).remove(name) =~= table);
}

} // verus!
