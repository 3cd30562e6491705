//! The transient picture of one local collection directory: a mapping from
//! filename to last-modified time (whole seconds), derived by scanning the
//! directory. Only files that carry the `.json` extension and whose
//! modification time could be read take part; everything else is treated as
//! absent for comparison purposes, without being touched.

use vstd::prelude::*;
use crate::names::is_json_spec;

verus! {

/// One raw directory entry as the shell hands it over: the filename, and
/// its modification time in whole seconds since the epoch where that could
/// be read.
#[derive(Debug, Clone)]
pub struct LocalEntry {
    pub name: String,
    pub mtime: Option<i64>,
}

/// One file retained by the scan: filtered name plus readable time.
#[derive(Debug, Clone)]
pub struct LocalFile {
    pub name: String,
    pub mtime: i64,
}

/// The mapping a scan produces: later entries of the same name win, names
/// without the extension or without a readable time are left out.
pub open spec fn local_index_of(entries: Seq<LocalEntry>) -> Map<Seq<char>, int>
    decreases entries.len(),
{
    if entries.len() == 0 {
        Map::empty()
    } else {
        let rest = local_index_of(entries.drop_last());
        let e = entries.last();
        if is_json_spec(e.name@) && e.mtime is Some {
            rest.insert(e.name@, e.mtime->0 as int)
        } else {
            rest
        }
    }
}

/// Scanning one more entry extends the mapping exactly when the entry is
/// kept.
pub proof fn lemma_local_index_push(entries: Seq<LocalEntry>, e: LocalEntry)
    ensures
        local_index_of(entries.push(e)) == (if is_json_spec(e.name@) && e.mtime is Some {
            local_index_of(entries).insert(e.name@, e.mtime->0 as int)
        } else {
            local_index_of(entries)
        }),
{
    assert(entries.push(e).drop_last() =~= entries);
    assert(entries.push(e).last() == e);
}

/// A name without the extension never enters the local mapping.
pub proof fn lemma_local_index_excludes(entries: Seq<LocalEntry>, name: Seq<char>)
    requires
        !is_json_spec(name),
    ensures
        !local_index_of(entries).dom().contains(name),
    decreases entries.len(),
{
    if entries.len() > 0 {
        lemma_local_index_excludes(entries.drop_last(), name);
    }
}

/// Whether some retained file carries the given name.
pub open spec fn seq_has_name(s: Seq<LocalFile>, name: Seq<char>) -> bool {
    exists|i: int| 0 <= i < s.len() && s[i].name@ == name
}

/// The position of the file with the given name, where one exists.
pub open spec fn name_index(s: Seq<LocalFile>, name: Seq<char>) -> int {
    choose|i: int| 0 <= i < s.len() && s[i].name@ == name
}

/// No two retained files share a name.
pub open spec fn names_unique(s: Seq<LocalFile>) -> bool {
    forall|i: int, j: int| 0 <= i < j < s.len() ==> s[i].name@ != s[j].name@
}

/// Every retained file carries the extension.
pub open spec fn all_json(s: Seq<LocalFile>) -> bool {
    forall|i: int| 0 <= i < s.len() ==> is_json_spec(#[trigger] s[i].name@)
}

/// The mapping a sequence of retained files denotes.
pub open spec fn seq_map(s: Seq<LocalFile>) -> Map<Seq<char>, int> {
    Map::new(|n: Seq<char>| seq_has_name(s, n), |n: Seq<char>| s[name_index(s, n)].mtime as int)
}

/// With unique names, the position of a file's name is that file's position.
pub proof fn lemma_name_index(s: Seq<LocalFile>, j: int)
    requires
        names_unique(s),
        0 <= j < s.len(),
    ensures
        name_index(s, s[j].name@) == j,
        seq_map(s).dom().contains(s[j].name@),
        seq_map(s)[s[j].name@] == s[j].mtime as int,
{
    let n = s[j].name@;
    assert(seq_has_name(s, n));
    let k = name_index(s, n);
    assert(0 <= k < s.len() && s[k].name@ == n);
    if k < j {
        assert(s[k].name@ != s[j].name@);
    } else if j < k {
        assert(s[j].name@ != s[k].name@);
    }
}

/// Removing one file removes exactly its name from the mapping.
pub proof fn lemma_seq_map_remove(s: Seq<LocalFile>, i: int)
    requires
        names_unique(s),
        0 <= i < s.len(),
    ensures
        seq_map(s.remove(i)) == seq_map(s).remove(s[i].name@),
        names_unique(s.remove(i)),
        all_json(s) ==> all_json(s.remove(i)),
{
    let t = s.remove(i);
    assert forall|k: int| 0 <= k < t.len() implies t[k] == (if k < i {
        s[k]
    } else {
        s[k + 1]
    }) by {
        if k < i {
            assert(t[k] == s.subrange(0, i)[k]);
        } else {
            assert(t[k] == s.subrange(i + 1, s.len() as int)[k - i]);
        }
    }
    assert forall|p: int, q: int| 0 <= p < q < t.len() implies t[p].name@ != t[q].name@ by {
        let sp = if p < i { p } else { p + 1 };
        let sq = if q < i { q } else { q + 1 };
        assert(t[p] == s[sp] && t[q] == s[sq]);
        assert(s[sp].name@ != s[sq].name@);
    }
    assert forall|n: Seq<char>| #[trigger] seq_has_name(t, n) implies seq_has_name(s, n) && n != s[i].name@ by {
        let k = choose|k: int| 0 <= k < t.len() && t[k].name@ == n;
        let sk = if k < i { k } else { k + 1 };
        assert(s[sk].name@ == n);
        lemma_name_index(s, sk);
        lemma_name_index(s, i);
    }
    assert forall|n: Seq<char>| seq_has_name(s, n) && n != s[i].name@ implies #[trigger] seq_has_name(t, n) by {
        let k = choose|k: int| 0 <= k < s.len() && s[k].name@ == n;
        lemma_name_index(s, i);
        assert(k != i);
        let tk = if k < i { k } else { k - 1 };
        assert(t[tk] == s[k]);
    }
    assert forall|n: Seq<char>| #[trigger] seq_has_name(t, n) implies seq_map(t)[n] == seq_map(s)[n] by {
        let k = name_index(t, n);
        assert(0 <= k < t.len() && t[k].name@ == n);
        let sk = if k < i { k } else { k + 1 };
        assert(t[k] == s[sk]);
        lemma_name_index(s, sk);
        assert(seq_map(s)[n] == s[sk].mtime as int);
    }
    assert(seq_map(t) =~= seq_map(s).remove(s[i].name@));
}

/// Appending a file with a fresh name inserts exactly that name.
pub proof fn lemma_seq_map_push(s: Seq<LocalFile>, f: LocalFile)
    requires
        names_unique(s),
        !seq_has_name(s, f.name@),
    ensures
        seq_map(s.push(f)) == seq_map(s).insert(f.name@, f.mtime as int),
        names_unique(s.push(f)),
        all_json(s) && is_json_spec(f.name@) ==> all_json(s.push(f)),
{
    let t = s.push(f);
    assert forall|p: int, q: int| 0 <= p < q < t.len() implies t[p].name@ != t[q].name@ by {
        if q == s.len() {
            assert(t[p] == s[p]);
            assert(seq_has_name(s, s[p].name@));
        } else {
            assert(t[p] == s[p] && t[q] == s[q]);
        }
    }
    assert forall|n: Seq<char>| #[trigger] seq_has_name(t, n) implies (seq_has_name(s, n) || n == f.name@) by {
        let k = choose|k: int| 0 <= k < t.len() && t[k].name@ == n;
        if k < s.len() {
            assert(s[k].name@ == n);
        }
    }
    assert(t[s.len() as int] == f);
    assert(seq_has_name(t, f.name@));
    assert forall|n: Seq<char>| seq_has_name(s, n) implies #[trigger] seq_has_name(t, n) by {
        let k = choose|k: int| 0 <= k < s.len() && s[k].name@ == n;
        assert(t[k] == s[k]);
    }
    assert forall|n: Seq<char>| #[trigger] seq_has_name(t, n) implies seq_map(t)[n] == (if n == f.name@ {
        f.mtime as int
    } else {
        seq_map(s)[n]
    }) by {
        if n == f.name@ {
            lemma_name_index(t, s.len() as int);
        } else {
            let k = choose|k: int| 0 <= k < s.len() && s[k].name@ == n;
            assert(t[k] == s[k]);
            lemma_name_index(t, k);
            lemma_name_index(s, k);
        }
    }
    assert(seq_map(t) =~= seq_map(s).insert(f.name@, f.mtime as int));
}

/// The local side of one merge pass: the files of one directory scan that
/// are still to be reconciled, keyed by name.
pub struct LocalIndex {
    files: Vec<LocalFile>,
}

impl LocalIndex {
    /// The retained files, in scan order.
    pub closed spec fn files_seq(&self) -> Seq<LocalFile> {
        self.files@
    }

    /// Names are unique and all carry the extension.
    pub open spec fn wf(&self) -> bool {
        names_unique(self.files_seq()) && all_json(self.files_seq())
    }

    /// The filename-to-time mapping this index denotes.
    pub open spec fn as_map(&self) -> Map<Seq<char>, int> {
        seq_map(self.files_seq())
    }

    /// An empty index: nothing is known locally yet.
    pub fn new() -> (r: Self)
        ensures
            r.wf(),
            r.as_map() == Map::<Seq<char>, int>::empty(),
    {
        let r = LocalIndex { files: Vec::new() };
        proof {
            assert(r.as_map() =~= Map::<Seq<char>, int>::empty());
        }
        r
    }

    /// The position of the file with this name, if one is retained.
    fn find(&self, name: &String) -> (r: Option<usize>)
        ensures
            r matches Some(i) ==> i < self.files_seq().len() && self.files_seq()[i as int].name@
                == name@,
            r is None ==> !seq_has_name(self.files_seq(), name@),
    {
        let mut i: usize = 0;
        while i < self.files.len()
            invariant
                i <= self.files.len(),
                forall|k: int| 0 <= k < i ==> self.files@[k].name@ != name@,
            decreases self.files.len() - i,
        {
            if self.files[i].name == *name {
                return Some(i);
            }
            i = i + 1;
        }
        None
    }

    /// Records one scanned file, replacing any earlier time recorded under
    /// the same name, as a fresh scan of the directory would.
    pub fn insert(&mut self, name: String, mtime: i64)
        requires
            old(self).wf(),
            is_json_spec(name@),
        ensures
            final(self).wf(),
            final(self).as_map() == old(self).as_map().insert(name@, mtime as int),
    {
        let ghost m0 = self.as_map();
        self.remove(&name);
        let ghost pre = self.files@;
        proof {
            assert(!self.as_map().dom().contains(name@));
            assert(!seq_has_name(pre, name@));
        }
        self.files.push(LocalFile { name, mtime });
        proof {
            lemma_seq_map_push(pre, self.files@.last());
            assert(m0.remove(name@).insert(name@, mtime as int) =~= m0.insert(name@, mtime as int));
        }
    }

    /// The recorded time under this name, where the name is present.
    pub fn lookup(&self, name: &String) -> (r: Option<i64>)
        requires
            self.wf(),
        ensures
            r is None <==> !self.as_map().dom().contains(name@),
            r matches Some(t) ==> self.as_map().dom().contains(name@) && self.as_map()[name@]
                == t as int,
    {
        match self.find(name) {
            Some(i) => {
                proof {
                    lemma_name_index(self.files_seq(), i as int);
                }
                Some(self.files[i].mtime)
            },
            None => None,
        }
    }

    /// Strikes a reconciled name out of the mapping; a name that is absent
    /// leaves the mapping unchanged.
    pub fn remove(&mut self, name: &String)
        requires
            old(self).wf(),
        ensures
            final(self).wf(),
            final(self).as_map() == old(self).as_map().remove(name@),
    {
        let ghost m0 = self.as_map();
        match self.find(name) {
            Some(i) => {
                proof {
                    lemma_seq_map_remove(self.files_seq(), i as int);
                }
                self.files.remove(i);
            },
            None => {
                proof {
                    assert(m0.remove(name@) =~= m0);
                }
            },
        }
    }

    /// Some name that is still unreconciled, or nothing when the mapping is
    /// exhausted.
    pub fn first_name(&self) -> (r: Option<String>)
        requires
            self.wf(),
        ensures
            r is None ==> self.as_map() == Map::<Seq<char>, int>::empty(),
            r matches Some(n) ==> self.as_map().dom().contains(n@) && is_json_spec(n@),
    {
        if self.files.len() == 0 {
            proof {
                assert(self.as_map() =~= Map::<Seq<char>, int>::empty());
            }
            None
        } else {
            let n = self.files[0].name.clone();
            proof {
                lemma_name_index(self.files_seq(), 0);
            }
            Some(n)
        }
    }

    /// How many files are still unreconciled.
    pub fn remaining(&self) -> (n: usize)
        ensures
            n == self.files_seq().len(),
    {
        self.files.len()
    }
}

} // verus!
