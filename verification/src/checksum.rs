//! Change detection: per-table content checksums captured after each
//! successful load, consulted before the next one.

use vstd::prelude::*;

verus! {

/// Decides whether a table must be deleted and re-inserted this round.
///
/// `stored` is the checksum recorded after the previous successful load
/// (`None` when the table was never loaded, `Some(0)` is treated as the
/// zero value, i.e. as absent), `fresh` is the checksum just computed
/// (`None` when the computation failed, which fails safe toward reloading).
pub fn is_table_modified(stored: Option<i64>, fresh: Option<i64>) -> (modified: bool)
    ensures
        modified == spec_is_table_modified(stored, fresh),
{
    match (stored, fresh) {
        (None, _) => true,
        (Some(_), None) => true,
        (Some(s), Some(f)) => s == 0 || s != f,
    }
}

/// A table is considered modified unless a non-zero stored checksum equals
/// the freshly computed one.
pub open spec fn spec_is_table_modified(stored: Option<i64>, fresh: Option<i64>) -> bool {
    match (stored, fresh) {
        (None, _) => true,
        (Some(_), None) => true,
        (Some(s), Some(f)) => s == 0 || s != f,
    }
}

/// The checksum stored under the first entry whose key is `k`, if any.
pub open spec fn spec_lookup(entries: Seq<(Seq<char>, i64)>, k: Seq<char>) -> Option<i64>
    decreases entries.len(),
{
    if entries.len() == 0 {
        None
    } else if entries[0].0 == k {
        Some(entries[0].1)
    } else {
        spec_lookup(entries.drop_first(), k)
    }
}

/// The per-table checksum store: table name to the opaque checksum captured
/// after the last successful load of that table. Initialized empty, kept
/// for the owning loader's lifetime.
#[derive(Clone, Debug)]
pub struct ChecksumMap {
    entries: Vec<(String, i64)>,
}

impl View for ChecksumMap {
    type V = Seq<(Seq<char>, i64)>;

    closed spec fn view(&self) -> Seq<(Seq<char>, i64)> {
        self.entries.deep_view()
    }
}

/// What updating key `k` to `c` does to every lookup.
pub open spec fn spec_updated_lookup(
    older: Seq<(Seq<char>, i64)>,
    newer: Seq<(Seq<char>, i64)>,
    k: Seq<char>,
    c: i64,
) -> bool {
    &&& spec_lookup(newer, k) == Some(c)
    &&& forall|other: Seq<char>| other != k ==> spec_lookup(newer, other) == spec_lookup(
        older,
        other,
    )
}

proof fn lemma_lookup_absent(entries: Seq<(Seq<char>, i64)>, k: Seq<char>)
    requires
        forall|j: int| 0 <= j < entries.len() ==> (#[trigger] entries[j]).0 != k,
    ensures
        spec_lookup(entries, k) is None,
    decreases entries.len(),
{
    if entries.len() > 0 {
        assert(entries[0].0 != k);
        assert(forall|j: int|
            0 <= j < entries.drop_first().len() ==> (#[trigger] entries.drop_first()[j]).0 != k);
        lemma_lookup_absent(entries.drop_first(), k);
    }
}

proof fn lemma_lookup_update(
    entries: Seq<(Seq<char>, i64)>,
    i: int,
    k: Seq<char>,
    c: i64,
)
    requires
        0 <= i < entries.len(),
        entries[i].0 == k,
        forall|j: int| 0 <= j < i ==> (#[trigger] entries[j]).0 != k,
    ensures
        spec_updated_lookup(entries, entries.update(i, (k, c)), k, c),
    decreases i,
{
    let updated = entries.update(i, (k, c));
    if i == 0 {
        assert(updated[0].0 == k);
        assert(updated.drop_first() =~= entries.drop_first());
        assert(spec_lookup(updated, k) == Some(c));
        assert forall|other: Seq<char>| other != k implies spec_lookup(updated, other)
            == spec_lookup(entries, other) by {
            assert(entries[0].0 == k);
            assert(spec_lookup(updated, other) == spec_lookup(updated.drop_first(), other));
            assert(spec_lookup(entries, other) == spec_lookup(entries.drop_first(), other));
        }
    } else {
        assert(updated[0] == entries[0]);
        assert(entries[0].0 != k);
        assert(updated.drop_first() =~= entries.drop_first().update(i - 1, (k, c)));
        assert(forall|j: int|
            0 <= j < i - 1 ==> (#[trigger] entries.drop_first()[j]).0 != k);
        lemma_lookup_update(entries.drop_first(), i - 1, k, c);
        let updated_rest = entries.drop_first().update(i - 1, (k, c));
        assert(spec_lookup(updated, k) == spec_lookup(updated_rest, k));
        assert(spec_lookup(updated, k) == Some(c));
        assert forall|other: Seq<char>| other != k implies spec_lookup(updated, other)
            == spec_lookup(entries, other) by {
            if updated[0].0 == other {
            } else {
                assert(spec_lookup(updated, other) == spec_lookup(updated_rest, other));
                assert(spec_lookup(entries, other) == spec_lookup(entries.drop_first(), other));
            }
        }
    }
}

impl ChecksumMap {
    /// An empty store: every table counts as never loaded.
    pub fn new() -> (m: ChecksumMap)
        ensures
            m@ =~= Seq::<(Seq<char>, i64)>::empty(),
    {
        let m = ChecksumMap { entries: Vec::new() };
        proof {
            assert(m@ =~= Seq::<(Seq<char>, i64)>::empty());
        }
        m
    }

    /// The checksum stored for `table`, if one was recorded.
    pub fn get(&self, table: &str) -> (r: Option<i64>)
        ensures
            r == spec_lookup(self@, table@),
    {
        let n = self.entries.len();
        proof {
            assert(self@.skip(0) =~= self@);
        }
        for i in 0..n
            invariant
                n == self.entries.len(),
                spec_lookup(self@, table@) == spec_lookup(self@.skip(i as int), table@),
        {
            proof {
                assert(self@.skip(i as int).drop_first() =~= self@.skip(i + 1));
                assert(self@.skip(i as int)[0] == self@[i as int]);
            }
            if str_eq(self.entries[i].0.as_str(), table) {
                return Some(self.entries[i].1);
            }
        }
        proof {
            assert(self@.skip(n as int) =~= Seq::<(Seq<char>, i64)>::empty());
        }
        None
    }

    /// Records `checksum` for `table`, replacing an earlier entry for the
    /// same table and leaving every other table's entry as it was.
    pub fn set(&mut self, table: &str, checksum: i64)
        ensures
            spec_updated_lookup(old(self)@, final(self)@, table@, checksum),
    {
        let n = self.entries.len();
        for i in 0..n
            invariant
                n == self.entries.len(),
                self@ == old(self)@,
                forall|j: int| 0 <= j < i ==> (#[trigger] old(self)@[j]).0 != table@,
        {
            if str_eq(self.entries[i].0.as_str(), table) {
                self.entries.set(i, (table.to_owned(), checksum));
                proof {
                    assert(self@ =~= old(self)@.update(i as int, (table@, checksum)));
                    lemma_lookup_update(old(self)@, i as int, table@, checksum);
                }
                return ;
            }
        }
        self.entries.push((table.to_owned(), checksum));
        proof {
            let appended = self@;
            let older = old(self)@;
            assert(appended =~= older.push((table@, checksum)));
            lemma_lookup_absent(older, table@);
            assert forall|k: Seq<char>| true implies spec_lookup(appended, k) == (
            if k == table@ && spec_lookup(older, k) is None {
                Some(checksum)
            } else {
                spec_lookup(older, k)
            }) by {
                lemma_lookup_append(older, table@, checksum, k, appended);
            }
            assert(spec_lookup(appended, table@) == Some(checksum));
        }
    }
}

proof fn lemma_lookup_append(
    older: Seq<(Seq<char>, i64)>,
    table: Seq<char>,
    c: i64,
    k: Seq<char>,
    appended: Seq<(Seq<char>, i64)>,
)
    requires
        appended =~= older.push((table, c)),
    ensures
        spec_lookup(appended, k) == (if k == table && spec_lookup(older, k) is None {
            Some(c)
        } else {
            spec_lookup(older, k)
        }),
    decreases older.len(),
{
    if older.len() == 0 {
        assert(appended.len() == 1);
        if k != table {
            assert(spec_lookup(appended, k) is None);
        }
    } else {
        assert(appended[0] == older[0]);
        if older[0].0 == k {
        } else {
            assert(appended.drop_first() =~= older.drop_first().push((table, c)));
            lemma_lookup_append(older.drop_first(), table, c, k, appended.drop_first());
        }
    }
}

/// Whether two strings hold the same characters.
fn str_eq(a: &str, b: &str) -> (r: bool)
    ensures
        r == (a@ == b@),
{
    let n = a.unicode_len();
    if n != b.unicode_len() {
        proof {
            assert(a@ != b@);
        }
        return false;
    }
    for i in 0..n
        invariant
            n == a@.len() && n == b@.len(),
            forall|j: int| 0 <= j < i ==> a@[j] == b@[j],
    {
        if a.get_char(i) != b.get_char(i) {
            return false;
        }
    }
    proof {
        assert(a@ =~= b@);
    }
    true
}

} // verus!
