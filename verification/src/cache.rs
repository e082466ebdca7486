//! The cache of what was found in each file, by the file's path and the
//! time of its last modification.
//!
//! An entry is good for a file as long as the file's modification time is
//! within `MTIME_TOLERANCE_NANOS` of the time stored with the entry. The
//! cache is kept between runs as a `CacheData`, stamped with
//! `CACHE_VERSION`; what bears another stamp is dropped as a whole.
use crate::item::{clone_items, TestItem, TestItemView};
use crate::text::same_text;
use vstd::hash_map::StringHashMap;
use vstd::prelude::*;

verus! {

/// The stamp of the stored form.
pub const CACHE_VERSION: &'static str = "1.0";

/// Two modification times, in nanoseconds, are taken for the same where
/// they differ by less than this: a hundredth of a second.
pub const MTIME_TOLERANCE_NANOS: u64 = 10_000_000;

/// What was found in one file.
#[derive(Debug)]
pub struct CacheEntry {
    /// When the file was last modified, in nanoseconds since the Unix epoch.
    pub mtime: u64,
    pub items: Vec<TestItem>,
}

/// A cache entry as a mathematical value.
pub struct CacheEntryView {
    pub mtime: nat,
    pub items: Seq<TestItemView>,
}

impl View for CacheEntry {
    type V = CacheEntryView;

    open spec fn view(&self) -> CacheEntryView {
        CacheEntryView { mtime: self.mtime as nat, items: self.items.deep_view() }
    }
}

impl Clone for CacheEntry {
    fn clone(&self) -> (copy: Self)
        ensures
            copy@ == self@,
    {
        CacheEntry { mtime: self.mtime, items: clone_items(&self.items) }
    }
}

/// A table from paths to entries.
pub type Table = Map<Seq<char>, CacheEntryView>;

/// The table that a list of pairs stands for. Where a path occurs twice,
/// the later pair counts.
pub open spec fn table_of(pairs: Seq<(String, CacheEntry)>) -> Table
    decreases pairs.len(),
{
    if pairs.len() == 0 {
        Map::empty()
    } else {
        table_of(pairs.drop_last()).insert(pairs.last().0@, pairs.last().1@)
    }
}

/// The stored form of a cache.
#[derive(Debug)]
pub struct CacheData {
    pub version: String,
    pub entries: Vec<(String, CacheEntry)>,
}

/// The stored form of a cache, as a mathematical value.
pub struct CacheDataView {
    pub version: Seq<char>,
    pub entries: Table,
}

impl View for CacheData {
    type V = CacheDataView;

    open spec fn view(&self) -> CacheDataView {
        CacheDataView { version: self.version@, entries: table_of(self.entries@) }
    }
}

/// Whether two modification times are taken for the same.
pub open spec fn same_time(stored: nat, current: nat) -> bool {
    stored - current < MTIME_TOLERANCE_NANOS && current - stored < MTIME_TOLERANCE_NANOS
}

/// What a table has for a file that was last modified at `mtime`: the items
/// of the file's entry, if there is one and its time is taken for the same.
pub open spec fn lookup_of(table: Table, path: Seq<char>, mtime: nat) -> Option<Seq<TestItemView>> {
    if table.contains_key(path) && same_time(table[path].mtime, mtime) {
        Some(table[path].items)
    } else {
        None
    }
}

/// The stored form of a table.
pub open spec fn persisted(table: Table) -> CacheDataView {
    CacheDataView { version: CACHE_VERSION@, entries: table }
}

/// The table that a stored form gives: its entries where it could be read
/// and bears the stamp, else the empty table.
pub open spec fn loaded(stored: Option<CacheDataView>) -> Table {
    match stored {
        Some(data) => if data.version == CACHE_VERSION@ {
            data.entries
        } else {
            Map::empty()
        },
        None => Map::empty(),
    }
}

/// A cache that is stored and loaded again is the same table, and so
/// answers every lookup as before.
pub proof fn lemma_persist_then_load(table: Table)
    ensures
        loaded(Some(persisted(table))) == table,
        forall|path: Seq<char>, mtime: nat|
            lookup_of(loaded(Some(persisted(table))), path, mtime) == lookup_of(table, path, mtime),
{
}

/// A lookup answers only for a time less than the tolerance away from the
/// stored one; a time that is a second off is never answered.
pub proof fn lemma_hit_within_tolerance(table: Table, path: Seq<char>, mtime: nat)
    ensures
        lookup_of(table, path, mtime).is_some() ==> table.contains_key(path) && table[path].mtime
            - mtime < MTIME_TOLERANCE_NANOS && mtime - table[path].mtime < MTIME_TOLERANCE_NANOS,
        table.contains_key(path) && (mtime >= table[path].mtime + 1_000_000_000
            || table[path].mtime >= mtime + 1_000_000_000) ==> lookup_of(table, path, mtime).is_none(),
{
}

/// The items of an optional list.
pub open spec fn items_view(items: Option<Vec<TestItem>>) -> Option<Seq<TestItemView>> {
    match items {
        Some(list) => Some(list.deep_view()),
        None => None,
    }
}

/// The stored form of an optional cache.
pub open spec fn data_view(data: Option<CacheData>) -> Option<CacheDataView> {
    match data {
        Some(d) => Some(d@),
        None => None,
    }
}

/// Whether `key` is one of `paths`.
spec fn listed(paths: Seq<String>, key: Seq<char>) -> bool {
    exists|i: int| 0 <= i < paths.len() && (#[trigger] paths[i])@ == key
}

/// The paths list exactly the keys of the table, each once.
spec fn consistent(table: Map<Seq<char>, CacheEntry>, paths: Seq<String>) -> bool {
    &&& forall|key: Seq<char>| table.contains_key(key) <==> listed(paths, key)
    &&& forall|i: int, j: int| 0 <= i < j < paths.len() ==> paths[i]@ != paths[j]@
}

/// The table that a map of entries stands for.
spec fn table_view(table: Map<Seq<char>, CacheEntry>) -> Table {
    Map::new(|key: Seq<char>| table.contains_key(key), |key: Seq<char>| table[key]@)
}

/// Puts an entry into the table, and its path on the list if it is new.
fn store(
    table: &mut StringHashMap<CacheEntry>,
    paths: &mut Vec<String>,
    path: String,
    entry: CacheEntry,
)
    requires
        consistent(old(table)@, old(paths)@),
    ensures
        consistent(final(table)@, final(paths)@),
        final(table)@ == old(table)@.insert(path@, entry),
{
    if !table.contains_key(path.as_str()) {
        let copy = path.clone();
        paths.push(copy);
        assert(forall|key: Seq<char>|
            listed(paths@, key) <==> (listed(old(paths)@, key) || key == path@)) by {
            assert forall|key: Seq<char>| listed(paths@, key) implies (listed(old(paths)@, key)
                || key == path@) by {
                let i = choose|i: int| 0 <= i < paths.len() && (#[trigger] paths@[i])@ == key;
                if i < old(paths)@.len() {
                    assert(old(paths)@[i]@ == key);
                }
            }
            assert forall|key: Seq<char>| (listed(old(paths)@, key) || key == path@) implies listed(
                paths@,
                key,
            ) by {
                if listed(old(paths)@, key) {
                    let i = choose|i: int|
                        0 <= i < old(paths)@.len() && (#[trigger] old(paths)@[i])@ == key;
                    assert(paths@[i]@ == key);
                } else {
                    assert(paths@[old(paths)@.len() as int]@ == key);
                }
            }
        }
        assert forall|i: int, j: int| 0 <= i < j < paths.len() implies paths@[i]@ != paths@[j]@ by {
            if j == old(paths)@.len() {
                assert(old(paths)@[i]@ == paths@[i]@);
                assert(listed(old(paths)@, paths@[i]@));
            }
        }
    } else {
        assert(listed(paths@, path@));
    }
    table.insert(path, entry);
}

/// The entries of a cache, and the list of their paths.
struct Entries {
    table: StringHashMap<CacheEntry>,
    paths: Vec<String>,
}

impl Entries {
    fn new() -> (entries: Self)
        ensures
            entries.table@ == Map::<Seq<char>, CacheEntry>::empty(),
            entries.paths@ == Seq::<String>::empty(),
    {
        Entries { table: StringHashMap::new(), paths: Vec::new() }
    }
}

/// The cache: a table from the paths of files to what was found in them.
pub struct Cache {
    inner: Entries,
}

impl View for Cache {
    type V = Table;

    closed spec fn view(&self) -> Table {
        table_view(self.inner.table@)
    }
}

impl Cache {
    #[verifier::type_invariant]
    spec fn inv(self) -> bool {
        consistent(self.inner.table@, self.inner.paths@)
    }

    /// An empty cache.
    pub fn new() -> (cache: Self)
        ensures
            cache@ == Table::empty(),
    {
        let cache = Cache { inner: Entries::new() };
        assert(cache@ =~= Table::empty());
        cache
    }

    /// The items stored for the file at `path`, if its entry is good for the
    /// modification time `mtime`.
    pub fn lookup(&self, path: &str, mtime: u64) -> (items: Option<Vec<TestItem>>)
        ensures
            items_view(items) == lookup_of(self@, path@, mtime as nat),
    {
        match self.inner.table.get(path) {
            Some(entry) => {
                let near = if entry.mtime >= mtime {
                    entry.mtime - mtime < MTIME_TOLERANCE_NANOS
                } else {
                    mtime - entry.mtime < MTIME_TOLERANCE_NANOS
                };
                if near {
                    Some(clone_items(&entry.items))
                } else {
                    None
                }
            },
            None => None,
        }
    }

    /// Stores `items` as what was found in the file at `path`, last modified
    /// at `mtime`, in place of what was stored for it before.
    pub fn update(&mut self, path: String, mtime: u64, items: Vec<TestItem>)
        ensures
            final(self)@ == old(self)@.insert(
                path@,
                CacheEntryView { mtime: mtime as nat, items: items.deep_view() },
            ),
    {
        proof {
            use_type_invariant(&*self);
        }
        let mut work = Entries::new();
        core::mem::swap(&mut self.inner, &mut work);
        store(&mut work.table, &mut work.paths, path, CacheEntry { mtime, items });
        core::mem::swap(&mut self.inner, &mut work);
        assert(self@ =~= old(self)@.insert(
            path@,
            CacheEntryView { mtime: mtime as nat, items: items.deep_view() },
        ));
    }

    /// Empties the cache.
    pub fn clear(&mut self)
        ensures
            final(self)@ == Table::empty(),
    {
        self.inner = Entries::new();
        assert(self@ =~= Table::empty());
    }

    /// Replaces the content of the cache by what a stored form gives: its
    /// entries, or nothing where the stored form could not be read (`None`)
    /// or bears another stamp than `CACHE_VERSION`.
    pub fn load(&mut self, stored: Option<CacheData>)
        ensures
            final(self)@ == loaded(data_view(stored)),
    {
        self.clear();
        match stored {
            Some(data) => {
                if same_text(data.version.as_str(), CACHE_VERSION) {
                    let ghost pairs = data.entries@;
                    let mut entries = data.entries;
                    let mut i: usize = 0;
                    assert(pairs.take(0) =~= Seq::empty());
                    while i < entries.len()
                        invariant
                            i <= entries.len(),
                            entries@ == pairs,
                            self@ == table_of(pairs.take(i as int)),
                        decreases entries.len() - i,
                    {
                        let path = entries[i].0.clone();
                        let entry = entries[i].1.clone();
                        proof {
                            assert(pairs.take(i + 1).drop_last() =~= pairs.take(i as int));
                            assert(pairs.take(i + 1).last() == pairs[i as int]);
                        }
                        self.update(path, entry.mtime, entry.items);
                        i = i + 1;
                    }
                    assert(pairs.take(i as int) =~= pairs);
                }
            },
            None => {},
        }
    }

    /// The stored form of the cache, stamped with `CACHE_VERSION`.
    pub fn snapshot(&self) -> (data: CacheData)
        ensures
            data@ == persisted(self@),
    {
        proof {
            use_type_invariant(self);
        }
        let mut entries: Vec<(String, CacheEntry)> = Vec::new();
        let mut i: usize = 0;
        let table = &self.inner.table;
        let paths = &self.inner.paths;
        while i < paths.len()
            invariant
                i <= paths.len(),
                consistent(table@, paths@),
                table_of(entries@) == Map::new(
                    |key: Seq<char>| listed(paths@.take(i as int), key),
                    |key: Seq<char>| table@[key]@,
                ),
            decreases paths.len() - i,
        {
            let path = &paths[i];
            assert(listed(paths@, path@));
            match table.get(path.as_str()) {
                Some(entry) => {
                    let ghost before = entries@;
                    entries.push((path.clone(), entry.clone()));
                    proof {
                        assert(entries@.drop_last() =~= before);
                        let shorter = paths@.take(i as int);
                        let longer = paths@.take(i + 1);
                        assert forall|key: Seq<char>| listed(longer, key) <==> (listed(shorter, key)
                            || key == path@) by {
                            if listed(longer, key) {
                                let k = choose|k: int|
                                    0 <= k < longer.len() && (#[trigger] longer[k])@ == key;
                                if k < i {
                                    assert(shorter[k]@ == key);
                                }
                            }
                            if listed(shorter, key) {
                                let k = choose|k: int|
                                    0 <= k < shorter.len() && (#[trigger] shorter[k])@ == key;
                                assert(longer[k]@ == key);
                            }
                            if key == path@ {
                                assert(longer[i as int]@ == key);
                            }
                        }
                        assert(table_of(entries@) =~= Map::new(
                            |key: Seq<char>| listed(longer, key),
                            |key: Seq<char>| table@[key]@,
                        ));
                    }
                },
                None => {
                    proof {
                        assert(false);
                    }
                },
            }
            i = i + 1;
        }
        proof {
            assert(paths@.take(i as int) =~= paths@);
            assert(table_of(entries@) =~= self@);
        }
        let version: String = CACHE_VERSION.to_owned();
        CacheData { version, entries }
    }
}

} // verus!
