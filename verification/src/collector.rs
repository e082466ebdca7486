//! The collector: which directory entries are passed over, which files are
//! test files, and how the files of a tree become the result of a run.
//!
//! Walking the tree and reading the files is left to the caller. For every
//! directory entry the caller asks `visit`; for every test file it hands
//! over the path, the modification time and, where the cache has nothing,
//! the source text.
use crate::cache::{
    lookup_of, persisted, Cache, CacheData, CacheDataView, CacheEntryView, Table, data_view,
    items_view, loaded,
};
use crate::filter::TestFilter;
use crate::item::{
    clone_items, text_view, FileMetadata, FileMetadataView, TestItem, TestItemView,
};
use crate::matcher::{wildcard_match, wildcard_matches};
use crate::parser::{declarations_of, parse_declarations};
use crate::text::{borrowed_view, chars_of, ends_with, has_suffix};
use crate::walker::module_items;
use vstd::prelude::*;

verus! {

/// A collector of tests below one root directory.
pub struct FastCollector {
    /// The directory below which tests are looked for.
    pub root_path: String,
    /// A file is a test file if its name ends in `.py` and matches one of
    /// these.
    pub test_patterns: Vec<String>,
    /// A directory entry whose name matches one of these is passed over,
    /// with all that is below it.
    pub ignore_patterns: Vec<String>,
    /// Where the cache is kept between runs, if anywhere. Without a place
    /// to be kept, the cache is not in use: runs neither ask nor fill it.
    pub cache_path: Option<String>,
    /// What earlier runs found.
    pub cache: Cache,
}

/// The patterns for the names of test files that a new collector has.
pub open spec fn default_test_patterns() -> Seq<Seq<char>> {
    seq!["test_*.py"@, "*_test.py"@]
}

/// The patterns for the names to pass over that a new collector has:
/// version control, bytecode cache, virtual environments and packaging.
pub open spec fn default_ignore_patterns() -> Seq<Seq<char>> {
    seq![".git"@, "__pycache__"@, ".tox"@, ".venv"@, "venv"@, ".eggs"@, "*.egg-info"@]
}

/// Whether `name` matches one of `patterns`.
pub open spec fn matches_any(patterns: Seq<Seq<char>>, name: Seq<char>) -> bool {
    exists|i: int| 0 <= i < patterns.len() && wildcard_matches(name, #[trigger] patterns[i])
}

/// Whether a file of this name is a test file.
pub open spec fn is_test_file_name(patterns: Seq<Seq<char>>, name: Seq<char>) -> bool {
    has_suffix(name, ".py"@) && matches_any(patterns, name)
}

/// What is done with a directory entry.
#[derive(Clone, Copy, Debug, PartialEq, Eq, Structural)]
pub enum Visit {
    /// The entry is passed over; if it is a directory, nothing below it is
    /// looked at.
    Skip,
    /// The entry is a test file.
    Select,
    /// The entry is no test file; if it is a directory, the walk goes on
    /// below it.
    Pass,
}

/// What is done with a directory entry of the given name. An entry whose
/// path has no last component has no name.
pub open spec fn visit_of(
    ignore: Seq<Seq<char>>,
    test: Seq<Seq<char>>,
    name: Option<Seq<char>>,
    is_file: bool,
) -> Visit {
    match name {
        Some(n) => if matches_any(ignore, n) {
            Visit::Skip
        } else if is_file && is_test_file_name(test, n) {
            Visit::Select
        } else {
            Visit::Pass
        },
        None => Visit::Pass,
    }
}

/// A file as a run meets it.
#[derive(Debug)]
pub struct SourceFile {
    pub path: String,
    /// When the file was last modified, in nanoseconds since the Unix epoch,
    /// if that could be read.
    pub mtime: Option<u64>,
    /// The text of the file, if it could be read.
    pub source: Option<String>,
}

/// A file as a run meets it, as a mathematical value.
pub struct SourceFileView {
    pub path: Seq<char>,
    pub mtime: Option<nat>,
    pub source: Option<Seq<char>>,
}

/// An optional time as a mathematical value.
pub open spec fn time_view(mtime: Option<u64>) -> Option<nat> {
    match mtime {
        Some(t) => Some(t as nat),
        None => None,
    }
}

impl View for SourceFile {
    type V = SourceFileView;

    open spec fn view(&self) -> SourceFileView {
        SourceFileView {
            path: self.path@,
            mtime: time_view(self.mtime),
            source: text_view(self.source),
        }
    }
}

impl DeepView for SourceFile {
    type V = SourceFileView;

    open spec fn deep_view(&self) -> SourceFileView {
        self@
    }
}

/// The time that is recorded for a file: zero where none could be read.
pub open spec fn time_of(mtime: Option<nat>) -> nat {
    match mtime {
        Some(t) => t,
        None => 0,
    }
}

/// The items of a source text: those of its declarations, and none where
/// the text cannot be parsed.
pub open spec fn source_items(source: Seq<char>, path: Seq<char>) -> Seq<TestItemView> {
    match declarations_of(source, path) {
        Some(decls) => module_items(decls, path),
        None => Seq::empty(),
    }
}

/// The items that parsing a file gives: none where the file cannot be read.
pub open spec fn parsed_items(path: Seq<char>, source: Option<Seq<char>>) -> Seq<TestItemView> {
    match source {
        Some(text) => source_items(text, path),
        None => Seq::empty(),
    }
}

/// What the cache has for a file: nothing where the cache is not in use,
/// and nothing where the file's time is unknown. The cache is in use
/// (`caching`) once it has been given a place to be kept.
pub open spec fn cached_for(
    table: Table,
    caching: bool,
    path: Seq<char>,
    mtime: Option<nat>,
) -> Option<Seq<TestItemView>> {
    match mtime {
        Some(t) => if caching {
            lookup_of(table, path, t)
        } else {
            None
        },
        None => None,
    }
}

/// The cache after `items` were found in a file: they are stored, where the
/// cache is in use.
pub open spec fn stored_in(
    table: Table,
    caching: bool,
    path: Seq<char>,
    mtime: Option<nat>,
    items: Seq<TestItemView>,
) -> Table {
    if caching {
        table.insert(path, CacheEntryView { mtime: time_of(mtime), items })
    } else {
        table
    }
}

/// The items of a file in a run: those of the cache where it has them,
/// else those that parsing gives.
pub open spec fn step_items(table: Table, caching: bool, file: SourceFileView) -> Seq<
    TestItemView,
> {
    match cached_for(table, caching, file.path, file.mtime) {
        Some(items) => items,
        None => parsed_items(file.path, file.source),
    }
}

/// The cache after a file: what was parsed is stored.
pub open spec fn step_table(table: Table, caching: bool, file: SourceFileView) -> Table {
    match cached_for(table, caching, file.path, file.mtime) {
        Some(items) => table,
        None => stored_in(
            table,
            caching,
            file.path,
            file.mtime,
            parsed_items(file.path, file.source),
        ),
    }
}

/// The items that a filter lets through, in order.
pub open spec fn selected(items: Seq<TestItemView>, filter: TestFilter) -> Seq<TestItemView>
    decreases items.len(),
{
    if items.len() == 0 {
        Seq::empty()
    } else {
        let before = selected(items.drop_last(), filter);
        if filter.accepts(items.last()) {
            before.push(items.last())
        } else {
            before
        }
    }
}

/// What is reported of a file with the given items: the items that the
/// filter lets through, and nothing at all where it lets none through.
pub open spec fn report_of(
    path: Seq<char>,
    mtime: Option<nat>,
    items: Seq<TestItemView>,
    filter: TestFilter,
) -> Option<FileMetadataView> {
    let chosen = selected(items, filter);
    if chosen.len() == 0 {
        None
    } else {
        Some(FileMetadataView { path, mtime: time_of(mtime), test_items: chosen })
    }
}

/// The cache after a run over `files`, in their order.
pub open spec fn run_table(table: Table, caching: bool, files: Seq<SourceFileView>) -> Table
    decreases files.len(),
{
    if files.len() == 0 {
        table
    } else {
        step_table(run_table(table, caching, files.drop_last()), caching, files.last())
    }
}

/// What a run over `files` reports, in their order.
pub open spec fn run_reports(
    table: Table,
    caching: bool,
    files: Seq<SourceFileView>,
    filter: TestFilter,
) -> Seq<FileMetadataView>
    decreases files.len(),
{
    if files.len() == 0 {
        Seq::empty()
    } else {
        let before = run_reports(table, caching, files.drop_last(), filter);
        let file = files.last();
        let items = step_items(run_table(table, caching, files.drop_last()), caching, file);
        match report_of(file.path, file.mtime, items, filter) {
            Some(meta) => before.push(meta),
            None => before,
        }
    }
}

/// What a run without cache and filter reports of `files`: the items of
/// every file that has any.
pub open spec fn plain_reports(files: Seq<SourceFileView>) -> Seq<FileMetadataView>
    decreases files.len(),
{
    if files.len() == 0 {
        Seq::empty()
    } else {
        let before = plain_reports(files.drop_last());
        let file = files.last();
        let items = parsed_items(file.path, file.source);
        if items.len() == 0 {
            before
        } else {
            before.push(
                FileMetadataView { path: file.path, mtime: time_of(file.mtime), test_items: items },
            )
        }
    }
}

/// All the items of `files`, in their order.
pub open spec fn all_items(files: Seq<SourceFileView>) -> Seq<TestItemView>
    decreases files.len(),
{
    if files.len() == 0 {
        Seq::empty()
    } else {
        all_items(files.drop_last()) + parsed_items(files.last().path, files.last().source)
    }
}

/// An optional report as a mathematical value.
pub open spec fn report_view(meta: Option<FileMetadata>) -> Option<FileMetadataView> {
    match meta {
        Some(m) => Some(m@),
        None => None,
    }
}

/// The text of an optional source, borrowed.
fn borrow_source(source: &Option<String>) -> (text: Option<&str>)
    ensures
        borrowed_view(text) == text_view(*source),
{
    match source {
        Some(s) => Some(s.as_str()),
        None => None,
    }
}

/// Whether `name` matches one of `patterns`.
fn name_matches_any(patterns: &Vec<String>, name: &[char]) -> (yes: bool)
    ensures
        yes == matches_any(patterns.deep_view(), name@),
{
    let mut i: usize = 0;
    while i < patterns.len()
        invariant
            i <= patterns.len(),
            forall|k: int| 0 <= k < i ==> !wildcard_matches(name@, patterns@[k]@),
        decreases patterns.len() - i,
    {
        let pattern = chars_of(patterns[i].as_str());
        if wildcard_match(name, pattern.as_slice()) {
            assert(patterns.deep_view()[i as int] == patterns@[i as int]@);
            return true;
        }
        i = i + 1;
    }
    proof {
        if matches_any(patterns.deep_view(), name@) {
            let k = choose|k: int|
                0 <= k < patterns.deep_view().len() && wildcard_matches(
                    name@,
                    #[trigger] patterns.deep_view()[k],
                );
            assert(patterns.deep_view()[k] == patterns@[k]@);
        }
    }
    false
}

/// The items of `items` that `filter` lets through.
pub fn select_items(items: &Vec<TestItem>, filter: &TestFilter) -> (chosen: Vec<TestItem>)
    ensures
        chosen.deep_view() == selected(items.deep_view(), *filter),
{
    let mut chosen: Vec<TestItem> = Vec::new();
    let ghost all = items.deep_view();
    let mut i: usize = 0;
    assert(all.take(0) =~= Seq::empty());
    assert(chosen.deep_view() =~= Seq::empty());
    while i < items.len()
        invariant
            i <= items.len(),
            all == items.deep_view(),
            chosen.deep_view() == selected(all.take(i as int), *filter),
        decreases items.len() - i,
    {
        proof {
            assert(all.take(i + 1).drop_last() =~= all.take(i as int));
            assert(all.take(i + 1).last() == items@[i as int]@);
        }
        if filter.matches(&items[i]) {
            let ghost before = chosen.deep_view();
            chosen.push(items[i].clone());
            assert(chosen.deep_view() =~= before.push(items@[i as int]@));
        }
        i = i + 1;
    }
    assert(all.take(i as int) =~= all);
    chosen
}

/// What is reported of the file at `path` with the given items.
pub fn report_file(path: &str, mtime: Option<u64>, items: &Vec<TestItem>, filter: &TestFilter) -> (meta:
    Option<FileMetadata>)
    ensures
        report_view(meta) == report_of(path@, time_view(mtime), items.deep_view(), *filter),
{
    let chosen = select_items(items, filter);
    if chosen.len() == 0 {
        return None;
    }
    let time: u64 = match mtime {
        Some(t) => t,
        None => 0,
    };
    Some(FileMetadata { path: path.to_owned(), mtime: time, test_items: chosen })
}

impl FastCollector {
    /// A collector for the tree below `root_path`, with the default
    /// patterns, an empty cache and no place to keep it.
    pub fn new(root_path: String) -> (collector: Self)
        ensures
            collector.root_path == root_path,
            collector.test_patterns.deep_view() == default_test_patterns(),
            collector.ignore_patterns.deep_view() == default_ignore_patterns(),
            collector.cache_path.is_none(),
            collector.cache@ == Table::empty(),
    {
        let mut test_patterns: Vec<String> = Vec::new();
        test_patterns.push("test_*.py".to_owned());
        test_patterns.push("*_test.py".to_owned());
        let mut ignore_patterns: Vec<String> = Vec::new();
        ignore_patterns.push(".git".to_owned());
        ignore_patterns.push("__pycache__".to_owned());
        ignore_patterns.push(".tox".to_owned());
        ignore_patterns.push(".venv".to_owned());
        ignore_patterns.push("venv".to_owned());
        ignore_patterns.push(".eggs".to_owned());
        ignore_patterns.push("*.egg-info".to_owned());
        assert(test_patterns.deep_view() =~= default_test_patterns());
        assert(ignore_patterns.deep_view() =~= default_ignore_patterns());
        FastCollector {
            root_path,
            test_patterns,
            ignore_patterns,
            cache_path: None,
            cache: Cache::new(),
        }
    }

    /// Names the place where the cache is kept between runs.
    pub fn set_cache_path(&mut self, cache_path: String)
        ensures
            final(self).cache_path == Some(cache_path),
            final(self).root_path == old(self).root_path,
            final(self).test_patterns == old(self).test_patterns,
            final(self).ignore_patterns == old(self).ignore_patterns,
            final(self).cache@ == old(self).cache@,
    {
        self.cache_path = Some(cache_path);
    }

    /// Replaces the cache by what was kept from earlier runs. `stored` is
    /// `None` where nothing could be read; then, and where the stored form
    /// bears another stamp, the cache is empty afterwards.
    pub fn load_cache(&mut self, stored: Option<CacheData>)
        ensures
            final(self).cache@ == loaded(data_view(stored)),
            final(self).cache_path == old(self).cache_path,
            final(self).root_path == old(self).root_path,
            final(self).test_patterns == old(self).test_patterns,
            final(self).ignore_patterns == old(self).ignore_patterns,
    {
        self.cache.load(stored);
    }

    /// The stored form of the cache, if there is a place to keep it.
    pub fn save_cache(&self) -> (data: Option<CacheData>)
        ensures
            data_view(data) == if self.cache_path.is_some() {
                Some(persisted(self.cache@))
            } else {
                None::<CacheDataView>
            },
    {
        if self.cache_path.is_some() {
            Some(self.cache.snapshot())
        } else {
            None
        }
    }

    /// The items that the cache has for the file at `file_path`, if its
    /// entry is good for the modification time `current_mtime`.
    pub fn get_cached_items(&self, file_path: &str, current_mtime: u64) -> (items: Option<
        Vec<TestItem>,
    >)
        ensures
            items_view(items) == lookup_of(self.cache@, file_path@, current_mtime as nat),
    {
        self.cache.lookup(file_path, current_mtime)
    }

    /// Stores `items` in the cache as what was found in the file at
    /// `file_path`, last modified at `mtime`.
    pub fn update_cache(&mut self, file_path: String, mtime: u64, items: Vec<TestItem>)
        ensures
            final(self).cache@ == old(self).cache@.insert(
                file_path@,
                CacheEntryView { mtime: mtime as nat, items: items.deep_view() },
            ),
            final(self).cache_path == old(self).cache_path,
            final(self).root_path == old(self).root_path,
            final(self).test_patterns == old(self).test_patterns,
            final(self).ignore_patterns == old(self).ignore_patterns,
    {
        self.cache.update(file_path, mtime, items);
    }

    /// Whether a directory entry of this name is passed over: whether the
    /// name matches one of the ignore patterns.
    pub fn should_ignore(&self, name: &str) -> (yes: bool)
        ensures
            yes == matches_any(self.ignore_patterns.deep_view(), name@),
    {
        let chars = chars_of(name);
        name_matches_any(&self.ignore_patterns, chars.as_slice())
    }

    /// Whether `text` matches `pattern`, in which `*` stands for any run of
    /// characters.
    pub fn matches_wildcard(&self, text: &str, pattern: &str) -> (yes: bool)
        ensures
            yes == wildcard_matches(text@, pattern@),
    {
        let t = chars_of(text);
        let p = chars_of(pattern);
        wildcard_match(t.as_slice(), p.as_slice())
    }

    /// Whether a file of this name is a test file: whether the name ends in
    /// `.py` and matches one of the test patterns.
    pub fn is_test_file(&self, name: &str) -> (yes: bool)
        ensures
            yes == is_test_file_name(self.test_patterns.deep_view(), name@),
    {
        let chars = chars_of(name);
        let extension = chars_of(".py");
        if !ends_with(chars.as_slice(), extension.as_slice()) {
            return false;
        }
        name_matches_any(&self.test_patterns, chars.as_slice())
    }

    /// What is done with a directory entry: `name` is the last component of
    /// its path, if it has one, and `is_file` says whether it is a file.
    pub fn visit(&self, name: Option<&str>, is_file: bool) -> (visit: Visit)
        ensures
            visit == visit_of(
                self.ignore_patterns.deep_view(),
                self.test_patterns.deep_view(),
                borrowed_view(name),
                is_file,
            ),
    {
        match name {
            Some(n) => {
                if self.should_ignore(n) {
                    Visit::Skip
                } else if is_file && self.is_test_file(n) {
                    Visit::Select
                } else {
                    Visit::Pass
                }
            },
            None => Visit::Pass,
        }
    }

    /// The test items of the source text `content` of the file at
    /// `file_path`. A text that cannot be parsed has none.
    pub fn parse_test_file(&self, content: &str, file_path: &str) -> (items: Vec<TestItem>)
        ensures
            items.deep_view() == source_items(content@, file_path@),
    {
        match parse_declarations(content, file_path) {
            Some(decls) => self.extract_module(&decls, file_path),
            None => {
                let items: Vec<TestItem> = Vec::new();
                assert(items.deep_view() =~= Seq::empty());
                items
            },
        }
    }

    /// Whether the cache is in use: whether it has a place to be kept.
    pub open spec fn caching(&self) -> bool {
        self.cache_path.is_some()
    }

    /// The items that the cache has for a file whose modification time is
    /// `mtime`. The cache is asked only if it is in use and the time could
    /// be read.
    pub fn cached_items(&self, path: &str, mtime: Option<u64>) -> (items: Option<Vec<TestItem>>)
        ensures
            items_view(items) == cached_for(self.cache@, self.caching(), path@, time_view(mtime)),
    {
        if self.cache_path.is_none() {
            return None;
        }
        match mtime {
            Some(t) => self.cache.lookup(path, t),
            None => None,
        }
    }

    /// Stores what was found in a file for which the cache had nothing, if
    /// the cache is in use. A file whose time could not be read is stored at
    /// time zero.
    pub fn store_items(&mut self, path: &str, mtime: Option<u64>, items: &Vec<TestItem>)
        ensures
            final(self).cache@ == stored_in(
                old(self).cache@,
                old(self).caching(),
                path@,
                time_view(mtime),
                items.deep_view(),
            ),
            final(self).cache_path == old(self).cache_path,
            final(self).root_path == old(self).root_path,
            final(self).test_patterns == old(self).test_patterns,
            final(self).ignore_patterns == old(self).ignore_patterns,
    {
        if self.cache_path.is_some() {
            let time: u64 = match mtime {
                Some(t) => t,
                None => 0,
            };
            self.cache.update(path.to_owned(), time, clone_items(items));
        }
    }

    /// Parses a file for which the cache had nothing, and stores what was
    /// found. `source` is `None` where the file could not be read: such a
    /// file has no items.
    pub fn parse_and_store(&mut self, path: &str, mtime: Option<u64>, source: Option<&str>) -> (items:
        Vec<TestItem>)
        ensures
            items.deep_view() == parsed_items(path@, borrowed_view(source)),
            final(self).cache@ == stored_in(
                old(self).cache@,
                old(self).caching(),
                path@,
                time_view(mtime),
                parsed_items(path@, borrowed_view(source)),
            ),
            final(self).cache_path == old(self).cache_path,
            final(self).root_path == old(self).root_path,
            final(self).test_patterns == old(self).test_patterns,
            final(self).ignore_patterns == old(self).ignore_patterns,
    {
        let items = match source {
            Some(text) => self.parse_test_file(text, path),
            None => {
                let none: Vec<TestItem> = Vec::new();
                assert(none.deep_view() =~= Seq::empty());
                none
            },
        };
        self.store_items(path, mtime, &items);
        items
    }

    /// All the test items of `files`, in their order. The cache is neither
    /// asked nor changed.
    pub fn collect(&self, files: &Vec<SourceFile>) -> (items: Vec<TestItem>)
        ensures
            items.deep_view() == all_items(files.deep_view()),
    {
        let mut items: Vec<TestItem> = Vec::new();
        let ghost all = files.deep_view();
        let mut i: usize = 0;
        assert(all.take(0) =~= Seq::empty());
        assert(items.deep_view() =~= Seq::empty());
        while i < files.len()
            invariant
                i <= files.len(),
                all == files.deep_view(),
                items.deep_view() == all_items(all.take(i as int)),
            decreases files.len() - i,
        {
            let file = &files[i];
            proof {
                assert(all.take(i + 1).drop_last() =~= all.take(i as int));
                assert(all.take(i + 1).last() == file@);
            }
            match borrow_source(&file.source) {
                Some(text) => {
                    let mut found = self.parse_test_file(text, file.path.as_str());
                    let ghost before = items.deep_view();
                    let ghost fresh = found.deep_view();
                    let ghost old_items = items@;
                    let ghost old_found = found@;
                    items.append(&mut found);
                    proof {
                        assert(items@ == old_items + old_found);
                        assert(items.deep_view() =~= before + fresh);
                    }
                },
                None => {
                    assert(items.deep_view() + Seq::<TestItemView>::empty() =~= items.deep_view());
                },
            }
            i = i + 1;
        }
        assert(all.take(i as int) =~= all);
        items
    }

    /// What a run without cache and filter reports of `files`, in their
    /// order: for every file that has test items, its items.
    pub fn collect_with_metadata(&self, files: &Vec<SourceFile>) -> (reports: Vec<FileMetadata>)
        ensures
            reports.deep_view() == plain_reports(files.deep_view()),
    {
        let mut reports: Vec<FileMetadata> = Vec::new();
        let ghost all = files.deep_view();
        let mut i: usize = 0;
        assert(all.take(0) =~= Seq::empty());
        assert(reports.deep_view() =~= Seq::empty());
        while i < files.len()
            invariant
                i <= files.len(),
                all == files.deep_view(),
                reports.deep_view() == plain_reports(all.take(i as int)),
            decreases files.len() - i,
        {
            let file = &files[i];
            proof {
                assert(all.take(i + 1).drop_last() =~= all.take(i as int));
                assert(all.take(i + 1).last() == file@);
            }
            let found = match borrow_source(&file.source) {
                Some(text) => self.parse_test_file(text, file.path.as_str()),
                None => {
                    let none: Vec<TestItem> = Vec::new();
                    assert(none.deep_view() =~= Seq::empty());
                    none
                },
            };
            if found.len() > 0 {
                let time: u64 = match file.mtime {
                    Some(t) => t,
                    None => 0,
                };
                let ghost before = reports.deep_view();
                let meta = FileMetadata { path: file.path.clone(), mtime: time, test_items: found };
                reports.push(meta);
                assert(reports.deep_view() =~= before.push(meta@));
            }
            i = i + 1;
        }
        assert(all.take(i as int) =~= all);
        reports
    }

    /// A run over `files`, in their order. For each file the cache is asked,
    /// if it is in use; where it has nothing, the file is parsed and what
    /// was found is stored. Of each file the items that `filter` lets
    /// through are reported, and a file of which none is let through is
    /// left out.
    pub fn collect_filtered(&mut self, files: &Vec<SourceFile>, filter: &TestFilter) -> (reports:
        Vec<FileMetadata>)
        ensures
            reports.deep_view() == run_reports(
                old(self).cache@,
                old(self).caching(),
                files.deep_view(),
                *filter,
            ),
            final(self).cache@ == run_table(
                old(self).cache@,
                old(self).caching(),
                files.deep_view(),
            ),
            final(self).cache_path == old(self).cache_path,
            final(self).root_path == old(self).root_path,
            final(self).test_patterns == old(self).test_patterns,
            final(self).ignore_patterns == old(self).ignore_patterns,
    {
        let mut reports: Vec<FileMetadata> = Vec::new();
        let ghost all = files.deep_view();
        let ghost start = self.cache@;
        let mut i: usize = 0;
        assert(all.take(0) =~= Seq::empty());
        assert(reports.deep_view() =~= Seq::empty());
        while i < files.len()
            invariant
                i <= files.len(),
                all == files.deep_view(),
                start == old(self).cache@,
                reports.deep_view() == run_reports(
                    start,
                    self.caching(),
                    all.take(i as int),
                    *filter,
                ),
                self.cache@ == run_table(start, self.caching(), all.take(i as int)),
                self.cache_path == old(self).cache_path,
                self.root_path == old(self).root_path,
                self.test_patterns == old(self).test_patterns,
                self.ignore_patterns == old(self).ignore_patterns,
            decreases files.len() - i,
        {
            let file = &files[i];
            proof {
                assert(all.take(i + 1).drop_last() =~= all.take(i as int));
                assert(all.take(i + 1).last() == file@);
            }
            let path = file.path.as_str();
            let items = match self.cached_items(path, file.mtime) {
                Some(items) => items,
                None => self.parse_and_store(path, file.mtime, borrow_source(&file.source)),
            };
            match report_file(path, file.mtime, &items, filter) {
                Some(meta) => {
                    let ghost before = reports.deep_view();
                    reports.push(meta);
                    assert(reports.deep_view() =~= before.push(meta@));
                },
                None => {},
            }
            i = i + 1;
        }
        assert(all.take(i as int) =~= all);
        reports
    }
}

} // verus!
