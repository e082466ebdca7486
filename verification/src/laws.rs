//! What holds of whole runs, and of the names that are passed over.
use crate::cache::{CacheEntryView, Table};
use crate::collector::{
    cached_for, default_ignore_patterns, plain_reports, run_reports, run_table, step_items,
    step_table, visit_of, SourceFileView, Visit,
};
use crate::filter::TestFilter;
use crate::matcher::{lemma_split_star_free, star, star_free, wildcard_matches};
use crate::text::split;
use vstd::prelude::*;

verus! {

/// No two of the files have the same path.
pub open spec fn distinct_paths(files: Seq<SourceFileView>) -> bool {
    forall|i: int, j: int| 0 <= i < j < files.len() ==> files[i].path != files[j].path
}

/// What a table has for a path.
pub open spec fn entry_at(table: Table, path: Seq<char>) -> Option<CacheEntryView> {
    if table.contains_key(path) {
        Some(table[path])
    } else {
        None
    }
}

/// A file changes the cache at its own path only.
pub proof fn lemma_step_keeps_other_paths(
    table: Table,
    caching: bool,
    file: SourceFileView,
    path: Seq<char>,
)
    requires
        path != file.path,
    ensures
        entry_at(step_table(table, caching, file), path) == entry_at(table, path),
{
}

/// A run changes the cache at the paths of its files only.
pub proof fn lemma_run_keeps_other_paths(
    table: Table,
    caching: bool,
    files: Seq<SourceFileView>,
    path: Seq<char>,
)
    requires
        forall|i: int| 0 <= i < files.len() ==> files[i].path != path,
    ensures
        entry_at(run_table(table, caching, files), path) == entry_at(table, path),
    decreases files.len(),
{
    if files.len() > 0 {
        let before = run_table(table, caching, files.drop_last());
        lemma_run_keeps_other_paths(table, caching, files.drop_last(), path);
        lemma_step_keeps_other_paths(before, caching, files.last(), path);
    }
}

/// The items of a file depend on the cache at the file's path only.
pub proof fn lemma_step_items_local(a: Table, b: Table, caching: bool, file: SourceFileView)
    requires
        entry_at(a, file.path) == entry_at(b, file.path),
    ensures
        step_items(a, caching, file) == step_items(b, caching, file),
{
}

/// Once a file has been through a run, the cache gives for it what the run
/// found, as long as the file is as it was.
pub proof fn lemma_step_repeats(table: Table, after: Table, caching: bool, file: SourceFileView)
    requires
        entry_at(after, file.path) == entry_at(step_table(table, caching, file), file.path),
    ensures
        step_items(after, caching, file) == step_items(table, caching, file),
{
    if cached_for(table, caching, file.path, file.mtime).is_some() {
        lemma_step_items_local(after, table, caching, file);
    }
}

/// After a run over files of distinct paths, the cache has for each file
/// what the step of that file left.
pub proof fn lemma_run_entry(table: Table, caching: bool, files: Seq<SourceFileView>, n: int)
    requires
        distinct_paths(files),
        0 <= n < files.len(),
    ensures
        entry_at(run_table(table, caching, files), files[n].path) == entry_at(
            step_table(run_table(table, caching, files.take(n)), caching, files[n]),
            files[n].path,
        ),
    decreases files.len(),
{
    let shorter = files.drop_last();
    if n == files.len() - 1 {
        assert(shorter =~= files.take(n));
    } else {
        let before = run_table(table, caching, shorter);
        lemma_step_keeps_other_paths(before, caching, files.last(), files[n].path);
        lemma_run_entry(table, caching, shorter, n);
        assert(shorter.take(n) =~= files.take(n));
    }
}

/// The first `n` files are reported alike by a run and by a second run
/// that starts with the cache that the first has left.
proof fn lemma_second_run_prefix(
    table: Table,
    caching: bool,
    files: Seq<SourceFileView>,
    filter: TestFilter,
    n: int,
)
    requires
        distinct_paths(files),
        0 <= n <= files.len(),
    ensures
        run_reports(run_table(table, caching, files), caching, files.take(n), filter)
            == run_reports(table, caching, files.take(n), filter),
    decreases n,
{
    if n > 0 {
        let m = n - 1;
        let warm = run_table(table, caching, files);
        let prefix = files.take(n);
        let before = files.take(m);
        let file = files[m];
        lemma_second_run_prefix(table, caching, files, filter, m);
        assert(prefix.drop_last() =~= before);
        assert(prefix.last() == file);
        lemma_run_keeps_other_paths(warm, caching, before, file.path);
        lemma_run_entry(table, caching, files, m);
        lemma_step_repeats(
            run_table(table, caching, before),
            run_table(warm, caching, before),
            caching,
            file,
        );
    }
}

/// A second run over the same files, unchanged, reports what the first run
/// reported, whatever the cache held before the first and whether or not
/// the cache is in use: what the first run has stored answers the second.
pub proof fn lemma_second_run_repeats(
    table: Table,
    caching: bool,
    files: Seq<SourceFileView>,
    filter: TestFilter,
)
    requires
        distinct_paths(files),
    ensures
        run_reports(run_table(table, caching, files), caching, files, filter) == run_reports(
            table,
            caching,
            files,
            filter,
        ),
{
    lemma_second_run_prefix(table, caching, files, filter, files.len() as int);
    assert(files.take(files.len() as int) =~= files);
}

/// A run that does not use the cache leaves it as it was, and reports what
/// a run with an empty cache reports.
pub proof fn lemma_run_without_cache(
    table: Table,
    files: Seq<SourceFileView>,
    filter: TestFilter,
)
    ensures
        run_table(table, false, files) == table,
        run_reports(table, false, files, filter) == run_reports(
            Table::empty(),
            false,
            files,
            filter,
        ),
    decreases files.len(),
{
    if files.len() > 0 {
        lemma_run_without_cache(table, files.drop_last(), filter);
        lemma_run_without_cache(Table::empty(), files.drop_last(), filter);
    }
}

/// No file is reported without items.
pub proof fn lemma_reports_have_items(
    table: Table,
    caching: bool,
    files: Seq<SourceFileView>,
    filter: TestFilter,
)
    ensures
        forall|i: int|
            0 <= i < run_reports(table, caching, files, filter).len() ==> (#[trigger] run_reports(
                table,
                caching,
                files,
                filter,
            )[i]).test_items.len() > 0,
        forall|i: int|
            0 <= i < plain_reports(files).len() ==> (#[trigger] plain_reports(
                files,
            )[i]).test_items.len() > 0,
    decreases files.len(),
{
    if files.len() > 0 {
        lemma_reports_have_items(table, caching, files.drop_last(), filter);
        let earlier = run_reports(table, caching, files.drop_last(), filter);
        let all = run_reports(table, caching, files, filter);
        assert forall|i: int| 0 <= i < all.len() implies (#[trigger] all[i]).test_items.len()
            > 0 by {
            if i < earlier.len() {
                assert(all[i] == earlier[i]);
            }
        }
        let plain_earlier = plain_reports(files.drop_last());
        let plain = plain_reports(files);
        assert forall|i: int| 0 <= i < plain.len() implies (#[trigger] plain[i]).test_items.len()
            > 0 by {
            if i < plain_earlier.len() {
                assert(plain[i] == plain_earlier[i]);
            }
        }
    }
}

/// A name that is itself one of the ignore patterns, and holds no star, is
/// passed over, whether it names a file or a directory.
pub proof fn lemma_listed_name_is_passed_over(
    ignore: Seq<Seq<char>>,
    test: Seq<Seq<char>>,
    name: Seq<char>,
    is_file: bool,
)
    requires
        ignore.contains(name),
        star_free(name),
    ensures
        visit_of(ignore, test, Some(name), is_file) == Visit::Skip,
{
    lemma_split_star_free(name);
    assert(split(name, star()).len() == 1);
    assert(wildcard_matches(name, name));
    let i = choose|i: int| 0 <= i < ignore.len() && ignore[i] == name;
    assert(wildcard_matches(name, ignore[i]));
}

/// With the default patterns, an entry named `__pycache__` or `.git` is
/// passed over, so that nothing below such a directory is ever looked at.
pub proof fn lemma_bytecode_and_vcs_passed_over(
    test: Seq<Seq<char>>,
    name: Seq<char>,
    is_file: bool,
)
    requires
        name == "__pycache__"@ || name == ".git"@,
    ensures
        visit_of(default_ignore_patterns(), test, Some(name), is_file) == Visit::Skip,
{
    reveal_strlit("__pycache__");
    reveal_strlit(".git");
    let ignore = default_ignore_patterns();
    assert(ignore[0] == ".git"@);
    assert(ignore[1] == "__pycache__"@);
    assert(ignore.contains(name));
    lemma_listed_name_is_passed_over(ignore, test, name, is_file);
}

} // verus!
