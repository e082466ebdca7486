//! The items of a run, grouped by file.
use crate::item::{TestItem, TestItemView};
use crate::text::same_text;
use vstd::prelude::*;

verus! {

/// The items of one file.
#[derive(Debug)]
pub struct FileItems {
    pub path: String,
    /// The items of the file, in the order in which the run found them.
    pub items: Vec<TestItem>,
}

/// The items of one file, as a mathematical value.
pub struct FileItemsView {
    pub path: Seq<char>,
    pub items: Seq<TestItemView>,
}

impl View for FileItems {
    type V = FileItemsView;

    open spec fn view(&self) -> FileItemsView {
        FileItemsView { path: self.path@, items: self.items.deep_view() }
    }
}

impl DeepView for FileItems {
    type V = FileItemsView;

    open spec fn deep_view(&self) -> FileItemsView {
        self@
    }
}

/// The file paths of `items`, each once, in the order in which they first
/// occur.
pub open spec fn paths_in_order(items: Seq<TestItemView>) -> Seq<Seq<char>>
    decreases items.len(),
{
    if items.len() == 0 {
        Seq::empty()
    } else {
        let before = paths_in_order(items.drop_last());
        if before.contains(items.last().file_path) {
            before
        } else {
            before.push(items.last().file_path)
        }
    }
}

/// Those of `items` that lie in the file at `path`, in order.
pub open spec fn items_of_file(items: Seq<TestItemView>, path: Seq<char>) -> Seq<TestItemView>
    decreases items.len(),
{
    if items.len() == 0 {
        Seq::empty()
    } else {
        let before = items_of_file(items.drop_last(), path);
        if items.last().file_path == path {
            before.push(items.last())
        } else {
            before
        }
    }
}

/// `items` grouped by file: one group for each file path, in the order in
/// which the paths first occur, and in each group the items of that file.
pub open spec fn grouped(items: Seq<TestItemView>) -> Seq<FileItemsView> {
    paths_in_order(items).map_values(
        |path: Seq<char>| FileItemsView { path, items: items_of_file(items, path) },
    )
}

/// Whether `path` is one of `paths`.
fn path_listed(paths: &Vec<String>, path: &str) -> (yes: bool)
    ensures
        yes == paths.deep_view().contains(path@),
{
    let mut i: usize = 0;
    while i < paths.len()
        invariant
            i <= paths.len(),
            forall|k: int| 0 <= k < i ==> paths@[k]@ != path@,
        decreases paths.len() - i,
    {
        if same_text(paths[i].as_str(), path) {
            assert(paths.deep_view()[i as int] == path@);
            return true;
        }
        i = i + 1;
    }
    proof {
        if paths.deep_view().contains(path@) {
            let k = choose|k: int| 0 <= k < paths.deep_view().len() && paths.deep_view()[k] == path@;
            assert(paths@[k]@ == path@);
        }
    }
    false
}

/// The file paths of `items`, each once, in the order in which they first
/// occur.
pub fn file_paths(items: &Vec<TestItem>) -> (paths: Vec<String>)
    ensures
        paths.deep_view() == paths_in_order(items.deep_view()),
{
    let mut paths: Vec<String> = Vec::new();
    let ghost all = items.deep_view();
    let mut i: usize = 0;
    assert(all.take(0) =~= Seq::empty());
    assert(paths.deep_view() =~= Seq::empty());
    while i < items.len()
        invariant
            i <= items.len(),
            all == items.deep_view(),
            paths.deep_view() == paths_in_order(all.take(i as int)),
        decreases items.len() - i,
    {
        proof {
            assert(all.take(i + 1).drop_last() =~= all.take(i as int));
            assert(all.take(i + 1).last() == items@[i as int]@);
        }
        if !path_listed(&paths, items[i].file_path.as_str()) {
            let ghost before = paths.deep_view();
            paths.push(items[i].file_path.clone());
            assert(paths.deep_view() =~= before.push(items@[i as int]@.file_path));
        }
        i = i + 1;
    }
    assert(all.take(i as int) =~= all);
    paths
}

/// Those of `items` that lie in the file at `path`, in order.
pub fn items_in_file(items: &Vec<TestItem>, path: &str) -> (found: Vec<TestItem>)
    ensures
        found.deep_view() == items_of_file(items.deep_view(), path@),
{
    let mut found: Vec<TestItem> = Vec::new();
    let ghost all = items.deep_view();
    let mut i: usize = 0;
    assert(all.take(0) =~= Seq::empty());
    assert(found.deep_view() =~= Seq::empty());
    while i < items.len()
        invariant
            i <= items.len(),
            all == items.deep_view(),
            found.deep_view() == items_of_file(all.take(i as int), path@),
        decreases items.len() - i,
    {
        proof {
            assert(all.take(i + 1).drop_last() =~= all.take(i as int));
            assert(all.take(i + 1).last() == items@[i as int]@);
        }
        if same_text(items[i].file_path.as_str(), path) {
            let ghost before = found.deep_view();
            found.push(items[i].clone());
            assert(found.deep_view() =~= before.push(items@[i as int]@));
        }
        i = i + 1;
    }
    assert(all.take(i as int) =~= all);
    found
}

/// `items` grouped by file.
pub fn group_by_file(items: &Vec<TestItem>) -> (groups: Vec<FileItems>)
    ensures
        groups.deep_view() == grouped(items.deep_view()),
{
    let paths = file_paths(items);
    let ghost listed = paths.deep_view();
    let mut groups: Vec<FileItems> = Vec::new();
    let mut i: usize = 0;
    while i < paths.len()
        invariant
            i <= paths.len(),
            listed == paths.deep_view(),
            listed == paths_in_order(items.deep_view()),
            groups.len() == i,
            forall|k: int|
                0 <= k < i ==> groups@[k]@ == (FileItemsView {
                    path: listed[k],
                    items: items_of_file(items.deep_view(), listed[k]),
                }),
        decreases paths.len() - i,
    {
        let found = items_in_file(items, paths[i].as_str());
        assert(listed[i as int] == paths@[i as int]@);
        groups.push(FileItems { path: paths[i].clone(), items: found });
        i = i + 1;
    }
    assert(groups.deep_view() =~= grouped(items.deep_view()));
    groups
}

/// The paths of the groups are those of the items: a path is listed exactly
/// if an item lies in its file, then its group is not empty, and no path
/// is listed twice.
pub proof fn lemma_groups_are_the_files_with_items(items: Seq<TestItemView>, path: Seq<char>)
    ensures
        paths_in_order(items).contains(path) <==> exists|k: int|
            0 <= k < items.len() && (#[trigger] items[k]).file_path == path,
        paths_in_order(items).contains(path) <==> items_of_file(items, path).len() > 0,
        paths_in_order(items).no_duplicates(),
    decreases items.len(),
{
    if items.len() > 0 {
        let shorter = items.drop_last();
        let last = items.last();
        let before = paths_in_order(shorter);
        lemma_groups_are_the_files_with_items(shorter, path);
        lemma_groups_are_the_files_with_items(shorter, last.file_path);
        if before.contains(path) {
            let k = choose|k: int| 0 <= k < shorter.len() && (#[trigger] shorter[k]).file_path == path;
            assert(items[k].file_path == path);
        }
        if exists|k: int| 0 <= k < items.len() && (#[trigger] items[k]).file_path == path {
            let k = choose|k: int| 0 <= k < items.len() && (#[trigger] items[k]).file_path == path;
            if k < shorter.len() {
                assert(shorter[k].file_path == path);
            }
        }
        if !before.contains(last.file_path) {
            let after = before.push(last.file_path);
            assert(after[before.len() as int] == last.file_path);
            if before.contains(path) {
                let j = choose|j: int| 0 <= j < before.len() && before[j] == path;
                assert(after[j] == path);
            }
            assert forall|i: int, j: int| 0 <= i < after.len() && 0 <= j < after.len() && i != j implies after[i] != after[j] by {
                if i < before.len() && j < before.len() {
                } else if i < before.len() {
                    assert(before.contains(before[i]));
                } else if j < before.len() {
                    assert(before.contains(before[j]));
                }
            }
        }
    }
}

} // verus!
