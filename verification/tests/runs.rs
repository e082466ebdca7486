use pytest_fastcollect::collector::{report_file, select_items, FastCollector, SourceFile};
use pytest_fastcollect::filter::TestFilter;
use pytest_fastcollect::item::{FileMetadata, TestItem, TestItemType};
use pytest_fastcollect::report::{file_paths, group_by_file, items_in_file};

const SECOND: u64 = 1_000_000_000;

const MODULE_A: &str = "\
import pytest

@pytest.mark.slow
def test_one(): pass

def test_two(): pass
";

const MODULE_B: &str = "\
import pytest

@pytest.mark.smoke
class TestB:
    @pytest.mark.slow
    @pytest.mark.smoke
    def test_three(self): pass
";

fn file(path: &str, mtime: Option<u64>, source: Option<&str>) -> SourceFile {
    SourceFile { path: path.to_string(), mtime, source: source.map(|s| s.to_string()) }
}

fn tree() -> Vec<SourceFile> {
    vec![
        file("t/test_a.py", Some(10 * SECOND), Some(MODULE_A)),
        file("t/test_helpers.py", Some(11 * SECOND), Some("def helper(): pass\n")),
        file("t/test_b.py", Some(12 * SECOND), Some(MODULE_B)),
        file("t/test_broken.py", Some(13 * SECOND), Some("def test_x(:\n")),
        file("t/test_gone.py", None, None),
    ]
}

fn no_filter() -> TestFilter {
    TestFilter::new(None, None)
}

/// A collector whose cache is in use.
fn caching_collector() -> FastCollector {
    let mut collector = FastCollector::new("t".to_string());
    collector.set_cache_path("t/.cache/collect.json".to_string());
    collector
}

fn item(name: &str, path: &str, markers: &[&str]) -> TestItem {
    TestItem {
        file_path: path.to_string(),
        name: name.to_string(),
        line_number: 1,
        item_type: TestItemType::Function,
        class_name: None,
        markers: markers.iter().map(|m| m.to_string()).collect(),
        parametrize_count: None,
    }
}

fn names(items: &[TestItem]) -> Vec<String> {
    items.iter().map(|i| i.name.clone()).collect()
}

/// A report as plain values: path, time and the names of the items.
fn shape(reports: &[FileMetadata]) -> Vec<(String, u64, Vec<String>)> {
    reports.iter().map(|m| (m.path.clone(), m.mtime, names(&m.test_items))).collect()
}

fn expect(rows: &[(&str, u64, &[&str])]) -> Vec<(String, u64, Vec<String>)> {
    rows.iter()
        .map(|(p, t, n)| (p.to_string(), *t, n.iter().map(|x| x.to_string()).collect()))
        .collect()
}

#[test]
fn a_run_reports_the_files_that_have_tests() {
    let mut collector = caching_collector();
    let reports = collector.collect_filtered(&tree(), &no_filter());
    assert_eq!(
        shape(&reports),
        expect(&[
            ("t/test_a.py", 10 * SECOND, &["test_one", "test_two"]),
            ("t/test_b.py", 12 * SECOND, &["TestB", "test_three"]),
        ])
    );
    assert_eq!(reports[1].test_items[1].class_name, Some("TestB".to_string()));
    assert_eq!(reports[1].test_items[1].file_path, "t/test_b.py");
}

#[test]
fn a_run_stores_what_it_parsed() {
    let mut collector = caching_collector();
    collector.collect_filtered(&tree(), &no_filter());
    assert_eq!(
        names(&collector.get_cached_items("t/test_a.py", 10 * SECOND).unwrap()),
        vec!["test_one", "test_two"]
    );
    assert_eq!(collector.get_cached_items("t/test_helpers.py", 11 * SECOND).unwrap().len(), 0);
    assert_eq!(collector.get_cached_items("t/test_broken.py", 13 * SECOND).unwrap().len(), 0);
    assert_eq!(collector.get_cached_items("t/test_gone.py", 0).unwrap().len(), 0);
    assert!(collector.get_cached_items("t/test_other.py", 10 * SECOND).is_none());
}

#[test]
fn a_second_run_reports_what_the_first_reported() {
    for (keyword, marker) in [
        (None, None),
        (Some("one"), None),
        (None, Some("slow")),
        (None, Some("slow and not smoke")),
        (Some("test_b"), Some("smoke")),
        (Some("nothing_has_this"), None),
    ] {
        let filter = TestFilter::new(keyword.map(String::from), marker.map(String::from));
        let mut collector = caching_collector();
        let cold = collector.collect_filtered(&tree(), &filter);
        let warm = collector.collect_filtered(&tree(), &filter);
        assert_eq!(shape(&warm), shape(&cold));
        let mut without_cache = FastCollector::new("t".to_string());
        assert_eq!(shape(&without_cache.collect_filtered(&tree(), &filter)), shape(&cold));
        assert_eq!(shape(&without_cache.collect_filtered(&tree(), &filter)), shape(&cold));
        for (w, c) in warm.iter().zip(cold.iter()) {
            for (x, y) in w.test_items.iter().zip(c.test_items.iter()) {
                assert_eq!(x.file_path, y.file_path);
                assert_eq!(x.line_number, y.line_number);
                assert_eq!(x.item_type, y.item_type);
                assert_eq!(x.class_name, y.class_name);
                assert_eq!(x.markers, y.markers);
                assert_eq!(x.parametrize_count, y.parametrize_count);
            }
        }
    }
}

#[test]
fn a_warm_run_answers_from_the_cache() {
    let mut collector = caching_collector();
    collector.collect_filtered(&tree(), &no_filter());
    // The sources are withheld: what is reported comes from the cache.
    let withheld: Vec<SourceFile> =
        tree().into_iter().map(|f| SourceFile { source: None, ..f }).collect();
    let warm = collector.collect_filtered(&withheld, &no_filter());
    assert_eq!(
        shape(&warm),
        expect(&[
            ("t/test_a.py", 10 * SECOND, &["test_one", "test_two"]),
            ("t/test_b.py", 12 * SECOND, &["TestB", "test_three"]),
        ])
    );
}

#[test]
fn without_a_place_to_keep_it_the_cache_is_not_in_use() {
    let mut collector = FastCollector::new("t".to_string());
    collector.update_cache("t/test_a.py".to_string(), 10 * SECOND, vec![item("stale", "t/test_a.py", &[])]);
    // the entry is there, and a run does not ask for it
    assert!(collector.get_cached_items("t/test_a.py", 10 * SECOND).is_some());
    assert!(collector.cached_items("t/test_a.py", Some(10 * SECOND)).is_none());
    let reports = collector.collect_filtered(&tree(), &no_filter());
    assert_eq!(
        shape(&reports),
        expect(&[
            ("t/test_a.py", 10 * SECOND, &["test_one", "test_two"]),
            ("t/test_b.py", 12 * SECOND, &["TestB", "test_three"]),
        ])
    );
    // nor does a run store anything
    assert!(collector.get_cached_items("t/test_b.py", 12 * SECOND).is_none());
    assert_eq!(
        names(&collector.get_cached_items("t/test_a.py", 10 * SECOND).unwrap()),
        vec!["stale"]
    );
    collector.store_items("t/test_b.py", Some(12 * SECOND), &Vec::new());
    assert!(collector.get_cached_items("t/test_b.py", 12 * SECOND).is_none());
    // every run reads every file again
    let withheld: Vec<SourceFile> =
        tree().into_iter().map(|f| SourceFile { source: None, ..f }).collect();
    assert_eq!(collector.collect_filtered(&withheld, &no_filter()).len(), 0);
    assert!(collector.save_cache().is_none());
    // with a place to keep it, the cache is in use
    collector.set_cache_path("t/.cache/collect.json".to_string());
    assert!(collector.cached_items("t/test_a.py", Some(10 * SECOND)).is_some());
    assert_eq!(names(&collector.collect_filtered(&tree(), &no_filter())[0].test_items), vec!["stale"]);
    collector.store_items("t/test_c.py", None, &vec![item("test_c", "t/test_c.py", &[])]);
    assert_eq!(names(&collector.get_cached_items("t/test_c.py", 0).unwrap()), vec!["test_c"]);
    assert_eq!(collector.save_cache().unwrap().entries.len(), 6);
}

#[test]
fn a_changed_time_makes_the_file_be_parsed_again() {
    let mut collector = caching_collector();
    let before = vec![file("t/test_a.py", Some(10 * SECOND), Some("def test_old(): pass\n"))];
    let after = vec![file("t/test_a.py", Some(11 * SECOND), Some("def test_new(): pass\n"))];
    let unchanged_time = vec![file("t/test_a.py", Some(10 * SECOND), Some("def test_new(): pass\n"))];
    assert_eq!(
        shape(&collector.collect_filtered(&before, &no_filter())),
        expect(&[("t/test_a.py", 10 * SECOND, &["test_old"])])
    );
    // within the tolerance the stored items are taken
    assert_eq!(
        shape(&collector.collect_filtered(&unchanged_time, &no_filter())),
        expect(&[("t/test_a.py", 10 * SECOND, &["test_old"])])
    );
    assert_eq!(
        shape(&collector.collect_filtered(&after, &no_filter())),
        expect(&[("t/test_a.py", 11 * SECOND, &["test_new"])])
    );
    assert!(collector.get_cached_items("t/test_a.py", 10 * SECOND).is_none());
    assert_eq!(
        names(&collector.get_cached_items("t/test_a.py", 11 * SECOND).unwrap()),
        vec!["test_new"]
    );
}

#[test]
fn a_file_without_a_time_is_always_parsed() {
    let mut collector = caching_collector();
    let first = vec![file("t/test_a.py", None, Some("def test_old(): pass\n"))];
    let second = vec![file("t/test_a.py", None, Some("def test_new(): pass\n"))];
    assert_eq!(
        shape(&collector.collect_filtered(&first, &no_filter())),
        expect(&[("t/test_a.py", 0, &["test_old"])])
    );
    assert_eq!(
        shape(&collector.collect_filtered(&second, &no_filter())),
        expect(&[("t/test_a.py", 0, &["test_new"])])
    );
}

#[test]
fn the_filter_chooses_among_cached_and_parsed_items_alike() {
    let mut collector = caching_collector();
    let slow = TestFilter::new(None, Some("slow".to_string()));
    let cold = collector.collect_filtered(&tree(), &slow);
    assert_eq!(
        shape(&cold),
        expect(&[
            ("t/test_a.py", 10 * SECOND, &["test_one"]),
            ("t/test_b.py", 12 * SECOND, &["test_three"]),
        ])
    );
    // the cache holds all items, not only the chosen ones
    let smoke = TestFilter::new(None, Some("smoke and not slow".to_string()));
    let warm = collector.collect_filtered(&tree(), &smoke);
    assert_eq!(shape(&warm), expect(&[("t/test_b.py", 12 * SECOND, &["TestB"])]));
    let none = TestFilter::new(Some("no_such_test".to_string()), None);
    assert_eq!(collector.collect_filtered(&tree(), &none).len(), 0);
}

#[test]
fn a_run_over_nothing_reports_nothing() {
    let mut collector = caching_collector();
    assert_eq!(collector.collect_filtered(&Vec::new(), &no_filter()).len(), 0);
    assert_eq!(collector.collect_with_metadata(&Vec::new()).len(), 0);
    assert_eq!(collector.collect(&Vec::new()).len(), 0);
}

#[test]
fn a_plain_run_neither_asks_nor_fills_the_cache() {
    let mut collector = caching_collector();
    collector.update_cache("t/test_a.py".to_string(), 10 * SECOND, vec![item("stale", "t/test_a.py", &[])]);
    let reports = collector.collect_with_metadata(&tree());
    assert_eq!(
        shape(&reports),
        expect(&[
            ("t/test_a.py", 10 * SECOND, &["test_one", "test_two"]),
            ("t/test_b.py", 12 * SECOND, &["TestB", "test_three"]),
        ])
    );
    let items = collector.collect(&tree());
    assert_eq!(names(&items), vec!["test_one", "test_two", "TestB", "test_three"]);
    assert!(collector.get_cached_items("t/test_b.py", 12 * SECOND).is_none());
    assert_eq!(
        names(&collector.get_cached_items("t/test_a.py", 10 * SECOND).unwrap()),
        vec!["stale"]
    );
    // a filtered run believes the cache
    let filtered = collector.collect_filtered(&tree(), &no_filter());
    assert_eq!(names(&filtered[0].test_items), vec!["stale"]);
}

#[test]
fn a_file_whose_time_is_unknown_is_reported_at_time_zero() {
    let collector = FastCollector::new("t".to_string());
    let files = vec![file("t/test_a.py", None, Some("def test_a(): pass\n"))];
    assert_eq!(
        shape(&collector.collect_with_metadata(&files)),
        expect(&[("t/test_a.py", 0, &["test_a"])])
    );
}

#[test]
fn the_steps_of_a_run_one_by_one() {
    let mut collector = caching_collector();
    let path = "t/test_a.py";
    assert!(collector.cached_items(path, Some(10 * SECOND)).is_none());
    let parsed = collector.parse_and_store(path, Some(10 * SECOND), Some(MODULE_A));
    assert_eq!(names(&parsed), vec!["test_one", "test_two"]);
    let cached = collector.cached_items(path, Some(10 * SECOND)).unwrap();
    assert_eq!(names(&cached), vec!["test_one", "test_two"]);
    let slow = TestFilter::new(None, Some("slow".to_string()));
    let report = report_file(path, Some(10 * SECOND), &cached, &slow).unwrap();
    assert_eq!(report.path, path);
    assert_eq!(report.mtime, 10 * SECOND);
    assert_eq!(names(&report.test_items), vec!["test_one"]);
    let fast = TestFilter::new(None, Some("fast".to_string()));
    assert!(report_file(path, Some(10 * SECOND), &cached, &fast).is_none());
    assert!(report_file(path, None, &Vec::new(), &no_filter()).is_none());
    assert_eq!(report_file(path, None, &cached, &no_filter()).unwrap().mtime, 0);

    // an unreadable file has no items, and that is stored
    let none = collector.parse_and_store("t/test_gone.py", None, None);
    assert_eq!(none.len(), 0);
    assert_eq!(collector.get_cached_items("t/test_gone.py", 0).unwrap().len(), 0);
}

#[test]
fn select_keeps_the_order_of_the_items() {
    let items = vec![
        item("test_a", "f.py", &["slow"]),
        item("test_b", "f.py", &[]),
        item("test_c", "f.py", &["slow", "net"]),
        item("test_d", "f.py", &["net"]),
    ];
    let net = TestFilter::new(None, Some("net or slow".to_string()));
    assert_eq!(names(&select_items(&items, &net)), vec!["test_a", "test_c", "test_d"]);
    assert_eq!(names(&select_items(&items, &no_filter())), names(&items));
    assert_eq!(select_items(&Vec::new(), &net).len(), 0);
}

#[test]
fn items_are_grouped_by_file_in_the_order_of_first_occurrence() {
    let items = vec![
        item("test_a", "x.py", &[]),
        item("test_b", "y.py", &[]),
        item("test_c", "x.py", &[]),
        item("test_d", "z.py", &[]),
        item("test_e", "y.py", &[]),
    ];
    assert_eq!(file_paths(&items), vec!["x.py", "y.py", "z.py"]);
    assert_eq!(names(&items_in_file(&items, "y.py")), vec!["test_b", "test_e"]);
    assert_eq!(items_in_file(&items, "w.py").len(), 0);
    let groups = group_by_file(&items);
    assert_eq!(groups.len(), 3);
    assert_eq!(groups[0].path, "x.py");
    assert_eq!(names(&groups[0].items), vec!["test_a", "test_c"]);
    assert_eq!(groups[1].path, "y.py");
    assert_eq!(names(&groups[1].items), vec!["test_b", "test_e"]);
    assert_eq!(groups[2].path, "z.py");
    assert_eq!(names(&groups[2].items), vec!["test_d"]);
    assert_eq!(group_by_file(&Vec::new()).len(), 0);
}

#[test]
fn the_items_of_a_run_grouped_by_file() {
    let collector = FastCollector::new("t".to_string());
    let groups = group_by_file(&collector.collect(&tree()));
    assert_eq!(groups.len(), 2);
    assert_eq!(groups[0].path, "t/test_a.py");
    assert_eq!(names(&groups[0].items), vec!["test_one", "test_two"]);
    assert_eq!(groups[1].path, "t/test_b.py");
    assert_eq!(names(&groups[1].items), vec!["TestB", "test_three"]);
}
