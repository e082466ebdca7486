//! What a collection run finds: test items, and the files that hold them.
use vstd::prelude::*;

verus! {

/// What kind of declaration a test item is.
#[derive(Clone, Copy, Debug, PartialEq, Eq, Structural)]
pub enum TestItemType {
    /// A test function at the top level of a module.
    Function,
    /// A test class.
    Class,
    /// A test function in the body of a test class.
    Method,
}

/// The name under which a kind appears in a record.
pub open spec fn label_of(kind: TestItemType) -> Seq<char> {
    match kind {
        TestItemType::Function => "Function"@,
        TestItemType::Class => "Class"@,
        TestItemType::Method => "Method"@,
    }
}

impl TestItemType {
    /// The name under which this kind appears in a record.
    pub fn label(&self) -> (name: &'static str)
        ensures
            name@ == label_of(*self),
    {
        match self {
            TestItemType::Function => "Function",
            TestItemType::Class => "Class",
            TestItemType::Method => "Method",
        }
    }
}

/// One declaration that bears a test.
#[derive(Debug)]
pub struct TestItem {
    /// The file that holds the declaration.
    pub file_path: String,
    /// The declared name.
    pub name: String,
    /// The line of the `def` or `class` keyword, counted from 1.
    pub line_number: usize,
    pub item_type: TestItemType,
    /// The enclosing class, for a method.
    pub class_name: Option<String>,
    /// The markers, one for each marker decorator, in the order written.
    pub markers: Vec<String>,
    /// How many parameter sets a `parametrize` decorator lists, where it
    /// lists them literally.
    pub parametrize_count: Option<usize>,
}

/// A test item as a mathematical value.
pub struct TestItemView {
    pub file_path: Seq<char>,
    pub name: Seq<char>,
    pub line_number: nat,
    pub item_type: TestItemType,
    pub class_name: Option<Seq<char>>,
    pub markers: Seq<Seq<char>>,
    pub parametrize_count: Option<nat>,
}

/// An optional text as a mathematical value.
pub open spec fn text_view(text: Option<String>) -> Option<Seq<char>> {
    match text {
        Some(t) => Some(t@),
        None => None,
    }
}

/// An optional count as a mathematical value.
pub open spec fn count_view(count: Option<usize>) -> Option<nat> {
    match count {
        Some(n) => Some(n as nat),
        None => None,
    }
}

impl View for TestItem {
    type V = TestItemView;

    open spec fn view(&self) -> TestItemView {
        TestItemView {
            file_path: self.file_path@,
            name: self.name@,
            line_number: self.line_number as nat,
            item_type: self.item_type,
            class_name: text_view(self.class_name),
            markers: self.markers.deep_view(),
            parametrize_count: count_view(self.parametrize_count),
        }
    }
}

impl DeepView for TestItem {
    type V = TestItemView;

    open spec fn deep_view(&self) -> TestItemView {
        self@
    }
}

/// A copy of a list of texts.
pub fn clone_texts(texts: &Vec<String>) -> (copy: Vec<String>)
    ensures
        copy.deep_view() == texts.deep_view(),
{
    let mut copy: Vec<String> = Vec::new();
    let mut i: usize = 0;
    while i < texts.len()
        invariant
            i <= texts.len(),
            copy.len() == i,
            forall|k: int| 0 <= k < i ==> copy@[k]@ == texts@[k]@,
        decreases texts.len() - i,
    {
        copy.push(texts[i].clone());
        i = i + 1;
    }
    assert(copy.deep_view() =~= texts.deep_view());
    copy
}

/// A copy of an optional text.
pub fn clone_text(text: &Option<String>) -> (copy: Option<String>)
    ensures
        text_view(copy) == text_view(*text),
{
    match text {
        Some(t) => Some(t.clone()),
        None => None,
    }
}

impl Clone for TestItem {
    fn clone(&self) -> (copy: Self)
        ensures
            copy@ == self@,
    {
        TestItem {
            file_path: self.file_path.clone(),
            name: self.name.clone(),
            line_number: self.line_number,
            item_type: self.item_type,
            class_name: clone_text(&self.class_name),
            markers: clone_texts(&self.markers),
            parametrize_count: self.parametrize_count,
        }
    }
}

/// A copy of a list of items.
pub fn clone_items(items: &Vec<TestItem>) -> (copy: Vec<TestItem>)
    ensures
        copy.deep_view() == items.deep_view(),
{
    let mut copy: Vec<TestItem> = Vec::new();
    let mut i: usize = 0;
    while i < items.len()
        invariant
            i <= items.len(),
            copy.len() == i,
            forall|k: int| 0 <= k < i ==> copy@[k]@ == items@[k]@,
        decreases items.len() - i,
    {
        copy.push(items[i].clone());
        i = i + 1;
    }
    assert(copy.deep_view() =~= items.deep_view());
    copy
}

/// The tests found in one file.
#[derive(Debug)]
pub struct FileMetadata {
    pub path: String,
    /// When the file was last modified, in nanoseconds since the Unix epoch;
    /// zero where the time could not be read.
    pub mtime: u64,
    /// The items of the file, in the order of their declarations.
    pub test_items: Vec<TestItem>,
}

/// The tests found in one file, as a mathematical value.
pub struct FileMetadataView {
    pub path: Seq<char>,
    pub mtime: nat,
    pub test_items: Seq<TestItemView>,
}

impl View for FileMetadata {
    type V = FileMetadataView;

    open spec fn view(&self) -> FileMetadataView {
        FileMetadataView {
            path: self.path@,
            mtime: self.mtime as nat,
            test_items: self.test_items.deep_view(),
        }
    }
}

impl DeepView for FileMetadata {
    type V = FileMetadataView;

    open spec fn deep_view(&self) -> FileMetadataView {
        self@
    }
}

impl Clone for FileMetadata {
    fn clone(&self) -> (copy: Self)
        ensures
            copy@ == self@,
    {
        FileMetadata {
            path: self.path.clone(),
            mtime: self.mtime,
            test_items: clone_items(&self.test_items),
        }
    }
}

} // verus!
