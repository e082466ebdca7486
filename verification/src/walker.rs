//! From the declarations of a module to its test items.
//!
//! A function whose name begins with `test` is a test function, and a class
//! whose name begins with `Test` is a test class. The test functions in the
//! body of a test class are its methods. A test class in the body of a test
//! class is listed as a class, and its own body is not read: classes are
//! followed one level deep.
//!
//! Decorators are read, never run. One of the form `pytest.mark.NAME` or
//! `mark.NAME`, with or without arguments, gives the marker `NAME`.
use crate::collector::FastCollector;
use crate::decl::{
    Argument, Declaration, DeclarationView, Decorator, DecoratorView, Heading, HeadingView, Member,
    MemberView, Target, TargetView,
};
use crate::item::{count_view, TestItem, TestItemType, TestItemView};
use crate::text::{borrowed_view, chars_of, has_prefix, same_text, starts_with};
use vstd::prelude::*;

verus! {

/// Whether `name` is the name of a test function.
pub open spec fn is_test_function_name(name: Seq<char>) -> bool {
    has_prefix(name, "test_"@) || has_prefix(name, "test"@)
}

/// Whether `name` is the name of a test class.
pub open spec fn is_test_class_name(name: Seq<char>) -> bool {
    has_prefix(name, "Test"@)
}

/// A name is that of a test function exactly if it begins with `test`:
/// whatever begins with `test_` does.
pub proof fn lemma_test_function_names(name: Seq<char>)
    ensures
        is_test_function_name(name) <==> has_prefix(name, "test"@),
{
    reveal_strlit("test_");
    reveal_strlit("test");
    if has_prefix(name, "test_"@) {
        assert(name.subrange(0, 4) =~= name.subrange(0, 5).subrange(0, 4));
        assert("test_"@.subrange(0, 4) =~= "test"@);
    }
}

/// The name that `target` has in the marker namespace, where it lies in it:
/// `NAME` for `pytest.mark.NAME` and for `mark.NAME`.
pub open spec fn mark_member(target: TargetView) -> Option<Seq<char>> {
    match target {
        TargetView::Nested { root, middle, attr } => if root == "pytest"@ && middle == "mark"@ {
            Some(attr)
        } else {
            None
        },
        TargetView::Attribute { root, attr } => if root == "mark"@ {
            Some(attr)
        } else {
            None
        },
        TargetView::Other => None,
    }
}

/// The marker that a decorator gives, if it gives one.
pub open spec fn marker_of(decorator: DecoratorView) -> Option<Seq<char>> {
    match decorator {
        DecoratorView::Bare(target) => mark_member(target),
        DecoratorView::Call { target, second } => mark_member(target),
        DecoratorView::Other => None,
    }
}

/// The markers that a list of decorators gives: one for each marker
/// decorator, in the order written, repetitions kept.
pub open spec fn markers_of(decorators: Seq<DecoratorView>) -> Seq<Seq<char>>
    decreases decorators.len(),
{
    if decorators.len() == 0 {
        Seq::empty()
    } else {
        let before = markers_of(decorators.drop_last());
        match marker_of(decorators.last()) {
            Some(name) => before.push(name),
            None => before,
        }
    }
}

/// The number of parameter sets that a decorator lists: that of the
/// elements of the list or tuple which is the second argument of a call of
/// the marker `parametrize`.
pub open spec fn parametrize_of(decorator: DecoratorView) -> Option<nat> {
    match decorator {
        DecoratorView::Call { target, second } => if mark_member(target) == Some("parametrize"@) {
            match second {
                Some(Argument::List(n)) => Some(n as nat),
                Some(Argument::Tuple(n)) => Some(n as nat),
                _ => None,
            }
        } else {
            None
        },
        _ => None,
    }
}

/// The number of parameter sets that a list of decorators gives: that of the
/// first decorator that lists any.
pub open spec fn parametrize_count_of(decorators: Seq<DecoratorView>) -> Option<nat>
    decreases decorators.len(),
{
    if decorators.len() == 0 {
        None
    } else {
        match parametrize_of(decorators.first()) {
            Some(n) => Some(n),
            None => parametrize_count_of(decorators.drop_first()),
        }
    }
}

/// The item for a test function declared with `head`, in the class `class`
/// if there is one.
pub open spec fn function_item(
    head: HeadingView,
    file_path: Seq<char>,
    class: Option<Seq<char>>,
) -> TestItemView {
    TestItemView {
        file_path,
        name: head.name,
        line_number: head.line,
        item_type: if class.is_some() {
            TestItemType::Method
        } else {
            TestItemType::Function
        },
        class_name: class,
        markers: markers_of(head.decorators),
        parametrize_count: parametrize_count_of(head.decorators),
    }
}

/// The item for a test class declared with `head`.
pub open spec fn class_item(head: HeadingView, file_path: Seq<char>) -> TestItemView {
    TestItemView {
        file_path,
        name: head.name,
        line_number: head.line,
        item_type: TestItemType::Class,
        class_name: None,
        markers: markers_of(head.decorators),
        parametrize_count: None,
    }
}

/// The items that one statement in the body of the test class `class` gives.
pub open spec fn member_items(
    member: MemberView,
    file_path: Seq<char>,
    class: Seq<char>,
) -> Seq<TestItemView> {
    match member {
        MemberView::Function(head) => if is_test_function_name(head.name) {
            seq![function_item(head, file_path, Some(class))]
        } else {
            Seq::empty()
        },
        MemberView::Class(head) => if is_test_class_name(head.name) {
            seq![class_item(head, file_path)]
        } else {
            Seq::empty()
        },
        MemberView::Other => Seq::empty(),
    }
}

/// The items that the body of the test class `class` gives, in order.
pub open spec fn body_items(
    body: Seq<MemberView>,
    file_path: Seq<char>,
    class: Seq<char>,
) -> Seq<TestItemView>
    decreases body.len(),
{
    if body.len() == 0 {
        Seq::empty()
    } else {
        body_items(body.drop_last(), file_path, class) + member_items(
            body.last(),
            file_path,
            class,
        )
    }
}

/// The items that one statement at the top level gives: a test function
/// gives itself, a test class gives itself and then what its body gives.
pub open spec fn declaration_items(decl: DeclarationView, file_path: Seq<char>) -> Seq<
    TestItemView,
> {
    match decl {
        DeclarationView::Function(head) => if is_test_function_name(head.name) {
            seq![function_item(head, file_path, None)]
        } else {
            Seq::empty()
        },
        DeclarationView::Class { head, body } => if is_test_class_name(head.name) {
            seq![class_item(head, file_path)] + body_items(body, file_path, head.name)
        } else {
            Seq::empty()
        },
        DeclarationView::Other => Seq::empty(),
    }
}

/// The items of a module, in the order of their declarations.
pub open spec fn module_items(decls: Seq<DeclarationView>, file_path: Seq<char>) -> Seq<
    TestItemView,
>
    decreases decls.len(),
{
    if decls.len() == 0 {
        Seq::empty()
    } else {
        module_items(decls.drop_last(), file_path) + declaration_items(decls.last(), file_path)
    }
}

/// The items are consistent among themselves: a method names its class,
/// and the class is listed before it; a function or a class names none.
pub open spec fn methods_follow_classes(items: Seq<TestItemView>) -> bool {
    forall|i: int|
        0 <= i < items.len() ==> if (#[trigger] items[i]).item_type == TestItemType::Method {
            &&& items[i].class_name.is_some()
            &&& items[i].class_name.unwrap().len() > 0
            &&& exists|j: int|
                0 <= j < i && (#[trigger] items[j]).item_type == TestItemType::Class
                    && items[j].name == items[i].class_name.unwrap() && items[j].file_path
                    == items[i].file_path
        } else {
            items[i].class_name.is_none()
        }
}

/// What the body of a class gives are methods of that class, and classes.
pub proof fn lemma_body_items_kinds(body: Seq<MemberView>, file_path: Seq<char>, class: Seq<char>)
    ensures
        forall|i: int|
            0 <= i < body_items(body, file_path, class).len() ==> {
                let item = #[trigger] body_items(body, file_path, class)[i];
                &&& item.file_path == file_path
                &&& item.item_type == TestItemType::Method ==> item.class_name == Some(class)
                &&& item.item_type != TestItemType::Method ==> item.class_name.is_none()
            },
    decreases body.len(),
{
    if body.len() > 0 {
        lemma_body_items_kinds(body.drop_last(), file_path, class);
    }
}

/// Two consistent lists, one after the other, are consistent.
pub proof fn lemma_methods_follow_classes_concat(a: Seq<TestItemView>, b: Seq<TestItemView>)
    requires
        methods_follow_classes(a),
        methods_follow_classes(b),
    ensures
        methods_follow_classes(a + b),
{
    let all = a + b;
    assert forall|i: int| 0 <= i < all.len() implies if (#[trigger] all[i]).item_type
        == TestItemType::Method {
        &&& all[i].class_name.is_some()
        &&& all[i].class_name.unwrap().len() > 0
        &&& exists|j: int|
            0 <= j < i && (#[trigger] all[j]).item_type == TestItemType::Class && all[j].name
                == all[i].class_name.unwrap() && all[j].file_path == all[i].file_path
    } else {
        all[i].class_name.is_none()
    } by {
        if i < a.len() {
            assert(all[i] == a[i]);
            if a[i].item_type == TestItemType::Method {
                let j = choose|j: int|
                    0 <= j < i && (#[trigger] a[j]).item_type == TestItemType::Class && a[j].name
                        == a[i].class_name.unwrap() && a[j].file_path == a[i].file_path;
                assert(all[j] == a[j]);
            }
        } else {
            let k = i - a.len();
            assert(all[i] == b[k]);
            if b[k].item_type == TestItemType::Method {
                let j = choose|j: int|
                    0 <= j < k && (#[trigger] b[j]).item_type == TestItemType::Class && b[j].name
                        == b[k].class_name.unwrap() && b[j].file_path == b[k].file_path;
                assert(all[j + a.len()] == b[j]);
            }
        }
    }
}

/// The items of a module are consistent among themselves: every method
/// names a class of the same file that is listed before it, and no
/// function or class names a class.
pub proof fn lemma_module_items_consistent(decls: Seq<DeclarationView>, file_path: Seq<char>)
    ensures
        methods_follow_classes(module_items(decls, file_path)),
    decreases decls.len(),
{
    if decls.len() > 0 {
        lemma_module_items_consistent(decls.drop_last(), file_path);
        let fresh = declaration_items(decls.last(), file_path);
        match decls.last() {
            DeclarationView::Class { head, body } => {
                if is_test_class_name(head.name) {
                    reveal_strlit("Test");
                    lemma_body_items_kinds(body, file_path, head.name);
                    let inner = body_items(body, file_path, head.name);
                    assert(fresh[0] == class_item(head, file_path));
                    assert forall|i: int| 0 <= i < fresh.len() implies if (#[trigger] fresh[i]).item_type
                        == TestItemType::Method {
                        &&& fresh[i].class_name.is_some()
                        &&& fresh[i].class_name.unwrap().len() > 0
                        &&& exists|j: int|
                            0 <= j < i && (#[trigger] fresh[j]).item_type == TestItemType::Class
                                && fresh[j].name == fresh[i].class_name.unwrap()
                                && fresh[j].file_path == fresh[i].file_path
                    } else {
                        fresh[i].class_name.is_none()
                    } by {
                        if i > 0 {
                            assert(fresh[i] == inner[i - 1]);
                            if fresh[i].item_type == TestItemType::Method {
                                assert(fresh[0].item_type == TestItemType::Class);
                            }
                        }
                    }
                }
            },
            _ => {},
        }
        lemma_methods_follow_classes_concat(module_items(decls.drop_last(), file_path), fresh);
    }
}

/// The name that `target` has in the marker namespace, where it lies in it.
pub fn mark_member_of<'a>(target: &'a Target) -> (name: Option<&'a str>)
    ensures
        borrowed_view(name) == mark_member(target@),
{
    match target {
        Target::Nested { root, middle, attr } => {
            if same_text(root.as_str(), "pytest") && same_text(middle.as_str(), "mark") {
                Some(attr.as_str())
            } else {
                None
            }
        },
        Target::Attribute { root, attr } => {
            if same_text(root.as_str(), "mark") {
                Some(attr.as_str())
            } else {
                None
            }
        },
        Target::Other => None,
    }
}

/// The number of parameter sets that `decorator` lists.
pub fn parametrize_sets(decorator: &Decorator) -> (count: Option<usize>)
    ensures
        count_view(count) == parametrize_of(decorator@),
{
    match decorator {
        Decorator::Call { target, second } => {
            match mark_member_of(target) {
                Some(name) => {
                    if same_text(name, "parametrize") {
                        match second {
                            Some(Argument::List(n)) => Some(*n),
                            Some(Argument::Tuple(n)) => Some(*n),
                            _ => None,
                        }
                    } else {
                        None
                    }
                },
                None => None,
            }
        },
        _ => None,
    }
}

impl FastCollector {
    /// Whether `name` is the name of a test function: whether it begins
    /// with `test`.
    pub fn is_test_function(&self, name: &str) -> (yes: bool)
        ensures
            yes == is_test_function_name(name@),
    {
        let chars = chars_of(name);
        let long = chars_of("test_");
        let short = chars_of("test");
        starts_with(chars.as_slice(), long.as_slice()) || starts_with(
            chars.as_slice(),
            short.as_slice(),
        )
    }

    /// Whether `name` is the name of a test class: whether it begins with
    /// `Test`.
    pub fn is_test_class(&self, name: &str) -> (yes: bool)
        ensures
            yes == is_test_class_name(name@),
    {
        let chars = chars_of(name);
        let prefix = chars_of("Test");
        starts_with(chars.as_slice(), prefix.as_slice())
    }

    /// The markers that `decorators` give.
    pub fn extract_markers(&self, decorators: &Vec<Decorator>) -> (markers: Vec<String>)
        ensures
            markers.deep_view() == markers_of(decorators.deep_view()),
    {
        let mut markers: Vec<String> = Vec::new();
        let ghost all = decorators.deep_view();
        let mut i: usize = 0;
        assert(all.take(0) =~= Seq::empty());
        while i < decorators.len()
            invariant
                i <= decorators.len(),
                all == decorators.deep_view(),
                markers.deep_view() == markers_of(all.take(i as int)),
            decreases decorators.len() - i,
        {
            let found = match &decorators[i] {
                Decorator::Bare(target) => mark_member_of(target),
                Decorator::Call { target, second } => mark_member_of(target),
                Decorator::Other => None,
            };
            proof {
                assert(all.take(i + 1).drop_last() =~= all.take(i as int));
                assert(all.take(i + 1).last() == decorators@[i as int]@);
                assert(borrowed_view(found) == marker_of(decorators@[i as int]@));
            }
            match found {
                Some(name) => {
                    let ghost before = markers.deep_view();
                    markers.push(name.to_owned());
                    assert(markers.deep_view() =~= before.push(name@));
                },
                None => {},
            }
            i = i + 1;
        }
        assert(all.take(i as int) =~= all);
        markers
    }

    /// The number of parameter sets that `decorators` give.
    pub fn extract_parametrize_count(&self, decorators: &Vec<Decorator>) -> (count: Option<usize>)
        ensures
            count_view(count) == parametrize_count_of(decorators.deep_view()),
    {
        let ghost all = decorators.deep_view();
        let mut i: usize = 0;
        assert(all.skip(0) =~= all);
        while i < decorators.len()
            invariant
                i <= decorators.len(),
                all == decorators.deep_view(),
                parametrize_count_of(all) == parametrize_count_of(all.skip(i as int)),
            decreases decorators.len() - i,
        {
            let found = parametrize_sets(&decorators[i]);
            proof {
                assert(all.skip(i as int).first() == decorators@[i as int]@);
                assert(all.skip(i as int).drop_first() =~= all.skip(i + 1));
            }
            if found.is_some() {
                return found;
            }
            i = i + 1;
        }
        None
    }

    /// The item for the test function declared with `head`.
    fn function_item_of(&self, head: &Heading, file_path: &str, class: Option<&str>) -> (item:
        TestItem)
        ensures
            item@ == function_item(head@, file_path@, borrowed_view(class)),
    {
        let markers = self.extract_markers(&head.decorators);
        let parametrize_count = self.extract_parametrize_count(&head.decorators);
        TestItem {
            file_path: file_path.to_owned(),
            name: head.name.clone(),
            line_number: head.line,
            item_type: if class.is_some() {
                TestItemType::Method
            } else {
                TestItemType::Function
            },
            class_name: match class {
                Some(c) => Some(c.to_owned()),
                None => None,
            },
            markers,
            parametrize_count,
        }
    }

    /// The item for the test class declared with `head`.
    fn class_item_of(&self, head: &Heading, file_path: &str) -> (item: TestItem)
        ensures
            item@ == class_item(head@, file_path@),
    {
        let markers = self.extract_markers(&head.decorators);
        TestItem {
            file_path: file_path.to_owned(),
            name: head.name.clone(),
            line_number: head.line,
            item_type: TestItemType::Class,
            class_name: None,
            markers,
            parametrize_count: None,
        }
    }

    /// Appends to `items` what one statement in the body of the test class
    /// `class` gives.
    fn extract_member(
        &self,
        member: &Member,
        file_path: &str,
        class: &str,
        items: &mut Vec<TestItem>,
    )
        ensures
            final(items).deep_view() == old(items).deep_view() + member_items(
                member@,
                file_path@,
                class@,
            ),
    {
        let ghost before = items.deep_view();
        match member {
            Member::Function(head) => {
                if self.is_test_function(head.name.as_str()) {
                    let item = self.function_item_of(head, file_path, Some(class));
                    items.push(item);
                    assert(items.deep_view() =~= before + seq![item@]);
                } else {
                    assert(before + Seq::<TestItemView>::empty() =~= before);
                }
            },
            Member::Class(head) => {
                if self.is_test_class(head.name.as_str()) {
                    let item = self.class_item_of(head, file_path);
                    items.push(item);
                    assert(items.deep_view() =~= before + seq![item@]);
                } else {
                    assert(before + Seq::<TestItemView>::empty() =~= before);
                }
            },
            Member::Other => {
                assert(before + Seq::<TestItemView>::empty() =~= before);
            },
        }
    }

    /// Appends to `items` what one statement at the top level of a module
    /// gives: for a test function the function, for a test class the class
    /// and then the test functions and test classes of its body.
    pub fn extract_test_items(&self, decl: &Declaration, file_path: &str, items: &mut Vec<TestItem>)
        ensures
            final(items).deep_view() == old(items).deep_view() + declaration_items(
                decl@,
                file_path@,
            ),
    {
        let ghost before = items.deep_view();
        match decl {
            Declaration::Function(head) => {
                if self.is_test_function(head.name.as_str()) {
                    let item = self.function_item_of(head, file_path, None);
                    items.push(item);
                    assert(items.deep_view() =~= before + seq![item@]);
                } else {
                    assert(before + Seq::<TestItemView>::empty() =~= before);
                }
            },
            Declaration::Class { head, body } => {
                if self.is_test_class(head.name.as_str()) {
                    let item = self.class_item_of(head, file_path);
                    items.push(item);
                    assert(items.deep_view() =~= before + seq![item@]);
                    let ghost members = body.deep_view();
                    let ghost class = head.name@;
                    let mut i: usize = 0;
                    assert(members.take(0) =~= Seq::empty());
                    assert(before + seq![item@] + Seq::<TestItemView>::empty() =~= before
                        + seq![item@]);
                    while i < body.len()
                        invariant
                            i <= body.len(),
                            members == body.deep_view(),
                            class == head.name@,
                            items.deep_view() == before + seq![item@] + body_items(
                                members.take(i as int),
                                file_path@,
                                class,
                            ),
                        decreases body.len() - i,
                    {
                        let ghost sofar = items.deep_view();
                        self.extract_member(&body[i], file_path, head.name.as_str(), items);
                        proof {
                            assert(members.take(i + 1).drop_last() =~= members.take(i as int));
                            assert(members.take(i + 1).last() == body@[i as int]@);
                            let fresh = member_items(body@[i as int]@, file_path@, class);
                            let earlier = body_items(members.take(i as int), file_path@, class);
                            assert(before + seq![item@] + earlier + fresh =~= before + seq![item@]
                                + (earlier + fresh));
                        }
                        i = i + 1;
                    }
                    proof {
                        assert(members.take(i as int) =~= members);
                        let inner = body_items(members, file_path@, class);
                        assert(before + seq![item@] + inner =~= before + (seq![item@] + inner));
                    }
                } else {
                    assert(before + Seq::<TestItemView>::empty() =~= before);
                }
            },
            Declaration::Other => {
                assert(before + Seq::<TestItemView>::empty() =~= before);
            },
        }
    }

    /// The items of a module, in the order of their declarations.
    pub fn extract_module(&self, decls: &Vec<Declaration>, file_path: &str) -> (items: Vec<
        TestItem,
    >)
        ensures
            items.deep_view() == module_items(decls.deep_view(), file_path@),
    {
        let mut items: Vec<TestItem> = Vec::new();
        let ghost all = decls.deep_view();
        let mut i: usize = 0;
        assert(all.take(0) =~= Seq::empty());
        assert(items.deep_view() =~= Seq::empty());
        while i < decls.len()
            invariant
                i <= decls.len(),
                all == decls.deep_view(),
                items.deep_view() == module_items(all.take(i as int), file_path@),
            decreases decls.len() - i,
        {
            self.extract_test_items(&decls[i], file_path, &mut items);
            proof {
                assert(all.take(i + 1).drop_last() =~= all.take(i as int));
                assert(all.take(i + 1).last() == decls@[i as int]@);
            }
            i = i + 1;
        }
        assert(all.take(i as int) =~= all);
        items
    }
}

} // verus!
