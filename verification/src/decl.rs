//! The declarations of a module, as far as test collection reads them: the
//! functions and classes at the top level, the functions and classes in the
//! body of a class, and the decorators of each.
use vstd::prelude::*;

verus! {

/// The expression that a decorator names or calls.
#[derive(Debug)]
pub enum Target {
    /// `root.attr`, where `root` is a plain name.
    Attribute { root: String, attr: String },
    /// `root.middle.attr`, where `root` is a plain name.
    Nested { root: String, middle: String, attr: String },
    /// Any other expression.
    Other,
}

/// A decorator target as a mathematical value.
pub enum TargetView {
    Attribute { root: Seq<char>, attr: Seq<char> },
    Nested { root: Seq<char>, middle: Seq<char>, attr: Seq<char> },
    Other,
}

impl View for Target {
    type V = TargetView;

    open spec fn view(&self) -> TargetView {
        match self {
            Target::Attribute { root, attr } => TargetView::Attribute { root: root@, attr: attr@ },
            Target::Nested { root, middle, attr } => TargetView::Nested {
                root: root@,
                middle: middle@,
                attr: attr@,
            },
            Target::Other => TargetView::Other,
        }
    }
}

/// The shape of an argument of a call.
#[derive(Clone, Copy, Debug, PartialEq, Eq, Structural)]
pub enum Argument {
    /// A list display with so many elements.
    List(usize),
    /// A tuple display with so many elements.
    Tuple(usize),
    /// Any other expression.
    Other,
}

/// One decorator of a function or a class.
#[derive(Debug)]
pub enum Decorator {
    /// An attribute access, written without arguments.
    Bare(Target),
    /// A call. `second` is the second positional argument, if there are two.
    Call { target: Target, second: Option<Argument> },
    /// Any other expression.
    Other,
}

/// A decorator as a mathematical value.
pub enum DecoratorView {
    Bare(TargetView),
    Call { target: TargetView, second: Option<Argument> },
    Other,
}

impl View for Decorator {
    type V = DecoratorView;

    open spec fn view(&self) -> DecoratorView {
        match self {
            Decorator::Bare(target) => DecoratorView::Bare(target@),
            Decorator::Call { target, second } => DecoratorView::Call {
                target: target@,
                second: *second,
            },
            Decorator::Other => DecoratorView::Other,
        }
    }
}

impl DeepView for Decorator {
    type V = DecoratorView;

    open spec fn deep_view(&self) -> DecoratorView {
        self@
    }
}

/// The head of a function or class declaration.
#[derive(Debug)]
pub struct Heading {
    pub name: String,
    /// The line of the `def` or `class` keyword, counted from 1.
    pub line: usize,
    /// The decorators, in the order written.
    pub decorators: Vec<Decorator>,
}

/// The head of a declaration as a mathematical value.
pub struct HeadingView {
    pub name: Seq<char>,
    pub line: nat,
    pub decorators: Seq<DecoratorView>,
}

impl View for Heading {
    type V = HeadingView;

    open spec fn view(&self) -> HeadingView {
        HeadingView {
            name: self.name@,
            line: self.line as nat,
            decorators: self.decorators.deep_view(),
        }
    }
}

/// A statement in the body of a class.
#[derive(Debug)]
pub enum Member {
    Function(Heading),
    /// A class in a class. Its body is not read.
    Class(Heading),
    /// Any other statement.
    Other,
}

/// A statement in the body of a class, as a mathematical value.
pub enum MemberView {
    Function(HeadingView),
    Class(HeadingView),
    Other,
}

impl View for Member {
    type V = MemberView;

    open spec fn view(&self) -> MemberView {
        match self {
            Member::Function(head) => MemberView::Function(head@),
            Member::Class(head) => MemberView::Class(head@),
            Member::Other => MemberView::Other,
        }
    }
}

impl DeepView for Member {
    type V = MemberView;

    open spec fn deep_view(&self) -> MemberView {
        self@
    }
}

/// A statement at the top level of a module.
#[derive(Debug)]
pub enum Declaration {
    Function(Heading),
    Class { head: Heading, body: Vec<Member> },
    /// Any other statement.
    Other,
}

/// A statement at the top level of a module, as a mathematical value.
pub enum DeclarationView {
    Function(HeadingView),
    Class { head: HeadingView, body: Seq<MemberView> },
    Other,
}

impl View for Declaration {
    type V = DeclarationView;

    open spec fn view(&self) -> DeclarationView {
        match self {
            Declaration::Function(head) => DeclarationView::Function(head@),
            Declaration::Class { head, body } => DeclarationView::Class {
                head: head@,
                body: body.deep_view(),
            },
            Declaration::Other => DeclarationView::Other,
        }
    }
}

impl DeepView for Declaration {
    type V = DeclarationView;

    open spec fn deep_view(&self) -> DeclarationView {
        self@
    }
}

} // verus!
