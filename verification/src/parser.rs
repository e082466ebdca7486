//! From Python source text to the declarations of a module.
//!
//! The parsing is the work of `rustpython_parser`. What is trusted of it
//! stands at the top of this file: the parser is called in one place, and a
//! syntax node is looked at one level at a time. Everything below that is
//! verified: which nodes are read, how a decorator is classified, and on
//! which line a declaration stands.
use crate::decl::{
    Argument, Declaration, DeclarationView, Decorator, DecoratorView, Heading, HeadingView, Member,
    MemberView, Target, TargetView,
};
use rustpython_parser::ast;
use rustpython_parser::Parse;
use vstd::prelude::*;
use vstd::string::StringSliceAdditionalSpecFns;

verus! {

/// A statement of the parser's syntax tree. Nothing is known of its inside
/// but what `stmt_shape` tells.
#[verifier::external_type_specification]
#[verifier::external_body]
#[verifier::reject_recursive_types(R)]
pub struct ExStmt<R>(ast::Stmt<R>);

/// An expression of the parser's syntax tree. Nothing is known of its inside
/// but what `expr_shape` tells.
#[verifier::external_type_specification]
#[verifier::external_body]
#[verifier::reject_recursive_types(R)]
pub struct ExExpr<R>(ast::Expr<R>);

/// The parser's type for a stretch of source text, with which it marks its
/// nodes.
#[verifier::external_type_specification]
#[verifier::external_body]
pub struct ExTextRange(rustpython_parser::text_size::TextRange);

/// One level of a statement: which kind it is, and the parts that
/// collection reads.
pub enum StmtShape<'a> {
    /// A `def` that is not `async`. `offset` is where the keyword stands, in
    /// bytes from the start of the source.
    Function { name: &'a str, offset: u32, decorators: &'a Vec<ast::Expr> },
    /// A `class`. `offset` is where the keyword stands.
    Class { name: &'a str, offset: u32, decorators: &'a Vec<ast::Expr>, body: &'a Vec<ast::Stmt> },
    /// Any other statement.
    Other,
}

/// One level of an expression: which kind it is, and its parts.
pub enum ExprShape<'a> {
    /// A plain name.
    Name { id: &'a str },
    /// `value.attr`
    Attribute { value: &'a ast::Expr, attr: &'a str },
    /// `func(args..)`, with the positional arguments.
    Call { func: &'a ast::Expr, args: &'a Vec<ast::Expr> },
    /// A list display.
    List { elts: &'a Vec<ast::Expr> },
    /// A tuple display.
    Tuple { elts: &'a Vec<ast::Expr> },
    /// Any other expression.
    Other,
}

/// What the parser makes of a source text: the statements at the top level
/// of the module, or nothing where the text is not valid Python.
pub uninterp spec fn parsed_suite(source: Seq<char>, path: Seq<char>) -> Option<Seq<ast::Stmt>>;

/// What a statement holds.
pub uninterp spec fn stmt_shape_of(stmt: &ast::Stmt) -> StmtShape<'_>;

/// What an expression holds.
pub uninterp spec fn expr_shape_of(expr: &ast::Expr) -> ExprShape<'_>;

/// The statements of an optional suite.
pub open spec fn suite_view(suite: Option<Vec<ast::Stmt>>) -> Option<Seq<ast::Stmt>> {
    match suite {
        Some(stmts) => Some(stmts@),
        None => None,
    }
}

/// Calls `Suite::parse` of `rustpython_parser`, which parses a whole module.
/// Trusted: that the outcome depends on the two texts alone, and that an
/// error is reported by `Err`, which becomes `None` here. The parser counts
/// positions in 32 bits, so longer sources are kept from it.
#[verifier::external_body]
fn parse_suite(source: &str, path: &str) -> (suite: Option<Vec<ast::Stmt>>)
    requires
        source.spec_bytes().len() <= u32::MAX,
    ensures
        suite_view(suite) == parsed_suite(source@, path@),
{
    ast::Suite::parse(source, path).ok()
}

/// Reads one level of a statement of `rustpython_parser`'s tree: the variant,
/// and for `FunctionDef` and `ClassDef` the fields `name`, `range` (its
/// start), `decorator_list` and `body`. Trusted: that this is what the node
/// holds.
#[verifier::external_body]
fn stmt_shape(stmt: &ast::Stmt) -> (shape: StmtShape<'_>)
    ensures
        shape == stmt_shape_of(stmt),
{
    match stmt {
        ast::Stmt::FunctionDef(f) => StmtShape::Function {
            name: f.name.as_str(),
            offset: f.range.start().to_u32(),
            decorators: &f.decorator_list,
        },
        ast::Stmt::ClassDef(c) => StmtShape::Class {
            name: c.name.as_str(),
            offset: c.range.start().to_u32(),
            decorators: &c.decorator_list,
            body: &c.body,
        },
        _ => StmtShape::Other,
    }
}

/// Reads one level of an expression of `rustpython_parser`'s tree: the
/// variant, and the fields of `Name`, `Attribute`, `Call`, `List` and
/// `Tuple`. Trusted: that this is what the node holds.
#[verifier::external_body]
fn expr_shape(expr: &ast::Expr) -> (shape: ExprShape<'_>)
    ensures
        shape == expr_shape_of(expr),
{
    match expr {
        ast::Expr::Name(n) => ExprShape::Name { id: n.id.as_str() },
        ast::Expr::Attribute(a) => ExprShape::Attribute { value: &a.value, attr: a.attr.as_str() },
        ast::Expr::Call(c) => ExprShape::Call { func: &c.func, args: &c.args },
        ast::Expr::List(l) => ExprShape::List { elts: &l.elts },
        ast::Expr::Tuple(t) => ExprShape::Tuple { elts: &t.elts },
        _ => ExprShape::Other,
    }
}

/// Whether a line ends with the byte at `at`: with a line feed, or with a
/// carriage return that no line feed follows.
pub open spec fn ends_line(bytes: Seq<u8>, at: int) -> bool {
    bytes[at] == 0x0a || (bytes[at] == 0x0d && !(at + 1 < bytes.len() && bytes[at + 1] == 0x0a))
}

/// The number of lines that end before the byte at `upto`.
pub open spec fn lines_before(bytes: Seq<u8>, upto: int) -> nat
    decreases upto,
{
    if upto <= 0 {
        0
    } else {
        lines_before(bytes, upto - 1) + if ends_line(bytes, upto - 1) {
            1nat
        } else {
            0nat
        }
    }
}

/// The line on which the byte at `offset` stands, counted from 1: one more
/// than the number of lines that end before it. An offset past the end
/// counts as the end.
pub open spec fn line_at(bytes: Seq<u8>, offset: int) -> nat {
    if offset >= bytes.len() {
        1 + lines_before(bytes, bytes.len() as int)
    } else {
        1 + lines_before(bytes, offset)
    }
}

/// The expression that a decorator names or calls, read three levels deep.
pub open spec fn target_of(expr: &ast::Expr) -> TargetView {
    match expr_shape_of(expr) {
        ExprShape::Attribute { value, attr } => match expr_shape_of(value) {
            ExprShape::Name { id } => TargetView::Attribute { root: id@, attr: attr@ },
            ExprShape::Attribute { value: inner, attr: middle } => match expr_shape_of(inner) {
                ExprShape::Name { id } => TargetView::Nested {
                    root: id@,
                    middle: middle@,
                    attr: attr@,
                },
                _ => TargetView::Other,
            },
            _ => TargetView::Other,
        },
        _ => TargetView::Other,
    }
}

/// The shape of an argument.
pub open spec fn argument_of(expr: &ast::Expr) -> Argument {
    match expr_shape_of(expr) {
        ExprShape::List { elts } => Argument::List(elts@.len() as usize),
        ExprShape::Tuple { elts } => Argument::Tuple(elts@.len() as usize),
        _ => Argument::Other,
    }
}

/// A decorator, as collection reads it.
pub open spec fn decorator_of(expr: &ast::Expr) -> DecoratorView {
    match expr_shape_of(expr) {
        ExprShape::Attribute { value, attr } => DecoratorView::Bare(target_of(expr)),
        ExprShape::Call { func, args } => DecoratorView::Call {
            target: target_of(func),
            second: if args@.len() >= 2 {
                Some(argument_of(&args@[1]))
            } else {
                None
            },
        },
        _ => DecoratorView::Other,
    }
}

/// The decorators of a list, each as collection reads it.
pub open spec fn decorators_of(list: Seq<ast::Expr>) -> Seq<DecoratorView> {
    list.map_values(|e: ast::Expr| decorator_of(&e))
}

/// The head of a declaration, its line taken from the source.
pub open spec fn heading_of(
    name: Seq<char>,
    offset: u32,
    decorators: Seq<ast::Expr>,
    bytes: Seq<u8>,
) -> HeadingView {
    HeadingView {
        name,
        line: line_at(bytes, offset as int),
        decorators: decorators_of(decorators),
    }
}

/// A statement in the body of a class, as collection reads it.
pub open spec fn member_of(stmt: &ast::Stmt, bytes: Seq<u8>) -> MemberView {
    match stmt_shape_of(stmt) {
        StmtShape::Function { name, offset, decorators } => MemberView::Function(
            heading_of(name@, offset, decorators@, bytes),
        ),
        StmtShape::Class { name, offset, decorators, body } => MemberView::Class(
            heading_of(name@, offset, decorators@, bytes),
        ),
        StmtShape::Other => MemberView::Other,
    }
}

/// The statements of a class body, each as collection reads it.
pub open spec fn members_of(body: Seq<ast::Stmt>, bytes: Seq<u8>) -> Seq<MemberView> {
    body.map_values(|s: ast::Stmt| member_of(&s, bytes))
}

/// A statement at the top level, as collection reads it.
pub open spec fn declaration_of(stmt: &ast::Stmt, bytes: Seq<u8>) -> DeclarationView {
    match stmt_shape_of(stmt) {
        StmtShape::Function { name, offset, decorators } => DeclarationView::Function(
            heading_of(name@, offset, decorators@, bytes),
        ),
        StmtShape::Class { name, offset, decorators, body } => DeclarationView::Class {
            head: heading_of(name@, offset, decorators@, bytes),
            body: members_of(body@, bytes),
        },
        StmtShape::Other => DeclarationView::Other,
    }
}

/// The statements of a module, each as collection reads it.
pub open spec fn module_of(stmts: Seq<ast::Stmt>, bytes: Seq<u8>) -> Seq<DeclarationView> {
    stmts.map_values(|s: ast::Stmt| declaration_of(&s, bytes))
}

/// The longest source, in bytes, that is handed to the parser.
pub const MAX_SOURCE_BYTES: usize = 0xffff_fffe;

/// The declarations of a source text: none where the text is longer than
/// `MAX_SOURCE_BYTES` or is not valid Python.
pub open spec fn declarations_of(source: Seq<char>, path: Seq<char>) -> Option<
    Seq<DeclarationView>,
> {
    let bytes = vstd::utf8::encode_utf8(source);
    if bytes.len() > MAX_SOURCE_BYTES {
        None
    } else {
        match parsed_suite(source, path) {
            Some(stmts) => Some(module_of(stmts, bytes)),
            None => None,
        }
    }
}

/// The declarations of an optional module.
pub open spec fn module_view(decls: Option<Vec<Declaration>>) -> Option<Seq<DeclarationView>> {
    match decls {
        Some(d) => Some(d.deep_view()),
        None => None,
    }
}

/// The line on which the byte at `offset` stands, counted from 1. Lines end
/// with a line feed, with a carriage return, or with the two in that order.
pub fn line_of_offset(bytes: &[u8], offset: u32) -> (line: usize)
    requires
        bytes@.len() < usize::MAX,
    ensures
        line == line_at(bytes@, offset as int),
{
    let upto: usize = if offset as usize >= bytes.len() {
        bytes.len()
    } else {
        offset as usize
    };
    let mut count: usize = 0;
    let mut k: usize = 0;
    while k < upto
        invariant
            k <= upto <= bytes.len(),
            count <= k,
            count == lines_before(bytes@, k as int),
        decreases upto - k,
    {
        let byte = bytes[k];
        if byte == 0x0a || (byte == 0x0d && !(k + 1 < bytes.len() && bytes[k + 1] == 0x0a)) {
            count = count + 1;
        }
        k = k + 1;
    }
    count + 1
}

/// The expression that a decorator names or calls.
fn lower_target(expr: &ast::Expr) -> (target: Target)
    ensures
        target@ == target_of(expr),
{
    match expr_shape(expr) {
        ExprShape::Attribute { value, attr } => match expr_shape(value) {
            ExprShape::Name { id } => Target::Attribute { root: id.to_owned(), attr: attr.to_owned() },
            ExprShape::Attribute { value: inner, attr: middle } => match expr_shape(inner) {
                ExprShape::Name { id } => Target::Nested {
                    root: id.to_owned(),
                    middle: middle.to_owned(),
                    attr: attr.to_owned(),
                },
                _ => Target::Other,
            },
            _ => Target::Other,
        },
        _ => Target::Other,
    }
}

/// The shape of an argument.
fn lower_argument(expr: &ast::Expr) -> (argument: Argument)
    ensures
        argument == argument_of(expr),
{
    match expr_shape(expr) {
        ExprShape::List { elts } => Argument::List(elts.len()),
        ExprShape::Tuple { elts } => Argument::Tuple(elts.len()),
        _ => Argument::Other,
    }
}

/// A decorator, as collection reads it.
fn lower_decorator(expr: &ast::Expr) -> (decorator: Decorator)
    ensures
        decorator@ == decorator_of(expr),
{
    match expr_shape(expr) {
        ExprShape::Attribute { value, attr } => Decorator::Bare(lower_target(expr)),
        ExprShape::Call { func, args } => {
            let second = if args.len() >= 2 {
                Some(lower_argument(&args[1]))
            } else {
                None
            };
            Decorator::Call { target: lower_target(func), second }
        },
        _ => Decorator::Other,
    }
}

/// The head of a declaration.
fn lower_heading(name: &str, offset: u32, decorators: &Vec<ast::Expr>, bytes: &[u8]) -> (head:
    Heading)
    requires
        bytes@.len() < usize::MAX,
    ensures
        head@ == heading_of(name@, offset, decorators@, bytes@),
{
    let mut lowered: Vec<Decorator> = Vec::new();
    let mut i: usize = 0;
    while i < decorators.len()
        invariant
            i <= decorators.len(),
            lowered.len() == i,
            forall|k: int| 0 <= k < i ==> lowered@[k]@ == decorator_of(&decorators@[k]),
        decreases decorators.len() - i,
    {
        lowered.push(lower_decorator(&decorators[i]));
        i = i + 1;
    }
    assert(lowered.deep_view() =~= decorators_of(decorators@));
    Heading { name: name.to_owned(), line: line_of_offset(bytes, offset), decorators: lowered }
}

/// A statement in the body of a class.
fn lower_member(stmt: &ast::Stmt, bytes: &[u8]) -> (member: Member)
    requires
        bytes@.len() < usize::MAX,
    ensures
        member@ == member_of(stmt, bytes@),
{
    match stmt_shape(stmt) {
        StmtShape::Function { name, offset, decorators } => Member::Function(
            lower_heading(name, offset, decorators, bytes),
        ),
        StmtShape::Class { name, offset, decorators, body } => Member::Class(
            lower_heading(name, offset, decorators, bytes),
        ),
        StmtShape::Other => Member::Other,
    }
}

/// A statement at the top level of a module.
fn lower_declaration(stmt: &ast::Stmt, bytes: &[u8]) -> (decl: Declaration)
    requires
        bytes@.len() < usize::MAX,
    ensures
        decl@ == declaration_of(stmt, bytes@),
{
    match stmt_shape(stmt) {
        StmtShape::Function { name, offset, decorators } => Declaration::Function(
            lower_heading(name, offset, decorators, bytes),
        ),
        StmtShape::Class { name, offset, decorators, body } => {
            let head = lower_heading(name, offset, decorators, bytes);
            let mut members: Vec<Member> = Vec::new();
            let mut i: usize = 0;
            while i < body.len()
                invariant
                    i <= body.len(),
                    bytes@.len() < usize::MAX,
                    members.len() == i,
                    forall|k: int| 0 <= k < i ==> members@[k]@ == member_of(&body@[k], bytes@),
                decreases body.len() - i,
            {
                members.push(lower_member(&body[i], bytes));
                i = i + 1;
            }
            assert(members.deep_view() =~= members_of(body@, bytes@));
            Declaration::Class { head, body: members }
        },
        StmtShape::Other => Declaration::Other,
    }
}

/// The declarations of a module that the parser has read from the source
/// with the bytes `bytes`.
fn lower_module(stmts: &Vec<ast::Stmt>, bytes: &[u8]) -> (decls: Vec<Declaration>)
    requires
        bytes@.len() < usize::MAX,
    ensures
        decls.deep_view() == module_of(stmts@, bytes@),
{
    let mut decls: Vec<Declaration> = Vec::new();
    let mut i: usize = 0;
    while i < stmts.len()
        invariant
            i <= stmts.len(),
            bytes@.len() < usize::MAX,
            decls.len() == i,
            forall|k: int| 0 <= k < i ==> decls@[k]@ == declaration_of(&stmts@[k], bytes@),
        decreases stmts.len() - i,
    {
        decls.push(lower_declaration(&stmts[i], bytes));
        i = i + 1;
    }
    assert(decls.deep_view() =~= module_of(stmts@, bytes@));
    decls
}

/// Parses `source` and reads the declarations of the module. Returns `None`
/// where the source is not valid Python, or is longer than
/// `MAX_SOURCE_BYTES`. `path` names the source in the parser's messages.
pub fn parse_declarations(source: &str, path: &str) -> (decls: Option<Vec<Declaration>>)
    ensures
        module_view(decls) == declarations_of(source@, path@),
{
    let bytes = source.as_bytes();
    if bytes.len() > MAX_SOURCE_BYTES {
        return None;
    }
    match parse_suite(source, path) {
        Some(stmts) => Some(lower_module(&stmts, bytes)),
        None => None,
    }
}

} // verus!
