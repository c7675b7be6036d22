//! The library's own model of a parsed Rust source file.
//!
//! Every analysis in this crate reads source code through these types only.
//! They hold, as plain values, exactly what the analyses look at: names,
//! operators, literal values, the token text of a few nodes, and the 1-based
//! line on which each expression starts.  `crate::bridge` fills them from
//! the syntax tree that `syn` produces.
use vstd::prelude::*;

verus! {

/// A binary operator (`a + b`, `a += b`, `a < b`, ...).
#[derive(PartialEq, Eq, Structural, Clone, Copy, Debug)]
pub enum AstBinOp {
    Add,
    Sub,
    Mul,
    Div,
    Rem,
    And,
    Or,
    BitXor,
    BitAnd,
    BitOr,
    Shl,
    Shr,
    Eq,
    Lt,
    Le,
    Ne,
    Ge,
    Gt,
    AddAssign,
    SubAssign,
    MulAssign,
    DivAssign,
    RemAssign,
    BitXorAssign,
    BitAndAssign,
    BitOrAssign,
    ShlAssign,
    ShrAssign,
    /// An operator this model does not name.
    Other,
}

/// A unary operator.
#[derive(PartialEq, Eq, Structural, Clone, Copy, Debug)]
pub enum AstUnOp {
    Deref,
    Not,
    Neg,
    /// An operator this model does not name.
    Other,
}

/// A literal.
#[derive(Debug)]
#[allow(inconsistent_fields)]
pub enum AstLit {
    /// A string literal, holding its value (escapes resolved).
    Str(String),
    /// An integer literal, holding its digits in base 10 without suffix or `_`.
    Int(String),
    /// Any other literal (char, byte, float, bool, ...).
    Other,
}

/// One segment of a path, e.g. `storage` in `env::storage`.
#[derive(Debug)]
pub struct AstPathSegment {
    pub ident: String,
    /// Whether the segment carries generic arguments (`Vec<u8>`, `f::<T>`).
    pub has_arguments: bool,
}

/// A path such as `soroban_sdk::Env` or `require_auth`.
#[derive(Debug)]
pub struct AstPath {
    pub leading_colon: bool,
    pub segments: Vec<AstPathSegment>,
}

/// A macro invocation such as `panic!("...")`.
#[derive(Debug)]
pub struct AstMacro {
    pub path: AstPath,
    /// Line of the macro's name when the path is a single identifier.
    pub ident_line: Option<usize>,
}

/// A pattern, as found in `let` bindings, parameters and `for` loops.
#[derive(Debug)]
#[allow(inconsistent_fields)]
pub enum AstPat {
    Ident(String),
    Tuple(Vec<AstPat>),
    /// A struct pattern, holding the pattern of each listed field.
    Struct(Vec<AstPat>),
    TupleStruct(Vec<AstPat>),
    Reference(Box<AstPat>),
    /// A pattern with a type ascription, `x: T`.
    Type(Box<AstPat>),
    Paren(Box<AstPat>),
    Other,
}

/// A type.
#[derive(Debug)]
#[allow(inconsistent_fields)]
pub enum AstType {
    /// A path type, with the identifier of its last segment (if any) and its token text.
    Path { last: Option<String>, text: String },
    Reference(Box<AstType>),
    Paren(Box<AstType>),
    Group(Box<AstType>),
    /// A tuple type with the number of its elements and its token text.
    Tuple { len: usize, text: String },
    /// Any other type, with its token text.
    Other { text: String },
}

/// What an attribute holds after its path.
#[derive(Debug)]
#[allow(inconsistent_fields)]
pub enum AstMeta {
    /// `#[name]`
    Path,
    /// `#[name(...)]`
    List,
    /// `#[name = value]`
    NameValue(AstExpr),
}

/// An attribute such as `#[contractimpl]` or `#[cfg(test)]`.
#[derive(Debug)]
pub struct AstAttribute {
    pub path: AstPath,
    pub meta: AstMeta,
    /// The attribute's whole token text, e.g. `# [cfg (test)]`.
    pub text: String,
}

/// A function parameter.
#[derive(Debug)]
#[allow(inconsistent_fields)]
pub enum AstFnArg {
    /// `self`, `&self`, `&mut self`.
    Receiver,
    /// `pat: ty`, with the token text of the whole parameter.
    Typed { pat: AstPat, ty: AstType, text: String },
}

/// A function signature.
#[derive(Debug)]
pub struct AstSignature {
    pub ident: String,
    /// Line of the function's name.
    pub ident_line: usize,
    pub inputs: Vec<AstFnArg>,
    /// The declared return type; `None` for `-> ()` left implicit.
    pub output: Option<AstType>,
    /// The expressions inside the generics, the parameters' patterns and
    /// types and the return type (array lengths, const arguments), in the
    /// order a full walk of the syntax tree meets them.
    pub type_exprs: Vec<AstExpr>,
}

/// A block `{ ... }`.
#[derive(Debug)]
pub struct AstBlock {
    pub stmts: Vec<AstStmt>,
}

/// An arm of a `match`.
#[derive(Debug)]
pub struct AstArm {
    pub pat: AstPat,
    pub guard: Option<AstExpr>,
    pub body: AstExpr,
}

/// A statement.
#[derive(Debug)]
#[allow(inconsistent_fields)]
pub enum AstStmt {
    /// `let pat = init else { diverge };`, with the expressions inside the
    /// pattern's type ascriptions.
    Local { pat: AstPat, pat_exprs: Vec<AstExpr>, init: Option<AstExpr>, diverge: Option<AstExpr> },
    /// An item declared inside a block.
    Item(AstItem),
    /// An expression, with or without a trailing semicolon.
    Expr(AstExpr),
    /// A macro invocation in statement position.
    Macro(AstMacro),
}

/// An expression.  Every variant records the line on which it starts.
#[derive(Debug)]
#[allow(inconsistent_fields)]
pub enum AstExpr {
    Binary { left: Box<AstExpr>, op: AstBinOp, right: Box<AstExpr>, line: usize },
    /// `receiver.method::<turbofish>(args)`, with the expressions inside the
    /// turbofish and the token text of the whole call and of its receiver.
    MethodCall {
        receiver: Box<AstExpr>,
        method: String,
        method_line: usize,
        turbofish_exprs: Vec<AstExpr>,
        args: Vec<AstExpr>,
        text: String,
        receiver_text: String,
        line: usize,
    },
    Call { func: Box<AstExpr>, args: Vec<AstExpr>, line: usize },
    /// A path, with the expressions inside its generic arguments.
    Path { path: AstPath, arg_exprs: Vec<AstExpr>, line: usize },
    Lit { lit: AstLit, line: usize },
    Unary { op: AstUnOp, expr: Box<AstExpr>, line: usize },
    Paren { expr: Box<AstExpr>, line: usize },
    Group { expr: Box<AstExpr>, line: usize },
    /// `expr as ty`, with the expressions inside `ty`.
    Cast { expr: Box<AstExpr>, ty_exprs: Vec<AstExpr>, line: usize },
    Reference { expr: Box<AstExpr>, line: usize },
    Field { base: Box<AstExpr>, line: usize },
    Try { expr: Box<AstExpr>, line: usize },
    Index { expr: Box<AstExpr>, index: Box<AstExpr>, line: usize },
    Tuple { elems: Vec<AstExpr>, line: usize },
    Range { start: Option<Box<AstExpr>>, end: Option<Box<AstExpr>>, line: usize },
    Block { block: AstBlock, line: usize },
    If { cond: Box<AstExpr>, then_branch: AstBlock, else_branch: Option<Box<AstExpr>>, line: usize },
    Match { expr: Box<AstExpr>, arms: Vec<AstArm>, line: usize },
    While { cond: Box<AstExpr>, body: AstBlock, line: usize },
    ForLoop { pat: AstPat, expr: Box<AstExpr>, body: AstBlock, line: usize },
    Loop { body: AstBlock, line: usize },
    Assign { left: Box<AstExpr>, right: Box<AstExpr>, line: usize },
    Return { expr: Option<Box<AstExpr>>, line: usize },
    Break { expr: Option<Box<AstExpr>>, line: usize },
    Continue { line: usize },
    Macro { mac: AstMacro, line: usize },
    /// Any other expression (closure, struct literal, array, `let`, unsafe
    /// block, ...), with its direct sub-expressions in source order.
    Other { children: Vec<AstExpr>, line: usize },
}

/// An item of an `impl` block.
#[derive(Debug)]
#[allow(inconsistent_fields)]
pub enum AstImplItem {
    Fn { attrs: Vec<AstAttribute>, is_public: bool, sig: AstSignature, block: AstBlock },
    /// An associated constant with the expressions inside its generics and
    /// type, and its value.
    Const { type_exprs: Vec<AstExpr>, expr: AstExpr },
    Macro(AstMacro),
    /// Any other item, with the expressions inside its types.
    Other { exprs: Vec<AstExpr> },
}

/// An item of a trait declaration.
#[derive(Debug)]
#[allow(inconsistent_fields)]
pub enum AstTraitItem {
    /// A method, with the expressions inside its signature and its default
    /// body if it has one.
    Fn { type_exprs: Vec<AstExpr>, default: Option<AstBlock> },
    /// An associated constant, with the expressions inside its generics and
    /// type and its default value if it has one.
    Const { type_exprs: Vec<AstExpr>, default: Option<AstExpr> },
    Macro(AstMacro),
    /// Any other item, with the expressions inside its types.
    Other { exprs: Vec<AstExpr> },
}

/// A top-level or nested item.
#[derive(Debug)]
#[allow(inconsistent_fields)]
pub enum AstItem {
    Fn { attrs: Vec<AstAttribute>, is_public: bool, sig: AstSignature, block: AstBlock },
    /// An `impl` block, with the expressions inside its generics, trait
    /// path and self type.
    Impl { attrs: Vec<AstAttribute>, self_ty: AstType, type_exprs: Vec<AstExpr>, items: Vec<AstImplItem> },
    /// A struct with the type of each of its fields, and the expressions
    /// inside its generics and field types.
    Struct { attrs: Vec<AstAttribute>, ident: String, fields: Vec<AstType>, type_exprs: Vec<AstExpr> },
    /// An enum, with the expressions it holds: those inside its generics,
    /// then for each variant those inside its field types and its explicit
    /// discriminant.
    Enum { attrs: Vec<AstAttribute>, ident: String, exprs: Vec<AstExpr> },
    /// A module; `items` is empty for `mod name;`.
    Mod { attrs: Vec<AstAttribute>, items: Vec<AstItem> },
    /// A trait, with the expressions inside its generics and supertraits.
    Trait { type_exprs: Vec<AstExpr>, items: Vec<AstTraitItem> },
    Macro(AstMacro),
    /// Any other item, with the expressions it holds (`const` and `static` values).
    Other { exprs: Vec<AstExpr> },
}

/// A parsed source file.
#[derive(Debug)]
pub struct AstFile {
    pub items: Vec<AstItem>,
}

// ── Spec helpers ────────────────────────────────────────────────────────────

/// The line on which an expression starts.
pub open spec fn line_of(e: AstExpr) -> usize {
    match e {
        AstExpr::Binary { line, .. } => line,
        AstExpr::MethodCall { line, .. } => line,
        AstExpr::Call { line, .. } => line,
        AstExpr::Path { line, .. } => line,
        AstExpr::Lit { line, .. } => line,
        AstExpr::Unary { line, .. } => line,
        AstExpr::Paren { line, .. } => line,
        AstExpr::Group { line, .. } => line,
        AstExpr::Cast { line, .. } => line,
        AstExpr::Reference { line, .. } => line,
        AstExpr::Field { line, .. } => line,
        AstExpr::Try { line, .. } => line,
        AstExpr::Index { line, .. } => line,
        AstExpr::Tuple { line, .. } => line,
        AstExpr::Range { line, .. } => line,
        AstExpr::Block { line, .. } => line,
        AstExpr::If { line, .. } => line,
        AstExpr::Match { line, .. } => line,
        AstExpr::While { line, .. } => line,
        AstExpr::ForLoop { line, .. } => line,
        AstExpr::Loop { line, .. } => line,
        AstExpr::Assign { line, .. } => line,
        AstExpr::Return { line, .. } => line,
        AstExpr::Break { line, .. } => line,
        AstExpr::Continue { line } => line,
        AstExpr::Macro { line, .. } => line,
        AstExpr::Other { line, .. } => line,
    }
}

// ── Line numbers ────────────────────────────────────────────────────────────
//
// Lines are 1-based: each of the predicates below says that every line a part
// of the model records is at least 1.

/// The line of a macro's name, where one is recorded, is at least 1.
pub open spec fn macro_lines_positive(m: AstMacro) -> bool {
    match m.ident_line {
        Some(l) => l >= 1,
        None => true,
    }
}

/// Every line recorded in an optional boxed expression is at least 1.
pub open spec fn opt_lines_positive(e: Option<Box<AstExpr>>) -> bool
    decreases e,
{
    match e {
        Some(x) => expr_lines_positive(*x),
        None => true,
    }
}

/// Every line recorded in an optional expression is at least 1.
pub open spec fn opt_expr_lines_positive(e: Option<AstExpr>) -> bool
    decreases e,
{
    match e {
        Some(x) => expr_lines_positive(x),
        None => true,
    }
}

/// Every line recorded in a sequence of expressions is at least 1.
pub open spec fn exprs_lines_positive(es: Seq<AstExpr>) -> bool
    decreases es,
{
    if es.len() == 0 {
        true
    } else {
        exprs_lines_positive(es.drop_last()) && expr_lines_positive(es.last())
    }
}

/// Every line recorded in an expression is at least 1: its own line, a
/// method name's line, and those of all it holds.
pub open spec fn expr_lines_positive(e: AstExpr) -> bool
    decreases e,
{
    line_of(e) >= 1 && match e {
        AstExpr::Binary { left, right, .. } => expr_lines_positive(*left) && expr_lines_positive(*right),
        AstExpr::MethodCall { receiver, method_line, turbofish_exprs, args, .. } => method_line >= 1
            && expr_lines_positive(*receiver) && exprs_lines_positive(turbofish_exprs@)
            && exprs_lines_positive(args@),
        AstExpr::Call { func, args, .. } => expr_lines_positive(*func) && exprs_lines_positive(args@),
        AstExpr::Path { arg_exprs, .. } => exprs_lines_positive(arg_exprs@),
        AstExpr::Lit { .. } => true,
        AstExpr::Unary { expr, .. } => expr_lines_positive(*expr),
        AstExpr::Paren { expr, .. } => expr_lines_positive(*expr),
        AstExpr::Group { expr, .. } => expr_lines_positive(*expr),
        AstExpr::Cast { expr, ty_exprs, .. } => expr_lines_positive(*expr) && exprs_lines_positive(ty_exprs@),
        AstExpr::Reference { expr, .. } => expr_lines_positive(*expr),
        AstExpr::Field { base, .. } => expr_lines_positive(*base),
        AstExpr::Try { expr, .. } => expr_lines_positive(*expr),
        AstExpr::Index { expr, index, .. } => expr_lines_positive(*expr) && expr_lines_positive(*index),
        AstExpr::Tuple { elems, .. } => exprs_lines_positive(elems@),
        AstExpr::Range { start, end, .. } => opt_lines_positive(start) && opt_lines_positive(end),
        AstExpr::Block { block, .. } => block_lines_positive(block),
        AstExpr::If { cond, then_branch, else_branch, .. } => expr_lines_positive(*cond)
            && block_lines_positive(then_branch) && opt_lines_positive(else_branch),
        AstExpr::Match { expr, arms, .. } => expr_lines_positive(*expr) && arms_lines_positive(arms@),
        AstExpr::While { cond, body, .. } => expr_lines_positive(*cond) && block_lines_positive(body),
        AstExpr::ForLoop { expr, body, .. } => expr_lines_positive(*expr) && block_lines_positive(body),
        AstExpr::Loop { body, .. } => block_lines_positive(body),
        AstExpr::Assign { left, right, .. } => expr_lines_positive(*left) && expr_lines_positive(*right),
        AstExpr::Return { expr, .. } => opt_lines_positive(expr),
        AstExpr::Break { expr, .. } => opt_lines_positive(expr),
        AstExpr::Continue { .. } => true,
        AstExpr::Macro { mac, .. } => macro_lines_positive(mac),
        AstExpr::Other { children, .. } => exprs_lines_positive(children@),
    }
}

/// Every line recorded in a match arm is at least 1.
pub open spec fn arm_lines_positive(a: AstArm) -> bool
    decreases a,
{
    opt_expr_lines_positive(a.guard) && expr_lines_positive(a.body)
}

/// Every line recorded in the arms of a match is at least 1.
pub open spec fn arms_lines_positive(arms: Seq<AstArm>) -> bool
    decreases arms,
{
    if arms.len() == 0 {
        true
    } else {
        arms_lines_positive(arms.drop_last()) && arm_lines_positive(arms.last())
    }
}

/// Every line recorded in a block is at least 1.
pub open spec fn block_lines_positive(b: AstBlock) -> bool
    decreases b,
{
    stmts_lines_positive(b.stmts@)
}

/// Every line recorded in a sequence of statements is at least 1.
pub open spec fn stmts_lines_positive(ss: Seq<AstStmt>) -> bool
    decreases ss,
{
    if ss.len() == 0 {
        true
    } else {
        stmts_lines_positive(ss.drop_last()) && stmt_lines_positive(ss.last())
    }
}

/// Every line recorded in a statement is at least 1.
pub open spec fn stmt_lines_positive(s: AstStmt) -> bool
    decreases s,
{
    match s {
        AstStmt::Local { pat_exprs, init, diverge, .. } => exprs_lines_positive(pat_exprs@)
            && opt_expr_lines_positive(init) && opt_expr_lines_positive(diverge),
        AstStmt::Item(it) => item_lines_positive(it),
        AstStmt::Expr(e) => expr_lines_positive(e),
        AstStmt::Macro(m) => macro_lines_positive(m),
    }
}

/// Every line recorded in an attribute is at least 1.
pub open spec fn attr_lines_positive(a: AstAttribute) -> bool
    decreases a,
{
    match a.meta {
        AstMeta::NameValue(e) => expr_lines_positive(e),
        _ => true,
    }
}

/// Every line recorded in a sequence of attributes is at least 1.
pub open spec fn attrs_lines_positive(attrs: Seq<AstAttribute>) -> bool
    decreases attrs,
{
    if attrs.len() == 0 {
        true
    } else {
        attrs_lines_positive(attrs.drop_last()) && attr_lines_positive(attrs.last())
    }
}

/// Every line recorded in a signature is at least 1: that of the name, and
/// those of the expressions inside its types.
pub open spec fn sig_lines_positive(sig: AstSignature) -> bool
    decreases sig,
{
    sig.ident_line >= 1 && exprs_lines_positive(sig.type_exprs@)
}

/// Every line recorded in an item of an `impl` block is at least 1.
pub open spec fn impl_item_lines_positive(it: AstImplItem) -> bool
    decreases it,
{
    match it {
        AstImplItem::Fn { attrs, sig, block, .. } => attrs_lines_positive(attrs@) && sig_lines_positive(sig)
            && block_lines_positive(block),
        AstImplItem::Const { type_exprs, expr } => exprs_lines_positive(type_exprs@) && expr_lines_positive(expr),
        AstImplItem::Macro(m) => macro_lines_positive(m),
        AstImplItem::Other { exprs } => exprs_lines_positive(exprs@),
    }
}

/// Every line recorded in the items of an `impl` block is at least 1.
pub open spec fn impl_items_lines_positive(its: Seq<AstImplItem>) -> bool
    decreases its,
{
    if its.len() == 0 {
        true
    } else {
        impl_items_lines_positive(its.drop_last()) && impl_item_lines_positive(its.last())
    }
}

/// Every line recorded in an item of a trait is at least 1.
pub open spec fn trait_item_lines_positive(it: AstTraitItem) -> bool
    decreases it,
{
    match it {
        AstTraitItem::Fn { type_exprs, default } => exprs_lines_positive(type_exprs@) && match default {
            Some(b) => block_lines_positive(b),
            None => true,
        },
        AstTraitItem::Const { type_exprs, default } => exprs_lines_positive(type_exprs@) && opt_expr_lines_positive(
            default,
        ),
        AstTraitItem::Macro(m) => macro_lines_positive(m),
        AstTraitItem::Other { exprs } => exprs_lines_positive(exprs@),
    }
}

/// Every line recorded in the items of a trait is at least 1.
pub open spec fn trait_items_lines_positive(its: Seq<AstTraitItem>) -> bool
    decreases its,
{
    if its.len() == 0 {
        true
    } else {
        trait_items_lines_positive(its.drop_last()) && trait_item_lines_positive(its.last())
    }
}

/// Every line recorded in an item is at least 1.
pub open spec fn item_lines_positive(it: AstItem) -> bool
    decreases it,
{
    match it {
        AstItem::Fn { attrs, sig, block, .. } => attrs_lines_positive(attrs@) && sig_lines_positive(sig)
            && block_lines_positive(block),
        AstItem::Impl { attrs, type_exprs, items, .. } => attrs_lines_positive(attrs@) && exprs_lines_positive(
            type_exprs@,
        ) && impl_items_lines_positive(items@),
        AstItem::Struct { attrs, type_exprs, .. } => attrs_lines_positive(attrs@) && exprs_lines_positive(
            type_exprs@,
        ),
        AstItem::Enum { attrs, exprs, .. } => attrs_lines_positive(attrs@) && exprs_lines_positive(exprs@),
        AstItem::Mod { attrs, items } => attrs_lines_positive(attrs@) && items_lines_positive(items@),
        AstItem::Trait { type_exprs, items } => exprs_lines_positive(type_exprs@) && trait_items_lines_positive(
            items@,
        ),
        AstItem::Macro(m) => macro_lines_positive(m),
        AstItem::Other { exprs } => exprs_lines_positive(exprs@),
    }
}

/// Every line recorded in a sequence of items is at least 1.
pub open spec fn items_lines_positive(its: Seq<AstItem>) -> bool
    decreases its,
{
    if its.len() == 0 {
        true
    } else {
        items_lines_positive(its.drop_last()) && item_lines_positive(its.last())
    }
}

/// Every line recorded in a file's model is at least 1.
pub open spec fn file_lines_positive(f: AstFile) -> bool {
    items_lines_positive(f.items@)
}

/// The identifiers of a path's segments.
pub open spec fn path_idents(p: AstPath) -> Seq<Seq<char>> {
    p.segments@.map_values(|s: AstPathSegment| s.ident@)
}

/// `Some(ident)` when the path is a single plain identifier (no leading
/// `::`, one segment, no generic arguments).
pub open spec fn path_get_ident(p: AstPath) -> Option<Seq<char>> {
    if !p.leading_colon && p.segments@.len() == 1 && !p.segments@[0].has_arguments {
        Some(p.segments@[0].ident@)
    } else {
        None
    }
}

/// Whether the path is exactly the identifier `name`.
pub open spec fn path_is_ident(p: AstPath, name: Seq<char>) -> bool {
    path_get_ident(p) == Some(name)
}

/// The identifier of the path's last segment.
pub open spec fn path_last_ident(p: AstPath) -> Option<Seq<char>> {
    if p.segments@.len() == 0 {
        None
    } else {
        Some(p.segments@.last().ident@)
    }
}

/// Whether any segment of the path is `name`.
pub open spec fn path_has_segment(p: AstPath, name: Seq<char>) -> bool {
    exists|i: int| 0 <= i < p.segments@.len() && #[trigger] p.segments@[i].ident@ == name
}

} // verus!
