//! Parsing with `syn`, and the conversion of its syntax tree into the
//! library's own model ([`crate::syntax`]).
//!
//! Nothing here is verified: `syn` does the parsing, and the functions below
//! only copy, node by node, what the model holds (names, operators, literal
//! values, token text through `quote::ToTokens`, and start lines through
//! `syn::spanned::Spanned`).  Each `conv_*` function converts one kind of
//! `syn` node and is used only while building the result of [`parse_file`].
use vstd::prelude::*;
use crate::syntax as model;
use quote::ToTokens;
use syn::spanned::Spanned;

verus! {

#[verifier::external_type_specification]
#[verifier::external_body]
pub struct ExSynFile(syn::File);

#[verifier::external_type_specification]
#[verifier::external_body]
pub struct ExSynItem(syn::Item);

#[verifier::external_type_specification]
#[verifier::external_body]
pub struct ExSynExprCall(syn::ExprCall);

#[verifier::external_type_specification]
#[verifier::external_body]
pub struct ExSynItemFn(syn::ItemFn);

#[verifier::external_type_specification]
#[verifier::external_body]
pub struct ExSynItemImpl(syn::ItemImpl);

#[verifier::external_type_specification]
#[verifier::external_body]
pub struct ExSynItemStruct(syn::ItemStruct);

#[verifier::external_type_specification]
#[verifier::external_body]
pub struct ExSynItemEnum(syn::ItemEnum);

#[verifier::external_type_specification]
#[verifier::external_body]
pub struct ExSynItemMod(syn::ItemMod);

#[verifier::external_type_specification]
#[verifier::external_body]
pub struct ExSynImplItem(syn::ImplItem);

#[verifier::external_type_specification]
#[verifier::external_body]
pub struct ExSynImplItemFn(syn::ImplItemFn);

#[verifier::external_type_specification]
#[verifier::external_body]
pub struct ExSynTraitItem(syn::TraitItem);

#[verifier::external_type_specification]
#[verifier::external_body]
pub struct ExSynAttribute(syn::Attribute);

#[verifier::external_type_specification]
#[verifier::external_body]
pub struct ExSynPath(syn::Path);

#[verifier::external_type_specification]
#[verifier::external_body]
pub struct ExSynMacro(syn::Macro);

#[verifier::external_type_specification]
#[verifier::external_body]
pub struct ExSynSignature(syn::Signature);

#[verifier::external_type_specification]
#[verifier::external_body]
pub struct ExSynFnArg(syn::FnArg);

#[verifier::external_type_specification]
#[verifier::external_body]
pub struct ExSynVisibility(syn::Visibility);

#[verifier::external_type_specification]
#[verifier::external_body]
pub struct ExSynPat(syn::Pat);

#[verifier::external_type_specification]
#[verifier::external_body]
pub struct ExSynType(syn::Type);

#[verifier::external_type_specification]
#[verifier::external_body]
pub struct ExSynBlock(syn::Block);

#[verifier::external_type_specification]
#[verifier::external_body]
pub struct ExSynStmt(syn::Stmt);

#[verifier::external_type_specification]
#[verifier::external_body]
pub struct ExSynLocal(syn::Local);

#[verifier::external_type_specification]
#[verifier::external_body]
pub struct ExSynExpr(syn::Expr);

#[verifier::external_type_specification]
#[verifier::external_body]
pub struct ExSynExprMethodCall(syn::ExprMethodCall);

#[verifier::external_type_specification]
#[verifier::external_body]
pub struct ExSynArm(syn::Arm);

#[verifier::external_type_specification]
#[verifier::external_body]
pub struct ExSynBinOp(syn::BinOp);

#[verifier::external_type_specification]
#[verifier::external_body]
pub struct ExSynUnOp(syn::UnOp);

#[verifier::external_type_specification]
#[verifier::external_body]
pub struct ExSynLit(syn::Lit);

#[verifier::external_type_specification]
#[verifier::external_body]
pub struct ExSynQSelf(syn::QSelf);

#[verifier::external_type_specification]
#[verifier::external_body]
pub struct ExSynGenericArgument(syn::GenericArgument);

#[verifier::external_type_specification]
#[verifier::external_body]
pub struct ExSynTypeParamBound(syn::TypeParamBound);

#[verifier::external_type_specification]
#[verifier::external_body]
pub struct ExSynReturnType(syn::ReturnType);

#[verifier::external_type_specification]
#[verifier::external_body]
pub struct ExSynGenerics(syn::Generics);

#[verifier::external_type_specification]
#[verifier::external_body]
pub struct ExSynWherePredicate(syn::WherePredicate);

#[verifier::external_type_specification]
#[verifier::external_body]
pub struct ExSynExprClosure(syn::ExprClosure);

#[verifier::external_type_specification]
#[verifier::external_body]
pub struct ExSynVariant(syn::Variant);

#[verifier::external_type_specification]
#[verifier::external_body]
pub struct ExSynItemTrait(syn::ItemTrait);

#[verifier::external_type_specification]
#[verifier::external_body]
pub struct ExSynTraitItemType(syn::TraitItemType);

/// The model of the file that `syn::parse_str::<syn::File>` parses from
/// `source`, or `None` when `syn` rejects it.
pub uninterp spec fn spec_parse_file(source: Seq<char>) -> Option<model::AstFile>;

/// Parses `source` as a Rust file with `syn::parse_str::<syn::File>` and
/// converts the tree into the library's model.
///
/// Trusted: the result is `Ok` exactly when `syn` accepts the text, and is
/// then the model named by [`spec_parse_file`] (a function of the text
/// alone); on rejection it carries the message of `syn`'s error.  Every line
/// the model records comes from `proc_macro2::Span::start`, whose
/// `LineColumn::line` is documented as 1-indexed, so each is at least 1.
#[verifier::external_body]
pub(crate) fn parse_file(source: &str) -> (r: Result<model::AstFile, String>)
    ensures
        r is Ok <==> spec_parse_file(source@) is Some,
        r matches Ok(f) ==> spec_parse_file(source@) == Some(f),
        r matches Ok(f) ==> model::file_lines_positive(f),
{
    syn::parse_str::<syn::File>(source).map(|f| conv_file(&f)).map_err(|e| e.to_string())
}

#[verifier::external_body]
fn conv_file(f: &syn::File) -> model::AstFile {
    model::AstFile { items: f.items.iter().map(conv_item).collect() }
}

#[verifier::external_body]
fn conv_attrs(attrs: &Vec<syn::Attribute>) -> Vec<model::AstAttribute> {
    attrs.iter().map(conv_attr).collect()
}

#[verifier::external_body]
fn conv_attr(a: &syn::Attribute) -> model::AstAttribute {
    let meta = match &a.meta {
        syn::Meta::Path(_) => model::AstMeta::Path,
        syn::Meta::List(_) => model::AstMeta::List,
        syn::Meta::NameValue(nv) => model::AstMeta::NameValue(conv_expr(&nv.value)),
    };
    model::AstAttribute { path: conv_path(a.path()), meta, text: a.to_token_stream().to_string() }
}

#[verifier::external_body]
fn conv_path(p: &syn::Path) -> model::AstPath {
    model::AstPath {
        leading_colon: p.leading_colon.is_some(),
        segments: p.segments.iter().map(|s| model::AstPathSegment {
            ident: s.ident.to_string(),
            has_arguments: !s.arguments.is_none(),
        }).collect(),
    }
}

#[verifier::external_body]
fn conv_macro(m: &syn::Macro) -> model::AstMacro {
    let ident_line = m.path.get_ident().map(|i| i.span().start().line);
    model::AstMacro { path: conv_path(&m.path), ident_line }
}

#[verifier::external_body]
fn is_public(v: &syn::Visibility) -> bool {
    matches!(v, syn::Visibility::Public(_))
}

#[verifier::external_body]
fn conv_item(i: &syn::Item) -> model::AstItem {
    match i {
        syn::Item::Fn(f) => conv_item_fn(f),
        syn::Item::Impl(m) => conv_item_impl(m),
        syn::Item::Struct(s) => conv_item_struct(s),
        syn::Item::Enum(e) => conv_item_enum(e),
        syn::Item::Mod(m) => conv_item_mod(m),
        _ => conv_item_other(i),
    }
}

#[verifier::external_body]
fn conv_item_other(i: &syn::Item) -> model::AstItem {
    match i {
        syn::Item::Trait(t) => conv_item_trait(t),
        syn::Item::Type(t) => model::AstItem::Other { exprs: cat(generics_exprs(&t.generics), type_exprs(&t.ty)) },
        syn::Item::Macro(m) => model::AstItem::Macro(conv_macro(&m.mac)),
        syn::Item::Const(c) => model::AstItem::Other { exprs: cat(type_exprs(&c.ty), vec![conv_expr(&c.expr)]) },
        syn::Item::Static(s) => model::AstItem::Other { exprs: cat(type_exprs(&s.ty), vec![conv_expr(&s.expr)]) },
        _ => model::AstItem::Other { exprs: Vec::new() },
    }
}

#[verifier::external_body]
fn conv_item_fn(f: &syn::ItemFn) -> model::AstItem {
    model::AstItem::Fn {
        attrs: conv_attrs(&f.attrs),
        is_public: is_public(&f.vis),
        sig: conv_sig(&f.sig),
        block: conv_block(&f.block),
    }
}

#[verifier::external_body]
fn conv_item_impl(m: &syn::ItemImpl) -> model::AstItem {
    model::AstItem::Impl {
        attrs: conv_attrs(&m.attrs),
        self_ty: conv_type(&m.self_ty),
        type_exprs: impl_head_exprs(m),
        items: m.items.iter().map(conv_impl_item).collect(),
    }
}

#[verifier::external_body]
fn conv_item_struct(s: &syn::ItemStruct) -> model::AstItem {
    model::AstItem::Struct {
        attrs: conv_attrs(&s.attrs),
        ident: s.ident.to_string(),
        fields: s.fields.iter().map(|f| conv_type(&f.ty)).collect(),
        type_exprs: cat(generics_exprs(&s.generics), s.fields.iter().flat_map(|f| type_exprs(&f.ty)).collect()),
    }
}

#[verifier::external_body]
fn conv_item_enum(e: &syn::ItemEnum) -> model::AstItem {
    model::AstItem::Enum {
        attrs: conv_attrs(&e.attrs),
        ident: e.ident.to_string(),
        exprs: cat(generics_exprs(&e.generics), e.variants.iter().flat_map(variant_exprs).collect()),
    }
}

#[verifier::external_body]
fn variant_exprs(v: &syn::Variant) -> Vec<model::AstExpr> {
    let fields: Vec<model::AstExpr> = v.fields.iter().flat_map(|f| type_exprs(&f.ty)).collect();
    cat(fields, v.discriminant.iter().map(|d| conv_expr(&d.1)).collect())
}

#[verifier::external_body]
fn conv_item_trait(t: &syn::ItemTrait) -> model::AstItem {
    model::AstItem::Trait {
        type_exprs: cat(generics_exprs(&t.generics), t.supertraits.iter().flat_map(bound_exprs).collect()),
        items: t.items.iter().map(conv_trait_item).collect(),
    }
}

#[verifier::external_body]
fn conv_item_mod(m: &syn::ItemMod) -> model::AstItem {
    let items = match &m.content {
        Some((_, items)) => items.iter().map(conv_item).collect(),
        None => Vec::new(),
    };
    model::AstItem::Mod { attrs: conv_attrs(&m.attrs), items }
}

#[verifier::external_body]
fn conv_impl_item(i: &syn::ImplItem) -> model::AstImplItem {
    match i {
        syn::ImplItem::Fn(f) => conv_impl_fn(f),
        syn::ImplItem::Const(c) => model::AstImplItem::Const {
            type_exprs: cat(generics_exprs(&c.generics), type_exprs(&c.ty)),
            expr: conv_expr(&c.expr),
        },
        syn::ImplItem::Macro(m) => model::AstImplItem::Macro(conv_macro(&m.mac)),
        syn::ImplItem::Type(t) => model::AstImplItem::Other { exprs: cat(generics_exprs(&t.generics), type_exprs(&t.ty)) },
        _ => model::AstImplItem::Other { exprs: Vec::new() },
    }
}

#[verifier::external_body]
fn conv_impl_fn(f: &syn::ImplItemFn) -> model::AstImplItem {
    model::AstImplItem::Fn {
        attrs: conv_attrs(&f.attrs),
        is_public: is_public(&f.vis),
        sig: conv_sig(&f.sig),
        block: conv_block(&f.block),
    }
}

#[verifier::external_body]
fn conv_trait_item(i: &syn::TraitItem) -> model::AstTraitItem {
    match i {
        syn::TraitItem::Fn(f) => model::AstTraitItem::Fn {
            type_exprs: sig_exprs(&f.sig),
            default: f.default.as_ref().map(conv_block),
        },
        syn::TraitItem::Const(c) => model::AstTraitItem::Const {
            type_exprs: cat(generics_exprs(&c.generics), type_exprs(&c.ty)),
            default: c.default.as_ref().map(|d| conv_expr(&d.1)),
        },
        syn::TraitItem::Type(t) => model::AstTraitItem::Other { exprs: trait_type_exprs(t) },
        syn::TraitItem::Macro(m) => model::AstTraitItem::Macro(conv_macro(&m.mac)),
        _ => model::AstTraitItem::Other { exprs: Vec::new() },
    }
}

#[verifier::external_body]
fn conv_sig(s: &syn::Signature) -> model::AstSignature {
    model::AstSignature {
        ident: s.ident.to_string(),
        ident_line: s.ident.span().start().line,
        inputs: s.inputs.iter().map(conv_fn_arg).collect(),
        output: match &s.output {
            syn::ReturnType::Default => None,
            syn::ReturnType::Type(_, ty) => Some(conv_type(ty)),
        },
        type_exprs: sig_exprs(s),
    }
}

#[verifier::external_body]
fn conv_fn_arg(a: &syn::FnArg) -> model::AstFnArg {
    match a {
        syn::FnArg::Receiver(_) => model::AstFnArg::Receiver,
        syn::FnArg::Typed(pt) => model::AstFnArg::Typed {
            pat: conv_pat(&pt.pat),
            ty: conv_type(&pt.ty),
            text: pt.to_token_stream().to_string(),
        },
    }
}

#[verifier::external_body]
fn conv_pat(p: &syn::Pat) -> model::AstPat {
    match p {
        syn::Pat::Ident(i) => model::AstPat::Ident(i.ident.to_string()),
        syn::Pat::Tuple(t) => model::AstPat::Tuple(t.elems.iter().map(conv_pat).collect()),
        syn::Pat::Struct(s) => model::AstPat::Struct(s.fields.iter().map(|f| conv_pat(&f.pat)).collect()),
        syn::Pat::TupleStruct(t) => model::AstPat::TupleStruct(t.elems.iter().map(conv_pat).collect()),
        _ => conv_pat_wrapped(p),
    }
}

#[verifier::external_body]
fn conv_pat_wrapped(p: &syn::Pat) -> model::AstPat {
    match p {
        syn::Pat::Reference(r) => model::AstPat::Reference(Box::new(conv_pat(&r.pat))),
        syn::Pat::Type(t) => model::AstPat::Type(Box::new(conv_pat(&t.pat))),
        syn::Pat::Paren(q) => model::AstPat::Paren(Box::new(conv_pat(&q.pat))),
        _ => model::AstPat::Other,
    }
}

#[verifier::external_body]
fn conv_type(t: &syn::Type) -> model::AstType {
    let text = t.to_token_stream().to_string();
    match t {
        syn::Type::Path(p) => model::AstType::Path { last: last_ident(&p.path), text },
        syn::Type::Reference(r) => model::AstType::Reference(Box::new(conv_type(&r.elem))),
        syn::Type::Paren(p) => model::AstType::Paren(Box::new(conv_type(&p.elem))),
        syn::Type::Group(g) => model::AstType::Group(Box::new(conv_type(&g.elem))),
        syn::Type::Tuple(u) => model::AstType::Tuple { len: u.elems.len(), text },
        _ => model::AstType::Other { text },
    }
}

#[verifier::external_body]
fn last_ident(p: &syn::Path) -> Option<String> {
    p.segments.last().map(|s| s.ident.to_string())
}

#[verifier::external_body]
fn conv_block(b: &syn::Block) -> model::AstBlock {
    model::AstBlock { stmts: b.stmts.iter().map(conv_stmt).collect() }
}

#[verifier::external_body]
fn conv_stmt(s: &syn::Stmt) -> model::AstStmt {
    match s {
        syn::Stmt::Local(l) => conv_local(l),
        syn::Stmt::Item(i) => model::AstStmt::Item(conv_item(i)),
        syn::Stmt::Expr(e, _) => model::AstStmt::Expr(conv_expr(e)),
        syn::Stmt::Macro(m) => model::AstStmt::Macro(conv_macro(&m.mac)),
    }
}

#[verifier::external_body]
fn conv_local(l: &syn::Local) -> model::AstStmt {
    model::AstStmt::Local {
        pat: conv_pat(&l.pat),
        pat_exprs: pat_exprs(&l.pat),
        init: l.init.as_ref().map(|i| conv_expr(&i.expr)),
        diverge: l.init.as_ref().and_then(|i| i.diverge.as_ref().map(|d| conv_expr(&d.1))),
    }
}

#[verifier::external_body]
fn conv_box(e: &syn::Expr) -> Box<model::AstExpr> {
    Box::new(conv_expr(e))
}

#[verifier::external_body]
fn conv_opt(e: &Option<Box<syn::Expr>>) -> Option<Box<model::AstExpr>> {
    e.as_ref().map(|x| conv_box(x))
}

#[verifier::external_body]
fn conv_expr(e: &syn::Expr) -> model::AstExpr {
    let line = e.span().start().line;
    match e {
        syn::Expr::Binary(b) => model::AstExpr::Binary {
            left: conv_box(&b.left),
            op: conv_binop(&b.op),
            right: conv_box(&b.right),
            line,
        },
        syn::Expr::MethodCall(m) => conv_method_call(m, line),
        syn::Expr::Call(c) => conv_call(c, line),
        syn::Expr::Path(p) => model::AstExpr::Path { path: conv_path(&p.path), arg_exprs: qpath_exprs(&p.qself, &p.path), line },
        syn::Expr::Lit(l) => model::AstExpr::Lit { lit: conv_lit(&l.lit), line },
        _ => conv_expr_wrapped(e, line),
    }
}

#[verifier::external_body]
fn conv_expr_wrapped(e: &syn::Expr, line: usize) -> model::AstExpr {
    match e {
        syn::Expr::Unary(u) => model::AstExpr::Unary { op: conv_unop(&u.op), expr: conv_box(&u.expr), line },
        syn::Expr::Paren(p) => model::AstExpr::Paren { expr: conv_box(&p.expr), line },
        syn::Expr::Group(g) => model::AstExpr::Group { expr: conv_box(&g.expr), line },
        syn::Expr::Cast(c) => model::AstExpr::Cast { expr: conv_box(&c.expr), ty_exprs: type_exprs(&c.ty), line },
        _ => conv_expr_access(e, line),
    }
}

#[verifier::external_body]
fn conv_expr_access(e: &syn::Expr, line: usize) -> model::AstExpr {
    match e {
        syn::Expr::Reference(r) => model::AstExpr::Reference { expr: conv_box(&r.expr), line },
        syn::Expr::Field(f) => model::AstExpr::Field { base: conv_box(&f.base), line },
        syn::Expr::Try(t) => model::AstExpr::Try { expr: conv_box(&t.expr), line },
        syn::Expr::Index(i) => model::AstExpr::Index { expr: conv_box(&i.expr), index: conv_box(&i.index), line },
        _ => conv_expr_flow(e, line),
    }
}

#[verifier::external_body]
fn conv_expr_flow(e: &syn::Expr, line: usize) -> model::AstExpr {
    match e {
        syn::Expr::Block(b) => model::AstExpr::Block { block: conv_block(&b.block), line },
        syn::Expr::If(i) => model::AstExpr::If {
            cond: conv_box(&i.cond),
            then_branch: conv_block(&i.then_branch),
            else_branch: i.else_branch.as_ref().map(|(_, x)| conv_box(x)),
            line,
        },
        syn::Expr::Match(m) => model::AstExpr::Match { expr: conv_box(&m.expr), arms: m.arms.iter().map(conv_arm).collect(), line },
        syn::Expr::While(w) => model::AstExpr::While { cond: conv_box(&w.cond), body: conv_block(&w.body), line },
        _ => conv_expr_loop(e, line),
    }
}

#[verifier::external_body]
fn conv_expr_loop(e: &syn::Expr, line: usize) -> model::AstExpr {
    match e {
        syn::Expr::ForLoop(f) => model::AstExpr::ForLoop { pat: conv_pat(&f.pat), expr: conv_box(&f.expr), body: conv_block(&f.body), line },
        syn::Expr::Loop(l) => model::AstExpr::Loop { body: conv_block(&l.body), line },
        syn::Expr::Assign(a) => model::AstExpr::Assign { left: conv_box(&a.left), right: conv_box(&a.right), line },
        _ => conv_expr_jump(e, line),
    }
}

#[verifier::external_body]
fn conv_expr_jump(e: &syn::Expr, line: usize) -> model::AstExpr {
    match e {
        syn::Expr::Return(r) => model::AstExpr::Return { expr: conv_opt(&r.expr), line },
        syn::Expr::Break(b) => model::AstExpr::Break { expr: conv_opt(&b.expr), line },
        syn::Expr::Continue(_) => model::AstExpr::Continue { line },
        syn::Expr::Macro(m) => model::AstExpr::Macro { mac: conv_macro(&m.mac), line },
        _ => conv_expr_compound(e, line),
    }
}

#[verifier::external_body]
fn conv_expr_compound(e: &syn::Expr, line: usize) -> model::AstExpr {
    match e {
        syn::Expr::Tuple(t) => model::AstExpr::Tuple { elems: t.elems.iter().map(conv_expr).collect(), line },
        syn::Expr::Range(r) => model::AstExpr::Range { start: conv_opt(&r.start), end: conv_opt(&r.end), line },
        syn::Expr::Array(a) => model::AstExpr::Other { children: a.elems.iter().map(conv_expr).collect(), line },
        syn::Expr::Struct(s) => model::AstExpr::Other {
            children: s.fields.iter().map(|f| &f.expr).chain(s.rest.as_deref()).map(conv_expr).collect(),
            line,
        },
        _ => conv_expr_other(e, line),
    }
}

#[verifier::external_body]
fn conv_expr_other(e: &syn::Expr, line: usize) -> model::AstExpr {
    let children: Vec<model::AstExpr> = match e {
        syn::Expr::Closure(c) => cat(closure_head_exprs(c), vec![conv_expr(&c.body)]),
        syn::Expr::Let(l) => vec![conv_expr(&l.expr)],
        syn::Expr::Await(a) => vec![conv_expr(&a.base)],
        syn::Expr::Repeat(r) => vec![conv_expr(&r.expr), conv_expr(&r.len)],
        syn::Expr::Yield(y) => y.expr.iter().map(|x| conv_expr(x)).collect(),
        _ => conv_inner_block(e, line),
    };
    model::AstExpr::Other { children, line }
}

#[verifier::external_body]
fn conv_inner_block(e: &syn::Expr, line: usize) -> Vec<model::AstExpr> {
    let block = match e {
        syn::Expr::Unsafe(u) => &u.block,
        syn::Expr::Async(a) => &a.block,
        syn::Expr::Const(c) => &c.block,
        syn::Expr::TryBlock(t) => &t.block,
        _ => return Vec::new(),
    };
    vec![model::AstExpr::Block { block: conv_block(block), line }]
}

#[verifier::external_body]
fn conv_call(c: &syn::ExprCall, line: usize) -> model::AstExpr {
    model::AstExpr::Call { func: conv_box(&c.func), args: c.args.iter().map(conv_expr).collect(), line }
}

#[verifier::external_body]
fn conv_method_call(m: &syn::ExprMethodCall, line: usize) -> model::AstExpr {
    model::AstExpr::MethodCall {
        receiver: conv_box(&m.receiver),
        method: m.method.to_string(),
        method_line: m.method.span().start().line,
        turbofish_exprs: m.turbofish.iter().flat_map(|t| t.args.iter().flat_map(generic_arg_exprs)).collect(),
        args: m.args.iter().map(conv_expr).collect(),
        text: m.to_token_stream().to_string(),
        receiver_text: m.receiver.to_token_stream().to_string(),
        line,
    }
}

#[verifier::external_body]
fn conv_arm(a: &syn::Arm) -> model::AstArm {
    model::AstArm {
        pat: conv_pat(&a.pat),
        guard: a.guard.as_ref().map(|(_, g)| conv_expr(g)),
        body: conv_expr(&a.body),
    }
}

#[verifier::external_body]
fn conv_lit(l: &syn::Lit) -> model::AstLit {
    match l {
        syn::Lit::Str(s) => model::AstLit::Str(s.value()),
        syn::Lit::Int(i) => model::AstLit::Int(i.base10_digits().to_string()),
        _ => model::AstLit::Other,
    }
}

#[verifier::external_body]
fn conv_unop(o: &syn::UnOp) -> model::AstUnOp {
    match o {
        syn::UnOp::Deref(_) => model::AstUnOp::Deref,
        syn::UnOp::Not(_) => model::AstUnOp::Not,
        syn::UnOp::Neg(_) => model::AstUnOp::Neg,
        _ => model::AstUnOp::Other,
    }
}

#[verifier::external_body]
fn conv_binop(o: &syn::BinOp) -> model::AstBinOp {
    match o {
        syn::BinOp::Add(_) => model::AstBinOp::Add,
        syn::BinOp::Sub(_) => model::AstBinOp::Sub,
        syn::BinOp::Mul(_) => model::AstBinOp::Mul,
        syn::BinOp::Div(_) => model::AstBinOp::Div,
        syn::BinOp::Rem(_) => model::AstBinOp::Rem,
        syn::BinOp::And(_) => model::AstBinOp::And,
        syn::BinOp::Or(_) => model::AstBinOp::Or,
        syn::BinOp::BitXor(_) => model::AstBinOp::BitXor,
        syn::BinOp::BitAnd(_) => model::AstBinOp::BitAnd,
        syn::BinOp::BitOr(_) => model::AstBinOp::BitOr,
        _ => conv_binop_cmp(o),
    }
}

#[verifier::external_body]
fn conv_binop_cmp(o: &syn::BinOp) -> model::AstBinOp {
    match o {
        syn::BinOp::Shl(_) => model::AstBinOp::Shl,
        syn::BinOp::Shr(_) => model::AstBinOp::Shr,
        syn::BinOp::Eq(_) => model::AstBinOp::Eq,
        syn::BinOp::Lt(_) => model::AstBinOp::Lt,
        syn::BinOp::Le(_) => model::AstBinOp::Le,
        syn::BinOp::Ne(_) => model::AstBinOp::Ne,
        syn::BinOp::Ge(_) => model::AstBinOp::Ge,
        syn::BinOp::Gt(_) => model::AstBinOp::Gt,
        _ => conv_binop_assign(o),
    }
}

#[verifier::external_body]
fn conv_binop_assign(o: &syn::BinOp) -> model::AstBinOp {
    match o {
        syn::BinOp::AddAssign(_) => model::AstBinOp::AddAssign,
        syn::BinOp::SubAssign(_) => model::AstBinOp::SubAssign,
        syn::BinOp::MulAssign(_) => model::AstBinOp::MulAssign,
        syn::BinOp::DivAssign(_) => model::AstBinOp::DivAssign,
        syn::BinOp::RemAssign(_) => model::AstBinOp::RemAssign,
        syn::BinOp::BitXorAssign(_) => model::AstBinOp::BitXorAssign,
        syn::BinOp::BitAndAssign(_) => model::AstBinOp::BitAndAssign,
        syn::BinOp::BitOrAssign(_) => model::AstBinOp::BitOrAssign,
        syn::BinOp::ShlAssign(_) => model::AstBinOp::ShlAssign,
        syn::BinOp::ShrAssign(_) => model::AstBinOp::ShrAssign,
        _ => model::AstBinOp::Other,
    }
}

// ── Expressions inside types, patterns and generics ─────────────────────────
//
// A full walk of the syntax tree also meets the expressions that stand inside
// types (array lengths, const generic arguments), in the order below.

/// `a` followed by `b`.
fn cat(a: Vec<model::AstExpr>, b: Vec<model::AstExpr>) -> (r: Vec<model::AstExpr>)
    ensures
        r@ == a@ + b@,
{
    let mut a = a;
    let mut b = b;
    a.append(&mut b);
    a
}

#[verifier::external_body]
fn type_exprs(t: &syn::Type) -> Vec<model::AstExpr> {
    match t {
        syn::Type::Array(a) => cat(type_exprs(&a.elem), vec![conv_expr(&a.len)]),
        syn::Type::Slice(x) => type_exprs(&x.elem),
        syn::Type::Ptr(x) => type_exprs(&x.elem),
        syn::Type::Reference(x) => type_exprs(&x.elem),
        syn::Type::Paren(x) => type_exprs(&x.elem),
        syn::Type::Group(x) => type_exprs(&x.elem),
        syn::Type::Tuple(x) => x.elems.iter().flat_map(type_exprs).collect(),
        syn::Type::Path(x) => qpath_exprs(&x.qself, &x.path),
        _ => type_exprs_other(t),
    }
}

#[verifier::external_body]
fn type_exprs_other(t: &syn::Type) -> Vec<model::AstExpr> {
    match t {
        syn::Type::BareFn(f) => cat(f.inputs.iter().flat_map(|a| type_exprs(&a.ty)).collect(), return_exprs(&f.output)),
        syn::Type::TraitObject(x) => x.bounds.iter().flat_map(bound_exprs).collect(),
        syn::Type::ImplTrait(x) => x.bounds.iter().flat_map(bound_exprs).collect(),
        _ => Vec::new(),
    }
}

#[verifier::external_body]
fn qpath_exprs(q: &Option<syn::QSelf>, p: &syn::Path) -> Vec<model::AstExpr> {
    let head = match q {
        Some(q) => type_exprs(&q.ty),
        None => Vec::new(),
    };
    cat(head, path_exprs(p))
}

#[verifier::external_body]
fn path_exprs(p: &syn::Path) -> Vec<model::AstExpr> {
    p.segments.iter().flat_map(|s| match &s.arguments {
        syn::PathArguments::AngleBracketed(a) => a.args.iter().flat_map(generic_arg_exprs).collect(),
        syn::PathArguments::Parenthesized(a) => {
            cat(a.inputs.iter().flat_map(type_exprs).collect(), return_exprs(&a.output))
        },
        syn::PathArguments::None => Vec::new(),
    }).collect()
}

#[verifier::external_body]
fn generic_arg_exprs(g: &syn::GenericArgument) -> Vec<model::AstExpr> {
    match g {
        syn::GenericArgument::Type(t) => type_exprs(t),
        syn::GenericArgument::Const(e) => vec![conv_expr(e)],
        syn::GenericArgument::AssocType(a) => type_exprs(&a.ty),
        syn::GenericArgument::AssocConst(a) => vec![conv_expr(&a.value)],
        syn::GenericArgument::Constraint(c) => c.bounds.iter().flat_map(bound_exprs).collect(),
        _ => Vec::new(),
    }
}

#[verifier::external_body]
fn bound_exprs(b: &syn::TypeParamBound) -> Vec<model::AstExpr> {
    match b {
        syn::TypeParamBound::Trait(t) => path_exprs(&t.path),
        _ => Vec::new(),
    }
}

#[verifier::external_body]
fn return_exprs(r: &syn::ReturnType) -> Vec<model::AstExpr> {
    match r {
        syn::ReturnType::Default => Vec::new(),
        syn::ReturnType::Type(_, t) => type_exprs(t),
    }
}

#[verifier::external_body]
fn generics_exprs(g: &syn::Generics) -> Vec<model::AstExpr> {
    let params: Vec<model::AstExpr> = g.params.iter().flat_map(|p| match p {
        syn::GenericParam::Type(t) => cat(t.bounds.iter().flat_map(bound_exprs).collect(), t.default.iter().flat_map(type_exprs).collect()),
        syn::GenericParam::Const(c) => cat(type_exprs(&c.ty), c.default.iter().map(conv_expr).collect()),
        syn::GenericParam::Lifetime(_) => Vec::new(),
    }).collect();
    cat(params, g.where_clause.iter().flat_map(|w| w.predicates.iter().flat_map(predicate_exprs)).collect())
}

#[verifier::external_body]
fn predicate_exprs(p: &syn::WherePredicate) -> Vec<model::AstExpr> {
    match p {
        syn::WherePredicate::Type(t) => cat(type_exprs(&t.bounded_ty), t.bounds.iter().flat_map(bound_exprs).collect()),
        _ => Vec::new(),
    }
}

#[verifier::external_body]
fn pat_exprs(p: &syn::Pat) -> Vec<model::AstExpr> {
    match p {
        syn::Pat::Type(t) => cat(pat_exprs(&t.pat), type_exprs(&t.ty)),
        syn::Pat::Tuple(t) => t.elems.iter().flat_map(pat_exprs).collect(),
        syn::Pat::TupleStruct(t) => t.elems.iter().flat_map(pat_exprs).collect(),
        syn::Pat::Reference(r) => pat_exprs(&r.pat),
        syn::Pat::Paren(q) => pat_exprs(&q.pat),
        _ => pat_exprs_other(p),
    }
}

#[verifier::external_body]
fn pat_exprs_other(p: &syn::Pat) -> Vec<model::AstExpr> {
    match p {
        syn::Pat::Struct(t) => t.fields.iter().flat_map(|f| pat_exprs(&f.pat)).collect(),
        syn::Pat::Slice(t) => t.elems.iter().flat_map(pat_exprs).collect(),
        syn::Pat::Or(t) => t.cases.iter().flat_map(pat_exprs).collect(),
        _ => Vec::new(),
    }
}

#[verifier::external_body]
fn sig_exprs(s: &syn::Signature) -> Vec<model::AstExpr> {
    let inputs: Vec<model::AstExpr> = s.inputs.iter().flat_map(|a| match a {
        syn::FnArg::Typed(pt) => cat(pat_exprs(&pt.pat), type_exprs(&pt.ty)),
        syn::FnArg::Receiver(r) => type_exprs(&r.ty),
    }).collect();
    cat(cat(generics_exprs(&s.generics), inputs), return_exprs(&s.output))
}

#[verifier::external_body]
fn impl_head_exprs(m: &syn::ItemImpl) -> Vec<model::AstExpr> {
    let tr: Vec<model::AstExpr> = m.trait_.iter().flat_map(|(_, p, _)| path_exprs(p)).collect();
    cat(cat(generics_exprs(&m.generics), tr), type_exprs(&m.self_ty))
}

#[verifier::external_body]
fn trait_type_exprs(t: &syn::TraitItemType) -> Vec<model::AstExpr> {
    let bounds: Vec<model::AstExpr> = t.bounds.iter().flat_map(bound_exprs).collect();
    let default: Vec<model::AstExpr> = t.default.iter().flat_map(|d| type_exprs(&d.1)).collect();
    cat(cat(generics_exprs(&t.generics), bounds), default)
}

#[verifier::external_body]
fn closure_head_exprs(c: &syn::ExprClosure) -> Vec<model::AstExpr> {
    cat(c.inputs.iter().flat_map(pat_exprs).collect(), return_exprs(&c.output))
}

} // verus!
