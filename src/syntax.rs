//! The declarations of a parsed source file, as plain values: kind,
//! visibility, name, and the line span of the declaration and of its body.
//! Parsing itself is done by `syn`.

use vstd::prelude::*;
use quote::ToTokens;
use syn::spanned::Spanned;

verus! {

/// Inclusive 1-based line numbers of a piece of source text.
#[derive(Clone, Copy, Debug, PartialEq, Eq)]
pub struct LineSpan {
    pub start_line: usize,
    pub end_line: usize,
}

/// The visibility of a declaration.
#[derive(Clone, Copy, Debug, PartialEq, Eq, Structural)]
pub enum Vis {
    /// `pub`
    Public,
    /// `pub(crate)`, `pub(super)`, `pub(self)` or `pub(in path)`
    Restricted,
    /// No visibility written: private to the module.
    Inherited,
}

/// Only a bare `pub` makes a declaration public.
pub fn is_public(vis: Vis) -> (r: bool)
    ensures
        r == (vis == Vis::Public),
{
    matches!(vis, Vis::Public)
}

/// A function or method member of a trait or an impl block.
#[derive(Debug)]
pub struct Method {
    pub ident: String,
    /// The whole method, its documentation comments included.
    pub span: LineSpan,
    /// Its body; `None` for a trait method without a default body.
    pub body: Option<LineSpan>,
}

/// A member of a trait or an impl block.
#[derive(Debug)]
pub enum Member {
    Method(Method),
    Other,
}

/// A top-level or module-level declaration.
#[derive(Debug)]
pub enum Decl {
    /// A module; `items` is `None` for a module declared without a body.
    Namespace { vis: Vis, ident: String, span: LineSpan, items: Option<Vec<Decl>> },
    Function { vis: Vis, ident: String, span: LineSpan, body: LineSpan },
    TraitDefinition { vis: Vis, ident: String, span: LineSpan, members: Vec<Member> },
    /// An impl block; `self_ty` is the implementing type as source text.
    ImplementationBlock { self_ty: String, span: LineSpan, members: Vec<Member> },
    MacroDefinition { span: LineSpan },
    Other { span: LineSpan },
}

impl Decl {
    pub open spec fn spec_span(&self) -> LineSpan {
        match self {
            Decl::Namespace { span, .. } => *span,
            Decl::Function { span, .. } => *span,
            Decl::TraitDefinition { span, .. } => *span,
            Decl::ImplementationBlock { span, .. } => *span,
            Decl::MacroDefinition { span } => *span,
            Decl::Other { span } => *span,
        }
    }

    /// The lines the whole declaration occupies.
    #[verifier::when_used_as_spec(spec_span)]
    pub fn span(&self) -> (r: LineSpan)
        ensures
            r == self.spec_span(),
    {
        match self {
            Decl::Namespace { span, .. } => *span,
            Decl::Function { span, .. } => *span,
            Decl::TraitDefinition { span, .. } => *span,
            Decl::ImplementationBlock { span, .. } => *span,
            Decl::MacroDefinition { span } => *span,
            Decl::Other { span } => *span,
        }
    }
}

#[verifier::external_type_specification]
#[verifier::external_body]
pub struct ExItem(syn::Item);

#[verifier::external_type_specification]
#[verifier::external_body]
pub struct ExItemMod(syn::ItemMod);

#[verifier::external_type_specification]
#[verifier::external_body]
pub struct ExItemFn(syn::ItemFn);

#[verifier::external_type_specification]
#[verifier::external_body]
pub struct ExItemTrait(syn::ItemTrait);

#[verifier::external_type_specification]
#[verifier::external_body]
pub struct ExItemImpl(syn::ItemImpl);

#[verifier::external_type_specification]
#[verifier::external_body]
pub struct ExTraitItem(syn::TraitItem);

#[verifier::external_type_specification]
#[verifier::external_body]
pub struct ExImplItem(syn::ImplItem);

#[verifier::external_type_specification]
#[verifier::external_body]
pub struct ExVisibility(syn::Visibility);

#[verifier::external_type_specification]
#[verifier::external_body]
pub struct ExSpan(proc_macro2::Span);

/// The declarations that `syn` finds in a source text, or `None` where the
/// text does not parse as a source file.
pub uninterp spec fn syntax_of(text: Seq<char>) -> Option<Vec<Decl>>;

/// Relies on syn::parse_file, which parses a whole source file; what it
/// returns depends on the text alone.
#[verifier::external_body]
pub(crate) fn parse_declarations(text: &str) -> (r: Option<Vec<Decl>>)
    ensures
        r == syntax_of(text@),
{
    syn::parse_file(text).ok().map(|file| decls_of(&file.items))
}

/// Relies on proc_macro2::Span::start and Span::end (with the
/// `span-locations` feature): 1-based line numbers within the parsed text.
#[verifier::external_body]
fn line_span(span: proc_macro2::Span) -> LineSpan {
    LineSpan { start_line: span.start().line, end_line: span.end().line }
}

/// Relies on syn::Visibility: one variant of it for each variant of `Vis`.
#[verifier::external_body]
fn vis_of(vis: &syn::Visibility) -> Vis {
    match vis {
        syn::Visibility::Public(_) => Vis::Public,
        syn::Visibility::Restricted(_) => Vis::Restricted,
        syn::Visibility::Inherited => Vis::Inherited,
    }
}

/// Relies on syn's item types; one declaration per item, in order.
#[verifier::external_body]
fn decls_of(items: &Vec<syn::Item>) -> Vec<Decl> {
    items.iter().map(decl_of).collect()
}

/// Relies on syn::Item and syn::spanned::Spanned for the item's lines.
#[verifier::external_body]
fn decl_of(item: &syn::Item) -> Decl {
    let span = line_span(item.span());
    match item {
        syn::Item::Mod(i) => mod_decl(i, span),
        syn::Item::Fn(i) => fn_decl(i, span),
        syn::Item::Trait(i) => trait_decl(i, span),
        syn::Item::Impl(i) => impl_decl(i, span),
        syn::Item::Macro(_) => Decl::MacroDefinition { span },
        _ => Decl::Other { span },
    }
}

/// Relies on syn::ItemMod: its visibility, name and, if it has a body, its
/// items.
#[verifier::external_body]
fn mod_decl(i: &syn::ItemMod, span: LineSpan) -> Decl {
    Decl::Namespace {
        vis: vis_of(&i.vis),
        ident: i.ident.to_string(),
        span,
        items: i.content.as_ref().map(|c| decls_of(&c.1)),
    }
}

/// Relies on syn::ItemFn: its visibility, name and the lines of its body.
#[verifier::external_body]
fn fn_decl(i: &syn::ItemFn, span: LineSpan) -> Decl {
    Decl::Function {
        vis: vis_of(&i.vis),
        ident: i.sig.ident.to_string(),
        span,
        body: line_span(i.block.span()),
    }
}

/// Relies on syn::ItemTrait: its visibility, name and members.
#[verifier::external_body]
fn trait_decl(i: &syn::ItemTrait, span: LineSpan) -> Decl {
    Decl::TraitDefinition {
        vis: vis_of(&i.vis),
        ident: i.ident.to_string(),
        span,
        members: i.items.iter().map(trait_member).collect(),
    }
}

/// Relies on syn::ItemImpl, and on quote::ToTokens to print the
/// implementing type back as source text.
#[verifier::external_body]
fn impl_decl(i: &syn::ItemImpl, span: LineSpan) -> Decl {
    Decl::ImplementationBlock {
        self_ty: i.self_ty.to_token_stream().to_string(),
        span,
        members: i.items.iter().map(impl_member).collect(),
    }
}

/// Relies on syn::TraitItem: a method, with its default body if it has one.
#[verifier::external_body]
fn trait_member(m: &syn::TraitItem) -> Member {
    match m {
        syn::TraitItem::Fn(m) => Member::Method(Method {
            ident: m.sig.ident.to_string(),
            span: line_span(m.span()),
            body: m.default.as_ref().map(|b| line_span(b.span())),
        }),
        _ => Member::Other,
    }
}

/// Relies on syn::ImplItem: a method and its body.
#[verifier::external_body]
fn impl_member(m: &syn::ImplItem) -> Member {
    match m {
        syn::ImplItem::Fn(m) => Member::Method(Method {
            ident: m.sig.ident.to_string(),
            span: line_span(m.span()),
            body: Some(line_span(m.block.span())),
        }),
        _ => Member::Other,
    }
}

} // verus!
