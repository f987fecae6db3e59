//! The parsed shape of a handler: the ordered parameter list, asyncness and
//! return type that the synthesizer classifies. Source text is turned into
//! this shape by `syn`, behind the one trusted parsing boundary of the
//! crate; everything downstream of [`parse_fn_source`] and
//! [`parse_impl_source`] is verified against the names [`parsed_fn_of`] and
//! [`parsed_impl_of`] given to their results. Both wrappers pin
//! proc-macro2's fallback printer first, so the printed texts do not depend
//! on which backend the process happens to carry.

use vstd::prelude::*;

verus! {

/// One declared parameter of a handler signature.
#[derive(Debug, Clone, PartialEq, Eq)]
pub struct ParamDecl {
    /// Whether this parameter is a `self` receiver.
    pub receiver: bool,
    /// Whether the parameter's type is a reference.
    pub by_ref: bool,
    /// Whether the binding pattern is a plain identifier pattern (possibly
    /// `mut` or `ref`, without a subpattern).
    pub ident_binding: bool,
    /// Whether the declared type is a path type (a named type); a tuple,
    /// slice or pointer type is not.
    pub path_type: bool,
    /// The binding pattern's text, e.g. `count` or `mut count`.
    pub binding: Vec<u8>,
    /// The type's text; for a reference parameter, the referent's text.
    pub ty: Vec<u8>,
}

/// Mathematical model of [`ParamDecl`].
pub ghost struct ParamDeclModel {
    pub receiver: bool,
    pub by_ref: bool,
    pub ident_binding: bool,
    pub path_type: bool,
    pub binding: Seq<u8>,
    pub ty: Seq<u8>,
}

impl View for ParamDecl {
    type V = ParamDeclModel;

    open spec fn view(&self) -> ParamDeclModel {
        ParamDeclModel {
            receiver: self.receiver,
            by_ref: self.by_ref,
            ident_binding: self.ident_binding,
            path_type: self.path_type,
            binding: self.binding@,
            ty: self.ty@,
        }
    }
}

impl DeepView for ParamDecl {
    type V = ParamDeclModel;

    open spec fn deep_view(&self) -> ParamDeclModel {
        self.view()
    }
}

/// A handler function's parsed signature: its name, asyncness, parameters
/// in declaration order, and return type, all as plain values.
#[derive(Debug, Clone, PartialEq, Eq)]
pub struct ParsedFn {
    /// The function's name.
    pub name: Vec<u8>,
    /// Whether the function is declared asynchronous.
    pub is_async: bool,
    /// The declared return type's text, if one is declared.
    pub output_ty: Option<Vec<u8>>,
    /// The parameters, in declaration order.
    pub params: Vec<ParamDecl>,
}

/// Mathematical model of [`ParsedFn`].
pub ghost struct ParsedFnModel {
    pub name: Seq<u8>,
    pub is_async: bool,
    pub output_ty: Option<Seq<u8>>,
    pub params: Seq<ParamDeclModel>,
}

impl View for ParsedFn {
    type V = ParsedFnModel;

    open spec fn view(&self) -> ParsedFnModel {
        ParsedFnModel {
            name: self.name@,
            is_async: self.is_async,
            output_ty: self.output_ty.deep_view(),
            params: self.params.deep_view(),
        }
    }
}

impl DeepView for ParsedFn {
    type V = ParsedFnModel;

    open spec fn deep_view(&self) -> ParsedFnModel {
        self.view()
    }
}

/// The function item, if any, that a piece of source text parses to. Left
/// uninterpreted: parsing Rust source takes pages to state, but — with the
/// fallback printer pinned — depends on the text alone, so the result only
/// carries this name.
pub uninterp spec fn parsed_fn_of(src: Seq<char>) -> Option<ParsedFnModel>;

/// The inherent-impl block, if any, that a piece of source text parses to:
/// the self type's text and the methods' signatures. Left uninterpreted for
/// the same reason as [`parsed_fn_of`].
pub uninterp spec fn parsed_impl_of(src: Seq<char>) -> Option<(Seq<u8>, Seq<ParsedFnModel>)>;

/// Declares syn's parsed function-argument type, so the conversion helpers
/// below can take it; opaque to the verifier.
#[verifier::external_type_specification]
#[verifier::external_body]
pub struct ExFnArg(syn::FnArg);

/// Declares syn's parsed type, so the conversion helpers below can take it;
/// opaque to the verifier.
#[verifier::external_type_specification]
#[verifier::external_body]
pub struct ExSynType(syn::Type);

/// Declares syn's parsed function signature, shared by both parse wrappers;
/// opaque to the verifier.
#[verifier::external_type_specification]
#[verifier::external_body]
pub struct ExSignature(syn::Signature);

/// Declares syn's parsed typed-argument node, so the conversion helpers
/// below can take it; opaque to the verifier.
#[verifier::external_type_specification]
#[verifier::external_body]
pub struct ExPatType(syn::PatType);

/// Relies on quote::ToTokens and proc_macro2::TokenStream::to_string:
/// prints a parsed type back to source text. Called only from the parsing
/// wrappers below.
#[verifier::external_body]
fn type_text(t: &syn::Type) -> Vec<u8> {
    quote::ToTokens::to_token_stream(t).to_string().into_bytes()
}

/// Relies on syn::Type and syn::TypeReference: tells the type's shape apart
/// — a reference (reporting the referent's text) or a path type — moving
/// fields only. Called only from the parse wrappers' bodies.
#[verifier::external_body]
fn type_facts(t: &syn::Type) -> (bool, bool, Vec<u8>) {
    match t {
        syn::Type::Reference(r) => (true, false, type_text(&r.elem)),
        syn::Type::Path(_) => (false, true, type_text(t)),
        _ => (false, false, type_text(t)),
    }
}

/// Relies on syn::PatType and syn::Pat: converts one typed argument into
/// the plain values the classifier reads, telling the pattern's variants
/// apart. Called only from the parse wrappers' bodies.
#[verifier::external_body]
fn typed_param_of(pt: &syn::PatType) -> ParamDecl {
    let (by_ref, path_type, ty) = type_facts(&pt.ty);
    let ident_binding = match &*pt.pat {
        syn::Pat::Ident(pi) => pi.subpat.is_none(),
        _ => false,
    };
    let binding = quote::ToTokens::to_token_stream(&pt.pat).to_string().into_bytes();
    ParamDecl { receiver: false, by_ref, ident_binding, path_type, binding, ty }
}

/// Relies on syn::FnArg: tells a receiver from a typed argument, one arm
/// each. Called only from the parse wrappers' bodies.
#[verifier::external_body]
fn param_decl_of(arg: &syn::FnArg) -> ParamDecl {
    match arg {
        syn::FnArg::Receiver(_) => ParamDecl {
            receiver: true, by_ref: false, ident_binding: false, path_type: false,
            binding: Vec::new(), ty: Vec::new(),
        },
        syn::FnArg::Typed(pt) => typed_param_of(pt),
    }
}

/// Relies on syn::Signature: converts one parsed signature into plain
/// values, moving its fields. Called only from the parse wrappers' bodies.
#[verifier::external_body]
fn parsed_of_sig(sig: &syn::Signature) -> ParsedFn {
    ParsedFn {
        name: sig.ident.to_string().into_bytes(),
        is_async: sig.asyncness.is_some(),
        output_ty: match &sig.output {
            syn::ReturnType::Default => None,
            syn::ReturnType::Type(_, t) => Some(type_text(t)),
        },
        params: sig.inputs.iter().map(param_decl_of).collect(),
    }
}

/// Relies on syn::parse_str::<syn::ItemFn> and proc_macro2::fallback::force:
/// with the fallback printer pinned, whether the text parses as a function
/// item, and what signature it carries, depend on the text alone, so the
/// result is exactly the value named by [`parsed_fn_of`].
#[verifier::external_body]
pub fn parse_fn_source(src: &str) -> (r: Option<ParsedFn>)
    ensures
        r.deep_view() == parsed_fn_of(src@),
{
    proc_macro2::fallback::force();
    match syn::parse_str::<syn::ItemFn>(src) {
        Err(_) => None,
        Ok(item) => Some(parsed_of_sig(&item.sig)),
    }
}

/// Relies on syn::parse_str::<syn::ItemImpl>, syn::ImplItem and
/// proc_macro2::fallback::force: with the fallback printer pinned, whether
/// the text parses as an impl block, its self type's text, and its methods'
/// signatures depend on the text alone, so the result is exactly the value
/// named by [`parsed_impl_of`].
#[verifier::external_body]
pub fn parse_impl_source(src: &str) -> (r: Option<(Vec<u8>, Vec<ParsedFn>)>)
    ensures
        r.deep_view() == parsed_impl_of(src@),
{
    proc_macro2::fallback::force();
    match syn::parse_str::<syn::ItemImpl>(src) {
        Err(_) => None,
        Ok(item) => Some((
            quote::ToTokens::to_token_stream(&item.self_ty).to_string().into_bytes(),
            item.items.iter().filter_map(|it| match it {
                syn::ImplItem::Fn(m) => Some(parsed_of_sig(&m.sig)),
                _ => None,
            }).collect(),
        )),
    }
}

} // verus!
