//! The interface that the generator reads: a trait, its methods and their
//! versions, as plain values.
//!
//! Names are held as text, because the generator reads them. Types and
//! attributes are held as token streams, because the generator only copies them.
use vstd::prelude::*;
use crate::stream::{stream_tokens, TokenView};

verus! {

/// An attribute of a method, such as `#[doc = "..."]` or `#[version(2)]`.
#[derive(Clone, Debug)]
pub struct Attribute {
    /// The attribute's path as written, `doc` or `version`.
    pub path: String,
    /// The whole attribute as tokens, from `#` to the closing bracket.
    pub tokens: proc_macro2::TokenStream,
}

pub struct AttributeView {
    pub path: Seq<char>,
    pub tokens: Seq<TokenView>,
}

impl View for Attribute {
    type V = AttributeView;

    open spec fn view(&self) -> AttributeView {
        AttributeView { path: self.path@, tokens: stream_tokens(self.tokens) }
    }
}

impl DeepView for Attribute {
    type V = AttributeView;

    open spec fn deep_view(&self) -> AttributeView {
        self@
    }
}

/// A declared argument with its name and its type.
#[derive(Clone, Debug)]
pub struct TypedArgument {
    pub name: String,
    /// The argument's type as tokens.
    pub ty: proc_macro2::TokenStream,
}

pub struct TypedArgumentView {
    pub name: Seq<char>,
    pub ty: Seq<TokenView>,
}

impl View for TypedArgument {
    type V = TypedArgumentView;

    open spec fn view(&self) -> TypedArgumentView {
        TypedArgumentView { name: self.name@, ty: stream_tokens(self.ty) }
    }
}

impl DeepView for TypedArgument {
    type V = TypedArgumentView;

    open spec fn deep_view(&self) -> TypedArgumentView {
        self@
    }
}

/// One input of a method: the receiver (`self` in any form), or a declared
/// argument.
#[derive(Clone, Debug)]
pub enum Argument {
    Receiver,
    Typed(TypedArgument),
}

pub enum ArgumentView {
    Receiver,
    Typed(TypedArgumentView),
}

impl View for Argument {
    type V = ArgumentView;

    open spec fn view(&self) -> ArgumentView {
        match self {
            Argument::Receiver => ArgumentView::Receiver,
            Argument::Typed(a) => ArgumentView::Typed(a@),
        }
    }
}

impl DeepView for Argument {
    type V = ArgumentView;

    open spec fn deep_view(&self) -> ArgumentView {
        self@
    }
}

/// The signature of a method.
#[derive(Clone, Debug)]
pub struct Signature {
    /// The method's name.
    pub ident: String,
    /// The inputs in the order of their declaration.
    pub inputs: Vec<Argument>,
    /// The tokens of the return type; `None` where the method declares none.
    pub output: Option<proc_macro2::TokenStream>,
}

pub struct SignatureView {
    pub ident: Seq<char>,
    pub inputs: Seq<ArgumentView>,
    pub output: Option<Seq<TokenView>>,
}

/// What an optional stream holds.
pub open spec fn optional_tokens(stream: Option<proc_macro2::TokenStream>) -> Option<
    Seq<TokenView>,
> {
    match stream {
        Some(s) => Some(stream_tokens(s)),
        None => None,
    }
}

impl View for Signature {
    type V = SignatureView;

    open spec fn view(&self) -> SignatureView {
        SignatureView {
            ident: self.ident@,
            inputs: self.inputs.deep_view(),
            output: optional_tokens(self.output),
        }
    }
}

/// A method of the interface.
#[derive(Clone, Debug)]
pub struct Method {
    pub attrs: Vec<Attribute>,
    pub sig: Signature,
    /// The place of the declaration; every token emitted for the method
    /// carries it.
    pub span: proc_macro2::Span,
}

pub struct MethodView {
    pub attrs: Seq<AttributeView>,
    pub sig: SignatureView,
    pub span: proc_macro2::Span,
}

impl View for Method {
    type V = MethodView;

    open spec fn view(&self) -> MethodView {
        MethodView { attrs: self.attrs.deep_view(), sig: self.sig@, span: self.span }
    }
}

/// A method together with the version that its declaration carries.
#[derive(Clone, Debug)]
pub struct VersionedMethod {
    pub version: u32,
    pub method: Method,
}

pub struct VersionedMethodView {
    pub version: u32,
    pub method: MethodView,
}

impl View for VersionedMethod {
    type V = VersionedMethodView;

    open spec fn view(&self) -> VersionedMethodView {
        VersionedMethodView { version: self.version, method: self.method@ }
    }
}

impl DeepView for VersionedMethod {
    type V = VersionedMethodView;

    open spec fn deep_view(&self) -> VersionedMethodView {
        self@
    }
}

/// The parsed trait.
#[derive(Clone, Debug)]
pub struct InterfaceModel {
    /// The trait's name.
    pub ident: String,
    /// The path by which emitted code reaches the runtime support library.
    pub crate_path: proc_macro2::TokenStream,
    /// Every declared method with its version. The entries of one name stand in
    /// the order of their versions.
    pub methods: Vec<VersionedMethod>,
}

pub struct InterfaceModelView {
    pub ident: Seq<char>,
    pub crate_path: Seq<TokenView>,
    pub methods: Seq<VersionedMethodView>,
}

impl View for InterfaceModel {
    type V = InterfaceModelView;

    open spec fn view(&self) -> InterfaceModelView {
        InterfaceModelView {
            ident: self.ident@,
            crate_path: stream_tokens(self.crate_path),
            methods: self.methods.deep_view(),
        }
    }
}

} // verus!
