//! The functions that the generator emits, as values, and what is emitted for
//! a method.
use vstd::prelude::*;
use crate::error::{ErrorKind, GenerationError};
use crate::interface::{argument_names, takes_receiver, typed_arguments};
use crate::model::{
    Attribute, AttributeView, MethodView, TypedArgument, TypedArgumentView, optional_tokens,
};
use crate::names::{host_function_name, is_ident, is_synthetic_name, versioned_name};
use crate::stream::TokenView;

verus! {

/// The build that an emitted function is compiled in. The two exclude each
/// other: the host build has the feature `std`, the guest build has it not.
#[derive(Clone, Copy, Debug, PartialEq, Eq, Structural)]
pub enum BuildFlag {
    Host,
    Guest,
}

/// How a versioned host function reaches the trait's method.
#[derive(Clone, Copy, Debug, PartialEq, Eq, Structural)]
pub enum Dispatch {
    /// The method takes a receiver: the call is made inside
    /// `with_externalities`, on the externalities that it hands in. Outside of
    /// such an environment the call panics.
    WithExternalities,
    /// The method takes a receiver and the interface is wasm-only: the call is
    /// made on the function context that the function was given.
    OnFunctionContext,
    /// The method takes no receiver: the call goes to the trait as implemented
    /// for `&mut dyn Externalities`.
    ForExternalities,
    /// The method takes no receiver and the interface is wasm-only: the call
    /// goes to the trait as implemented for `&mut dyn FunctionContext`.
    ForFunctionContext,
}

/// The body of an emitted function.
#[derive(Clone, Debug)]
pub enum Body {
    /// `callee(arguments..)`: the bare function of the host hands its arguments
    /// to the latest version.
    CallVersion { callee: String, arguments: Vec<String> },
    /// `host_function.get()(arguments..)`: the bare function of the guest calls
    /// the exchangeable host function.
    CallHostFunction { host_function: String, arguments: Vec<String> },
    /// A tracing span named `span_name` is entered, then the method `method` of
    /// the trait is called.
    CallTrait {
        span_name: String,
        trait_name: String,
        method: String,
        arguments: Vec<String>,
        dispatch: Dispatch,
    },
}

pub enum BodyView {
    CallVersion { callee: Seq<char>, arguments: Seq<Seq<char>> },
    CallHostFunction { host_function: Seq<char>, arguments: Seq<Seq<char>> },
    CallTrait {
        span_name: Seq<char>,
        trait_name: Seq<char>,
        method: Seq<char>,
        arguments: Seq<Seq<char>>,
        dispatch: Dispatch,
    },
}

impl View for Body {
    type V = BodyView;

    open spec fn view(&self) -> BodyView {
        match self {
            Body::CallVersion { callee, arguments } => BodyView::CallVersion {
                callee: callee@,
                arguments: arguments.deep_view(),
            },
            Body::CallHostFunction { host_function, arguments } => BodyView::CallHostFunction {
                host_function: host_function@,
                arguments: arguments.deep_view(),
            },
            Body::CallTrait {
                span_name,
                trait_name,
                method,
                arguments,
                dispatch,
            } => BodyView::CallTrait {
                span_name: span_name@,
                trait_name: trait_name@,
                method: method@,
                arguments: arguments.deep_view(),
                dispatch: *dispatch,
            },
        }
    }
}

/// One emitted function.
#[derive(Clone, Debug)]
pub struct EmittedFunction {
    /// The build that the function is compiled in.
    pub build: BuildFlag,
    /// Whether the function is `pub`.
    pub public: bool,
    /// The attributes, copied from the method.
    pub attrs: Vec<Attribute>,
    pub name: String,
    /// The declared arguments, copied from the method.
    pub arguments: Vec<TypedArgument>,
    /// Whether the function context follows the declared arguments as one
    /// more parameter.
    pub context_parameter: bool,
    /// The tokens of the return type, copied from the method.
    pub output: Option<proc_macro2::TokenStream>,
    pub body: Body,
    /// The place of the method that the function is emitted for.
    pub span: proc_macro2::Span,
}

pub struct EmittedFunctionView {
    pub build: BuildFlag,
    pub public: bool,
    pub attrs: Seq<AttributeView>,
    pub name: Seq<char>,
    pub arguments: Seq<TypedArgumentView>,
    pub context_parameter: bool,
    pub output: Option<Seq<TokenView>>,
    pub body: BodyView,
    pub span: proc_macro2::Span,
}

impl View for EmittedFunction {
    type V = EmittedFunctionView;

    open spec fn view(&self) -> EmittedFunctionView {
        EmittedFunctionView {
            build: self.build,
            public: self.public,
            attrs: self.attrs.deep_view(),
            name: self.name@,
            arguments: self.arguments.deep_view(),
            context_parameter: self.context_parameter,
            output: optional_tokens(self.output),
            body: self.body@,
            span: self.span,
        }
    }
}

impl DeepView for EmittedFunction {
    type V = EmittedFunctionView;

    open spec fn deep_view(&self) -> EmittedFunctionView {
        self@
    }
}

/// What the result of an emitter of one function holds.
pub open spec fn function_result(result: Result<EmittedFunction, GenerationError>) -> Result<
    EmittedFunctionView,
    GenerationError,
> {
    match result {
        Ok(function) => Ok(function@),
        Err(error) => Err(error),
    }
}

/// What the result of an emitter of several functions holds.
pub open spec fn functions_result(result: Result<Vec<EmittedFunction>, GenerationError>) -> Result<
    Seq<EmittedFunctionView>,
    GenerationError,
> {
    match result {
        Ok(functions) => Ok(functions.deep_view()),
        Err(error) => Err(error),
    }
}

/// The path of the attribute that carries a method's version. The generator
/// reads it and does not pass it on.
pub open spec fn version_path() -> Seq<char> {
    seq!['v', 'e', 'r', 's', 'i', 'o', 'n']
}

/// The attributes that are passed on to the emitted functions: all but those
/// whose path is `version`, in their order.
pub open spec fn forwarded_attributes(attrs: Seq<AttributeView>) -> Seq<AttributeView>
    decreases attrs.len(),
{
    if attrs.len() == 0 {
        Seq::empty()
    } else if attrs.last().path == version_path() {
        forwarded_attributes(attrs.drop_last())
    } else {
        forwarded_attributes(attrs.drop_last()).push(attrs.last())
    }
}

/// A name that an argument may have in emitted code.
pub open spec fn is_argument_name(name: Seq<char>) -> bool {
    is_ident(name) && !is_synthetic_name(name)
}

/// Every argument has a name that can be used in emitted code.
pub open spec fn are_argument_names(arguments: Seq<TypedArgumentView>) -> bool {
    forall|i: int| 0 <= i < arguments.len() ==> is_argument_name((#[trigger] arguments[i]).name)
}

/// Why nothing can be emitted for a method: its name is no identifier, or
/// else one of its arguments has a name that cannot be used.
pub open spec fn method_error(method: MethodView) -> Option<ErrorKind> {
    if !is_ident(method.sig.ident) {
        Some(ErrorKind::MethodName)
    } else if !are_argument_names(typed_arguments(method.sig.inputs)) {
        Some(ErrorKind::ArgumentName)
    } else {
        None
    }
}

/// Why no versioned host function can be emitted for a method of the trait
/// `trait_name`: what is wrong with the method, or else that the trait's name
/// is no identifier. Either is reported at the method.
pub open spec fn host_function_error(trait_name: Seq<char>, method: MethodView) -> Option<
    ErrorKind,
> {
    match method_error(method) {
        Some(kind) => Some(kind),
        None => if is_ident(trait_name) {
            None
        } else {
            Some(ErrorKind::TraitName)
        },
    }
}

/// The result of an emitter that fails where `error` names a kind, at the
/// place of the method, and gives `value` else.
pub open spec fn emitted_or<T>(error: Option<ErrorKind>, method: MethodView, value: T) -> Result<
    T,
    GenerationError,
> {
    match error {
        Some(kind) => Err(GenerationError { kind, span: method.span }),
        None => Ok(value),
    }
}

/// The bare function of the host build: public, named as the method, with the
/// method's arguments and return type, handing the arguments to the method's
/// implementation at its latest version.
pub open spec fn host_latest_function(
    method: MethodView,
    latest_version: u32,
) -> EmittedFunctionView {
    EmittedFunctionView {
        build: BuildFlag::Host,
        public: true,
        attrs: forwarded_attributes(method.attrs),
        name: method.sig.ident,
        arguments: typed_arguments(method.sig.inputs),
        context_parameter: false,
        output: method.sig.output,
        body: BodyView::CallVersion {
            callee: versioned_name(method.sig.ident, latest_version),
            arguments: argument_names(method.sig.inputs),
        },
        span: method.span,
    }
}

/// The bare function of the guest build: public, named as the method, with
/// the method's arguments and return type, handing the arguments to the
/// method's exchangeable host function.
pub open spec fn guest_function(method: MethodView) -> EmittedFunctionView {
    EmittedFunctionView {
        build: BuildFlag::Guest,
        public: true,
        attrs: forwarded_attributes(method.attrs),
        name: method.sig.ident,
        arguments: typed_arguments(method.sig.inputs),
        context_parameter: false,
        output: method.sig.output,
        body: BodyView::CallHostFunction {
            host_function: host_function_name(method.sig.ident),
            arguments: argument_names(method.sig.inputs),
        },
        span: method.span,
    }
}

/// How the trait's method is reached, by whether the method takes a receiver
/// and whether the interface is wasm-only.
pub open spec fn dispatch_of(receiver: bool, wasm_only: bool) -> Dispatch {
    if receiver {
        if wasm_only {
            Dispatch::OnFunctionContext
        } else {
            Dispatch::WithExternalities
        }
    } else {
        if wasm_only {
            Dispatch::ForFunctionContext
        } else {
            Dispatch::ForExternalities
        }
    }
}

/// The body of a versioned host function: the span carries the function's
/// name, and the call goes to the method of that name of the trait.
pub open spec fn trait_call(
    trait_name: Seq<char>,
    method: MethodView,
    version: u32,
    wasm_only: bool,
) -> BodyView {
    BodyView::CallTrait {
        span_name: versioned_name(method.sig.ident, version),
        trait_name,
        method: versioned_name(method.sig.ident, version),
        arguments: argument_names(method.sig.inputs),
        dispatch: dispatch_of(takes_receiver(method.sig), wasm_only),
    }
}

/// The host function of a method at one version: not public, named by method
/// and version, with the method's arguments and return type, and with the
/// function context as a last parameter where the interface is wasm-only.
pub open spec fn host_versioned_function(
    trait_name: Seq<char>,
    method: MethodView,
    version: u32,
    wasm_only: bool,
) -> EmittedFunctionView {
    EmittedFunctionView {
        build: BuildFlag::Host,
        public: false,
        attrs: forwarded_attributes(method.attrs),
        name: versioned_name(method.sig.ident, version),
        arguments: typed_arguments(method.sig.inputs),
        context_parameter: wasm_only,
        output: method.sig.output,
        body: trait_call(trait_name, method, version, wasm_only),
        span: method.span,
    }
}

/// The bare functions of a method: that of the host, unless the interface is
/// wasm-only, and then that of the guest.
pub open spec fn bare_functions(method: MethodView, latest_version: u32, wasm_only: bool) -> Seq<
    EmittedFunctionView,
> {
    if wasm_only {
        seq![guest_function(method)]
    } else {
        seq![host_latest_function(method, latest_version), guest_function(method)]
    }
}

} // verus!
