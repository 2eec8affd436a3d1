//! The tokens of an emitted function.
//!
//! Every token that the generator makes itself carries the span of the method
//! that the function is emitted for. The tokens that are copied from the method
//! (attributes, types, the path of the support library) stay as they are.
use vstd::prelude::*;
use crate::emitted::{BodyView, BuildFlag, Dispatch, EmittedFunctionView};
use crate::model::{AttributeView, TypedArgumentView};
use crate::names::{externalities_name, function_context_name, is_ident};
use crate::stream::{Delimiter, Spacing, TokenView};

verus! {

/// An identifier or keyword.
pub open spec fn word(span: proc_macro2::Span, text: Seq<char>) -> TokenView {
    TokenView::Ident(text, span)
}

/// A punctuation character that ends an operator.
pub open spec fn alone(span: proc_macro2::Span, ch: char) -> TokenView {
    TokenView::Punct(ch, Spacing::Alone, span)
}

/// A punctuation character that is joined with the one after it.
pub open spec fn joint(span: proc_macro2::Span, ch: char) -> TokenView {
    TokenView::Punct(ch, Spacing::Joint, span)
}

/// A string literal with the given value.
pub open spec fn string(span: proc_macro2::Span, value: Seq<char>) -> TokenView {
    TokenView::StringLiteral(value, span)
}

/// `( inner )`
pub open spec fn parenthesized(span: proc_macro2::Span, inner: Seq<TokenView>) -> TokenView {
    TokenView::Group(Delimiter::Parenthesis, inner, span)
}

/// `::`
pub open spec fn path_separator(span: proc_macro2::Span) -> Seq<TokenView> {
    seq![joint(span, ':'), alone(span, ':')]
}

/// `feature = "std"`
pub open spec fn feature_tokens(span: proc_macro2::Span) -> Seq<TokenView> {
    seq![word(span, "feature"@), alone(span, '='), string(span, "std"@)]
}

/// The condition of a build: `#[cfg(feature = "std")]` for the host,
/// `#[cfg(not(feature = "std"))]` for the guest.
pub open spec fn condition_tokens(span: proc_macro2::Span, build: BuildFlag) -> Seq<TokenView> {
    let condition = match build {
        BuildFlag::Host => feature_tokens(span),
        BuildFlag::Guest => seq![word(span, "not"@), parenthesized(span, feature_tokens(span))],
    };
    seq![
        alone(span, '#'),
        TokenView::Group(
            Delimiter::Bracket,
            seq![word(span, "cfg"@), parenthesized(span, condition)],
            span,
        ),
    ]
}

/// The attributes, one after the other, each as it was written.
pub open spec fn attribute_tokens(attrs: Seq<AttributeView>) -> Seq<TokenView>
    decreases attrs.len(),
{
    if attrs.len() == 0 {
        Seq::empty()
    } else {
        attribute_tokens(attrs.drop_last()) + attrs.last().tokens
    }
}

/// The declared parameters: `name: type,` for each argument.
pub open spec fn parameter_tokens(
    span: proc_macro2::Span,
    arguments: Seq<TypedArgumentView>,
) -> Seq<TokenView>
    decreases arguments.len(),
{
    if arguments.len() == 0 {
        Seq::empty()
    } else {
        parameter_tokens(span, arguments.drop_last()) + seq![
            word(span, arguments.last().name),
            alone(span, ':'),
        ] + arguments.last().ty + seq![alone(span, ',')]
    }
}

/// `crate_path::Externalities`
pub open spec fn externalities_path(
    span: proc_macro2::Span,
    crate_path: Seq<TokenView>,
) -> Seq<TokenView> {
    crate_path + path_separator(span) + seq![word(span, "Externalities"@)]
}

/// `crate_path::wasm_interface::FunctionContext`
pub open spec fn function_context_path(
    span: proc_macro2::Span,
    crate_path: Seq<TokenView>,
) -> Seq<TokenView> {
    crate_path + path_separator(span) + seq![word(span, "wasm_interface"@)] + path_separator(
        span,
    ) + seq![word(span, "FunctionContext"@)]
}

/// The parameter that hands in the function context:
/// `mut __function_context__: &mut dyn crate_path::wasm_interface::FunctionContext,`
pub open spec fn context_parameter_tokens(
    span: proc_macro2::Span,
    crate_path: Seq<TokenView>,
) -> Seq<TokenView> {
    seq![
        word(span, "mut"@),
        word(span, function_context_name()),
        alone(span, ':'),
        alone(span, '&'),
        word(span, "mut"@),
        word(span, "dyn"@),
    ] + function_context_path(span, crate_path) + seq![alone(span, ',')]
}

/// The arguments of a call: `name,` for each name.
pub open spec fn call_argument_tokens(span: proc_macro2::Span, names: Seq<Seq<char>>) -> Seq<
    TokenView,
>
    decreases names.len(),
{
    if names.len() == 0 {
        Seq::empty()
    } else {
        call_argument_tokens(span, names.drop_last()) + seq![
            word(span, names.last()),
            alone(span, ','),
        ]
    }
}

/// The receiver of a call on a capability: `&mut name,`
pub open spec fn receiver_tokens(span: proc_macro2::Span, name: Seq<char>) -> Seq<TokenView> {
    seq![alone(span, '&'), word(span, "mut"@), word(span, name), alone(span, ',')]
}

/// The message of the panic when a host function is called outside of an
/// environment that provides externalities.
pub open spec fn missing_environment_message(method: Seq<char>) -> Seq<char> {
    "`"@ + method + "` called outside of an Externalities-provided environment."@
}

/// `crate_path::tracing::enter_span!("span_name");`
pub open spec fn span_tokens(
    span: proc_macro2::Span,
    span_name: Seq<char>,
    crate_path: Seq<TokenView>,
) -> Seq<TokenView> {
    crate_path + path_separator(span) + seq![word(span, "tracing"@)] + path_separator(span)
        + seq![
        word(span, "enter_span"@),
        alone(span, '!'),
        parenthesized(span, seq![string(span, span_name)]),
        alone(span, ';'),
    ]
}

/// `trait_name::method(&mut receiver, arguments..)`
pub open spec fn method_call_tokens(
    span: proc_macro2::Span,
    trait_name: Seq<char>,
    method: Seq<char>,
    receiver: Seq<char>,
    arguments: Seq<Seq<char>>,
) -> Seq<TokenView> {
    seq![word(span, trait_name)] + path_separator(span) + seq![
        word(span, method),
        parenthesized(
            span,
            receiver_tokens(span, receiver) + call_argument_tokens(span, arguments),
        ),
    ]
}

/// `<&mut dyn capability as trait_name>::method(arguments..)`
pub open spec fn qualified_call_tokens(
    span: proc_macro2::Span,
    capability: Seq<TokenView>,
    trait_name: Seq<char>,
    method: Seq<char>,
    arguments: Seq<Seq<char>>,
) -> Seq<TokenView> {
    seq![alone(span, '<'), alone(span, '&'), word(span, "mut"@), word(span, "dyn"@)] + capability
        + seq![word(span, "as"@), word(span, trait_name), alone(span, '>')] + path_separator(span)
        + seq![word(span, method), parenthesized(span, call_argument_tokens(span, arguments))]
}

/// `|mut __externalities__| trait_name::method(&mut __externalities__, arguments..)`
pub open spec fn closure_tokens(
    span: proc_macro2::Span,
    trait_name: Seq<char>,
    method: Seq<char>,
    arguments: Seq<Seq<char>>,
) -> Seq<TokenView> {
    seq![
        alone(span, '|'),
        word(span, "mut"@),
        word(span, externalities_name()),
        alone(span, '|'),
    ] + method_call_tokens(span, trait_name, method, externalities_name(), arguments)
}

/// The call of the trait's method, by the way it is reached:
///
/// - `crate_path::with_externalities(|mut __externalities__| ..).expect("..")`,
/// - `trait_name::method(&mut __function_context__, ..)`,
/// - `<&mut dyn crate_path::Externalities as trait_name>::method(..)`,
/// - `<&mut dyn crate_path::wasm_interface::FunctionContext as trait_name>::method(..)`.
pub open spec fn dispatch_tokens(
    span: proc_macro2::Span,
    dispatch: Dispatch,
    trait_name: Seq<char>,
    method: Seq<char>,
    arguments: Seq<Seq<char>>,
    crate_path: Seq<TokenView>,
) -> Seq<TokenView> {
    match dispatch {
        Dispatch::WithExternalities => crate_path + path_separator(span) + seq![
            word(span, "with_externalities"@),
            parenthesized(span, closure_tokens(span, trait_name, method, arguments)),
            alone(span, '.'),
            word(span, "expect"@),
            parenthesized(span, seq![string(span, missing_environment_message(method))]),
        ],
        Dispatch::OnFunctionContext => method_call_tokens(
            span,
            trait_name,
            method,
            function_context_name(),
            arguments,
        ),
        Dispatch::ForExternalities => qualified_call_tokens(
            span,
            externalities_path(span, crate_path),
            trait_name,
            method,
            arguments,
        ),
        Dispatch::ForFunctionContext => qualified_call_tokens(
            span,
            function_context_path(span, crate_path),
            trait_name,
            method,
            arguments,
        ),
    }
}

/// The tokens inside the braces of an emitted function.
pub open spec fn body_tokens(
    span: proc_macro2::Span,
    body: BodyView,
    crate_path: Seq<TokenView>,
) -> Seq<TokenView> {
    match body {
        BodyView::CallVersion { callee, arguments } => seq![
            word(span, callee),
            parenthesized(span, call_argument_tokens(span, arguments)),
        ],
        BodyView::CallHostFunction { host_function, arguments } => seq![
            word(span, host_function),
            alone(span, '.'),
            word(span, "get"@),
            parenthesized(span, Seq::empty()),
            parenthesized(span, call_argument_tokens(span, arguments)),
        ],
        BodyView::CallTrait { span_name, trait_name, method, arguments, dispatch } => span_tokens(
            span,
            span_name,
            crate_path,
        ) + dispatch_tokens(span, dispatch, trait_name, method, arguments, crate_path),
    }
}

/// `pub` where the function is public, and nothing else.
pub open spec fn visibility_tokens(span: proc_macro2::Span, public: bool) -> Seq<TokenView> {
    if public {
        seq![word(span, "pub"@)]
    } else {
        Seq::empty()
    }
}

/// `-> type` where the function returns something, and nothing else.
pub open spec fn output_tokens(span: proc_macro2::Span, output: Option<Seq<TokenView>>) -> Seq<
    TokenView,
> {
    match output {
        Some(ty) => seq![joint(span, '-'), alone(span, '>')] + ty,
        None => Seq::empty(),
    }
}

/// All parameters of an emitted function: the declared ones, and the function
/// context where the function takes it.
pub open spec fn all_parameter_tokens(
    function: EmittedFunctionView,
    crate_path: Seq<TokenView>,
) -> Seq<TokenView> {
    if function.context_parameter {
        parameter_tokens(function.span, function.arguments) + context_parameter_tokens(
            function.span,
            crate_path,
        )
    } else {
        parameter_tokens(function.span, function.arguments)
    }
}

/// What stands before the function item: the condition of the build, the
/// attributes, and the visibility.
pub open spec fn head_tokens(function: EmittedFunctionView) -> Seq<TokenView> {
    condition_tokens(function.span, function.build) + attribute_tokens(function.attrs)
        + visibility_tokens(function.span, function.public)
}

/// `fn name(parameters..) -> type`
pub open spec fn signature_tokens(
    function: EmittedFunctionView,
    crate_path: Seq<TokenView>,
) -> Seq<TokenView> {
    seq![
        word(function.span, "fn"@),
        word(function.span, function.name),
        parenthesized(function.span, all_parameter_tokens(function, crate_path)),
    ] + output_tokens(function.span, function.output)
}

/// The tokens of an emitted function: the condition of its build, its
/// attributes, and the function item.
pub open spec fn function_tokens(
    function: EmittedFunctionView,
    crate_path: Seq<TokenView>,
) -> Seq<TokenView> {
    head_tokens(function) + signature_tokens(function, crate_path) + seq![
        TokenView::Group(
            Delimiter::Brace,
            body_tokens(function.span, function.body, crate_path),
            function.span,
        ),
    ]
}

/// The tokens of several emitted functions, one after the other.
pub open spec fn functions_tokens(
    functions: Seq<EmittedFunctionView>,
    crate_path: Seq<TokenView>,
) -> Seq<TokenView>
    decreases functions.len(),
{
    if functions.len() == 0 {
        Seq::empty()
    } else {
        functions_tokens(functions.drop_last(), crate_path) + function_tokens(
            functions.last(),
            crate_path,
        )
    }
}

/// Every text is an identifier.
pub open spec fn are_idents(names: Seq<Seq<char>>) -> bool {
    forall|i: int| 0 <= i < names.len() ==> is_ident(#[trigger] names[i])
}

/// Every argument's name is an identifier.
pub open spec fn are_named(arguments: Seq<TypedArgumentView>) -> bool {
    forall|i: int| 0 <= i < arguments.len() ==> is_ident((#[trigger] arguments[i]).name)
}

/// Every name in the body is an identifier.
pub open spec fn is_body_renderable(body: BodyView) -> bool {
    match body {
        BodyView::CallVersion { callee, arguments } => is_ident(callee) && are_idents(arguments),
        BodyView::CallHostFunction { host_function, arguments } => is_ident(host_function)
            && are_idents(arguments),
        BodyView::CallTrait { span_name, trait_name, method, arguments, dispatch } => is_ident(
            trait_name,
        ) && is_ident(method) && are_idents(arguments),
    }
}

/// Every name in the function is an identifier, so that the function can be
/// written as tokens.
pub open spec fn is_renderable(function: EmittedFunctionView) -> bool {
    &&& is_ident(function.name)
    &&& are_named(function.arguments)
    &&& is_body_renderable(function.body)
}

} // verus!
