//! The writers: they put the tokens of emitted functions into a token stream.
use vstd::prelude::*;
use vstd::string::StringExecFns;
use crate::emitted::{Body, BuildFlag, Dispatch, EmittedFunction};
use crate::model::{Attribute, TypedArgument, optional_tokens};
use crate::names::{externalities_name, function_context_name, is_ident, is_identifier};
use crate::render::{
    all_parameter_tokens, are_idents, are_named, attribute_tokens, body_tokens,
    call_argument_tokens, closure_tokens, condition_tokens, context_parameter_tokens,
    dispatch_tokens, externalities_path, feature_tokens, function_context_path, function_tokens,
    functions_tokens, head_tokens, is_body_renderable, is_renderable, method_call_tokens,
    missing_environment_message, output_tokens, parameter_tokens, parenthesized, path_separator,
    qualified_call_tokens, receiver_tokens, signature_tokens, span_tokens, string, word,
};
use crate::stream::{
    Delimiter, Spacing, append_stream, new_stream, push_group, push_ident, push_punct,
    push_string_literal, stream_tokens,
};

verus! {

/// The words that the writers put into emitted code are identifiers.
proof fn lemma_words()
    ensures
        is_ident("feature"@),
        is_ident("not"@),
        is_ident("cfg"@),
        is_ident("mut"@),
        is_ident("dyn"@),
        is_ident("as"@),
        is_ident("pub"@),
        is_ident("fn"@),
        is_ident("get"@),
        is_ident("expect"@),
        is_ident("tracing"@),
        is_ident("enter_span"@),
        is_ident("wasm_interface"@),
        is_ident("FunctionContext"@),
        is_ident("Externalities"@),
        is_ident("with_externalities"@),
        "__function_context__"@ == function_context_name(),
        "__externalities__"@ == externalities_name(),
        is_ident(function_context_name()),
        is_ident(externalities_name()),
{
    reveal_strlit("feature");
    reveal_strlit("not");
    reveal_strlit("cfg");
    reveal_strlit("mut");
    reveal_strlit("dyn");
    reveal_strlit("as");
    reveal_strlit("pub");
    reveal_strlit("fn");
    reveal_strlit("get");
    reveal_strlit("expect");
    reveal_strlit("tracing");
    reveal_strlit("enter_span");
    reveal_strlit("wasm_interface");
    reveal_strlit("FunctionContext");
    reveal_strlit("Externalities");
    reveal_strlit("with_externalities");
    reveal_strlit("__function_context__");
    reveal_strlit("__externalities__");
    assert("__function_context__"@ =~= function_context_name());
    assert("__externalities__"@ =~= externalities_name());
}

/// Writes `::`.
fn write_path_separator(stream: &mut proc_macro2::TokenStream, span: proc_macro2::Span)
    ensures
        stream_tokens(*final(stream)) == stream_tokens(*old(stream)) + path_separator(span),
{
    push_punct(stream, ':', Spacing::Joint, span);
    push_punct(stream, ':', Spacing::Alone, span);
    assert(stream_tokens(*stream) =~= stream_tokens(*old(stream)) + path_separator(span));
}

/// A stream that holds `feature = "std"`.
fn feature_stream(span: proc_macro2::Span) -> (stream: proc_macro2::TokenStream)
    ensures
        stream_tokens(stream) == feature_tokens(span),
{
    proof {
        lemma_words();
    }
    let mut stream = new_stream();
    push_ident(&mut stream, "feature", span);
    push_punct(&mut stream, '=', Spacing::Alone, span);
    push_string_literal(&mut stream, "std", span);
    assert(stream_tokens(stream) =~= feature_tokens(span));
    stream
}

/// Writes the condition of a build.
pub(crate) fn write_condition(
    stream: &mut proc_macro2::TokenStream,
    build: BuildFlag,
    span: proc_macro2::Span,
)
    ensures
        stream_tokens(*final(stream)) == stream_tokens(*old(stream)) + condition_tokens(
            span,
            build,
        ),
{
    proof {
        lemma_words();
    }
    let condition = match build {
        BuildFlag::Host => feature_stream(span),
        BuildFlag::Guest => {
            let mut negated = new_stream();
            push_ident(&mut negated, "not", span);
            push_group(&mut negated, Delimiter::Parenthesis, feature_stream(span), span);
            assert(stream_tokens(negated) =~= seq![
                word(span, "not"@),
                parenthesized(span, feature_tokens(span)),
            ]);
            negated
        },
    };
    let ghost inner = stream_tokens(condition);
    let mut attribute = new_stream();
    push_ident(&mut attribute, "cfg", span);
    push_group(&mut attribute, Delimiter::Parenthesis, condition, span);
    assert(stream_tokens(attribute) =~= seq![word(span, "cfg"@), parenthesized(span, inner)]);
    push_punct(stream, '#', Spacing::Alone, span);
    push_group(stream, Delimiter::Bracket, attribute, span);
    assert(stream_tokens(*stream) =~= stream_tokens(*old(stream)) + condition_tokens(span, build));
}

/// Writes the attributes as they are.
pub(crate) fn write_attributes(stream: &mut proc_macro2::TokenStream, attrs: &Vec<Attribute>)
    ensures
        stream_tokens(*final(stream)) == stream_tokens(*old(stream)) + attribute_tokens(
            attrs.deep_view(),
        ),
{
    let ghost all = attrs.deep_view();
    let mut index: usize = 0;
    assert(all.take(0) =~= Seq::empty());
    assert(stream_tokens(*stream) =~= stream_tokens(*old(stream)) + attribute_tokens(all.take(0)));
    while index < attrs.len()
        invariant
            index <= attrs.len(),
            all == attrs.deep_view(),
            stream_tokens(*stream) == stream_tokens(*old(stream)) + attribute_tokens(
                all.take(index as int),
            ),
        decreases attrs.len() - index,
    {
        assert(all.take(index + 1).drop_last() =~= all.take(index as int));
        assert(all.take(index + 1).last() == attrs@[index as int]@);
        append_stream(stream, attrs[index].tokens.clone());
        assert(stream_tokens(*stream) =~= stream_tokens(*old(stream)) + attribute_tokens(
            all.take(index + 1),
        ));
        index += 1;
    }
    assert(all.take(index as int) =~= all);
}

/// Writes the declared parameters.
pub(crate) fn write_parameters(
    stream: &mut proc_macro2::TokenStream,
    arguments: &Vec<TypedArgument>,
    span: proc_macro2::Span,
)
    requires
        are_named(arguments.deep_view()),
    ensures
        stream_tokens(*final(stream)) == stream_tokens(*old(stream)) + parameter_tokens(
            span,
            arguments.deep_view(),
        ),
{
    let ghost all = arguments.deep_view();
    let mut index: usize = 0;
    assert(all.take(0) =~= Seq::empty());
    assert(stream_tokens(*stream) =~= stream_tokens(*old(stream)) + parameter_tokens(
        span,
        all.take(0),
    ));
    while index < arguments.len()
        invariant
            index <= arguments.len(),
            all == arguments.deep_view(),
            are_named(all),
            stream_tokens(*stream) == stream_tokens(*old(stream)) + parameter_tokens(
                span,
                all.take(index as int),
            ),
        decreases arguments.len() - index,
    {
        assert(all.take(index + 1).drop_last() =~= all.take(index as int));
        assert(all.take(index + 1).last() == arguments@[index as int]@);
        assert(all[index as int] == arguments@[index as int]@);
        push_ident(stream, arguments[index].name.as_str(), span);
        push_punct(stream, ':', Spacing::Alone, span);
        append_stream(stream, arguments[index].ty.clone());
        push_punct(stream, ',', Spacing::Alone, span);
        assert(stream_tokens(*stream) =~= stream_tokens(*old(stream)) + parameter_tokens(
            span,
            all.take(index + 1),
        ));
        index += 1;
    }
    assert(all.take(index as int) =~= all);
}

/// A stream that holds the path of the externalities.
fn externalities_stream(
    crate_path: &proc_macro2::TokenStream,
    span: proc_macro2::Span,
) -> (stream: proc_macro2::TokenStream)
    ensures
        stream_tokens(stream) == externalities_path(span, stream_tokens(*crate_path)),
{
    proof {
        lemma_words();
    }
    let mut stream = crate_path.clone();
    write_path_separator(&mut stream, span);
    push_ident(&mut stream, "Externalities", span);
    assert(stream_tokens(stream) =~= externalities_path(span, stream_tokens(*crate_path)));
    stream
}

/// A stream that holds the path of the function context.
fn function_context_stream(
    crate_path: &proc_macro2::TokenStream,
    span: proc_macro2::Span,
) -> (stream: proc_macro2::TokenStream)
    ensures
        stream_tokens(stream) == function_context_path(span, stream_tokens(*crate_path)),
{
    proof {
        lemma_words();
    }
    let mut stream = crate_path.clone();
    write_path_separator(&mut stream, span);
    push_ident(&mut stream, "wasm_interface", span);
    write_path_separator(&mut stream, span);
    push_ident(&mut stream, "FunctionContext", span);
    assert(stream_tokens(stream) =~= function_context_path(span, stream_tokens(*crate_path)));
    stream
}

/// Writes the parameter that hands in the function context.
pub(crate) fn write_context_parameter(
    stream: &mut proc_macro2::TokenStream,
    crate_path: &proc_macro2::TokenStream,
    span: proc_macro2::Span,
)
    ensures
        stream_tokens(*final(stream)) == stream_tokens(*old(stream)) + context_parameter_tokens(
            span,
            stream_tokens(*crate_path),
        ),
{
    proof {
        lemma_words();
    }
    push_ident(stream, "mut", span);
    push_ident(stream, "__function_context__", span);
    push_punct(stream, ':', Spacing::Alone, span);
    push_punct(stream, '&', Spacing::Alone, span);
    push_ident(stream, "mut", span);
    push_ident(stream, "dyn", span);
    append_stream(stream, function_context_stream(crate_path, span));
    push_punct(stream, ',', Spacing::Alone, span);
    assert(stream_tokens(*stream) =~= stream_tokens(*old(stream)) + context_parameter_tokens(
        span,
        stream_tokens(*crate_path),
    ));
}

/// Writes the arguments of a call.
pub(crate) fn write_call_arguments(
    stream: &mut proc_macro2::TokenStream,
    names: &Vec<String>,
    span: proc_macro2::Span,
)
    requires
        are_idents(names.deep_view()),
    ensures
        stream_tokens(*final(stream)) == stream_tokens(*old(stream)) + call_argument_tokens(
            span,
            names.deep_view(),
        ),
{
    let ghost all = names.deep_view();
    let mut index: usize = 0;
    assert(all.take(0) =~= Seq::empty());
    assert(stream_tokens(*stream) =~= stream_tokens(*old(stream)) + call_argument_tokens(
        span,
        all.take(0),
    ));
    while index < names.len()
        invariant
            index <= names.len(),
            all == names.deep_view(),
            are_idents(all),
            stream_tokens(*stream) == stream_tokens(*old(stream)) + call_argument_tokens(
                span,
                all.take(index as int),
            ),
        decreases names.len() - index,
    {
        assert(all.take(index + 1).drop_last() =~= all.take(index as int));
        assert(all.take(index + 1).last() == names@[index as int]@);
        assert(all[index as int] == names@[index as int]@);
        push_ident(stream, names[index].as_str(), span);
        push_punct(stream, ',', Spacing::Alone, span);
        assert(stream_tokens(*stream) =~= stream_tokens(*old(stream)) + call_argument_tokens(
            span,
            all.take(index + 1),
        ));
        index += 1;
    }
    assert(all.take(index as int) =~= all);
}

/// Writes a call of the trait's method on a capability that the emitted
/// code holds under the name `receiver`.
fn write_method_call(
    stream: &mut proc_macro2::TokenStream,
    trait_name: &str,
    method: &str,
    receiver: &str,
    arguments: &Vec<String>,
    span: proc_macro2::Span,
)
    requires
        is_ident(trait_name@),
        is_ident(method@),
        is_ident(receiver@),
        are_idents(arguments.deep_view()),
    ensures
        stream_tokens(*final(stream)) == stream_tokens(*old(stream)) + method_call_tokens(
            span,
            trait_name@,
            method@,
            receiver@,
            arguments.deep_view(),
        ),
{
    proof {
        lemma_words();
    }
    let mut inner = new_stream();
    push_punct(&mut inner, '&', Spacing::Alone, span);
    push_ident(&mut inner, "mut", span);
    push_ident(&mut inner, receiver, span);
    push_punct(&mut inner, ',', Spacing::Alone, span);
    assert(stream_tokens(inner) =~= receiver_tokens(span, receiver@));
    write_call_arguments(&mut inner, arguments, span);
    push_ident(stream, trait_name, span);
    write_path_separator(stream, span);
    push_ident(stream, method, span);
    push_group(stream, Delimiter::Parenthesis, inner, span);
    assert(stream_tokens(*stream) =~= stream_tokens(*old(stream)) + method_call_tokens(
        span,
        trait_name@,
        method@,
        receiver@,
        arguments.deep_view(),
    ));
}

/// Writes a call of the trait's method as implemented for a mutable
/// reference to the capability.
fn write_qualified_call(
    stream: &mut proc_macro2::TokenStream,
    capability: proc_macro2::TokenStream,
    trait_name: &str,
    method: &str,
    arguments: &Vec<String>,
    span: proc_macro2::Span,
)
    requires
        is_ident(trait_name@),
        is_ident(method@),
        are_idents(arguments.deep_view()),
    ensures
        stream_tokens(*final(stream)) == stream_tokens(*old(stream)) + qualified_call_tokens(
            span,
            stream_tokens(capability),
            trait_name@,
            method@,
            arguments.deep_view(),
        ),
{
    proof {
        lemma_words();
    }
    let mut inner = new_stream();
    write_call_arguments(&mut inner, arguments, span);
    assert(stream_tokens(inner) =~= call_argument_tokens(span, arguments.deep_view()));
    let ghost capability_tokens = stream_tokens(capability);
    push_punct(stream, '<', Spacing::Alone, span);
    push_punct(stream, '&', Spacing::Alone, span);
    push_ident(stream, "mut", span);
    push_ident(stream, "dyn", span);
    append_stream(stream, capability);
    push_ident(stream, "as", span);
    push_ident(stream, trait_name, span);
    push_punct(stream, '>', Spacing::Alone, span);
    write_path_separator(stream, span);
    push_ident(stream, method, span);
    push_group(stream, Delimiter::Parenthesis, inner, span);
    assert(stream_tokens(*stream) =~= stream_tokens(*old(stream)) + qualified_call_tokens(
        span,
        capability_tokens,
        trait_name@,
        method@,
        arguments.deep_view(),
    ));
}

/// The message of the panic outside of an environment with externalities.
pub fn missing_environment_text(method: &str) -> (text: String)
    ensures
        text@ == missing_environment_message(method@),
{
    let mut text = String::from_str("`");
    text.append(method);
    text.append("` called outside of an Externalities-provided environment.");
    text
}

/// Writes the statement that enters the tracing span.
fn write_span(
    stream: &mut proc_macro2::TokenStream,
    span_name: &str,
    crate_path: &proc_macro2::TokenStream,
    span: proc_macro2::Span,
)
    ensures
        stream_tokens(*final(stream)) == stream_tokens(*old(stream)) + span_tokens(
            span,
            span_name@,
            stream_tokens(*crate_path),
        ),
{
    proof {
        lemma_words();
    }
    let mut name = new_stream();
    push_string_literal(&mut name, span_name, span);
    assert(stream_tokens(name) =~= seq![string(span, span_name@)]);
    append_stream(stream, crate_path.clone());
    write_path_separator(stream, span);
    push_ident(stream, "tracing", span);
    write_path_separator(stream, span);
    push_ident(stream, "enter_span", span);
    push_punct(stream, '!', Spacing::Alone, span);
    push_group(stream, Delimiter::Parenthesis, name, span);
    push_punct(stream, ';', Spacing::Alone, span);
    assert(stream_tokens(*stream) =~= stream_tokens(*old(stream)) + span_tokens(
        span,
        span_name@,
        stream_tokens(*crate_path),
    ));
}

/// Writes the call of the trait's method.
fn write_dispatch(
    stream: &mut proc_macro2::TokenStream,
    dispatch: Dispatch,
    trait_name: &str,
    method: &str,
    arguments: &Vec<String>,
    crate_path: &proc_macro2::TokenStream,
    span: proc_macro2::Span,
)
    requires
        is_ident(trait_name@),
        is_ident(method@),
        are_idents(arguments.deep_view()),
    ensures
        stream_tokens(*final(stream)) == stream_tokens(*old(stream)) + dispatch_tokens(
            span,
            dispatch,
            trait_name@,
            method@,
            arguments.deep_view(),
            stream_tokens(*crate_path),
        ),
{
    proof {
        lemma_words();
    }
    match dispatch {
        Dispatch::WithExternalities => {
            let mut closure = new_stream();
            push_punct(&mut closure, '|', Spacing::Alone, span);
            push_ident(&mut closure, "mut", span);
            push_ident(&mut closure, "__externalities__", span);
            push_punct(&mut closure, '|', Spacing::Alone, span);
            write_method_call(
                &mut closure,
                trait_name,
                method,
                "__externalities__",
                arguments,
                span,
            );
            assert(stream_tokens(closure) =~= closure_tokens(
                span,
                trait_name@,
                method@,
                arguments.deep_view(),
            ));
            let mut message = new_stream();
            let text = missing_environment_text(method);
            push_string_literal(&mut message, text.as_str(), span);
            assert(stream_tokens(message) =~= seq![
                string(span, missing_environment_message(method@)),
            ]);
            append_stream(stream, crate_path.clone());
            write_path_separator(stream, span);
            push_ident(stream, "with_externalities", span);
            push_group(stream, Delimiter::Parenthesis, closure, span);
            push_punct(stream, '.', Spacing::Alone, span);
            push_ident(stream, "expect", span);
            push_group(stream, Delimiter::Parenthesis, message, span);
            assert(stream_tokens(*stream) =~= stream_tokens(*old(stream)) + dispatch_tokens(
                span,
                dispatch,
                trait_name@,
                method@,
                arguments.deep_view(),
                stream_tokens(*crate_path),
            ));
        },
        Dispatch::OnFunctionContext => {
            write_method_call(stream, trait_name, method, "__function_context__", arguments, span);
        },
        Dispatch::ForExternalities => {
            write_qualified_call(
                stream,
                externalities_stream(crate_path, span),
                trait_name,
                method,
                arguments,
                span,
            );
        },
        Dispatch::ForFunctionContext => {
            write_qualified_call(
                stream,
                function_context_stream(crate_path, span),
                trait_name,
                method,
                arguments,
                span,
            );
        },
    }
}

/// Writes what stands inside the braces of an emitted function.
pub(crate) fn write_body(
    stream: &mut proc_macro2::TokenStream,
    body: &Body,
    crate_path: &proc_macro2::TokenStream,
    span: proc_macro2::Span,
)
    requires
        is_body_renderable(body@),
    ensures
        stream_tokens(*final(stream)) == stream_tokens(*old(stream)) + body_tokens(
            span,
            body@,
            stream_tokens(*crate_path),
        ),
{
    proof {
        lemma_words();
    }
    match body {
        Body::CallVersion { callee, arguments } => {
            let mut inner = new_stream();
            write_call_arguments(&mut inner, arguments, span);
            assert(stream_tokens(inner) =~= call_argument_tokens(span, arguments.deep_view()));
            push_ident(stream, callee.as_str(), span);
            push_group(stream, Delimiter::Parenthesis, inner, span);
            assert(stream_tokens(*stream) =~= stream_tokens(*old(stream)) + body_tokens(
                span,
                body@,
                stream_tokens(*crate_path),
            ));
        },
        Body::CallHostFunction { host_function, arguments } => {
            let mut inner = new_stream();
            write_call_arguments(&mut inner, arguments, span);
            assert(stream_tokens(inner) =~= call_argument_tokens(span, arguments.deep_view()));
            push_ident(stream, host_function.as_str(), span);
            push_punct(stream, '.', Spacing::Alone, span);
            push_ident(stream, "get", span);
            push_group(stream, Delimiter::Parenthesis, new_stream(), span);
            push_group(stream, Delimiter::Parenthesis, inner, span);
            assert(stream_tokens(*stream) =~= stream_tokens(*old(stream)) + body_tokens(
                span,
                body@,
                stream_tokens(*crate_path),
            ));
        },
        Body::CallTrait { span_name, trait_name, method, arguments, dispatch } => {
            write_span(stream, span_name.as_str(), crate_path, span);
            write_dispatch(
                stream,
                *dispatch,
                trait_name.as_str(),
                method.as_str(),
                arguments,
                crate_path,
                span,
            );
            assert(stream_tokens(*stream) =~= stream_tokens(*old(stream)) + body_tokens(
                span,
                body@,
                stream_tokens(*crate_path),
            ));
        },
    }
}

/// Writes what stands before the function item.
fn write_head(stream: &mut proc_macro2::TokenStream, function: &EmittedFunction)
    ensures
        stream_tokens(*final(stream)) == stream_tokens(*old(stream)) + head_tokens(function@),
{
    proof {
        lemma_words();
    }
    write_condition(stream, function.build, function.span);
    write_attributes(stream, &function.attrs);
    if function.public {
        push_ident(stream, "pub", function.span);
    }
    assert(stream_tokens(*stream) =~= stream_tokens(*old(stream)) + head_tokens(function@));
}

/// Writes the return type, where there is one.
fn write_output(
    stream: &mut proc_macro2::TokenStream,
    output: &Option<proc_macro2::TokenStream>,
    span: proc_macro2::Span,
)
    ensures
        stream_tokens(*final(stream)) == stream_tokens(*old(stream)) + output_tokens(
            span,
            optional_tokens(*output),
        ),
{
    match output {
        Some(ty) => {
            push_punct(stream, '-', Spacing::Joint, span);
            push_punct(stream, '>', Spacing::Alone, span);
            append_stream(stream, ty.clone());
        },
        None => {},
    }
    assert(stream_tokens(*stream) =~= stream_tokens(*old(stream)) + output_tokens(
        span,
        optional_tokens(*output),
    ));
}

/// Writes the name, the parameters and the return type of a function.
fn write_signature(
    stream: &mut proc_macro2::TokenStream,
    function: &EmittedFunction,
    crate_path: &proc_macro2::TokenStream,
)
    requires
        is_ident(function@.name),
        are_named(function@.arguments),
    ensures
        stream_tokens(*final(stream)) == stream_tokens(*old(stream)) + signature_tokens(
            function@,
            stream_tokens(*crate_path),
        ),
{
    proof {
        lemma_words();
    }
    let span = function.span;
    let mut parameters = new_stream();
    write_parameters(&mut parameters, &function.arguments, span);
    if function.context_parameter {
        write_context_parameter(&mut parameters, crate_path, span);
    }
    assert(stream_tokens(parameters) =~= all_parameter_tokens(
        function@,
        stream_tokens(*crate_path),
    ));
    push_ident(stream, "fn", span);
    push_ident(stream, function.name.as_str(), span);
    push_group(stream, Delimiter::Parenthesis, parameters, span);
    let ghost named = stream_tokens(*stream);
    write_output(stream, &function.output, span);
    assert(stream_tokens(*stream) =~= stream_tokens(*old(stream)) + signature_tokens(
        function@,
        stream_tokens(*crate_path),
    ));
}

/// Writes an emitted function: the condition of its build, its attributes and the
/// function item. Every token that is not copied from the method carries the
/// method's span.
pub(crate) fn write_function(
    stream: &mut proc_macro2::TokenStream,
    function: &EmittedFunction,
    crate_path: &proc_macro2::TokenStream,
)
    requires
        is_renderable(function@),
    ensures
        stream_tokens(*final(stream)) == stream_tokens(*old(stream)) + function_tokens(
            function@,
            stream_tokens(*crate_path),
        ),
{
    let mut body = new_stream();
    write_body(&mut body, &function.body, crate_path, function.span);
    assert(stream_tokens(body) =~= body_tokens(
        function.span,
        function@.body,
        stream_tokens(*crate_path),
    ));
    write_head(stream, function);
    write_signature(stream, function, crate_path);
    push_group(stream, Delimiter::Brace, body, function.span);
    assert(stream_tokens(*stream) =~= stream_tokens(*old(stream)) + function_tokens(
        function@,
        stream_tokens(*crate_path),
    ));
}

/// Writes emitted functions one after the other.
pub(crate) fn write_functions(
    stream: &mut proc_macro2::TokenStream,
    functions: &Vec<EmittedFunction>,
    crate_path: &proc_macro2::TokenStream,
)
    requires
        forall|i: int| 0 <= i < functions.len() ==> is_renderable(#[trigger] functions@[i]@),
    ensures
        stream_tokens(*final(stream)) == stream_tokens(*old(stream)) + functions_tokens(
            functions.deep_view(),
            stream_tokens(*crate_path),
        ),
{
    let ghost all = functions.deep_view();
    let ghost path = stream_tokens(*crate_path);
    let mut index: usize = 0;
    assert(all.take(0) =~= Seq::empty());
    assert(stream_tokens(*stream) =~= stream_tokens(*old(stream)) + functions_tokens(
        all.take(0),
        path,
    ));
    while index < functions.len()
        invariant
            index <= functions.len(),
            all == functions.deep_view(),
            path == stream_tokens(*crate_path),
            forall|i: int| 0 <= i < functions.len() ==> is_renderable(#[trigger] functions@[i]@),
            stream_tokens(*stream) == stream_tokens(*old(stream)) + functions_tokens(
                all.take(index as int),
                path,
            ),
        decreases functions.len() - index,
    {
        assert(all.take(index + 1).drop_last() =~= all.take(index as int));
        assert(all.take(index + 1).last() == functions@[index as int]@);
        write_function(stream, &functions[index], crate_path);
        assert(stream_tokens(*stream) =~= stream_tokens(*old(stream)) + functions_tokens(
            all.take(index + 1),
            path,
        ));
        index += 1;
    }
    assert(all.take(index as int) =~= all);
}

/// Says whether every text is an identifier.
fn are_identifiers(names: &Vec<String>) -> (ok: bool)
    ensures
        ok == are_idents(names.deep_view()),
{
    let ghost all = names.deep_view();
    let mut index: usize = 0;
    while index < names.len()
        invariant
            index <= names.len(),
            all == names.deep_view(),
            forall|i: int| 0 <= i < index ==> is_ident(#[trigger] all[i]),
        decreases names.len() - index,
    {
        assert(all[index as int] == names@[index as int]@);
        if !is_identifier(names[index].as_str()) {
            return false;
        }
        index += 1;
    }
    true
}

/// Says whether the name of every argument is an identifier.
fn are_named_arguments(arguments: &Vec<TypedArgument>) -> (ok: bool)
    ensures
        ok == are_named(arguments.deep_view()),
{
    let ghost all = arguments.deep_view();
    let mut index: usize = 0;
    while index < arguments.len()
        invariant
            index <= arguments.len(),
            all == arguments.deep_view(),
            forall|i: int| 0 <= i < index ==> is_ident((#[trigger] all[i]).name),
        decreases arguments.len() - index,
    {
        assert(all[index as int] == arguments@[index as int]@);
        if !is_identifier(arguments[index].name.as_str()) {
            return false;
        }
        index += 1;
    }
    true
}

/// Says whether every name in the function is an identifier, so that the
/// function can be written as tokens.
pub fn is_renderable_function(function: &EmittedFunction) -> (ok: bool)
    ensures
        ok == is_renderable(function@),
{
    let body = match &function.body {
        Body::CallVersion { callee, arguments } => is_identifier(callee.as_str())
            && are_identifiers(arguments),
        Body::CallHostFunction { host_function, arguments } => is_identifier(
            host_function.as_str(),
        ) && are_identifiers(arguments),
        Body::CallTrait { span_name, trait_name, method, arguments, dispatch } => is_identifier(
            trait_name.as_str(),
        ) && is_identifier(method.as_str()) && are_identifiers(arguments),
    };
    is_identifier(function.name.as_str()) && are_named_arguments(&function.arguments) && body
}

/// Writes functions as tokens, one after the other, with `crate_path` as the
/// path of the runtime support library.
///
/// Gives nothing where a name in one of the functions is no identifier.
pub fn render_functions(
    functions: &Vec<EmittedFunction>,
    crate_path: &proc_macro2::TokenStream,
) -> (rendered: Option<proc_macro2::TokenStream>)
    ensures
        match rendered {
            Some(stream) => {
                &&& forall|i: int|
                    0 <= i < functions.len() ==> is_renderable(#[trigger] functions@[i]@)
                &&& stream_tokens(stream) == functions_tokens(
                    functions.deep_view(),
                    stream_tokens(*crate_path),
                )
            },
            None => exists|i: int|
                0 <= i < functions.len() && !is_renderable(#[trigger] functions@[i]@),
        },
{
    let mut index: usize = 0;
    while index < functions.len()
        invariant
            index <= functions.len(),
            forall|i: int| 0 <= i < index ==> is_renderable(#[trigger] functions@[i]@),
        decreases functions.len() - index,
    {
        if !is_renderable_function(&functions[index]) {
            return None;
        }
        index += 1;
    }
    let mut stream = new_stream();
    write_functions(&mut stream, functions, crate_path);
    assert(stream_tokens(stream) =~= functions_tokens(
        functions.deep_view(),
        stream_tokens(*crate_path),
    ));
    Some(stream)
}

} // verus!
