//! The emitters: from a method to the functions that are emitted for it.
use vstd::prelude::*;
use crate::emitted::{
    BuildFlag, Body, Dispatch, EmittedFunction, are_argument_names, bare_functions, emitted_or,
    forwarded_attributes, function_result, functions_result, guest_function, host_function_error,
    host_latest_function, host_versioned_function, method_error, trait_call, version_path,
};
use crate::error::{ErrorKind, GenerationError};
use crate::interface::{
    get_function_argument_names, get_function_arguments, takes_self_argument, typed_arguments,
};
use crate::model::{Argument, Attribute, Method, optional_tokens};
use crate::names::{
    create_exchangeable_host_function_ident, create_function_ident_with_version, is_ident,
    is_identifier, is_synthetic, str_eq,
};

verus! {

/// A copy of an attribute.
pub fn copy_attribute(attribute: &Attribute) -> (copy: Attribute)
    ensures
        copy@ == attribute@,
{
    Attribute { path: attribute.path.clone(), tokens: attribute.tokens.clone() }
}

/// The attributes that an emitted function takes over from its method: every
/// attribute but `version`.
pub fn forward_attributes(attrs: &Vec<Attribute>) -> (forwarded: Vec<Attribute>)
    ensures
        forwarded.deep_view() == forwarded_attributes(attrs.deep_view()),
{
    proof {
        reveal_strlit("version");
    }
    assert("version"@ =~= version_path());
    let ghost all = attrs.deep_view();
    let mut forwarded: Vec<Attribute> = Vec::new();
    let mut index: usize = 0;
    assert(all.take(0) =~= Seq::empty());
    while index < attrs.len()
        invariant
            index <= attrs.len(),
            all == attrs.deep_view(),
            "version"@ == version_path(),
            forwarded.deep_view() =~= forwarded_attributes(all.take(index as int)),
        decreases attrs.len() - index,
    {
        assert(all.take(index + 1).drop_last() =~= all.take(index as int));
        assert(all.take(index + 1).last() == attrs@[index as int]@);
        if !str_eq(attrs[index].path.as_str(), "version") {
            forwarded.push(copy_attribute(&attrs[index]));
        }
        index += 1;
    }
    assert(all.take(index as int) =~= all);
    forwarded
}

/// A copy of a return type.
pub fn copy_output(output: &Option<proc_macro2::TokenStream>) -> (copy: Option<
    proc_macro2::TokenStream,
>)
    ensures
        optional_tokens(copy) == optional_tokens(*output),
{
    match output {
        Some(tokens) => Some(tokens.clone()),
        None => None,
    }
}

/// Finds what is wrong with a method's name or with the names of its
/// arguments.
pub fn check_method(method: &Method) -> (error: Option<ErrorKind>)
    ensures
        error == method_error(method@),
{
    if !is_identifier(method.sig.ident.as_str()) {
        return Some(ErrorKind::MethodName);
    }
    let ghost inputs = method@.sig.inputs;
    let mut index: usize = 0;
    assert(inputs.take(0) =~= Seq::empty());
    while index < method.sig.inputs.len()
        invariant
            index <= method.sig.inputs.len(),
            inputs == method@.sig.inputs,
            is_ident(method@.sig.ident),
            are_argument_names(typed_arguments(inputs.take(index as int))),
        decreases method.sig.inputs.len() - index,
    {
        assert(inputs.take(index + 1).drop_last() =~= inputs.take(index as int));
        assert(inputs.take(index + 1).last() == method.sig.inputs@[index as int]@);
        match &method.sig.inputs[index] {
            Argument::Typed(argument) => {
                if !is_identifier(argument.name.as_str()) || is_synthetic(
                    argument.name.as_str(),
                ) {
                    proof {
                        lemma_typed_arguments_grow(inputs, index as int + 1);
                        let before = typed_arguments(inputs.take(index as int));
                        let all = typed_arguments(inputs);
                        let grown = typed_arguments(inputs.take(index + 1));
                        assert(grown == before.push(argument@));
                        assert(all[before.len() as int] == grown[before.len() as int]);
                    }
                    return Some(ErrorKind::ArgumentName);
                }
                assert(typed_arguments(inputs.take(index + 1)) == typed_arguments(
                    inputs.take(index as int),
                ).push(argument@));
            },
            Argument::Receiver => {},
        }
        index += 1;
    }
    assert(inputs.take(index as int) =~= inputs);
    None
}

/// The declared arguments of the first inputs are the first declared arguments
/// of all inputs.
pub proof fn lemma_typed_arguments_grow(inputs: Seq<crate::model::ArgumentView>, upto: int)
    requires
        0 <= upto <= inputs.len(),
    ensures
        typed_arguments(inputs.take(upto)).len() <= typed_arguments(inputs).len(),
        forall|i: int|
            0 <= i < typed_arguments(inputs.take(upto)).len() ==> typed_arguments(
                inputs.take(upto),
            )[i] == typed_arguments(inputs)[i],
    decreases inputs.len() - upto,
{
    if upto == inputs.len() {
        assert(inputs.take(upto) =~= inputs);
    } else {
        lemma_typed_arguments_grow(inputs, upto + 1);
        assert(inputs.take(upto + 1).drop_last() =~= inputs.take(upto));
    }
}

/// Generates the bare function of the guest build: it calls the exchangeable
/// host function of the method.
pub fn function_no_std_impl(method: &Method) -> (result: Result<EmittedFunction, GenerationError>)
    ensures
        function_result(result) == emitted_or(
            method_error(method@),
            method@,
            guest_function(method@),
        ),
{
    match check_method(method) {
        Some(kind) => Err(GenerationError { kind, span: method.span }),
        None => Ok(
            EmittedFunction {
                build: BuildFlag::Guest,
                public: true,
                attrs: forward_attributes(&method.attrs),
                name: method.sig.ident.clone(),
                arguments: get_function_arguments(&method.sig),
                context_parameter: false,
                output: copy_output(&method.sig.output),
                body: Body::CallHostFunction {
                    host_function: create_exchangeable_host_function_ident(
                        method.sig.ident.as_str(),
                    ),
                    arguments: get_function_argument_names(&method.sig),
                },
                span: method.span,
            },
        ),
    }
}

/// Generates the bare function of the host build: it calls the latest version
/// of the method.
pub fn function_std_latest_impl(method: &Method, latest_version: u32) -> (result: Result<
    EmittedFunction,
    GenerationError,
>)
    ensures
        function_result(result) == emitted_or(
            method_error(method@),
            method@,
            host_latest_function(method@, latest_version),
        ),
{
    match check_method(method) {
        Some(kind) => Err(GenerationError { kind, span: method.span }),
        None => Ok(
            EmittedFunction {
                build: BuildFlag::Host,
                public: true,
                attrs: forward_attributes(&method.attrs),
                name: method.sig.ident.clone(),
                arguments: get_function_arguments(&method.sig),
                context_parameter: false,
                output: copy_output(&method.sig.output),
                body: Body::CallVersion {
                    callee: create_function_ident_with_version(
                        method.sig.ident.as_str(),
                        latest_version,
                    ),
                    arguments: get_function_argument_names(&method.sig),
                },
                span: method.span,
            },
        ),
    }
}

/// Generates the bare functions of a method for the host and for the guest.
/// A wasm-only interface has none for the host.
pub fn function_for_method(method: &Method, latest_version: u32, is_wasm_only: bool) -> (result:
    Result<Vec<EmittedFunction>, GenerationError>)
    ensures
        functions_result(result) == emitted_or(
            method_error(method@),
            method@,
            bare_functions(method@, latest_version, is_wasm_only),
        ),
{
    let mut functions: Vec<EmittedFunction> = Vec::new();
    if !is_wasm_only {
        match function_std_latest_impl(method, latest_version) {
            Ok(function) => {
                functions.push(function);
            },
            Err(error) => {
                return Err(error);
            },
        }
    }
    match function_no_std_impl(method) {
        Ok(function) => {
            functions.push(function);
        },
        Err(error) => {
            return Err(error);
        },
    }
    assert(functions.deep_view() =~= bare_functions(method@, latest_version, is_wasm_only));
    Ok(functions)
}

/// Generates the call to the trait's method at one version.
pub fn generate_call_to_trait(
    trait_name: &str,
    method: &Method,
    version: u32,
    is_wasm_only: bool,
) -> (body: Body)
    ensures
        body@ == trait_call(trait_name@, method@, version, is_wasm_only),
{
    let method_name = create_function_ident_with_version(method.sig.ident.as_str(), version);
    let dispatch = if takes_self_argument(&method.sig) {
        if is_wasm_only {
            Dispatch::OnFunctionContext
        } else {
            Dispatch::WithExternalities
        }
    } else {
        if is_wasm_only {
            Dispatch::ForFunctionContext
        } else {
            Dispatch::ForExternalities
        }
    };
    Body::CallTrait {
        span_name: method_name.clone(),
        trait_name: String::from_str(trait_name),
        method: method_name,
        arguments: get_function_argument_names(&method.sig),
        dispatch,
    }
}

/// Generates the host function of a method at one version.
pub fn function_std_impl(
    trait_name: &str,
    method: &Method,
    version: u32,
    is_wasm_only: bool,
) -> (result: Result<EmittedFunction, GenerationError>)
    ensures
        function_result(result) == emitted_or(
            host_function_error(trait_name@, method@),
            method@,
            host_versioned_function(trait_name@, method@, version, is_wasm_only),
        ),
{
    match check_method(method) {
        Some(kind) => {
            return Err(GenerationError { kind, span: method.span });
        },
        None => {},
    }
    if !is_identifier(trait_name) {
        return Err(GenerationError { kind: ErrorKind::TraitName, span: method.span });
    }
    Ok(
        EmittedFunction {
            build: BuildFlag::Host,
            public: false,
            attrs: forward_attributes(&method.attrs),
            name: create_function_ident_with_version(method.sig.ident.as_str(), version),
            arguments: get_function_arguments(&method.sig),
            context_parameter: is_wasm_only,
            output: copy_output(&method.sig.output),
            body: generate_call_to_trait(trait_name, method, version, is_wasm_only),
            span: method.span,
        },
    )
}

} // verus!
