//! The generator: from an interface to the functions that are emitted for it,
//! and to their tokens.
use vstd::prelude::*;
use crate::emit::{function_for_method, function_std_impl};
use crate::emitted::{
    EmittedFunction, EmittedFunctionView, are_argument_names, bare_functions, emitted_or,
    functions_result, guest_function, host_function_error, host_latest_function,
    host_versioned_function, method_error,
};
use crate::error::GenerationError;
use crate::interface::{
    argument_names, get_runtime_interface, interface_error, latest_indices, lemma_latest_indices,
    typed_arguments,
};
use crate::model::{InterfaceModel, InterfaceModelView, MethodView, VersionedMethodView};
use crate::names::{lemma_host_function_name_is_ident, lemma_versioned_name_is_ident};
use crate::render::{are_idents, functions_tokens, is_renderable};
use crate::stream::{TokenView, new_stream, stream_tokens};
use crate::write::write_functions;

verus! {

/// The bare functions of the methods at the places `latest`, in that order, or
/// the error of the first of these methods for which nothing can be emitted.
pub open spec fn bare_generation(
    methods: Seq<VersionedMethodView>,
    latest: Seq<usize>,
    wasm_only: bool,
) -> Result<Seq<EmittedFunctionView>, GenerationError>
    decreases latest.len(),
{
    if latest.len() == 0 {
        Ok(Seq::empty())
    } else {
        let entry = methods[latest.last() as int];
        match bare_generation(methods, latest.drop_last(), wasm_only) {
            Err(error) => Err(error),
            Ok(before) => match emitted_or(
                method_error(entry.method),
                entry.method,
                bare_functions(entry.method, entry.version, wasm_only),
            ) {
                Err(error) => Err(error),
                Ok(functions) => Ok(before + functions),
            },
        }
    }
}

/// The versioned host functions of the first `upto` entries, in their order, or
/// the error of the first of these entries for which none can be emitted.
pub open spec fn versioned_generation(
    trait_name: Seq<char>,
    methods: Seq<VersionedMethodView>,
    upto: int,
    wasm_only: bool,
) -> Result<Seq<EmittedFunctionView>, GenerationError>
    decreases upto,
{
    if upto <= 0 {
        Ok(Seq::empty())
    } else {
        let entry = methods[upto - 1];
        match versioned_generation(trait_name, methods, upto - 1, wasm_only) {
            Err(error) => Err(error),
            Ok(before) => match emitted_or(
                host_function_error(trait_name, entry.method),
                entry.method,
                host_versioned_function(trait_name, entry.method, entry.version, wasm_only),
            ) {
                Err(error) => Err(error),
                Ok(function) => Ok(before.push(function)),
            },
        }
    }
}

/// What is generated for an interface: the bare functions of every method at
/// its latest version, followed by the host function of every version of every
/// method. Where the versions are out of order, or nothing can be emitted for a
/// method, the first error is the result.
pub open spec fn generation(model: InterfaceModelView, wasm_only: bool) -> Result<
    Seq<EmittedFunctionView>,
    GenerationError,
> {
    match interface_error(model.methods) {
        Some(error) => Err(error),
        None => match bare_generation(
            model.methods,
            latest_indices(model.methods, model.methods.len() as int),
            wasm_only,
        ) {
            Err(error) => Err(error),
            Ok(bare) => match versioned_generation(
                model.ident,
                model.methods,
                model.methods.len() as int,
                wasm_only,
            ) {
                Err(error) => Err(error),
                Ok(versioned) => Ok(bare + versioned),
            },
        },
    }
}

/// The tokens of what is generated for an interface.
pub open spec fn generated_tokens(model: InterfaceModelView, wasm_only: bool) -> Result<
    Seq<TokenView>,
    GenerationError,
> {
    match generation(model, wasm_only) {
        Ok(functions) => Ok(functions_tokens(functions, model.crate_path)),
        Err(error) => Err(error),
    }
}

/// What the result of `generate` holds.
pub open spec fn tokens_result(result: Result<proc_macro2::TokenStream, GenerationError>) -> Result<
    Seq<TokenView>,
    GenerationError,
> {
    match result {
        Ok(stream) => Ok(stream_tokens(stream)),
        Err(error) => Err(error),
    }
}

/// The names of arguments that can be used are identifiers.
pub proof fn lemma_argument_names_are_idents(method: MethodView)
    requires
        are_argument_names(typed_arguments(method.sig.inputs)),
    ensures
        are_idents(argument_names(method.sig.inputs)),
{
    let arguments = typed_arguments(method.sig.inputs);
    let names = argument_names(method.sig.inputs);
    assert forall|i: int| 0 <= i < names.len() implies crate::names::is_ident(
        #[trigger] names[i],
    ) by {
        assert(names[i] == arguments[i].name);
    }
}

/// The bare functions of a method without error can be written as tokens.
pub proof fn lemma_bare_functions_renderable(method: MethodView, version: u32, wasm_only: bool)
    requires
        method_error(method) is None,
    ensures
        is_renderable(host_latest_function(method, version)),
        is_renderable(guest_function(method)),
        forall|i: int|
            0 <= i < bare_functions(method, version, wasm_only).len() ==> is_renderable(
                #[trigger] bare_functions(method, version, wasm_only)[i],
            ),
{
    lemma_argument_names_are_idents(method);
    lemma_versioned_name_is_ident(method.sig.ident, version);
    lemma_host_function_name_is_ident(method.sig.ident);
}

/// The host function of a method without error, in a trait whose name is an
/// identifier, can be written as tokens.
pub proof fn lemma_host_function_renderable(
    trait_name: Seq<char>,
    method: MethodView,
    version: u32,
    wasm_only: bool,
)
    requires
        host_function_error(trait_name, method) is None,
    ensures
        is_renderable(host_versioned_function(trait_name, method, version, wasm_only)),
{
    lemma_argument_names_are_idents(method);
    lemma_versioned_name_is_ident(method.sig.ident, version);
}

/// Generates the functions of an interface: for each method the bare
/// functions, at the latest version, and then for each version of each method
/// the host function.
pub fn emitted_functions(model: &InterfaceModel, is_wasm_only: bool) -> (result: Result<
    Vec<EmittedFunction>,
    GenerationError,
>)
    ensures
        functions_result(result) == generation(model@, is_wasm_only),
        result matches Ok(functions) ==> forall|i: int|
            0 <= i < functions.len() ==> is_renderable(#[trigger] functions@[i]@),
{
    let ghost methods = model@.methods;
    let interface = match get_runtime_interface(model) {
        Ok(interface) => interface,
        Err(error) => {
            return Err(error);
        },
    };
    let latest = interface.latest_versions();
    proof {
        assert(methods.len() == model.methods.len());
        lemma_latest_indices(methods, methods.len() as int);
    }
    let mut functions: Vec<EmittedFunction> = Vec::new();
    let mut index: usize = 0;
    assert(latest@.take(0) =~= Seq::empty());
    assert(functions.deep_view() =~= Seq::empty());
    while index < latest.len()
        invariant
            index <= latest.len(),
            methods == model@.methods,
            interface_error(methods) is None,
            latest@ == latest_indices(methods, methods.len() as int),
            forall|i: int| 0 <= i < latest.len() ==> (#[trigger] latest@[i]) < methods.len(),
            bare_generation(methods, latest@.take(index as int), is_wasm_only) == Ok::<
                Seq<EmittedFunctionView>,
                GenerationError,
            >(functions.deep_view()),
            forall|i: int| 0 <= i < functions.len() ==> is_renderable(#[trigger] functions@[i]@),
        decreases latest.len() - index,
    {
        let place = latest[index];
        let entry = &model.methods[place];
        assert(latest@.take(index + 1).drop_last() =~= latest@.take(index as int));
        assert(latest@.take(index + 1).last() == place);
        assert(methods[place as int] == entry@);
        match function_for_method(&entry.method, entry.version, is_wasm_only) {
            Ok(mut bare) => {
                proof {
                    lemma_bare_functions_renderable(entry@.method, entry.version, is_wasm_only);
                }
                let ghost before = functions.deep_view();
                let ghost added = bare.deep_view();
                functions.append(&mut bare);
                assert(functions.deep_view() =~= before + added);
                assert forall|i: int| 0 <= i < functions.len() implies is_renderable(
                    #[trigger] functions@[i]@,
                ) by {
                    if i >= before.len() {
                        assert(functions@[i]@ == added[i - before.len()]);
                    } else {
                        assert(functions@[i]@ == before[i]);
                    }
                }
            },
            Err(error) => {
                proof {
                    assert(bare_generation(methods, latest@.take(index + 1), is_wasm_only) == Err::<
                        Seq<EmittedFunctionView>,
                        GenerationError,
                    >(error));
                    lemma_bare_generation_fails(methods, latest@, index as int + 1, is_wasm_only);
                }
                return Err(error);
            },
        }
        index += 1;
    }
    assert(latest@.take(index as int) =~= latest@);
    let ghost bare = functions.deep_view();
    let count = model.methods.len();
    let mut index: usize = 0;
    assert(functions.deep_view() =~= bare + Seq::<EmittedFunctionView>::empty());
    while index < count
        invariant
            index <= count,
            count == model.methods.len(),
            methods == model@.methods,
            interface_error(methods) is None,
            bare_generation(
                methods,
                latest_indices(methods, methods.len() as int),
                is_wasm_only,
            ) == Ok::<Seq<EmittedFunctionView>, GenerationError>(bare),
            exists|versioned: Seq<EmittedFunctionView>|
                versioned_generation(model@.ident, methods, index as int, is_wasm_only) == Ok::<
                    Seq<EmittedFunctionView>,
                    GenerationError,
                >(versioned) && functions.deep_view() == bare + versioned,
            forall|i: int| 0 <= i < functions.len() ==> is_renderable(#[trigger] functions@[i]@),
        decreases count - index,
    {
        let entry = &model.methods[index];
        assert(methods[index as int] == entry@);
        let ghost versioned = versioned_generation(
            model@.ident,
            methods,
            index as int,
            is_wasm_only,
        )->Ok_0;
        match function_std_impl(model.ident.as_str(), &entry.method, entry.version, is_wasm_only) {
            Ok(function) => {
                proof {
                    lemma_host_function_renderable(
                        model@.ident,
                        entry@.method,
                        entry.version,
                        is_wasm_only,
                    );
                }
                let ghost before = functions.deep_view();
                functions.push(function);
                assert(functions.deep_view() =~= before.push(function@));
                assert(functions.deep_view() =~= bare + versioned.push(function@));
                assert(versioned_generation(model@.ident, methods, index + 1, is_wasm_only) == Ok::<
                    Seq<EmittedFunctionView>,
                    GenerationError,
                >(versioned.push(function@)));
                assert forall|i: int| 0 <= i < functions.len() implies is_renderable(
                    #[trigger] functions@[i]@,
                ) by {
                    if i < before.len() {
                        assert(functions@[i]@ == before[i]);
                    }
                }
            },
            Err(error) => {
                proof {
                    assert(versioned_generation(model@.ident, methods, index + 1, is_wasm_only)
                        == Err::<Seq<EmittedFunctionView>, GenerationError>(error));
                    lemma_versioned_generation_fails(
                        model@.ident,
                        methods,
                        index as int + 1,
                        methods.len() as int,
                        is_wasm_only,
                    );
                }
                return Err(error);
            },
        }
        index += 1;
    }
    Ok(functions)
}

/// Once the bare functions of the first places have failed, those of all
/// places fail with the same error.
pub proof fn lemma_bare_generation_fails(
    methods: Seq<VersionedMethodView>,
    latest: Seq<usize>,
    upto: int,
    wasm_only: bool,
)
    requires
        0 <= upto <= latest.len(),
        bare_generation(methods, latest.take(upto), wasm_only) is Err,
    ensures
        bare_generation(methods, latest, wasm_only) == bare_generation(
            methods,
            latest.take(upto),
            wasm_only,
        ),
    decreases latest.len() - upto,
{
    if upto == latest.len() {
        assert(latest.take(upto) =~= latest);
    } else {
        assert(latest.take(upto + 1).drop_last() =~= latest.take(upto));
        lemma_bare_generation_fails(methods, latest, upto + 1, wasm_only);
    }
}

/// Once the host functions of the first entries have failed, those of more
/// entries fail with the same error.
pub proof fn lemma_versioned_generation_fails(
    trait_name: Seq<char>,
    methods: Seq<VersionedMethodView>,
    upto: int,
    all: int,
    wasm_only: bool,
)
    requires
        0 <= upto <= all,
        versioned_generation(trait_name, methods, upto, wasm_only) is Err,
    ensures
        versioned_generation(trait_name, methods, all, wasm_only) == versioned_generation(
            trait_name,
            methods,
            upto,
            wasm_only,
        ),
    decreases all - upto,
{
    if upto < all {
        lemma_versioned_generation_fails(trait_name, methods, upto, all - 1, wasm_only);
    }
}

/// Generates the bare functions of an interface, one per method, and the host
/// functions of all versions, as tokens.
///
/// The tokens are those of [`emitted_functions`], one function after the
/// other. On an error no token is returned.
pub fn generate(model: &InterfaceModel, is_wasm_only: bool) -> (result: Result<
    proc_macro2::TokenStream,
    GenerationError,
>)
    ensures
        tokens_result(result) == generated_tokens(model@, is_wasm_only),
{
    match emitted_functions(model, is_wasm_only) {
        Ok(functions) => {
            let mut stream = new_stream();
            write_functions(&mut stream, &functions, &model.crate_path);
            assert(stream_tokens(stream) =~= functions_tokens(
                functions.deep_view(),
                model@.crate_path,
            ));
            Ok(stream)
        },
        Err(error) => Err(error),
    }
}

} // verus!
