//! The shape of what is generated: which function stands at which place of the
//! output, and when generation succeeds.
use vstd::prelude::*;
use crate::emitted::{
    EmittedFunctionView, bare_functions, guest_function, host_function_error,
    host_latest_function, host_versioned_function, method_error,
};
use crate::error::GenerationError;
use crate::generate::{bare_generation, generation, versioned_generation};
use crate::interface::{
    first_out_of_order, interface_error, latest_indices, lemma_first_out_of_order,
    lemma_latest_indices, versions_increase,
};
use crate::model::{InterfaceModelView, VersionedMethodView};

verus! {

/// Something can be generated for the interface: the versions of every method
/// are in order, the name of every method and of every argument can be used,
/// and the trait's name is an identifier where it has a method.
pub open spec fn is_valid_model(model: InterfaceModelView) -> bool {
    &&& versions_increase(model.methods)
    &&& forall|i: int|
        0 <= i < model.methods.len() ==> host_function_error(
            model.ident,
            (#[trigger] model.methods[i]).method,
        ) is None
}

/// The places of the latest versions in the whole list.
pub open spec fn latest_places(methods: Seq<VersionedMethodView>) -> Seq<usize> {
    latest_indices(methods, methods.len() as int)
}

/// The number of bare functions: one per method for a wasm-only interface,
/// two per method else.
pub open spec fn bare_count(methods: Seq<VersionedMethodView>, wasm_only: bool) -> int {
    if wasm_only {
        latest_places(methods).len() as int
    } else {
        2 * (latest_places(methods).len() as int)
    }
}

/// The place in the list of methods of the entry that the function at `place`
/// of the output is emitted for.
pub open spec fn source_of(methods: Seq<VersionedMethodView>, wasm_only: bool, place: int) -> int {
    if place >= bare_count(methods, wasm_only) {
        place - bare_count(methods, wasm_only)
    } else if wasm_only {
        latest_places(methods)[place] as int
    } else {
        latest_places(methods)[place / 2] as int
    }
}

/// The function at `place` of the output. The bare functions come first, for
/// each method that of the host, unless the interface is wasm-only, and then
/// that of the guest. The host functions of all versions follow.
pub open spec fn function_at(
    model: InterfaceModelView,
    wasm_only: bool,
    place: int,
) -> EmittedFunctionView {
    let entry = model.methods[source_of(model.methods, wasm_only, place)];
    if place >= bare_count(model.methods, wasm_only) {
        host_versioned_function(model.ident, entry.method, entry.version, wasm_only)
    } else if !wasm_only && place % 2 == 0 {
        host_latest_function(entry.method, entry.version)
    } else {
        guest_function(entry.method)
    }
}

/// What `bare_generation` gives for a list of places: an error exactly where
/// nothing can be emitted for one of the methods, and else one or two
/// functions for each place.
pub proof fn lemma_bare_generation(
    methods: Seq<VersionedMethodView>,
    latest: Seq<usize>,
    wasm_only: bool,
)
    ensures
        match bare_generation(methods, latest, wasm_only) {
            Ok(out) => {
                &&& forall|k: int|
                    0 <= k < latest.len() ==> method_error(
                        methods[(#[trigger] latest[k]) as int].method,
                    ) is None
                &&& wasm_only ==> out.len() == latest.len() && forall|i: int|
                    0 <= i < out.len() ==> #[trigger] out[i] == guest_function(
                        methods[latest[i] as int].method,
                    )
                &&& !wasm_only ==> out.len() == 2 * latest.len() && forall|i: int|
                    0 <= i < out.len() ==> #[trigger] out[i] == if i % 2 == 0 {
                        host_latest_function(
                            methods[latest[i / 2] as int].method,
                            methods[latest[i / 2] as int].version,
                        )
                    } else {
                        guest_function(methods[latest[i / 2] as int].method)
                    }
            },
            Err(error) => exists|k: int|
                0 <= k < latest.len() && method_error(
                    methods[(#[trigger] latest[k]) as int].method,
                ) is Some,
        },
    decreases latest.len(),
{
    if latest.len() > 0 {
        let front = latest.drop_last();
        lemma_bare_generation(methods, front, wasm_only);
        let entry = methods[latest.last() as int];
        match bare_generation(methods, front, wasm_only) {
            Err(error) => {
                let k = choose|k: int|
                    0 <= k < front.len() && method_error(
                        methods[(#[trigger] front[k]) as int].method,
                    ) is Some;
                assert(latest[k] == front[k]);
            },
            Ok(before) => {
                if method_error(entry.method) is Some {
                    assert(latest[latest.len() - 1] == latest.last());
                } else {
                    let added = bare_functions(entry.method, entry.version, wasm_only);
                    let out = before + added;
                    assert(bare_generation(methods, latest, wasm_only) == Ok::<
                        Seq<EmittedFunctionView>,
                        GenerationError,
                    >(out));
                    assert forall|k: int| 0 <= k < latest.len() implies method_error(
                        methods[(#[trigger] latest[k]) as int].method,
                    ) is None by {
                        if k < front.len() {
                            assert(latest[k] == front[k]);
                        }
                    }
                    if wasm_only {
                        assert forall|i: int| 0 <= i < out.len() implies #[trigger] out[i]
                            == guest_function(methods[latest[i] as int].method) by {
                            if i < before.len() {
                                assert(out[i] == before[i]);
                                assert(latest[i] == front[i]);
                            } else {
                                assert(out[i] == added[i - before.len()]);
                            }
                        }
                    } else {
                        assert forall|i: int| 0 <= i < out.len() implies #[trigger] out[i] == if i
                            % 2 == 0 {
                            host_latest_function(
                                methods[latest[i / 2] as int].method,
                                methods[latest[i / 2] as int].version,
                            )
                        } else {
                            guest_function(methods[latest[i / 2] as int].method)
                        } by {
                            if i < before.len() {
                                assert(out[i] == before[i]);
                                assert(latest[i / 2] == front[i / 2]);
                            } else {
                                assert(out[i] == added[i - before.len()]);
                                assert(i / 2 == latest.len() - 1);
                            }
                        }
                    }
                }
            },
        }
    }
}

/// What `versioned_generation` gives for the first entries: an error exactly
/// where no host function can be emitted for one of them, and else one
/// function for each entry.
pub proof fn lemma_versioned_generation(
    trait_name: Seq<char>,
    methods: Seq<VersionedMethodView>,
    upto: int,
    wasm_only: bool,
)
    requires
        0 <= upto <= methods.len(),
    ensures
        match versioned_generation(trait_name, methods, upto, wasm_only) {
            Ok(out) => {
                &&& out.len() == upto
                &&& forall|i: int|
                    0 <= i < upto ==> host_function_error(
                        trait_name,
                        (#[trigger] methods[i]).method,
                    ) is None
                &&& forall|i: int|
                    0 <= i < upto ==> #[trigger] out[i] == host_versioned_function(
                        trait_name,
                        methods[i].method,
                        methods[i].version,
                        wasm_only,
                    )
            },
            Err(error) => exists|i: int|
                0 <= i < upto && host_function_error(trait_name, (#[trigger] methods[i]).method)
                    is Some,
        },
    decreases upto,
{
    if upto > 0 {
        lemma_versioned_generation(trait_name, methods, upto - 1, wasm_only);
        let entry = methods[upto - 1];
        match versioned_generation(trait_name, methods, upto - 1, wasm_only) {
            Err(error) => {},
            Ok(before) => {
                if host_function_error(trait_name, entry.method) is None {
                    let function = host_versioned_function(
                        trait_name,
                        entry.method,
                        entry.version,
                        wasm_only,
                    );
                    let out = before.push(function);
                    assert forall|i: int| 0 <= i < upto implies #[trigger] out[i]
                        == host_versioned_function(
                        trait_name,
                        methods[i].method,
                        methods[i].version,
                        wasm_only,
                    ) by {
                        if i < upto - 1 {
                            assert(out[i] == before[i]);
                        }
                    }
                }
            },
        }
    }
}

/// Generation succeeds exactly for the valid models, and then the output
/// holds, place by place, the functions that `function_at` names.
pub proof fn lemma_generation_shape(model: InterfaceModelView, wasm_only: bool)
    requires
        model.methods.len() <= usize::MAX,
    ensures
        match generation(model, wasm_only) {
            Ok(out) => {
                &&& is_valid_model(model)
                &&& out.len() == bare_count(model.methods, wasm_only) + model.methods.len()
                &&& forall|place: int|
                    0 <= place < out.len() ==> #[trigger] out[place] == function_at(
                        model,
                        wasm_only,
                        place,
                    )
            },
            Err(error) => !is_valid_model(model),
        },
{
    let methods = model.methods;
    let count = methods.len() as int;
    let latest = latest_places(methods);
    lemma_first_out_of_order(methods, 0);
    lemma_latest_indices(methods, count);
    lemma_bare_generation(methods, latest, wasm_only);
    lemma_versioned_generation(model.ident, methods, count, wasm_only);
    if interface_error(methods) is None {
        match bare_generation(methods, latest, wasm_only) {
            Err(error) => {
                let k = choose|k: int|
                    0 <= k < latest.len() && method_error(
                        methods[(#[trigger] latest[k]) as int].method,
                    ) is Some;
                assert(host_function_error(model.ident, methods[latest[k] as int].method) is Some);
            },
            Ok(bare) => {
                match versioned_generation(model.ident, methods, count, wasm_only) {
                    Err(error) => {},
                    Ok(versioned) => {
                        let out = bare + versioned;
                        assert forall|place: int|
                            0 <= place < out.len() implies #[trigger] out[place] == function_at(
                            model,
                            wasm_only,
                            place,
                        ) by {
                            if place < bare.len() {
                                assert(out[place] == bare[place]);
                            } else {
                                assert(out[place] == versioned[place - bare.len()]);
                            }
                        }
                    },
                }
            },
        }
    } else {
        let at = first_out_of_order(methods, 0)->Some_0;
        assert(!versions_increase(methods));
    }
}

} // verus!
