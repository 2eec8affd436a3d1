//! What holds of the output for every valid interface.
use vstd::prelude::*;
use crate::emitted::{
    BodyView, BuildFlag, Dispatch, EmittedFunctionView, forwarded_attributes, version_path,
};
use crate::error::GenerationError;
use crate::generate::{generated_tokens, generation, tokens_result};
use crate::interface::{
    argument_names, is_latest, lemma_latest_indices, out_of_order_at, takes_receiver,
    versions_increase,
};
use crate::model::{AttributeView, InterfaceModelView, VersionedMethodView};
use crate::names::{host_function_name, lemma_versioned_name_injective, versioned_name};
use crate::shape::{
    bare_count, function_at, is_valid_model, latest_places, lemma_generation_shape, source_of,
};

verus! {

/// The function is compiled in `build`, is public or not as `public` says, and
/// has the name `name`.
pub open spec fn is_function(
    function: EmittedFunctionView,
    build: BuildFlag,
    public: bool,
    name: Seq<char>,
) -> bool {
    function.build == build && function.public == public && function.name == name
}

/// Exactly one of the functions is compiled in `build`, public or not as
/// `public` says, and named `name`.
pub open spec fn has_exactly_one(
    functions: Seq<EmittedFunctionView>,
    build: BuildFlag,
    public: bool,
    name: Seq<char>,
) -> bool {
    exists|place: int|
        {
            &&& 0 <= place < functions.len()
            &&& is_function(#[trigger] functions[place], build, public, name)
            &&& forall|other: int|
                0 <= other < functions.len() && is_function(
                    #[trigger] functions[other],
                    build,
                    public,
                    name,
                ) ==> other == place
        }
}

/// None of the functions is compiled in `build`, public or not as `public`
/// says, and named `name`.
pub open spec fn has_none(
    functions: Seq<EmittedFunctionView>,
    build: BuildFlag,
    public: bool,
    name: Seq<char>,
) -> bool {
    forall|place: int|
        0 <= place < functions.len() ==> !is_function(
            #[trigger] functions[place],
            build,
            public,
            name,
        )
}

/// Something is generated for the valid interfaces and for no other.
pub proof fn law_valid_interfaces_generate(model: InterfaceModelView, wasm_only: bool)
    requires
        model.methods.len() <= usize::MAX,
    ensures
        generation(model, wasm_only) is Ok <==> is_valid_model(model),
        generated_tokens(model, wasm_only) is Ok <==> is_valid_model(model),
{
    lemma_generation_shape(model, wasm_only);
}

/// Every method has an entry that holds its latest version: the last entry
/// of its name.
pub proof fn lemma_method_has_latest(methods: Seq<VersionedMethodView>, place: int) -> (latest: int)
    requires
        0 <= place < methods.len(),
    ensures
        place <= latest < methods.len(),
        methods[latest].method.sig.ident == methods[place].method.sig.ident,
        is_latest(methods, latest),
    decreases methods.len() - place,
{
    if is_latest(methods, place) {
        place
    } else {
        let later = choose|later: int|
            place < later < methods.len() && #[trigger] methods[later].method.sig.ident
                == methods[place].method.sig.ident;
        lemma_method_has_latest(methods, later)
    }
}

/// In a list whose versions are in order, the entry that holds a method's
/// latest version holds its highest.
pub proof fn law_latest_version_is_highest(
    methods: Seq<VersionedMethodView>,
    latest: int,
    place: int,
)
    requires
        versions_increase(methods),
        0 <= latest < methods.len(),
        0 <= place < methods.len(),
        is_latest(methods, latest),
        methods[place].method.sig.ident == methods[latest].method.sig.ident,
    ensures
        place <= latest,
        methods[place].version <= methods[latest].version,
        place != latest ==> methods[place].version < methods[latest].version,
{
    if place > latest {
        assert(methods[place].method.sig.ident != methods[latest].method.sig.ident);
    }
    if place < latest {
        assert(!out_of_order_at(methods, latest));
        assert(methods[place].method.sig.ident == methods[latest].method.sig.ident);
    }
}

/// Two entries of the same method at the same version are one entry.
pub proof fn lemma_entries_differ(methods: Seq<VersionedMethodView>, first: int, second: int)
    requires
        versions_increase(methods),
        0 <= first < methods.len(),
        0 <= second < methods.len(),
        methods[first].method.sig.ident == methods[second].method.sig.ident,
        methods[first].version == methods[second].version,
    ensures
        first == second,
{
    if first < second {
        assert(!out_of_order_at(methods, second));
        assert(methods[first].method.sig.ident == methods[second].method.sig.ident);
    }
    if second < first {
        assert(!out_of_order_at(methods, first));
        assert(methods[second].method.sig.ident == methods[first].method.sig.ident);
    }
}

/// For every method of a valid interface the output holds exactly one public
/// function of the guest build with the method's name. It holds exactly one
/// public function of the host build with that name unless the interface is
/// wasm-only, and none if it is.
pub proof fn law_one_bare_function_per_method(
    model: InterfaceModelView,
    wasm_only: bool,
    place: int,
)
    requires
        model.methods.len() <= usize::MAX,
        is_valid_model(model),
        0 <= place < model.methods.len(),
    ensures
        generation(model, wasm_only) is Ok,
        has_exactly_one(
            generation(model, wasm_only)->Ok_0,
            BuildFlag::Guest,
            true,
            model.methods[place].method.sig.ident,
        ),
        !wasm_only ==> has_exactly_one(
            generation(model, wasm_only)->Ok_0,
            BuildFlag::Host,
            true,
            model.methods[place].method.sig.ident,
        ),
        wasm_only ==> has_none(
            generation(model, wasm_only)->Ok_0,
            BuildFlag::Host,
            true,
            model.methods[place].method.sig.ident,
        ),
{
    let methods = model.methods;
    let name = methods[place].method.sig.ident;
    let latest = latest_places(methods);
    lemma_generation_shape(model, wasm_only);
    lemma_latest_indices(methods, methods.len() as int);
    let out = generation(model, wasm_only)->Ok_0;
    let last = lemma_method_has_latest(methods, place);
    let k = choose|k: int| 0 <= k < latest.len() && (#[trigger] latest[k]) == last;
    let guest_place = if wasm_only {
        k
    } else {
        2 * k + 1
    };
    assert(out[guest_place] == function_at(model, wasm_only, guest_place));
    assert forall|other: int|
        0 <= other < out.len() && is_function(
            #[trigger] out[other],
            BuildFlag::Guest,
            true,
            name,
        ) implies other == guest_place by {
        assert(out[other] == function_at(model, wasm_only, other));
        let j = if wasm_only {
            other
        } else {
            other / 2
        };
        lemma_same_name_same_latest(methods, latest[j] as int, last);
        if j < k {
            assert(latest[j] < latest[k]);
        }
        if k < j {
            assert(latest[k] < latest[j]);
        }
    }
    assert(is_function(out[guest_place], BuildFlag::Guest, true, name));
    if wasm_only {
        assert forall|other: int| 0 <= other < out.len() implies !is_function(
            #[trigger] out[other],
            BuildFlag::Host,
            true,
            name,
        ) by {
            assert(out[other] == function_at(model, wasm_only, other));
        }
    } else {
        let host_place = 2 * k;
        assert(out[host_place] == function_at(model, wasm_only, host_place));
        assert forall|other: int|
            0 <= other < out.len() && is_function(
                #[trigger] out[other],
                BuildFlag::Host,
                true,
                name,
            ) implies other == host_place by {
            assert(out[other] == function_at(model, wasm_only, other));
            let j = other / 2;
            lemma_same_name_same_latest(methods, latest[j] as int, last);
            if j < k {
                assert(latest[j] < latest[k]);
            }
            if k < j {
                assert(latest[k] < latest[j]);
            }
        }
        assert(is_function(out[host_place], BuildFlag::Host, true, name));
    }
}

/// Two entries that both hold a latest version, of methods of the same name,
/// are one entry.
pub proof fn lemma_same_name_same_latest(
    methods: Seq<VersionedMethodView>,
    first: int,
    second: int,
)
    requires
        0 <= first < methods.len(),
        0 <= second < methods.len(),
        is_latest(methods, first),
        is_latest(methods, second),
        methods[first].method.sig.ident == methods[second].method.sig.ident,
    ensures
        first == second,
{
    if first < second {
        assert(methods[second].method.sig.ident != methods[first].method.sig.ident);
    }
    if second < first {
        assert(methods[first].method.sig.ident != methods[second].method.sig.ident);
    }
}

/// For every version of every method of a valid interface the output holds
/// exactly one function of the host build that is not public and has the
/// versioned name of the method.
pub proof fn law_one_host_function_per_version(
    model: InterfaceModelView,
    wasm_only: bool,
    place: int,
)
    requires
        model.methods.len() <= usize::MAX,
        is_valid_model(model),
        0 <= place < model.methods.len(),
    ensures
        generation(model, wasm_only) is Ok,
        has_exactly_one(
            generation(model, wasm_only)->Ok_0,
            BuildFlag::Host,
            false,
            versioned_name(model.methods[place].method.sig.ident, model.methods[place].version),
        ),
{
    let methods = model.methods;
    let name = versioned_name(methods[place].method.sig.ident, methods[place].version);
    lemma_generation_shape(model, wasm_only);
    let out = generation(model, wasm_only)->Ok_0;
    let bare = bare_count(methods, wasm_only);
    let at = bare + place;
    assert(out[at] == function_at(model, wasm_only, at));
    assert forall|other: int|
        0 <= other < out.len() && is_function(
            #[trigger] out[other],
            BuildFlag::Host,
            false,
            name,
        ) implies other == at by {
        assert(out[other] == function_at(model, wasm_only, other));
        let source = other - bare;
        lemma_versioned_name_injective(
            methods[source].method.sig.ident,
            methods[source].version,
            methods[place].method.sig.ident,
            methods[place].version,
        );
        lemma_entries_differ(methods, source, place);
    }
    assert(is_function(out[at], BuildFlag::Host, false, name));
}

/// The attributes that are passed on are those whose path is not `version`,
/// in their order.
pub proof fn law_forwarded_attributes_filter(attrs: Seq<AttributeView>)
    ensures
        forwarded_attributes(attrs) == attrs.filter(
            |attribute: AttributeView| attribute.path != version_path(),
        ),
    decreases attrs.len(),
{
    reveal(Seq::filter);
    if attrs.len() > 0 {
        law_forwarded_attributes_filter(attrs.drop_last());
    }
}

/// Every function in the output of a valid interface carries the attributes of
/// the method that it is emitted for, without those whose path is `version`.
pub proof fn law_attributes_are_forwarded(model: InterfaceModelView, wasm_only: bool, place: int)
    requires
        model.methods.len() <= usize::MAX,
        is_valid_model(model),
        0 <= place < bare_count(model.methods, wasm_only) + model.methods.len(),
    ensures
        generation(model, wasm_only) is Ok,
        0 <= source_of(model.methods, wasm_only, place) < model.methods.len(),
        generation(model, wasm_only)->Ok_0[place].attrs == model.methods[source_of(
            model.methods,
            wasm_only,
            place,
        )].method.attrs.filter(|attribute: AttributeView| attribute.path != version_path()),
{
    lemma_generation_shape(model, wasm_only);
    lemma_latest_indices(model.methods, model.methods.len() as int);
    let out = generation(model, wasm_only)->Ok_0;
    let source = source_of(model.methods, wasm_only, place);
    assert(out[place] == function_at(model, wasm_only, place));
    law_forwarded_attributes_filter(model.methods[source].method.attrs);
}

/// The public function of the host build hands the names of the method's
/// arguments, in order, to the method's implementation at its latest version.
pub proof fn law_host_function_calls_latest_version(
    model: InterfaceModelView,
    wasm_only: bool,
    place: int,
)
    requires
        model.methods.len() <= usize::MAX,
        is_valid_model(model),
        0 <= place < bare_count(model.methods, wasm_only) + model.methods.len(),
        generation(model, wasm_only)->Ok_0[place].build == BuildFlag::Host,
        generation(model, wasm_only)->Ok_0[place].public,
    ensures
        generation(model, wasm_only) is Ok,
        0 <= source_of(model.methods, wasm_only, place) < model.methods.len(),
        is_latest(model.methods, source_of(model.methods, wasm_only, place)),
        ({
            let entry = model.methods[source_of(model.methods, wasm_only, place)];
            generation(model, wasm_only)->Ok_0[place].body == (BodyView::CallVersion {
                callee: versioned_name(entry.method.sig.ident, entry.version),
                arguments: argument_names(entry.method.sig.inputs),
            })
        }),
{
    lemma_generation_shape(model, wasm_only);
    lemma_latest_indices(model.methods, model.methods.len() as int);
    let out = generation(model, wasm_only)->Ok_0;
    assert(out[place] == function_at(model, wasm_only, place));
}

/// The function of the guest build hands the names of the method's arguments,
/// in order, to the exchangeable host function of the method.
pub proof fn law_guest_function_calls_host_function(
    model: InterfaceModelView,
    wasm_only: bool,
    place: int,
)
    requires
        model.methods.len() <= usize::MAX,
        is_valid_model(model),
        0 <= place < bare_count(model.methods, wasm_only) + model.methods.len(),
        generation(model, wasm_only)->Ok_0[place].build == BuildFlag::Guest,
    ensures
        generation(model, wasm_only) is Ok,
        0 <= source_of(model.methods, wasm_only, place) < model.methods.len(),
        ({
            let entry = model.methods[source_of(model.methods, wasm_only, place)];
            generation(model, wasm_only)->Ok_0[place].body == (BodyView::CallHostFunction {
                host_function: host_function_name(entry.method.sig.ident),
                arguments: argument_names(entry.method.sig.inputs),
            })
        }),
{
    lemma_generation_shape(model, wasm_only);
    lemma_latest_indices(model.methods, model.methods.len() as int);
    let out = generation(model, wasm_only)->Ok_0;
    assert(out[place] == function_at(model, wasm_only, place));
}

/// The function that is not public calls the method of its own name of the
/// trait, with the names of the method's arguments in order. The trait is
/// reached inside `with_externalities` where the method takes a receiver, on the
/// function context where it takes a receiver and the interface is wasm-only,
/// and else as implemented for the externalities, or for the function context
/// where the interface is wasm-only. The function takes the function context
/// as its last parameter exactly where the interface is wasm-only.
pub proof fn law_versioned_function_dispatch(model: InterfaceModelView, wasm_only: bool, place: int)
    requires
        model.methods.len() <= usize::MAX,
        is_valid_model(model),
        0 <= place < bare_count(model.methods, wasm_only) + model.methods.len(),
        !generation(model, wasm_only)->Ok_0[place].public,
    ensures
        generation(model, wasm_only) is Ok,
        0 <= source_of(model.methods, wasm_only, place) < model.methods.len(),
        ({
            let entry = model.methods[source_of(model.methods, wasm_only, place)];
            let function = generation(model, wasm_only)->Ok_0[place];
            let receiver = takes_receiver(entry.method.sig);
            &&& function.body matches BodyView::CallTrait {
                span_name,
                trait_name,
                method,
                arguments,
                dispatch,
            }
            &&& trait_name == model.ident
            &&& method == versioned_name(entry.method.sig.ident, entry.version)
            &&& arguments == argument_names(entry.method.sig.inputs)
            &&& (receiver && !wasm_only ==> dispatch == Dispatch::WithExternalities)
            &&& (receiver && wasm_only ==> dispatch == Dispatch::OnFunctionContext)
            &&& (!receiver && !wasm_only ==> dispatch == Dispatch::ForExternalities)
            &&& (!receiver && wasm_only ==> dispatch == Dispatch::ForFunctionContext)
            &&& function.context_parameter == wasm_only
            &&& (receiver ==> (function.context_parameter <==> wasm_only && receiver))
        }),
{
    lemma_generation_shape(model, wasm_only);
    lemma_latest_indices(model.methods, model.methods.len() as int);
    let out = generation(model, wasm_only)->Ok_0;
    assert(out[place] == function_at(model, wasm_only, place));
}

/// The tracing span that a function of the host enters first carries the
/// function's own name: the versioned name of the method.
pub proof fn law_span_carries_versioned_name(model: InterfaceModelView, wasm_only: bool, place: int)
    requires
        model.methods.len() <= usize::MAX,
        is_valid_model(model),
        0 <= place < bare_count(model.methods, wasm_only) + model.methods.len(),
        !generation(model, wasm_only)->Ok_0[place].public,
    ensures
        generation(model, wasm_only) is Ok,
        0 <= source_of(model.methods, wasm_only, place) < model.methods.len(),
        ({
            let entry = model.methods[source_of(model.methods, wasm_only, place)];
            let function = generation(model, wasm_only)->Ok_0[place];
            &&& function.body is CallTrait
            &&& function.body->span_name == versioned_name(entry.method.sig.ident, entry.version)
            &&& function.body->span_name == function.name
        }),
{
    lemma_generation_shape(model, wasm_only);
    lemma_latest_indices(model.methods, model.methods.len() as int);
    let out = generation(model, wasm_only)->Ok_0;
    assert(out[place] == function_at(model, wasm_only, place));
}

/// Two runs of `generate` on the same interface give the same tokens, or the
/// same error.
pub proof fn law_generation_repeats(
    model: InterfaceModelView,
    wasm_only: bool,
    first: Result<proc_macro2::TokenStream, GenerationError>,
    second: Result<proc_macro2::TokenStream, GenerationError>,
)
    requires
        tokens_result(first) == generated_tokens(model, wasm_only),
        tokens_result(second) == generated_tokens(model, wasm_only),
    ensures
        tokens_result(first) == tokens_result(second),
{
}

} // verus!
