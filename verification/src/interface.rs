//! The two orders in which the generator walks the methods of an interface:
//! every method at its latest version, and every version of every method.
use vstd::prelude::*;
use crate::model::{
    Argument, ArgumentView, InterfaceModel, Signature, SignatureView, TypedArgument,
    TypedArgumentView, VersionedMethodView,
};
use crate::error::{ErrorKind, GenerationError};

verus! {

/// The entry at `later` declares the same method as an entry before it, at a
/// version that is not above that entry's.
pub open spec fn out_of_order_at(methods: Seq<VersionedMethodView>, later: int) -> bool {
    exists|earlier: int|
        0 <= earlier < later && #[trigger] methods[earlier].method.sig.ident
            == methods[later].method.sig.ident && methods[earlier].version
            >= methods[later].version
}

/// The versions of each method rise strictly in the order of the entries.
pub open spec fn versions_increase(methods: Seq<VersionedMethodView>) -> bool {
    forall|later: int| 0 <= later < methods.len() ==> !out_of_order_at(methods, later)
}

/// The first entry from `from` on that is out of order.
pub open spec fn first_out_of_order(methods: Seq<VersionedMethodView>, from: int) -> Option<int>
    decreases methods.len() - from,
{
    if from < 0 || from >= methods.len() {
        None
    } else if out_of_order_at(methods, from) {
        Some(from)
    } else {
        first_out_of_order(methods, from + 1)
    }
}

/// No entry behind `index` declares the same method: the entry holds the
/// method's latest version.
pub open spec fn is_latest(methods: Seq<VersionedMethodView>, index: int) -> bool {
    forall|later: int|
        index < later < methods.len() ==> #[trigger] methods[later].method.sig.ident
            != methods[index].method.sig.ident
}

/// The places among the first `upto` entries that hold a latest version, in
/// rising order.
pub open spec fn latest_indices(methods: Seq<VersionedMethodView>, upto: int) -> Seq<usize>
    decreases upto,
{
    if upto <= 0 {
        Seq::empty()
    } else if is_latest(methods, upto - 1) {
        latest_indices(methods, upto - 1).push((upto - 1) as usize)
    } else {
        latest_indices(methods, upto - 1)
    }
}

/// What the generator walks: the methods of a model whose versions are in
/// order.
pub struct RuntimeInterface {
    /// The places in the model's list of the entries that hold a method's
    /// latest version.
    pub latest: Vec<usize>,
}

impl RuntimeInterface {
    /// The interface belongs to this list of methods.
    pub open spec fn describes(&self, methods: Seq<VersionedMethodView>) -> bool {
        &&& versions_increase(methods)
        &&& self.latest@ == latest_indices(methods, methods.len() as int)
    }

    /// The places of the latest versions, each method once.
    pub fn latest_versions(&self) -> (places: &Vec<usize>)
        ensures
            places@ == self.latest@,
    {
        &self.latest
    }
}

/// What `get_runtime_interface` answers for a list of methods: the error of the
/// first entry that is out of order, if there is one.
pub open spec fn interface_error(methods: Seq<VersionedMethodView>) -> Option<GenerationError> {
    match first_out_of_order(methods, 0) {
        Some(at) => Some(
            GenerationError { kind: ErrorKind::VersionOrder, span: methods[at].method.span },
        ),
        None => None,
    }
}

/// `first_out_of_order` finds the least entry that is out of order, and none
/// only where none is.
pub proof fn lemma_first_out_of_order(methods: Seq<VersionedMethodView>, from: int)
    requires
        0 <= from <= methods.len(),
    ensures
        match first_out_of_order(methods, from) {
            Some(at) => from <= at < methods.len() && out_of_order_at(methods, at) && forall|k: int|
                from <= k < at ==> !out_of_order_at(methods, k),
            None => forall|k: int| from <= k < methods.len() ==> !out_of_order_at(methods, k),
        },
    decreases methods.len() - from,
{
    if from < methods.len() && !out_of_order_at(methods, from) {
        lemma_first_out_of_order(methods, from + 1);
    }
}

/// The places of the latest versions rise, lie in the list, and are exactly
/// the places that hold a latest version.
pub proof fn lemma_latest_indices(methods: Seq<VersionedMethodView>, upto: int)
    requires
        0 <= upto <= methods.len() <= usize::MAX,
    ensures
        forall|k: int|
            0 <= k < latest_indices(methods, upto).len() ==> 0 <= (#[trigger] latest_indices(
                methods,
                upto,
            )[k]) < upto && is_latest(methods, latest_indices(methods, upto)[k] as int),
        forall|j: int, k: int|
            0 <= j < k < latest_indices(methods, upto).len() ==> (#[trigger] latest_indices(
                methods,
                upto,
            )[j]) < (#[trigger] latest_indices(methods, upto)[k]),
        forall|place: int|
            0 <= place < upto && is_latest(methods, place) ==> exists|k: int|
                0 <= k < latest_indices(methods, upto).len() && (#[trigger] latest_indices(
                    methods,
                    upto,
                )[k]) == place,
    decreases upto,
{
    if upto > 0 {
        lemma_latest_indices(methods, upto - 1);
        let before = latest_indices(methods, upto - 1);
        let places = latest_indices(methods, upto);
        if is_latest(methods, upto - 1) {
            assert(places == before.push((upto - 1) as usize));
            assert forall|k: int| 0 <= k < places.len() implies 0 <= (#[trigger] places[k]) < upto
                && is_latest(methods, places[k] as int) by {
                if k < before.len() {
                    assert(places[k] == before[k]);
                }
            }
            assert forall|j: int, k: int| 0 <= j < k < places.len() implies (#[trigger] places[j])
                < (#[trigger] places[k]) by {
                assert(places[j] == before[j]);
                if k < before.len() {
                    assert(places[k] == before[k]);
                }
            }
            assert forall|place: int| 0 <= place < upto && is_latest(methods, place) implies exists|
                k: int,
            |
                0 <= k < places.len() && (#[trigger] places[k]) == place by {
                if place < upto - 1 {
                    let k = choose|k: int|
                        0 <= k < before.len() && (#[trigger] before[k]) == place;
                    assert(places[k] == place);
                } else {
                    assert(places[before.len() as int] == place);
                }
            }
        } else {
            assert(places == before);
            assert forall|place: int| 0 <= place < upto && is_latest(methods, place) implies exists|
                k: int,
            |
                0 <= k < places.len() && (#[trigger] places[k]) == place by {
                let k = choose|k: int| 0 <= k < before.len() && (#[trigger] before[k]) == place;
                assert(places[k] == place);
            }
        }
    }
}

/// Says whether the entry at `later` is out of order.
fn is_out_of_order(model: &InterfaceModel, later: usize) -> (yes: bool)
    requires
        later < model.methods.len(),
    ensures
        yes == out_of_order_at(model@.methods, later as int),
{
    let ghost methods = model@.methods;
    let mut earlier: usize = 0;
    while earlier < later
        invariant
            earlier <= later < model.methods.len(),
            methods == model@.methods,
            forall|e: int|
                0 <= e < earlier ==> !(#[trigger] methods[e].method.sig.ident
                    == methods[later as int].method.sig.ident && methods[e].version
                    >= methods[later as int].version),
        decreases later - earlier,
    {
        assert(methods[earlier as int] == model.methods@[earlier as int]@);
        assert(methods[later as int] == model.methods@[later as int]@);
        if model.methods[earlier].method.sig.ident == model.methods[later].method.sig.ident
            && model.methods[earlier].version >= model.methods[later].version {
            assert(methods[earlier as int].method.sig.ident
                == methods[later as int].method.sig.ident);
            return true;
        }
        earlier += 1;
    }
    false
}

/// Says whether the entry at `index` holds the latest version of its method.
fn holds_latest(model: &InterfaceModel, index: usize) -> (yes: bool)
    requires
        index < model.methods.len(),
    ensures
        yes == is_latest(model@.methods, index as int),
{
    let ghost methods = model@.methods;
    let mut later: usize = index + 1;
    while later < model.methods.len()
        invariant
            index < later <= model.methods.len(),
            methods == model@.methods,
            forall|l: int|
                index < l < later ==> #[trigger] methods[l].method.sig.ident
                    != methods[index as int].method.sig.ident,
        decreases model.methods.len() - later,
    {
        assert(methods[later as int] == model.methods@[later as int]@);
        assert(methods[index as int] == model.methods@[index as int]@);
        if model.methods[later].method.sig.ident == model.methods[index].method.sig.ident {
            assert(methods[later as int].method.sig.ident
                == methods[index as int].method.sig.ident);
            return false;
        }
        later += 1;
    }
    true
}

/// Checks that the versions of every method are in order, and finds the
/// latest version of each.
///
/// Fails on the first entry whose version is not above that of an earlier entry
/// of the same method.
pub fn get_runtime_interface(model: &InterfaceModel) -> (result: Result<
    RuntimeInterface,
    GenerationError,
>)
    ensures
        match result {
            Ok(interface) => interface_error(model@.methods) is None && interface.describes(
                model@.methods,
            ),
            Err(error) => interface_error(model@.methods) == Some(error),
        },
{
    let ghost methods = model@.methods;
    let count = model.methods.len();
    let mut index: usize = 0;
    while index < count
        invariant
            index <= count,
            count == model.methods.len(),
            methods == model@.methods,
            first_out_of_order(methods, 0) == first_out_of_order(methods, index as int),
        decreases count - index,
    {
        if is_out_of_order(model, index) {
            return Err(
                GenerationError {
                    kind: ErrorKind::VersionOrder,
                    span: model.methods[index].method.span,
                },
            );
        }
        index += 1;
    }
    proof {
        lemma_first_out_of_order(methods, 0);
    }
    let mut latest: Vec<usize> = Vec::new();
    let mut index: usize = 0;
    while index < count
        invariant
            index <= count,
            count == model.methods.len(),
            methods == model@.methods,
            latest@ == latest_indices(methods, index as int),
        decreases count - index,
    {
        if holds_latest(model, index) {
            latest.push(index);
        }
        index += 1;
    }
    Ok(RuntimeInterface { latest })
}

/// The method's first input is the receiver.
pub open spec fn takes_receiver(sig: SignatureView) -> bool {
    sig.inputs.len() > 0 && sig.inputs[0] is Receiver
}

/// The declared arguments among the inputs, in order; the receiver is left
/// out.
pub open spec fn typed_arguments(inputs: Seq<ArgumentView>) -> Seq<TypedArgumentView>
    decreases inputs.len(),
{
    if inputs.len() == 0 {
        Seq::empty()
    } else {
        match inputs.last() {
            ArgumentView::Typed(argument) => typed_arguments(inputs.drop_last()).push(argument),
            ArgumentView::Receiver => typed_arguments(inputs.drop_last()),
        }
    }
}

/// The names of the declared arguments, in order.
pub open spec fn argument_names(inputs: Seq<ArgumentView>) -> Seq<Seq<char>> {
    typed_arguments(inputs).map_values(|argument: TypedArgumentView| argument.name)
}

/// Returns if the given signature takes a `self` argument.
pub fn takes_self_argument(sig: &Signature) -> (yes: bool)
    ensures
        yes == takes_receiver(sig@),
{
    if sig.inputs.len() == 0 {
        return false;
    }
    assert(sig@.inputs[0] == sig.inputs@[0]@);
    match &sig.inputs[0] {
        Argument::Receiver => true,
        Argument::Typed(_) => false,
    }
}

/// A copy of a declared argument.
pub fn copy_argument(argument: &TypedArgument) -> (copy: TypedArgument)
    ensures
        copy@ == argument@,
{
    TypedArgument { name: argument.name.clone(), ty: argument.ty.clone() }
}

/// The declared arguments of a signature, without the receiver.
pub fn get_function_arguments(sig: &Signature) -> (arguments: Vec<TypedArgument>)
    ensures
        arguments.deep_view() == typed_arguments(sig@.inputs),
{
    let ghost inputs = sig@.inputs;
    let mut arguments: Vec<TypedArgument> = Vec::new();
    let mut index: usize = 0;
    assert(inputs.take(0) =~= Seq::empty());
    while index < sig.inputs.len()
        invariant
            index <= sig.inputs.len(),
            inputs == sig@.inputs,
            arguments.deep_view() =~= typed_arguments(inputs.take(index as int)),
        decreases sig.inputs.len() - index,
    {
        assert(inputs.take(index + 1).drop_last() =~= inputs.take(index as int));
        assert(inputs.take(index + 1).last() == sig.inputs@[index as int]@);
        match &sig.inputs[index] {
            Argument::Typed(argument) => {
                arguments.push(copy_argument(argument));
            },
            Argument::Receiver => {},
        }
        index += 1;
    }
    assert(inputs.take(index as int) =~= inputs);
    arguments
}

/// The names of the declared arguments of a signature, without the receiver.
pub fn get_function_argument_names(sig: &Signature) -> (names: Vec<String>)
    ensures
        names.deep_view() == argument_names(sig@.inputs),
        names.len() == typed_arguments(sig@.inputs).len(),
{
    let ghost inputs = sig@.inputs;
    let mut names: Vec<String> = Vec::new();
    let mut index: usize = 0;
    assert(inputs.take(0) =~= Seq::empty());
    while index < sig.inputs.len()
        invariant
            index <= sig.inputs.len(),
            inputs == sig@.inputs,
            names.deep_view() =~= argument_names(inputs.take(index as int)),
        decreases sig.inputs.len() - index,
    {
        assert(inputs.take(index + 1).drop_last() =~= inputs.take(index as int));
        assert(inputs.take(index + 1).last() == sig.inputs@[index as int]@);
        match &sig.inputs[index] {
            Argument::Typed(argument) => {
                let ghost before = names.deep_view();
                names.push(argument.name.clone());
                assert(typed_arguments(inputs.take(index + 1)) == typed_arguments(
                    inputs.take(index as int),
                ).push(argument@));
                assert(names.deep_view() =~= before.push(argument@.name));
            },
            Argument::Receiver => {},
        }
        index += 1;
    }
    assert(inputs.take(index as int) =~= inputs);
    names
}

} // verus!
