use bare_interface::emit::{
    check_method, forward_attributes, function_for_method, function_no_std_impl,
    function_std_impl, function_std_latest_impl, generate_call_to_trait,
};
use bare_interface::emitted::{Body, BuildFlag, Dispatch};
use bare_interface::error::{ErrorKind, GenerationError};
use bare_interface::generate::{emitted_functions, generate};
use bare_interface::interface::{
    get_function_argument_names, get_function_arguments, get_runtime_interface,
    takes_self_argument,
};
use bare_interface::model::{
    Argument, Attribute, InterfaceModel, Method, Signature, TypedArgument, VersionedMethod,
};
use bare_interface::write::{is_renderable_function, missing_environment_text, render_functions};
use proc_macro2::{Span, TokenStream};

fn stream(text: &str) -> TokenStream {
    text.parse().unwrap()
}

fn same_tokens(text: &str) -> String {
    stream(text).to_string()
}

fn named(name: &str, ty: &str) -> Argument {
    Argument::Typed(TypedArgument { name: name.to_string(), ty: stream(ty) })
}

fn plain_method(name: &str, inputs: Vec<Argument>, output: Option<&str>) -> Method {
    Method {
        attrs: vec![],
        sig: Signature { ident: name.to_string(), inputs, output: output.map(stream) },
        span: Span::call_site(),
    }
}

fn at(version: u32, method: Method) -> VersionedMethod {
    VersionedMethod { version, method }
}

fn trait_of(name: &str, methods: Vec<VersionedMethod>) -> InterfaceModel {
    InterfaceModel {
        ident: name.to_string(),
        crate_path: stream("rt"),
        methods,
    }
}

fn kind_of<T>(result: Result<T, GenerationError>) -> ErrorKind {
    match result {
        Ok(_) => panic!("an error was expected"),
        Err(error) => error.kind,
    }
}

#[test]
fn receiver_is_the_first_input_only() {
    let with = plain_method("m", vec![Argument::Receiver, named("a", "u8")], None);
    let without = plain_method("m", vec![named("a", "u8")], None);
    let none = plain_method("m", vec![], None);
    let late = plain_method("m", vec![named("a", "u8"), Argument::Receiver], None);
    assert!(takes_self_argument(&with.sig));
    assert!(!takes_self_argument(&without.sig));
    assert!(!takes_self_argument(&none.sig));
    assert!(!takes_self_argument(&late.sig));
}

#[test]
fn arguments_without_the_receiver() {
    let method = plain_method(
        "m",
        vec![Argument::Receiver, named("a", "u8"), named("b", "& [u8]")],
        None,
    );
    let arguments = get_function_arguments(&method.sig);
    let names = get_function_argument_names(&method.sig);
    assert_eq!(arguments.len(), 2);
    assert_eq!(names, vec!["a".to_string(), "b".to_string()]);
    assert_eq!(arguments[0].name, "a");
    assert_eq!(arguments[1].name, "b");
    assert_eq!(arguments[1].ty.to_string(), same_tokens("& [u8]"));
    let empty = plain_method("m", vec![Argument::Receiver], None);
    assert!(get_function_arguments(&empty.sig).is_empty());
    assert!(get_function_argument_names(&empty.sig).is_empty());
}

#[test]
fn latest_versions_of_interleaved_methods() {
    let a = |v| at(v, plain_method("a", vec![], None));
    let b = |v| at(v, plain_method("b", vec![], None));
    let model = trait_of("I", vec![a(1), b(1), a(2), b(5), a(3), at(1, plain_method("c", vec![], None))]);
    let interface = get_runtime_interface(&model).unwrap();
    assert_eq!(interface.latest_versions(), &vec![3usize, 4, 5]);
    let empty = trait_of("I", vec![]);
    assert!(get_runtime_interface(&empty).unwrap().latest.is_empty());
}

#[test]
fn versions_out_of_order_are_refused() {
    let a = |v| at(v, plain_method("a", vec![], None));
    let b = |v| at(v, plain_method("b", vec![], None));
    assert_eq!(kind_of(get_runtime_interface(&trait_of("I", vec![a(2), b(1), a(1)]))), ErrorKind::VersionOrder);
    assert_eq!(kind_of(get_runtime_interface(&trait_of("I", vec![a(2), a(2)]))), ErrorKind::VersionOrder);
    assert!(get_runtime_interface(&trait_of("I", vec![a(2), b(1), a(7)])).is_ok());
}

#[test]
fn every_attribute_but_version_is_forwarded() {
    let attr = |path: &str, text: &str| Attribute { path: path.to_string(), tokens: stream(text) };
    let attrs = vec![
        attr("version", "# [version (3)]"),
        attr("doc", "# [doc = \"a\"]"),
        attr("version", "# [version (4)]"),
        attr("my::version", "# [my :: version]"),
        attr("inline", "# [inline]"),
    ];
    let forwarded = forward_attributes(&attrs);
    let paths: Vec<&str> = forwarded.iter().map(|a| a.path.as_str()).collect();
    assert_eq!(paths, vec!["doc", "my::version", "inline"]);
    assert_eq!(forwarded[1].tokens.to_string(), same_tokens("# [my :: version]"));
    assert!(forward_attributes(&vec![]).is_empty());
}

#[test]
fn method_names_and_argument_names_are_checked() {
    assert_eq!(check_method(&plain_method("len", vec![named("x", "u32")], None)), None);
    assert_eq!(check_method(&plain_method("1en", vec![], None)), Some(ErrorKind::MethodName));
    assert_eq!(check_method(&plain_method("", vec![], None)), Some(ErrorKind::MethodName));
    assert_eq!(
        check_method(&plain_method("len", vec![named("x", "u32"), named("(a, b)", "u32")], None)),
        Some(ErrorKind::ArgumentName)
    );
    assert_eq!(
        check_method(&plain_method("len", vec![named("__externalities__", "u32")], None)),
        Some(ErrorKind::ArgumentName)
    );
    assert_eq!(
        check_method(&plain_method("len", vec![named("__function_context__", "u32")], None)),
        Some(ErrorKind::ArgumentName)
    );
    assert_eq!(
        check_method(&plain_method("l en", vec![named("1", "u32")], None)),
        Some(ErrorKind::MethodName)
    );
}

#[test]
fn guest_function_of_a_method() {
    let method = plain_method("len", vec![Argument::Receiver, named("x", "u32")], Some("u32"));
    let function = function_no_std_impl(&method).unwrap();
    assert_eq!(function.build, BuildFlag::Guest);
    assert!(function.public);
    assert!(!function.context_parameter);
    assert_eq!(function.name, "len");
    assert_eq!(function.arguments.len(), 1);
    assert_eq!(function.output.as_ref().unwrap().to_string(), same_tokens("u32"));
    match &function.body {
        Body::CallHostFunction { host_function, arguments } => {
            assert_eq!(host_function, "host_len");
            assert_eq!(arguments, &vec!["x".to_string()]);
        },
        other => panic!("unexpected body {:?}", other),
    }
    assert_eq!(kind_of(function_no_std_impl(&plain_method("le n", vec![], None))), ErrorKind::MethodName);
}

#[test]
fn host_function_of_the_latest_version() {
    let method = plain_method("len", vec![named("x", "u32"), named("y", "u8")], None);
    let function = function_std_latest_impl(&method, 12).unwrap();
    assert_eq!(function.build, BuildFlag::Host);
    assert!(function.public);
    assert!(!function.context_parameter);
    assert_eq!(function.name, "len");
    assert!(function.output.is_none());
    match &function.body {
        Body::CallVersion { callee, arguments } => {
            assert_eq!(callee, "len_version_12");
            assert_eq!(arguments, &vec!["x".to_string(), "y".to_string()]);
        },
        other => panic!("unexpected body {:?}", other),
    }
    assert_eq!(
        kind_of(function_std_latest_impl(&plain_method("len", vec![named("", "u8")], None), 1)),
        ErrorKind::ArgumentName
    );
}

#[test]
fn bare_functions_of_a_method() {
    let method = plain_method("len", vec![named("x", "u32")], None);
    let both = function_for_method(&method, 2, false).unwrap();
    assert_eq!(both.len(), 2);
    assert_eq!(both[0].build, BuildFlag::Host);
    assert_eq!(both[1].build, BuildFlag::Guest);
    let guest_only = function_for_method(&method, 2, true).unwrap();
    assert_eq!(guest_only.len(), 1);
    assert_eq!(guest_only[0].build, BuildFlag::Guest);
    assert_eq!(
        kind_of(function_for_method(&plain_method("-", vec![], None), 2, true)),
        ErrorKind::MethodName
    );
}

#[test]
fn call_to_the_trait() {
    let method = plain_method("put", vec![Argument::Receiver, named("k", "u32")], None);
    match generate_call_to_trait("Io", &method, 3, false) {
        Body::CallTrait { span_name, trait_name, method, arguments, dispatch } => {
            assert_eq!(span_name, "put_version_3");
            assert_eq!(trait_name, "Io");
            assert_eq!(method, "put_version_3");
            assert_eq!(arguments, vec!["k".to_string()]);
            assert_eq!(dispatch, Dispatch::WithExternalities);
        },
        other => panic!("unexpected body {:?}", other),
    }
}

#[test]
fn versioned_host_function() {
    let method = plain_method("put", vec![Argument::Receiver, named("k", "u32")], Some("bool"));
    let function = function_std_impl("Io", &method, 3, true).unwrap();
    assert_eq!(function.build, BuildFlag::Host);
    assert!(!function.public);
    assert!(function.context_parameter);
    assert_eq!(function.name, "put_version_3");
    assert_eq!(kind_of(function_std_impl("I o", &method, 3, true)), ErrorKind::TraitName);
    assert_eq!(
        kind_of(function_std_impl("I o", &plain_method("p ut", vec![], None), 3, true)),
        ErrorKind::MethodName
    );
}

#[test]
fn receiver_less_wasm_only_tokens() {
    let model = trait_of("I", vec![at(1, plain_method("len", vec![named("x", "Vec < (u32 , u8) >")], Some("[u8 ; 32]")))]);
    let tokens = generate(&model, true).unwrap();
    let expected = same_tokens(
        "# [cfg (not (feature = \"std\"))] \
         pub fn len (x : Vec < (u32 , u8) > ,) -> [u8 ; 32] { host_len . get () (x ,) } \
         # [cfg (feature = \"std\")] \
         fn len_version_1 (x : Vec < (u32 , u8) > , \
             mut __function_context__ : & mut dyn rt :: wasm_interface :: FunctionContext ,) -> [u8 ; 32] { \
             rt :: tracing :: enter_span ! (\"len_version_1\") ; \
             < & mut dyn rt :: wasm_interface :: FunctionContext as I > :: len_version_1 (x ,) \
         }",
    );
    assert_eq!(tokens.to_string(), expected);
}

#[test]
fn empty_interface_gives_no_token() {
    let model = trait_of("not an identifier", vec![]);
    assert!(generate(&model, false).unwrap().is_empty());
    assert!(emitted_functions(&model, true).unwrap().is_empty());
}

#[test]
fn first_error_wins() {
    let good = |name: &str, v| at(v, plain_method(name, vec![], None));
    let bad_argument = at(1, plain_method("b", vec![named("x y", "u8")], None));
    let bad_name = at(1, plain_method("c d", vec![], None));
    // the order of versions is checked before any method is looked at
    let model = trait_of("I", vec![bad_name.clone(), good("a", 2), good("a", 1)]);
    assert_eq!(kind_of(generate(&model, false)), ErrorKind::VersionOrder);
    // then the methods at their latest versions, in their order
    let model = trait_of("I J", vec![good("a", 1), bad_argument.clone(), bad_name.clone()]);
    assert_eq!(kind_of(generate(&model, false)), ErrorKind::ArgumentName);
    let model = trait_of("I J", vec![good("a", 1), bad_name.clone(), bad_argument.clone()]);
    assert_eq!(kind_of(generate(&model, false)), ErrorKind::MethodName);
    // an old version with an unusable argument comes after them
    let old = at(1, plain_method("a", vec![named("9", "u8")], None));
    let model = trait_of("I", vec![old, good("a", 2)]);
    assert_eq!(kind_of(generate(&model, false)), ErrorKind::ArgumentName);
    // the trait's name is looked at last
    let model = trait_of("I J", vec![good("a", 1)]);
    assert_eq!(kind_of(generate(&model, false)), ErrorKind::TraitName);
    assert_eq!(kind_of(emitted_functions(&model, true)), ErrorKind::TraitName);
}

#[test]
fn messages_of_errors() {
    let span = Span::call_site();
    let message = |kind| GenerationError { kind, span }.message();
    assert_eq!(message(ErrorKind::VersionOrder), "Versions of a method must be declared in rising order");
    assert_eq!(message(ErrorKind::MethodName), "The name of the method is not a plain identifier");
    assert_eq!(
        message(ErrorKind::ArgumentName),
        "The name of an argument is not a plain identifier, or is reserved"
    );
    assert_eq!(message(ErrorKind::TraitName), "The name of the trait is not a plain identifier");
}

#[test]
fn message_of_the_missing_environment() {
    assert_eq!(
        missing_environment_text("put_version_1"),
        "`put_version_1` called outside of an Externalities-provided environment."
    );
}

#[test]
fn generation_repeats() {
    let model = trait_of(
        "I",
        vec![
            at(1, plain_method("put", vec![Argument::Receiver, named("k", "u32")], None)),
            at(1, plain_method("len", vec![named("x", "u32")], Some("u32"))),
            at(4, plain_method("put", vec![Argument::Receiver, named("k", "u64")], None)),
        ],
    );
    for wasm_only in [false, true] {
        let first = generate(&model, wasm_only).unwrap().to_string();
        let second = generate(&model, wasm_only).unwrap().to_string();
        assert_eq!(first, second);
    }
}

#[test]
fn one_function_of_each_kind_per_method_and_version() {
    let model = trait_of(
        "I",
        vec![
            at(1, plain_method("put", vec![Argument::Receiver, named("k", "u32")], None)),
            at(1, plain_method("len", vec![named("x", "u32")], Some("u32"))),
            at(4, plain_method("put", vec![Argument::Receiver, named("k", "u64")], None)),
        ],
    );
    for wasm_only in [false, true] {
        let functions = emitted_functions(&model, wasm_only).unwrap();
        let count = |build: BuildFlag, public: bool, name: &str| {
            functions.iter().filter(|f| f.build == build && f.public == public && f.name == name).count()
        };
        for name in ["put", "len"] {
            assert_eq!(count(BuildFlag::Guest, true, name), 1);
            assert_eq!(count(BuildFlag::Host, true, name), if wasm_only { 0 } else { 1 });
        }
        for name in ["put_version_1", "put_version_4", "len_version_1"] {
            assert_eq!(count(BuildFlag::Host, false, name), 1);
            assert_eq!(count(BuildFlag::Guest, false, name), 0);
        }
        assert_eq!(count(BuildFlag::Host, false, "put_version_2"), 0);
        assert_eq!(functions.len(), if wasm_only { 5 } else { 7 });
        for function in &functions {
            if let Body::CallTrait { span_name, method, .. } = &function.body {
                assert_eq!(span_name, &function.name);
                assert_eq!(method, &function.name);
                assert!(!function.public);
            }
            if let Body::CallVersion { callee, .. } = &function.body {
                let latest = if function.name == "put" { "put_version_4" } else { "len_version_1" };
                assert_eq!(callee, latest);
            }
        }
    }
}

#[test]
fn rendering_of_functions() {
    let model = trait_of("I", vec![at(1, plain_method("len", vec![named("x", "u32")], Some("u32")))]);
    let mut functions = emitted_functions(&model, false).unwrap();
    assert!(functions.iter().all(is_renderable_function));
    let rendered = render_functions(&functions, &model.crate_path).unwrap();
    assert_eq!(rendered.to_string(), generate(&model, false).unwrap().to_string());
    assert!(render_functions(&vec![], &model.crate_path).unwrap().is_empty());
    functions[1].name = "le n".to_string();
    assert!(!is_renderable_function(&functions[1]));
    assert!(render_functions(&functions, &model.crate_path).is_none());
}
