use bare_interface::emitted::{Body, BuildFlag, Dispatch};
use bare_interface::error::ErrorKind;
use bare_interface::generate::{emitted_functions, generate};
use bare_interface::model::{
    Argument, Attribute, InterfaceModel, Method, Signature, TypedArgument, VersionedMethod,
};
use proc_macro2::{Span, TokenStream};

fn tokens(text: &str) -> TokenStream {
    text.parse().unwrap()
}

fn canonical(text: &str) -> String {
    tokens(text).to_string()
}

fn typed(name: &str, ty: &str) -> Argument {
    Argument::Typed(TypedArgument { name: name.to_string(), ty: tokens(ty) })
}

fn attribute(path: &str, text: &str) -> Attribute {
    Attribute { path: path.to_string(), tokens: tokens(text) }
}

fn method(
    name: &str,
    version: u32,
    inputs: Vec<Argument>,
    output: Option<&str>,
    attrs: Vec<Attribute>,
) -> VersionedMethod {
    VersionedMethod {
        version,
        method: Method {
            attrs,
            sig: Signature { ident: name.to_string(), inputs, output: output.map(tokens) },
            span: Span::call_site(),
        },
    }
}

fn interface(name: &str, methods: Vec<VersionedMethod>) -> InterfaceModel {
    InterfaceModel {
        ident: name.to_string(),
        crate_path: tokens("sp_runtime_interface"),
        methods,
    }
}

fn put(version: u32) -> VersionedMethod {
    method(
        "put",
        version,
        vec![Argument::Receiver, typed("k", "u32"), typed("v", "u32")],
        None,
        vec![],
    )
}

#[test]
fn receiver_less_single_version() {
    let model = interface("I", vec![method("len", 1, vec![typed("x", "u32")], Some("u32"), vec![])]);
    let stream = generate(&model, false).unwrap();
    let expected = canonical(
        "# [cfg (feature = \"std\")] \
         pub fn len (x : u32 ,) -> u32 { len_version_1 (x ,) } \
         # [cfg (not (feature = \"std\"))] \
         pub fn len (x : u32 ,) -> u32 { host_len . get () (x ,) } \
         # [cfg (feature = \"std\")] \
         fn len_version_1 (x : u32 ,) -> u32 { \
             sp_runtime_interface :: tracing :: enter_span ! (\"len_version_1\") ; \
             < & mut dyn sp_runtime_interface :: Externalities as I > :: len_version_1 (x ,) \
         }",
    );
    assert_eq!(stream.to_string(), expected);
}

#[test]
fn receiver_two_versions() {
    let model = interface("I", vec![put(1), put(2)]);
    let stream = generate(&model, false).unwrap();
    let expected = canonical(
        "# [cfg (feature = \"std\")] \
         pub fn put (k : u32 , v : u32 ,) { put_version_2 (k , v ,) } \
         # [cfg (not (feature = \"std\"))] \
         pub fn put (k : u32 , v : u32 ,) { host_put . get () (k , v ,) } \
         # [cfg (feature = \"std\")] \
         fn put_version_1 (k : u32 , v : u32 ,) { \
             sp_runtime_interface :: tracing :: enter_span ! (\"put_version_1\") ; \
             sp_runtime_interface :: with_externalities (\
                 | mut __externalities__ | I :: put_version_1 (& mut __externalities__ , k , v ,)\
             ) . expect (\"`put_version_1` called outside of an Externalities-provided environment.\") \
         } \
         # [cfg (feature = \"std\")] \
         fn put_version_2 (k : u32 , v : u32 ,) { \
             sp_runtime_interface :: tracing :: enter_span ! (\"put_version_2\") ; \
             sp_runtime_interface :: with_externalities (\
                 | mut __externalities__ | I :: put_version_2 (& mut __externalities__ , k , v ,)\
             ) . expect (\"`put_version_2` called outside of an Externalities-provided environment.\") \
         }",
    );
    assert_eq!(stream.to_string(), expected);
}

#[test]
fn receiver_wasm_only() {
    let model = interface("I", vec![put(1), put(2)]);
    let stream = generate(&model, true).unwrap();
    let expected = canonical(
        "# [cfg (not (feature = \"std\"))] \
         pub fn put (k : u32 , v : u32 ,) { host_put . get () (k , v ,) } \
         # [cfg (feature = \"std\")] \
         fn put_version_1 (k : u32 , v : u32 , \
             mut __function_context__ : & mut dyn sp_runtime_interface :: wasm_interface :: FunctionContext ,) { \
             sp_runtime_interface :: tracing :: enter_span ! (\"put_version_1\") ; \
             I :: put_version_1 (& mut __function_context__ , k , v ,) \
         } \
         # [cfg (feature = \"std\")] \
         fn put_version_2 (k : u32 , v : u32 , \
             mut __function_context__ : & mut dyn sp_runtime_interface :: wasm_interface :: FunctionContext ,) { \
             sp_runtime_interface :: tracing :: enter_span ! (\"put_version_2\") ; \
             I :: put_version_2 (& mut __function_context__ , k , v ,) \
         }",
    );
    assert_eq!(stream.to_string(), expected);
    let text = stream.to_string();
    assert!(!text.contains("with_externalities"));
    let functions = emitted_functions(&model, true).unwrap();
    assert!(functions.iter().all(|f| !(f.build == BuildFlag::Host && f.public)));
}

#[test]
fn attribute_preservation() {
    let attrs = vec![
        attribute("doc", "# [doc = \"x\"]"),
        attribute("deprecated", "# [deprecated]"),
        attribute("version", "# [version (2)]"),
    ];
    let model = interface("I", vec![method("foo", 2, vec![], None, attrs)]);
    let functions = emitted_functions(&model, false).unwrap();
    assert_eq!(functions.len(), 3);
    for function in &functions {
        let paths: Vec<&str> = function.attrs.iter().map(|a| a.path.as_str()).collect();
        assert_eq!(paths, vec!["doc", "deprecated"]);
        assert_eq!(function.attrs[0].tokens.to_string(), canonical("# [doc = \"x\"]"));
        assert_eq!(function.attrs[1].tokens.to_string(), canonical("# [deprecated]"));
    }
    let text = generate(&model, false).unwrap().to_string();
    assert_eq!(text.matches(&canonical("# [doc = \"x\"] # [deprecated]")).count(), 3);
    assert!(!text.contains("version ("));
}

#[test]
fn version_gap() {
    let q = |version| method("q", version, vec![], None, vec![]);
    let model = interface("I", vec![q(1), q(3)]);
    let functions = emitted_functions(&model, false).unwrap();
    let names: Vec<&str> = functions.iter().map(|f| f.name.as_str()).collect();
    assert_eq!(names, vec!["q", "q", "q_version_1", "q_version_3"]);
    match &functions[0].body {
        Body::CallVersion { callee, arguments } => {
            assert_eq!(callee, "q_version_3");
            assert!(arguments.is_empty());
        },
        other => panic!("unexpected body {:?}", other),
    }
    assert!(!generate(&model, false).unwrap().to_string().contains("q_version_2"));
}

#[test]
fn error_propagation() {
    let model = interface("I", vec![put(2), put(1)]);
    let error = generate(&model, false).unwrap_err();
    assert_eq!(error.kind, ErrorKind::VersionOrder);
    let error = emitted_functions(&model, true).unwrap_err();
    assert_eq!(error.kind, ErrorKind::VersionOrder);
    let model = interface("I", vec![put(1), put(1)]);
    assert_eq!(generate(&model, false).unwrap_err().kind, ErrorKind::VersionOrder);
}

#[test]
fn dispatch_by_receiver_and_mode() {
    let free = method("len", 1, vec![typed("x", "u32")], Some("u32"), vec![]);
    let cases = [
        (put(1), false, Dispatch::WithExternalities),
        (put(1), true, Dispatch::OnFunctionContext),
        (free.clone(), false, Dispatch::ForExternalities),
        (free, true, Dispatch::ForFunctionContext),
    ];
    for (entry, wasm_only, expected) in cases {
        let model = interface("I", vec![entry]);
        let functions = emitted_functions(&model, wasm_only).unwrap();
        let versioned = functions.last().unwrap();
        assert_eq!(versioned.context_parameter, wasm_only);
        match &versioned.body {
            Body::CallTrait { dispatch, .. } => assert_eq!(*dispatch, expected),
            other => panic!("unexpected body {:?}", other),
        }
    }
}
