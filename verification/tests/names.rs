use bare_interface::names::{
    create_exchangeable_host_function_ident, create_function_ident_with_version, decimal_text,
    is_identifier, is_synthetic, str_eq,
};

#[test]
fn decimal_of_small_and_large_numbers() {
    assert_eq!(decimal_text(0), "0");
    assert_eq!(decimal_text(7), "7");
    assert_eq!(decimal_text(10), "10");
    assert_eq!(decimal_text(109), "109");
    assert_eq!(decimal_text(4294967295), "4294967295");
}

#[test]
fn versioned_names() {
    assert_eq!(create_function_ident_with_version("len", 1), "len_version_1");
    assert_eq!(create_function_ident_with_version("put", 25), "put_version_25");
    assert_eq!(create_function_ident_with_version("q", 0), "q_version_0");
    assert_eq!(
        create_function_ident_with_version("x_version_1", 2),
        "x_version_1_version_2"
    );
}

#[test]
fn versioned_names_differ() {
    let pairs = [("a", 1u32), ("a", 11), ("a1", 1), ("a_version_1", 1), ("b", 1)];
    for (i, (name, version)) in pairs.iter().enumerate() {
        for (j, (other_name, other_version)) in pairs.iter().enumerate() {
            let same = create_function_ident_with_version(name, *version)
                == create_function_ident_with_version(other_name, *other_version);
            assert_eq!(same, i == j);
        }
    }
}

#[test]
fn host_function_names() {
    assert_eq!(create_exchangeable_host_function_ident("len"), "host_len");
    assert_eq!(create_exchangeable_host_function_ident("_"), "host__");
}

#[test]
fn identifiers() {
    for text in ["a", "_", "_a", "a1", "A_b_2", "fn", "__externalities__", "Z9"] {
        assert!(is_identifier(text), "{}", text);
    }
    for text in ["", "1", "1a", "a-b", "a b", " a", "a.", "r#type", "gr\u{f6}\u{df}e", "a\u{e9}"] {
        assert!(!is_identifier(text), "{}", text);
    }
}

#[test]
fn synthetic_names() {
    assert!(is_synthetic("__function_context__"));
    assert!(is_synthetic("__externalities__"));
    assert!(!is_synthetic("__externalities_"));
    assert!(!is_synthetic("function_context"));
    assert!(!is_synthetic(""));
}

#[test]
fn text_equality() {
    assert!(str_eq("", ""));
    assert!(str_eq("version", "version"));
    assert!(!str_eq("version", "versions"));
    assert!(!str_eq("version", "versiom"));
    assert!(!str_eq("a", ""));
    assert!(str_eq("gr\u{f6}\u{df}e", "gr\u{f6}\u{df}e"));
}
