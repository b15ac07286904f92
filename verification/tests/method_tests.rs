use request_executor::method::{method_from_upper, parse_method, Method};
use request_executor::text::same_text;

#[test]
fn every_method_is_read_in_upper_case() {
    assert_eq!(parse_method("GET"), Some(Method::Get));
    assert_eq!(parse_method("POST"), Some(Method::Post));
    assert_eq!(parse_method("PUT"), Some(Method::Put));
    assert_eq!(parse_method("PATCH"), Some(Method::Patch));
    assert_eq!(parse_method("DELETE"), Some(Method::Delete));
    assert_eq!(parse_method("HEAD"), Some(Method::Head));
    assert_eq!(parse_method("OPTIONS"), Some(Method::Options));
}

#[test]
fn methods_are_read_in_any_letter_case() {
    assert_eq!(parse_method("get"), Some(Method::Get));
    assert_eq!(parse_method("Post"), Some(Method::Post));
    assert_eq!(parse_method("pAtCh"), Some(Method::Patch));
    assert_eq!(parse_method("options"), Some(Method::Options));
}

#[test]
fn other_names_are_no_method() {
    assert_eq!(parse_method("TRACE"), None);
    assert_eq!(parse_method("CONNECT"), None);
    assert_eq!(parse_method(""), None);
    assert_eq!(parse_method(" GET"), None);
    assert_eq!(parse_method("GETS"), None);
}

#[test]
fn lookup_of_upper_case_names_is_exact() {
    assert_eq!(method_from_upper("GET"), Some(Method::Get));
    assert_eq!(method_from_upper("get"), None);
    assert_eq!(method_from_upper("Head"), None);
}

#[test]
fn names_read_back_as_their_method() {
    let all = vec![
        Method::Get,
        Method::Post,
        Method::Put,
        Method::Patch,
        Method::Delete,
        Method::Head,
        Method::Options,
    ];
    for method in all {
        assert_eq!(method_from_upper(method.as_str()), Some(method));
        assert_eq!(parse_method(&method.as_str().to_lowercase()), Some(method));
    }
}

#[test]
fn only_post_put_and_patch_carry_a_form() {
    assert!(Method::Post.allows_form());
    assert!(Method::Put.allows_form());
    assert!(Method::Patch.allows_form());
    assert!(!Method::Get.allows_form());
    assert!(!Method::Delete.allows_form());
    assert!(!Method::Head.allows_form());
    assert!(!Method::Options.allows_form());
}

#[test]
fn same_text_compares_characters() {
    assert!(same_text("abc", "abc"));
    assert!(!same_text("abc", "abd"));
    assert!(!same_text("abc", "ab"));
    assert!(same_text("", ""));
}
