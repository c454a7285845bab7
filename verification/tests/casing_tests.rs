use template_renderer::to_case;

fn case(s: &str, c: &str) -> String {
    to_case(s.to_string(), c)
}

#[test]
fn camel_case_joins_words() {
    assert_eq!(case("hello world", "camelCase"), "helloWorld");
    assert_eq!(case("Hello-World_foo bar", "camelCase"), "helloWorldFooBar");
    assert_eq!(case("my-app", "camelCase"), "myApp");
}

#[test]
fn camel_case_lowers_inside_words() {
    assert_eq!(case("HELLO WORLD", "camelCase"), "helloWorld");
    assert_eq!(case("fooBar", "camelCase"), "foobar");
}

#[test]
fn camel_case_after_leading_break_capitalises() {
    assert_eq!(case(" foo", "camelCase"), "Foo");
    assert_eq!(case("__a__b", "camelCase"), "AB");
}

#[test]
fn camel_case_breaks_on_unicode_white_space() {
    assert_eq!(case("foo\u{00A0}bar", "camelCase"), "fooBar");
    assert_eq!(case("foo\u{3000}bar\tbaz", "camelCase"), "fooBarBaz");
}

#[test]
fn pascal_case_capitalises_every_word() {
    assert_eq!(case("my app", "PascalCase"), "MyApp");
    assert_eq!(case("my-app_name", "PascalCase"), "MyAppName");
    assert_eq!(case("", "PascalCase"), "");
}

#[test]
fn snake_case_replaces_space_and_dash() {
    assert_eq!(case("My App-Name", "snake_case"), "my_app_name");
    assert_eq!(case("a\tb", "snake_case"), "a\tb");
}

#[test]
fn kebab_case_replaces_space_and_underscore() {
    assert_eq!(case("My App_Name", "kebab-case"), "my-app-name");
}

#[test]
fn upper_case_replaces_space_and_dash() {
    assert_eq!(case("my app-name", "UPPER_CASE"), "MY_APP_NAME");
}

#[test]
fn unknown_casing_keeps_text() {
    assert_eq!(case("My App", "Title Case"), "My App");
    assert_eq!(case("My App", "camelcase"), "My App");
}

#[test]
fn non_ascii_letters_keep_their_case() {
    assert_eq!(case("Élan vital", "snake_case"), "Élan_vital");
    assert_eq!(case("élan vital", "UPPER_CASE"), "éLAN_VITAL");
}

#[test]
fn replacing_casings_are_idempotent() {
    for c in ["snake_case", "kebab-case", "UPPER_CASE"] {
        let once = case("Some Mixed-Input_text", c);
        assert_eq!(case(&once, c), once);
    }
}

#[test]
fn camel_and_pascal_differ_only_first() {
    let camel = case("make it-work", "camelCase");
    let pascal = case("make it-work", "PascalCase");
    assert_eq!(camel, "makeItWork");
    assert_eq!(pascal, "MakeItWork");
    assert_eq!(camel[1..], pascal[1..]);
}
