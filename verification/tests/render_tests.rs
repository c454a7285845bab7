use template_renderer::{
    entry_action, excludes_destination, render_file, skips_directory,
    starts_with_components, EntryAction, JsonValue,
};

fn context(pairs: &[(&str, &str)]) -> JsonValue {
    JsonValue::Object(
        pairs.iter().map(|(k, v)| (k.to_string(), JsonValue::Text(v.to_string()))).collect(),
    )
}

fn comps(p: &[&str]) -> Vec<String> {
    p.iter().map(|s| s.to_string()).collect()
}

#[test]
fn renders_file_contents() {
    let ctx = context(&[("projectName", "my-app")]);
    let r = render_file("{\n  \"name\": \"{{projectName}}\"\n}", &ctx);
    assert_eq!(r.text, "{\n  \"name\": \"my-app\"\n}");
    assert!(r.error.is_none());
}

#[test]
fn renders_file_names() {
    let ctx = context(&[("file", "utils")]);
    assert_eq!(render_file("{{file}}.js", &ctx).text, "utils.js");
}

#[test]
fn renders_greeting() {
    let ctx = context(&[("helloTo", "World")]);
    let r = render_file("console.log(\"Hello, {{helloTo}}!\");", &ctx);
    assert_eq!(r.text, "console.log(\"Hello, World!\");");
}

#[test]
fn renders_numbers_and_missing_values() {
    let ctx = JsonValue::Object(vec![("n".to_string(), JsonValue::Number(whole_number(42)))]);
    assert_eq!(render_file("n={{n}}, m={{m}}", &ctx).text, "n=42, m=");
}

#[test]
fn broken_template_is_kept() {
    let ctx = context(&[]);
    let r = render_file("{{#if x}}unclosed", &ctx);
    assert_eq!(r.text, "{{#if x}}unclosed");
    assert!(r.error.is_some());
}

#[test]
fn entry_actions() {
    assert_eq!(entry_action("src", true), EntryAction::Descend);
    assert_eq!(entry_action("schema.json", true), EntryAction::Descend);
    assert_eq!(entry_action("schema.json", false), EntryAction::Skip);
    assert_eq!(entry_action("index.js", false), EntryAction::Write);
}

#[test]
fn git_directories_are_skipped() {
    assert!(skips_directory(".git"));
    assert!(!skips_directory("git"));
    assert!(!skips_directory(".github"));
}

#[test]
fn destination_inside_source_is_excluded() {
    let src = comps(&["/", "home", "s"]);
    assert!(excludes_destination(&src, &comps(&["/", "home", "s", "out"])));
    assert!(!excludes_destination(&src, &comps(&["/", "home", "s"])));
    assert!(!excludes_destination(&src, &comps(&["/", "home", "t", "out"])));
    assert!(!excludes_destination(&src, &comps(&["/", "home"])));
    assert!(starts_with_components(&comps(&["/", "a", "b"]), &comps(&["/", "a"])));
    assert!(!starts_with_components(&comps(&["/", "ab"]), &comps(&["/", "a"])));
}

fn whole_number(i: i64) -> template_renderer::JsonNumber {
    let raw = serde_json::Number::from(i);
    template_renderer::JsonNumber { as_integer: raw.as_i64(), raw }
}
