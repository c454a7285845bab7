use template_renderer::{
    asks_for_inputs, check_schema, properties_are_readable, finish_inputs, plan_prompts, plan_property,
    record_answer, Answer, InputError, JsonNumber, JsonValue, NameMap, PromptKind,
};

fn text(s: &str) -> JsonValue {
    JsonValue::Text(s.to_string())
}

fn obj(members: Vec<(&str, JsonValue)>) -> JsonValue {
    JsonValue::Object(members.into_iter().map(|(k, v)| (k.to_string(), v)).collect())
}

fn arr(items: Vec<JsonValue>) -> JsonValue {
    JsonValue::Array(items)
}

fn integer(i: i64) -> JsonValue {
    JsonValue::Number(whole_number(i))
}

fn float(f: f64) -> JsonNumber {
    let raw = serde_json::Number::from_f64(f).unwrap();
    JsonNumber { as_integer: raw.as_i64(), raw }
}

fn answer_text(m: &NameMap<JsonValue>, k: &str) -> Option<String> {
    match m.get(k) {
        Some(JsonValue::Text(s)) => Some(s.clone()),
        _ => None,
    }
}

#[test]
fn string_property_plan() {
    let p = obj(vec![("type", text("string")), ("x-prompt", text("Project name?"))]);
    let plan = plan_property(&"projectName".to_string(), &p).unwrap();
    assert_eq!(plan.key, "projectName");
    assert_eq!(plan.prompt, "Project name?");
    match plan.kind {
        PromptKind::Text { default_text, offer_default } => {
            assert_eq!(default_text, "");
            assert!(!offer_default);
        }
        _ => panic!("expected text"),
    }
    assert!(plan.casings.is_empty());
}

#[test]
fn default_prompt_and_type() {
    let p = obj(vec![("default", text("world"))]);
    let plan = plan_property(&"helloTo".to_string(), &p).unwrap();
    assert_eq!(plan.prompt, "Enter value for helloTo:");
    match plan.kind {
        PromptKind::Text { default_text, offer_default } => {
            assert_eq!(default_text, "world");
            assert!(offer_default);
        }
        _ => panic!("expected text"),
    }
}

#[test]
fn unknown_type_is_not_asked() {
    let p = obj(vec![("type", text("array"))]);
    assert!(plan_property(&"xs".to_string(), &p).is_none());
}

#[test]
fn enum_property_plan() {
    let p = obj(vec![
        ("type", text("string")),
        ("enum", arr(vec![text("npm"), integer(3), text("yarn"), text("pnpm")])),
        ("default", text("pnpm")),
    ]);
    let plan = plan_property(&"pm".to_string(), &p).unwrap();
    match plan.kind {
        PromptKind::Select { options, default_index } => {
            assert_eq!(options, vec!["npm", "yarn", "pnpm"]);
            assert_eq!(default_index, Some(2));
        }
        _ => panic!("expected select"),
    }
    let q = obj(vec![("enum", arr(vec![text("a"), text("b")])), ("default", text("zzz"))]);
    match plan_property(&"k".to_string(), &q).unwrap().kind {
        PromptKind::Select { default_index, .. } => assert_eq!(default_index, Some(0)),
        _ => panic!("expected select"),
    }
    let r = obj(vec![("enum", text("not an array"))]);
    match plan_property(&"k".to_string(), &r).unwrap().kind {
        PromptKind::Select { options, default_index } => {
            assert!(options.is_empty());
            assert_eq!(default_index, None);
        }
        _ => panic!("expected select"),
    }
}

#[test]
fn casing_list_keeps_known_names() {
    let p = obj(vec![
        ("type", text("string")),
        ("x-casing", arr(vec![text("snake_case"), text("Title"), JsonValue::Null, text("camelCase")])),
    ]);
    let plan = plan_property(&"name".to_string(), &p).unwrap();
    assert_eq!(plan.casings, vec!["snake_case", "camelCase"]);
    let q = obj(vec![("type", text("integer")), ("x-casing", arr(vec![text("snake_case")]))]);
    assert!(plan_property(&"n".to_string(), &q).unwrap().casings.is_empty());
}

#[test]
fn scalar_property_plans() {
    let i = obj(vec![("type", text("integer")), ("default", integer(7))]);
    match plan_property(&"n".to_string(), &i).unwrap().kind {
        PromptKind::Integer { default_integer, offer_default } => {
            assert_eq!(default_integer, 7);
            assert!(offer_default);
        }
        _ => panic!("expected integer"),
    }
    let i2 = obj(vec![("type", text("integer")), ("default", text("7"))]);
    match plan_property(&"n".to_string(), &i2).unwrap().kind {
        PromptKind::Integer { default_integer, offer_default } => {
            assert_eq!(default_integer, 0);
            assert!(!offer_default);
        }
        _ => panic!("expected integer"),
    }
    let f = obj(vec![("type", text("number")), ("default", JsonValue::Number(float(2.5)))]);
    match plan_property(&"x".to_string(), &f).unwrap().kind {
        PromptKind::Number { default_number } => {
            assert_eq!(default_number.unwrap().raw.as_f64(), Some(2.5))
        }
        _ => panic!("expected number"),
    }
    let b = obj(vec![("type", text("boolean")), ("default", JsonValue::Bool(true))]);
    match plan_property(&"b".to_string(), &b).unwrap().kind {
        PromptKind::Boolean { default_bool } => assert!(default_bool),
        _ => panic!("expected boolean"),
    }
}

#[test]
fn prompts_follow_property_order() {
    let schema = obj(vec![
        ("type", text("object")),
        (
            "properties",
            obj(vec![
                ("file", obj(vec![("type", text("string"))])),
                ("list", obj(vec![("type", text("array"))])),
                ("projectName", obj(vec![("type", text("string"))])),
            ]),
        ),
    ]);
    let plans = plan_prompts(&schema);
    let keys: Vec<&str> = plans.iter().map(|p| p.key.as_str()).collect();
    assert_eq!(keys, vec!["file", "projectName"]);
    assert!(plan_prompts(&obj(vec![])).is_empty());
    assert!(plan_prompts(&JsonValue::Null).is_empty());
}

#[test]
fn casing_keys_are_recorded() {
    let p = obj(vec![
        ("type", text("string")),
        ("x-casing", arr(vec![text("camelCase"), text("snake_case")])),
    ]);
    let plan = plan_property(&"name".to_string(), &p).unwrap();
    let mut answers: NameMap<JsonValue> = NameMap::new();
    record_answer(&mut answers, &plan, Answer::Text("My Cool App".to_string())).unwrap();
    assert_eq!(answer_text(&answers, "name").as_deref(), Some("My Cool App"));
    assert_eq!(answer_text(&answers, "name_camelCase").as_deref(), Some("myCoolApp"));
    assert_eq!(answer_text(&answers, "name_snake_case").as_deref(), Some("my_cool_app"));
    assert_eq!(answers.len(), 3);
}

#[test]
fn failed_text_prompt_takes_default() {
    let p = obj(vec![("default", text("world"))]);
    let plan = plan_property(&"helloTo".to_string(), &p).unwrap();
    let mut answers: NameMap<JsonValue> = NameMap::new();
    record_answer(&mut answers, &plan, Answer::Failed("no tty".to_string())).unwrap();
    assert_eq!(answer_text(&answers, "helloTo").as_deref(), Some("world"));
}

#[test]
fn failed_choice_prompt_is_an_error() {
    let p = obj(vec![("enum", arr(vec![text("a")]))]);
    let plan = plan_property(&"k".to_string(), &p).unwrap();
    let mut answers: NameMap<JsonValue> = NameMap::new();
    let err = record_answer(&mut answers, &plan, Answer::Failed("interrupted".to_string()))
        .unwrap_err();
    assert_eq!(err.message(), "Dialoguer error: interrupted");
    assert_eq!(answers.len(), 0);
}

#[test]
fn choice_is_recorded_as_text() {
    let p = obj(vec![("enum", arr(vec![text("a"), text("b")]))]);
    let plan = plan_property(&"k".to_string(), &p).unwrap();
    let mut answers: NameMap<JsonValue> = NameMap::new();
    record_answer(&mut answers, &plan, Answer::Choice(1)).unwrap();
    assert_eq!(answer_text(&answers, "k").as_deref(), Some("b"));
}

#[test]
fn integer_and_boolean_answers() {
    let i = obj(vec![("type", text("integer")), ("default", integer(4))]);
    let plan = plan_property(&"n".to_string(), &i).unwrap();
    let mut answers: NameMap<JsonValue> = NameMap::new();
    record_answer(&mut answers, &plan, Answer::Failed("bad".to_string())).unwrap();
    match answers.get("n") {
        Some(JsonValue::Number(n)) => assert_eq!(n.as_integer, Some(4)),
        _ => panic!("expected a number"),
    }
    record_answer(&mut answers, &plan, Answer::Integer(-9)).unwrap();
    match answers.get("n") {
        Some(JsonValue::Number(n)) => assert_eq!(n.raw.as_i64(), Some(-9)),
        _ => panic!("expected a number"),
    }
    let b = obj(vec![("type", text("boolean"))]);
    let plan = plan_property(&"b".to_string(), &b).unwrap();
    record_answer(&mut answers, &plan, Answer::Boolean(true)).unwrap();
    assert!(matches!(answers.get("b"), Some(JsonValue::Bool(true))));
}

#[test]
fn invalid_schema_is_refused_before_asking() {
    let schema = obj(vec![("type", integer(5))]);
    match check_schema(&schema) {
        Err(InputError::ValidationErrors(v)) => assert_eq!(v.len(), 1),
        _ => panic!("expected a schema error"),
    }
    assert!(check_schema(&obj(vec![("type", text("object"))])).is_ok());
}

#[test]
fn answers_are_validated() {
    let schema = obj(vec![
        ("type", text("object")),
        ("properties", obj(vec![("name", obj(vec![("type", text("string")), ("minLength", integer(3))]))])),
        ("required", arr(vec![text("name")])),
    ]);
    assert!(check_schema(&schema).is_ok());
    let mut ok: NameMap<JsonValue> = NameMap::new();
    ok.insert("name".to_string(), text("alpha"));
    match finish_inputs(&schema, ok).unwrap() {
        JsonValue::Object(members) => {
            assert_eq!(members.len(), 1);
            assert_eq!(members[0].0, "name");
        }
        _ => panic!("expected an object"),
    }
    let mut short: NameMap<JsonValue> = NameMap::new();
    short.insert("name".to_string(), text("ab"));
    match finish_inputs(&schema, short) {
        Err(InputError::ValidationErrors(v)) => assert!(!v.is_empty()),
        _ => panic!("expected validation errors"),
    }
    let none: NameMap<JsonValue> = NameMap::new();
    assert!(finish_inputs(&schema, none).is_err());
}

#[test]
fn validation_error_message() {
    let e = InputError::ValidationErrors(vec!["first".to_string(), "second".to_string()]);
    assert_eq!(e.message(), "Validation errors: - first\n- second");
    let one = InputError::ValidationErrors(vec!["only".to_string()]);
    assert_eq!(one.message(), "Validation errors: - only");
}

#[test]
fn null_schema_asks_nothing() {
    assert!(!asks_for_inputs(&JsonValue::Null));
    assert!(asks_for_inputs(&obj(vec![])));
}

#[test]
fn unreadable_properties_are_detected() {
    assert!(properties_are_readable(&obj(vec![("properties", obj(vec![]))])));
    assert!(properties_are_readable(&obj(vec![])));
    assert!(!properties_are_readable(&obj(vec![("properties", text("x"))])));
}

fn whole_number(i: i64) -> template_renderer::JsonNumber {
    let raw = serde_json::Number::from(i);
    template_renderer::JsonNumber { as_integer: raw.as_i64(), raw }
}

#[test]
fn schema_text_is_parsed() {
    assert!(matches!(template_renderer::schema_from_file(None), Some(JsonValue::Null)));
    assert!(template_renderer::schema_from_file(Some("{ not json")).is_none());
    let schema = template_renderer::schema_from_file(Some(
        r#"{"properties": {"projectName": {"type": "string"}, "file": {"type": "string", "default": 3}}}"#,
    ))
    .unwrap();
    assert!(properties_are_readable(&schema));
    let keys: Vec<String> = plan_prompts(&schema).into_iter().map(|p| p.key).collect();
    assert_eq!(keys, vec!["file", "projectName"]);
    match schema {
        JsonValue::Object(members) => match &members[0].1 {
            JsonValue::Object(props) => match &props[0].1 {
                JsonValue::Object(file) => match &file[0].1 {
                    JsonValue::Number(n) => assert_eq!(n.as_integer, Some(3)),
                    _ => panic!("expected a number"),
                },
                _ => panic!("expected an object"),
            },
            _ => panic!("expected an object"),
        },
        _ => panic!("expected an object"),
    }
}

#[test]
fn unordered_properties_are_not_readable() {
    let schema = obj(vec![(
        "properties",
        obj(vec![("b", obj(vec![])), ("a", obj(vec![]))]),
    )]);
    assert!(!properties_are_readable(&schema));
    let dup = obj(vec![("properties", obj(vec![("a", obj(vec![])), ("a", obj(vec![]))]))]);
    assert!(!properties_are_readable(&dup));
}

#[test]
fn integer_answer_reaches_validation_as_typed() {
    let schema = obj(vec![
        ("type", text("object")),
        ("properties", obj(vec![("n", obj(vec![("type", text("integer")), ("minimum", integer(5))]))])),
    ]);
    let plan = plan_property(&"n".to_string(), &obj(vec![("type", text("integer"))])).unwrap();
    let mut answers: NameMap<JsonValue> = NameMap::new();
    record_answer(&mut answers, &plan, Answer::Integer(7)).unwrap();
    assert!(finish_inputs(&schema, answers).is_ok());
    let mut low: NameMap<JsonValue> = NameMap::new();
    record_answer(&mut low, &plan, Answer::Integer(2)).unwrap();
    assert!(finish_inputs(&schema, low).is_err());
}
