use template_renderer::{
    add_schematic, clone_arguments, compare_text, generate_schematic, remove_schematic,
    show_schematics, CommandError, Config, NameMap, Order, RemoteSchematic, Schematic,
    SchematicDetail, SchematicSource,
};

fn config_with(names: &[&str]) -> Config {
    let mut config = Config::default();
    for n in names {
        add_schematic(&mut config, n.to_string(), Schematic::new_simple(format!("/s/{}", n)))
            .unwrap();
    }
    config
}

#[test]
fn default_config() {
    let config = Config::default();
    assert_eq!(config.log_level, "info");
    assert_eq!(config.schematics.len(), 0);
}

#[test]
fn text_order() {
    assert_eq!(compare_text("a", "b"), Order::Less);
    assert_eq!(compare_text("ab", "a"), Order::Greater);
    assert_eq!(compare_text("abc", "abc"), Order::Equal);
    assert_eq!(compare_text("", "a"), Order::Less);
    assert_eq!(compare_text("B", "a"), Order::Less);
    assert_eq!(compare_text("é", "z"), Order::Greater);
}

#[test]
fn name_map_keeps_names_in_order() {
    let mut m: NameMap<u32> = NameMap::new();
    assert_eq!(m.insert("pear".to_string(), 1), None);
    assert_eq!(m.insert("apple".to_string(), 2), None);
    assert_eq!(m.insert("fig".to_string(), 3), None);
    assert_eq!(m.insert("apple".to_string(), 4), Some(2));
    assert_eq!(m.len(), 3);
    let names: Vec<String> = (0..m.len()).map(|i| m.entry_at(i).0.clone()).collect();
    assert_eq!(names, vec!["apple", "fig", "pear"]);
    assert_eq!(m.get("apple"), Some(&4));
    assert_eq!(m.get("plum"), None);
    assert_eq!(m.remove("fig"), Some(3));
    assert_eq!(m.remove("fig"), None);
    assert!(!m.contains("fig"));
    assert_eq!(m.len(), 2);
}

#[test]
fn add_schematic_then_generate_finds_it() {
    let mut config = Config::default();
    assert!(add_schematic(
        &mut config,
        "web".to_string(),
        Schematic::new_local("/tmp/web".to_string(), Some("Web starter".to_string()))
    )
    .is_ok());
    let plan = generate_schematic(&config.schematics, "web", &None).unwrap();
    assert_eq!(plan.destination, "./web");
    assert_eq!(plan.announcement, "Generating schematic: web to ./web");
    match plan.source {
        SchematicSource::Directory(p) => assert_eq!(p, "/tmp/web"),
        _ => panic!("expected a directory"),
    }
}

#[test]
fn duplicate_name_is_refused() {
    let mut config = config_with(&["a"]);
    let err = add_schematic(&mut config, "a".to_string(), Schematic::new_simple("/x".to_string()))
        .unwrap_err();
    assert!(matches!(err, CommandError::DuplicateName));
    assert_eq!(err.message(), "Duplicate schematic name");
    match config.schematics.get("a") {
        Some(Schematic::Simple(p)) => assert_eq!(p, "/s/a"),
        _ => panic!("schematic changed"),
    }
}

#[test]
fn remove_unknown_is_refused() {
    let mut config = config_with(&["a"]);
    let err = remove_schematic(&mut config, "b").unwrap_err();
    assert_eq!(err.message(), "No schematic found with name 'b'.");
    assert_eq!(config.schematics.len(), 1);
}

#[test]
fn add_then_remove_restores_registry() {
    let mut config = config_with(&["a", "c"]);
    add_schematic(&mut config, "b".to_string(), Schematic::new_simple("/b".to_string())).unwrap();
    assert_eq!(config.schematics.len(), 3);
    remove_schematic(&mut config, "b").unwrap();
    let rows = show_schematics(&config.schematics);
    let names: Vec<&str> = rows.iter().map(|r| r.name.as_str()).collect();
    assert_eq!(names, vec!["a", "c"]);
    assert!(remove_schematic(&mut config, "b").is_err());
}

#[test]
fn listing_is_in_name_order_with_descriptions() {
    let mut config = Config::default();
    add_schematic(&mut config, "zeta".to_string(), Schematic::new_simple("/z".to_string()))
        .unwrap();
    add_schematic(
        &mut config,
        "alpha".to_string(),
        Schematic::new_remote("https://x/r.git".to_string(), None, Some("Remote one".to_string())),
    )
    .unwrap();
    add_schematic(&mut config, "mid".to_string(), Schematic::new_local("/m".to_string(), None))
        .unwrap();
    let rows = show_schematics(&config.schematics);
    let got: Vec<(String, String)> =
        rows.into_iter().map(|r| (r.name, r.description)).collect();
    assert_eq!(
        got,
        vec![
            ("alpha".to_string(), "Remote one".to_string()),
            ("mid".to_string(), "No description".to_string()),
            ("zeta".to_string(), "No description".to_string()),
        ]
    );
}

#[test]
fn empty_listing() {
    let config = Config::default();
    assert!(show_schematics(&config.schematics).is_empty());
}

#[test]
fn generate_unknown_is_refused() {
    let config = config_with(&["a"]);
    let err = generate_schematic(&config.schematics, "nope", &None).unwrap_err();
    assert_eq!(err.message(), "No schematic found with name 'nope'.");
}

#[test]
fn generate_with_destination_and_remote_source() {
    let mut config = Config::default();
    add_schematic(
        &mut config,
        "r".to_string(),
        Schematic::new_remote(
            "https://example.com/repo.git".to_string(),
            Some("main".to_string()),
            None,
        ),
    )
    .unwrap();
    let plan = generate_schematic(&config.schematics, "r", &Some("./out".to_string())).unwrap();
    assert_eq!(plan.destination, "./out");
    assert_eq!(plan.announcement, "Generating schematic: r to ./out");
    match &plan.source {
        SchematicSource::Repository(remote) => {
            assert_eq!(remote.url, "https://example.com/repo.git");
            assert_eq!(remote.branch.as_deref(), Some("main"));
            assert_eq!(
                clone_arguments(remote, "/tmp/t"),
                vec!["clone", "https://example.com/repo.git", "/tmp/t"]
            );
        }
        _ => panic!("expected a repository"),
    }
}

#[test]
fn simple_schematic_generates_from_its_path() {
    let config = config_with(&["s"]);
    let plan = generate_schematic(&config.schematics, "s", &None).unwrap();
    match plan.source {
        SchematicSource::Directory(p) => assert_eq!(p, "/s/s"),
        _ => panic!("expected a directory"),
    }
}

#[test]
fn detail_descriptions() {
    assert_eq!(
        SchematicDetail::new("a", &Schematic::new_simple("/p".to_string())).description,
        "No description"
    );
    let d = SchematicDetail::new(
        "b",
        &Schematic::new_local("/p".to_string(), Some("Mine".to_string())),
    );
    assert_eq!(d.name, "b");
    assert_eq!(d.description, "Mine");
    assert_eq!(
        SchematicDetail::new("c", &Schematic::new_remote("u".to_string(), None, None)).description,
        "No description"
    );
}

#[test]
fn summaries() {
    assert_eq!(Schematic::new_simple("/p".to_string()).summary(), "/p");
    assert_eq!(
        Schematic::new_local("/p".to_string(), None).summary(),
        "path=/p, description=No description"
    );
    assert_eq!(
        Schematic::new_local("/p".to_string(), Some("D".to_string())).summary(),
        "path=/p, description=D"
    );
    assert_eq!(
        Schematic::new_remote("u".to_string(), None, None).summary(),
        "url=u, branch=default, description=No description"
    );
    assert_eq!(
        Schematic::new_remote("u".to_string(), Some("dev".to_string()), Some("D".to_string()))
            .summary(),
        "url=u, branch=dev, description=D"
    );
}

#[test]
fn constructors_fill_fields() {
    match Schematic::new_remote("u".to_string(), Some("b".to_string()), Some("d".to_string())) {
        Schematic::Remote(RemoteSchematic { url, branch, description }) => {
            assert_eq!(url, "u");
            assert_eq!(branch.as_deref(), Some("b"));
            assert_eq!(description.as_deref(), Some("d"));
        }
        _ => panic!("expected remote"),
    }
}
