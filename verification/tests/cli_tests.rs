use template_renderer::{
    cli, AddSchematicCommand, CliArgs, CliOutcome, Commands, Config, LocalArgs, RemoteArgs,
    Schematic, SchematicSource,
};

fn run(config: &mut Config, command: Commands) -> Result<CliOutcome, String> {
    cli(config, &CliArgs { verbose: false, command }).map_err(|e| e.message())
}

fn add_local(config: &mut Config, name: &str) -> Result<CliOutcome, String> {
    run(
        config,
        Commands::AddSchematic(AddSchematicCommand::Local(LocalArgs {
            name: name.to_string(),
            path: format!("/abs/{}", name),
            description: Some(format!("{} desc", name)),
        })),
    )
}

#[test]
fn cli_add_list_remove() {
    let mut config = Config::default();
    match add_local(&mut config, "web").unwrap() {
        CliOutcome::Saved(m) => assert_eq!(m, "Schematic added successfully."),
        _ => panic!("expected a save"),
    }
    match run(
        &mut config,
        Commands::AddSchematic(AddSchematicCommand::Remote(RemoteArgs {
            name: "api".to_string(),
            url: "https://example.com/api.git".to_string(),
            branch: Some("main".to_string()),
            description: None,
        })),
    )
    .unwrap()
    {
        CliOutcome::Saved(_) => {}
        _ => panic!("expected a save"),
    }
    match config.schematics.get("api") {
        Some(Schematic::Remote(r)) => {
            assert_eq!(r.url, "https://example.com/api.git");
            assert_eq!(r.branch.as_deref(), Some("main"));
        }
        _ => panic!("expected the remote schematic"),
    }
    match run(&mut config, Commands::List).unwrap() {
        CliOutcome::Listing(rows) => {
            let names: Vec<&str> = rows.iter().map(|r| r.name.as_str()).collect();
            assert_eq!(names, vec!["api", "web"]);
            assert_eq!(rows[1].description, "web desc");
        }
        _ => panic!("expected a listing"),
    }
    match run(&mut config, Commands::RemoveSchematic { name: "web".to_string() }).unwrap() {
        CliOutcome::Saved(m) => assert_eq!(m, "Schematic 'web' removed successfully."),
        _ => panic!("expected a save"),
    }
    assert!(!config.schematics.contains("web"));
}

#[test]
fn cli_duplicate_add_is_refused() {
    let mut config = Config::default();
    add_local(&mut config, "web").unwrap();
    assert_eq!(add_local(&mut config, "web").unwrap_err(), "Duplicate schematic name");
    assert_eq!(config.schematics.len(), 1);
}

#[test]
fn cli_remove_unknown_is_refused() {
    let mut config = Config::default();
    assert_eq!(
        run(&mut config, Commands::RemoveSchematic { name: "x".to_string() }).unwrap_err(),
        "No schematic found with name 'x'."
    );
}

#[test]
fn cli_generate() {
    let mut config = Config::default();
    add_local(&mut config, "web").unwrap();
    match run(&mut config, Commands::Generate { name: "web".to_string(), destination: None })
        .unwrap()
    {
        CliOutcome::Generate(plan) => {
            assert_eq!(plan.destination, "./web");
            match plan.source {
                SchematicSource::Directory(p) => assert_eq!(p, "/abs/web"),
                _ => panic!("expected a directory"),
            }
        }
        _ => panic!("expected a plan"),
    }
    assert_eq!(
        run(&mut config, Commands::Generate { name: "nope".to_string(), destination: None })
            .unwrap_err(),
        "No schematic found with name 'nope'."
    );
}
