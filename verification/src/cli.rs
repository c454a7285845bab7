//! The command line: its arguments as plain values and the dispatch that
//! turns them into a change of the configuration and what is left to do.

use vstd::prelude::*;

use crate::commands::{
    add_schematic, destination_for, generate_schematic, lists_registry, registry_after_add,
    registry_after_remove, remove_schematic, show_schematics, source_of, CommandError, Config,
    GeneratePlan,
};
use crate::schematic::{LocalSchematic, RemoteSchematic, Schematic, SchematicDetail};
use crate::text::copy_opt_text;

verus! {

/// The parsed command line.
#[derive(Clone, Debug)]
pub struct CliArgs {
    /// Verbose output was asked for.
    pub verbose: bool,
    pub command: Commands,
}

/// Arguments of `add-schematic local`.
#[derive(Clone, Debug)]
pub struct LocalArgs {
    pub name: String,
    pub path: String,
    pub description: Option<String>,
}

/// Arguments of `add-schematic remote`.
#[derive(Clone, Debug)]
pub struct RemoteArgs {
    pub name: String,
    pub url: String,
    pub branch: Option<String>,
    pub description: Option<String>,
}

/// The two forms of `add-schematic`.
#[derive(Clone, Debug)]
pub enum AddSchematicCommand {
    Local(LocalArgs),
    Remote(RemoteArgs),
}

/// The subcommands.
#[derive(Clone, Debug)]
pub enum Commands {
    List,
    AddSchematic(AddSchematicCommand),
    RemoveSchematic { name: String },
    Generate { name: String, destination: Option<String> },
}

/// What remains to be done once a command has been decided.
#[derive(Clone, Debug)]
pub enum CliOutcome {
    /// Show these rows.
    Listing(Vec<SchematicDetail>),
    /// The configuration changed: save it, then show this message.
    Saved(String),
    /// Generate as planned.
    Generate(GeneratePlan),
}

/// The name and schematic that an `add-schematic` command registers.
pub open spec fn addition_of(c: AddSchematicCommand) -> (Seq<char>, Schematic) {
    match c {
        AddSchematicCommand::Local(a) => (
            a.name@,
            Schematic::Local(LocalSchematic { path: a.path, description: a.description }),
        ),
        AddSchematicCommand::Remote(a) => (
            a.name@,
            Schematic::Remote(
                RemoteSchematic {
                    url: a.url,
                    description: a.description,
                    branch: a.branch,
                },
            ),
        ),
    }
}

/// Carries out the command in `args` on `config`: listing and generating
/// leave it unchanged, adding and removing change its registry exactly as
/// `add_schematic` and `remove_schematic` do.
pub fn cli(config: &mut Config, args: &CliArgs) -> (r: Result<CliOutcome, CommandError>)
    ensures
        final(config).log_level == old(config).log_level,
        match args.command {
            Commands::List => final(config).schematics@ == old(config).schematics@
                && (r matches Ok(CliOutcome::Listing(rows)) && lists_registry(
                rows@,
                old(config).schematics,
            )),
            Commands::AddSchematic(c) => match registry_after_add(
                old(config).schematics@,
                addition_of(c).0,
                addition_of(c).1,
            ) {
                Some(m) => final(config).schematics@ == m && (r matches Ok(CliOutcome::Saved(msg))
                    && msg@ == "Schematic added successfully."@),
                None => final(config).schematics@ == old(config).schematics@ && r == Err::<
                    CliOutcome,
                    CommandError,
                >(CommandError::DuplicateName),
            },
            Commands::RemoveSchematic { name } => match registry_after_remove(
                old(config).schematics@,
                name@,
            ) {
                Some(m) => final(config).schematics@ == m && (r matches Ok(CliOutcome::Saved(msg))
                    && msg@ == "Schematic '"@ + name@ + "' removed successfully."@),
                None => final(config).schematics@ == old(config).schematics@ && (r matches Err(
                    CommandError::NotFound(n),
                ) && n@ == name@),
            },
            Commands::Generate { name, destination } => final(config).schematics@ == old(
                config,
            ).schematics@ && match r {
                Ok(CliOutcome::Generate(plan)) => old(config).schematics@.contains_key(name@)
                    && plan.destination@ == destination_for(name@, destination) && plan.source
                    == source_of(old(config).schematics@[name@]) && plan.announcement@
                    == "Generating schematic: "@ + name@ + " to "@ + plan.destination@,
                Err(e) => !old(config).schematics@.contains_key(name@) && (e matches CommandError::NotFound(n) && n@ == name@),
                _ => false,
            },
        },
{
    match &args.command {
        Commands::List => Ok(CliOutcome::Listing(show_schematics(&config.schematics))),
        Commands::AddSchematic(c) => {
            let (name, schematic) = match c {
                AddSchematicCommand::Local(a) => (
                    a.name.clone(),
                    Schematic::new_local(a.path.clone(), copy_opt_text(&a.description)),
                ),
                AddSchematicCommand::Remote(a) => (
                    a.name.clone(),
                    Schematic::new_remote(
                        a.url.clone(),
                        copy_opt_text(&a.branch),
                        copy_opt_text(&a.description),
                    ),
                ),
            };
            match add_schematic(config, name, schematic) {
                Ok(()) => Ok(CliOutcome::Saved(String::from_str("Schematic added successfully."))),
                Err(e) => Err(e),
            }
        },
        Commands::RemoveSchematic { name } => match remove_schematic(config, name.as_str()) {
            Ok(()) => {
                let mut msg = String::from_str("Schematic '");
                msg.append(name.as_str());
                msg.append("' removed successfully.");
                Ok(CliOutcome::Saved(msg))
            },
            Err(e) => Err(e),
        },
        Commands::Generate { name, destination } => match generate_schematic(
            &config.schematics,
            name.as_str(),
            destination,
        ) {
            Ok(plan) => Ok(CliOutcome::Generate(plan)),
            Err(e) => Err(e),
        },
    }
}

} // verus!
