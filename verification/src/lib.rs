//! Verified core of a schematic-based project generator: a registry of
//! schematics kept in name order, the command dispatch over it, the
//! schema-driven prompt planning with case conversions, and the decisions
//! taken while a schematic's files are rendered.

pub mod casing;
pub mod cli;
pub mod commands;
pub mod input;
pub mod json;
pub mod name_map;
pub mod render;
pub mod schematic;
pub mod text;

pub use casing::to_case;
pub use cli::{cli, AddSchematicCommand, CliArgs, CliOutcome, Commands, LocalArgs, RemoteArgs};
pub use commands::{
    add_schematic, clone_arguments, generate_schematic, remove_schematic, show_schematics,
    CommandError, Config, GeneratePlan, SchematicSource,
};
pub use input::{
    asks_for_inputs, check_schema, properties_are_readable, finish_inputs, plan_prompts, plan_property, record_answer,
    Answer, InputError, PromptKind, PromptPlan,
};
pub use json::{schema_from_file, JsonNumber, JsonValue};
pub use name_map::NameMap;
pub use render::{
    entry_action, excludes_destination, render_file, skips_directory, starts_with_components,
    EntryAction, RenderedText,
};
pub use schematic::{LocalSchematic, RemoteSchematic, Schematic, SchematicDetail};
pub use text::{compare_text, Order};
