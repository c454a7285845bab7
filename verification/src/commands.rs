//! The configuration and the commands that read and change its registry of
//! schematics.

use vstd::prelude::*;

use crate::name_map::{increasing, NameMap};
use crate::text::{copy_opt_text, text_less};
use crate::schematic::{description_of, RemoteSchematic, Schematic, SchematicDetail};

verus! {

/// The configuration: a log level and the registered schematics by name.
pub struct Config {
    pub log_level: String,
    pub schematics: NameMap<Schematic>,
}

impl Default for Config {
    /// Log level `info` and no schematics.
    fn default() -> (c: Self)
        ensures
            c.log_level@ == "info"@,
            c.schematics@ == Map::<Seq<char>, Schematic>::empty(),
    {
        Config { log_level: String::from_str("info"), schematics: NameMap::new() }
    }
}

/// Why a command was refused.
#[derive(Clone, Debug)]
pub enum CommandError {
    /// A schematic of that name is registered already.
    DuplicateName,
    /// No schematic of that name is registered.
    NotFound(String),
}

/// The message shown for a refused command.
pub open spec fn error_message(e: CommandError) -> Seq<char> {
    match e {
        CommandError::DuplicateName => "Duplicate schematic name"@,
        CommandError::NotFound(name) => "No schematic found with name '"@ + name@ + "'."@,
    }
}

impl CommandError {
    /// The message shown for this refusal.
    pub fn message(&self) -> (r: String)
        ensures
            r@ == error_message(*self),
    {
        match self {
            CommandError::DuplicateName => String::from_str("Duplicate schematic name"),
            CommandError::NotFound(name) => {
                let mut r = String::from_str("No schematic found with name '");
                r.append(name.as_str());
                r.append("'.");
                r
            },
        }
    }
}

/// The registry after adding `s` as `name`, or `None` when the name is taken.
pub open spec fn registry_after_add(
    m: Map<Seq<char>, Schematic>,
    name: Seq<char>,
    s: Schematic,
) -> Option<Map<Seq<char>, Schematic>> {
    if m.contains_key(name) {
        None
    } else {
        Some(m.insert(name, s))
    }
}

/// The registry after removing `name`, or `None` when it is not registered.
pub open spec fn registry_after_remove(m: Map<Seq<char>, Schematic>, name: Seq<char>) -> Option<
    Map<Seq<char>, Schematic>,
> {
    if m.contains_key(name) {
        Some(m.remove(name))
    } else {
        None
    }
}

/// Registers `schematic` under `name`; a name that is taken is refused and
/// the configuration left as it was.
pub fn add_schematic(config: &mut Config, name: String, schematic: Schematic) -> (r: Result<
    (),
    CommandError,
>)
    ensures
        final(config).log_level == old(config).log_level,
        match registry_after_add(old(config).schematics@, name@, schematic) {
            Some(m) => r is Ok && final(config).schematics@ == m,
            None => r == Err::<(), CommandError>(CommandError::DuplicateName)
                && final(config).schematics@ == old(config).schematics@,
        },
{
    if config.schematics.contains(name.as_str()) {
        return Err(CommandError::DuplicateName);
    }
    config.schematics.insert(name, schematic);
    Ok(())
}

/// Unregisters `name`; a name that is not registered is refused.
pub fn remove_schematic(config: &mut Config, name: &str) -> (r: Result<(), CommandError>)
    ensures
        final(config).log_level == old(config).log_level,
        match registry_after_remove(old(config).schematics@, name@) {
            Some(m) => r is Ok && final(config).schematics@ == m,
            None => (r matches Err(CommandError::NotFound(n)) && n@ == name@)
                && final(config).schematics@ == old(config).schematics@,
        },
{
    match config.schematics.remove(name) {
        Some(_) => Ok(()),
        None => Err(CommandError::NotFound(String::from_str(name))),
    }
}


/// Adding a schematic under a free name and then removing that name gives
/// back the registry as it was.
pub proof fn law_add_then_remove_restores(
    m: Map<Seq<char>, Schematic>,
    name: Seq<char>,
    s: Schematic,
)
    requires
        !m.contains_key(name),
    ensures
        registry_after_add(m, name, s) matches Some(added) && registry_after_remove(added, name)
            == Some(m),
{
    assert(m.insert(name, s).remove(name) =~= m);
}

/// After an add succeeds, the name holds the schematic that was added, no
/// other name changes, and adding the same name again is refused.
pub proof fn law_added_schematic_is_registered(
    m: Map<Seq<char>, Schematic>,
    name: Seq<char>,
    s: Schematic,
    t: Schematic,
)
    ensures
        registry_after_add(m, name, s) matches Some(added) ==> {
            &&& added.contains_key(name)
            &&& added[name] == s
            &&& source_of(added[name]) == source_of(s)
            &&& registry_after_add(added, name, t) is None
            &&& forall|k: Seq<char>|
                k != name ==> (added.contains_key(k) == m.contains_key(k) && (m.contains_key(k)
                    ==> #[trigger] added[k] == m[k]))
        },
{
}

/// After a remove succeeds, the name is no longer registered, so removing it
/// again and generating it are refused; other names are untouched.
pub proof fn law_removed_schematic_is_gone(m: Map<Seq<char>, Schematic>, name: Seq<char>)
    ensures
        registry_after_remove(m, name) matches Some(removed) ==> {
            &&& !removed.contains_key(name)
            &&& registry_after_remove(removed, name) is None
            &&& forall|k: Seq<char>|
                k != name ==> (removed.contains_key(k) == m.contains_key(k) && (m.contains_key(k)
                    ==> #[trigger] removed[k] == m[k]))
        },
{
}

/// `rows` lists the registry `m` in name order, one row per schematic.
pub open spec fn lists_registry(rows: Seq<SchematicDetail>, m: NameMap<Schematic>) -> bool {
    &&& rows.len() == m.name_list().len()
    &&& forall|i: int|
        0 <= i < rows.len() ==> (#[trigger] rows[i]).name@ == m.name_list()[i]
            && rows[i].description@ == description_of(m@[m.name_list()[i]])
}

/// The rows of the schematic listing, in increasing name order: every
/// registered schematic appears exactly once.
pub fn show_schematics(schematics: &NameMap<Schematic>) -> (rows: Vec<SchematicDetail>)
    ensures
        lists_registry(rows@, *schematics),
        forall|i: int, j: int|
            0 <= i < j < rows@.len() ==> text_less(
                #[trigger] rows@[i].name@,
                #[trigger] rows@[j].name@,
            ),
        forall|k: Seq<char>|
            schematics@.contains_key(k) <==> exists|i: int|
                0 <= i < rows@.len() && (#[trigger] rows@[i]).name@ == k,
{
    let n = schematics.len();
    let mut rows: Vec<SchematicDetail> = Vec::new();
    for i in 0..n
        invariant
            n == schematics.name_list().len(),
            increasing(schematics.name_list()),
            forall|k: Seq<char>|
                schematics@.contains_key(k) <==> schematics.name_list().contains(k),
            rows@.len() == i,
            forall|j: int|
                0 <= j < i ==> (#[trigger] rows@[j]).name@ == schematics.name_list()[j]
                    && rows@[j].description@ == description_of(
                    schematics@[schematics.name_list()[j]],
                ),
    {
        let (name, schematic) = schematics.entry_at(i);
        rows.push(SchematicDetail::new(name.as_str(), schematic));
    }
    assert forall|k: Seq<char>| schematics@.contains_key(k) implies exists|i: int|
        0 <= i < rows@.len() && (#[trigger] rows@[i]).name@ == k by {
        assert(schematics.name_list().contains(k));
        let i = choose|i: int| 0 <= i < n && schematics.name_list()[i] == k;
        assert(rows@[i].name@ == k);
    }
    assert forall|k: Seq<char>| (exists|i: int|
        0 <= i < rows@.len() && (#[trigger] rows@[i]).name@ == k) implies schematics@.contains_key(k) by {
        let i = choose|i: int| 0 <= i < rows@.len() && (#[trigger] rows@[i]).name@ == k;
        assert(schematics.name_list()[i] == k);
        assert(schematics.name_list().contains(k));
    }
    rows
}

/// Where the files of a schematic are read from.
#[derive(Clone, Debug)]
pub enum SchematicSource {
    /// A local directory.
    Directory(String),
    /// A Git repository, cloned into a temporary directory first.
    Repository(RemoteSchematic),
}

/// What generating a schematic takes.
#[derive(Clone, Debug)]
pub struct GeneratePlan {
    /// The line announcing the generation.
    pub announcement: String,
    /// The directory the files are written to.
    pub destination: String,
    /// Where the schematic's files come from.
    pub source: SchematicSource,
}

/// The source a registered schematic is rendered from.
pub open spec fn source_of(s: Schematic) -> SchematicSource {
    match s {
        Schematic::Simple(path) => SchematicSource::Directory(path),
        Schematic::Local(l) => SchematicSource::Directory(l.path),
        Schematic::Remote(r) => SchematicSource::Repository(r),
    }
}

/// The destination directory: the one given, else `./NAME`.
pub open spec fn destination_for(name: Seq<char>, destination: Option<String>) -> Seq<char> {
    match destination {
        Some(d) => d@,
        None => "./"@ + name,
    }
}

/// Without a destination, the schematic is generated into `./NAME`: the two
/// characters `.` and `/` followed by its name.
pub proof fn law_default_destination(name: Seq<char>, destination: Option<String>)
    ensures
        destination matches Some(d) ==> destination_for(name, destination) == d@,
        destination is None ==> {
            let d = destination_for(name, destination);
            &&& d.len() == name.len() + 2
            &&& d[0] == '.'
            &&& d[1] == '/'
            &&& d.skip(2) == name
        },
{
    reveal_strlit("./");
    if destination is None {
        assert(destination_for(name, destination).skip(2) =~= name);
    }
}

fn clone_remote(r: &RemoteSchematic) -> (c: RemoteSchematic)
    ensures
        c == *r,
{
    RemoteSchematic {
        url: r.url.clone(),
        description: copy_opt_text(&r.description),
        branch: copy_opt_text(&r.branch),
    }
}

/// Plans the generation of the schematic registered as `name` into
/// `destination` (by default `./NAME`); an unknown name is refused.
pub fn generate_schematic(
    schematics: &NameMap<Schematic>,
    name: &str,
    destination: &Option<String>,
) -> (r: Result<GeneratePlan, CommandError>)
    ensures
        match r {
            Ok(plan) => {
                &&& schematics@.contains_key(name@)
                &&& plan.destination@ == destination_for(name@, *destination)
                &&& plan.source == source_of(schematics@[name@])
                &&& plan.announcement@ == "Generating schematic: "@ + name@ + " to "@
                    + plan.destination@
            },
            Err(e) => !schematics@.contains_key(name@) && (e matches CommandError::NotFound(n)
                && n@ == name@),
        },
{
    let schematic = match schematics.get(name) {
        Some(s) => s,
        None => {
            return Err(CommandError::NotFound(String::from_str(name)));
        },
    };
    let destination = match destination {
        Some(d) => d.clone(),
        None => {
            let mut d = String::from_str("./");
            d.append(name);
            d
        },
    };
    let mut announcement = String::from_str("Generating schematic: ");
    announcement.append(name);
    announcement.append(" to ");
    announcement.append(destination.as_str());
    let source = match schematic {
        Schematic::Simple(path) => SchematicSource::Directory(path.clone()),
        Schematic::Local(local) => SchematicSource::Directory(local.path.clone()),
        Schematic::Remote(remote) => SchematicSource::Repository(clone_remote(remote)),
    };
    Ok(GeneratePlan { announcement, destination, source })
}

/// The arguments given to `git` to fetch a remote schematic into `target`:
/// `clone URL TARGET`.  The branch stays in the configuration but is not
/// handed to the clone.
pub fn clone_arguments(remote: &RemoteSchematic, target: &str) -> (args: Vec<String>)
    ensures
        args@.len() == 3,
        args@[0]@ == "clone"@,
        args@[1]@ == remote.url@,
        args@[2]@ == target@,
{
    let mut args: Vec<String> = Vec::new();
    args.push(String::from_str("clone"));
    args.push(remote.url.clone());
    args.push(String::from_str(target));
    args
}

} // verus!
