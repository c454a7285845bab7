//! Schematics as they are registered, and the row shown for each in the
//! listing.

use vstd::prelude::*;

verus! {

/// Where a schematic comes from.
#[derive(Clone, Debug)]
pub enum Schematic {
    /// A bare path to the schematic directory.
    Simple(String),
    /// A local directory with an optional description.
    Local(LocalSchematic),
    /// A Git repository with an optional branch and description.
    Remote(RemoteSchematic),
}

/// A schematic kept in a local directory.
#[derive(Clone, Debug)]
pub struct LocalSchematic {
    pub path: String,
    pub description: Option<String>,
}

/// A schematic kept in a Git repository.
#[derive(Clone, Debug)]
pub struct RemoteSchematic {
    pub url: String,
    pub description: Option<String>,
    pub branch: Option<String>,
}

/// One row of the schematic listing.
#[derive(Clone, Debug)]
pub struct SchematicDetail {
    pub name: String,
    pub description: String,
}

/// The text of an optional value, or `fallback` when it is absent.
pub open spec fn text_or(v: Option<String>, fallback: Seq<char>) -> Seq<char> {
    match v {
        Some(s) => s@,
        None => fallback,
    }
}

/// The description shown for a schematic: its own, or "No description".
pub open spec fn description_of(s: Schematic) -> Seq<char> {
    match s {
        Schematic::Simple(_) => "No description"@,
        Schematic::Local(l) => text_or(l.description, "No description"@),
        Schematic::Remote(r) => text_or(r.description, "No description"@),
    }
}

/// The one-line rendering of a schematic.
pub open spec fn summary_of(s: Schematic) -> Seq<char> {
    match s {
        Schematic::Simple(path) => path@,
        Schematic::Local(l) => "path="@ + l.path@ + ", description="@ + text_or(
            l.description,
            "No description"@,
        ),
        Schematic::Remote(r) => "url="@ + r.url@ + ", branch="@ + text_or(r.branch, "default"@)
            + ", description="@ + text_or(r.description, "No description"@),
    }
}

/// The text held in `v`, or `fallback`.
fn text_or_else(v: &Option<String>, fallback: &str) -> (r: String)
    ensures
        r@ == text_or(*v, fallback@),
{
    match v {
        Some(s) => s.clone(),
        None => String::from_str(fallback),
    }
}

impl Schematic {
    /// A schematic given by its directory path alone.
    pub fn new_simple(path: String) -> (s: Self)
        ensures
            s == Schematic::Simple(path),
    {
        Schematic::Simple(path)
    }

    /// A local schematic.
    pub fn new_local(path: String, description: Option<String>) -> (s: Self)
        ensures
            s == Schematic::Local(LocalSchematic { path, description }),
    {
        Schematic::Local(LocalSchematic { path, description })
    }

    /// A remote schematic.
    pub fn new_remote(url: String, branch: Option<String>, description: Option<String>) -> (s:
        Self)
        ensures
            s == Schematic::Remote(RemoteSchematic { url, description, branch }),
    {
        Schematic::Remote(RemoteSchematic { url, branch, description })
    }

    /// The one-line rendering: the path of a simple schematic;
    /// `path=P, description=D` for a local one and
    /// `url=U, branch=B, description=D` for a remote one, where an absent
    /// branch reads `default` and an absent description `No description`.
    pub fn summary(&self) -> (r: String)
        ensures
            r@ == summary_of(*self),
    {
        match self {
            Schematic::Simple(path) => path.clone(),
            Schematic::Local(local) => {
                let mut r = String::from_str("path=");
                r.append(local.path.as_str());
                r.append(", description=");
                let d = text_or_else(&local.description, "No description");
                r.append(d.as_str());
                r
            },
            Schematic::Remote(remote) => {
                let mut r = String::from_str("url=");
                r.append(remote.url.as_str());
                r.append(", branch=");
                let b = text_or_else(&remote.branch, "default");
                r.append(b.as_str());
                r.append(", description=");
                let d = text_or_else(&remote.description, "No description");
                r.append(d.as_str());
                r
            },
        }
    }
}

impl SchematicDetail {
    /// The listing row for the schematic registered as `name`.
    pub fn new(name: &str, schematic: &Schematic) -> (d: Self)
        ensures
            d.name@ == name@,
            d.description@ == description_of(*schematic),
    {
        let description = match schematic {
            Schematic::Simple(_) => String::from_str("No description"),
            Schematic::Local(local) => text_or_else(&local.description, "No description"),
            Schematic::Remote(remote) => text_or_else(&remote.description, "No description"),
        };
        SchematicDetail { name: String::from_str(name), description }
    }
}

} // verus!
