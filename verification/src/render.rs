//! The decisions taken while a schematic's directory tree is rendered:
//! file names and contents go through Handlebars, `.git` directories are
//! left out, `schema.json` is not copied, and a destination inside the
//! source tree is not walked into.

use vstd::prelude::*;

use crate::json::{handlebars_output, render_template, JsonValue};
use crate::text::{same_text, views};

verus! {

/// A rendered text, with the renderer's error when it failed.
#[derive(Debug)]
pub struct RenderedText {
    /// The rendering, or the template itself when rendering failed.
    pub text: String,
    /// The message of the rendering error, if any.
    pub error: Option<String>,
}

/// Renders `template` with the answers in `context`; when Handlebars reports
/// an error the template is kept as it is and the error passed on.
pub fn render_file(template: &str, context: &JsonValue) -> (r: RenderedText)
    ensures
        match handlebars_output(template@, *context) {
            Some(s) => r.text@ == s && r.error is None,
            None => r.text@ == template@ && r.error is Some,
        },
{
    match render_template(template, context) {
        Ok(text) => RenderedText { text, error: None },
        Err(e) => RenderedText { text: String::from_str(template), error: Some(e) },
    }
}

/// What is done with one entry of a directory being rendered.
#[derive(Clone, Copy, Debug, PartialEq, Eq, Structural)]
pub enum EntryAction {
    /// Render the directory into the entry of the rendered name.
    Descend,
    /// Leave the entry out.
    Skip,
    /// Render the file's contents into the file of the rendered name.
    Write,
}

/// The action for an entry whose rendered name is `rendered_name`: a
/// directory is descended into; a file rendered to `schema.json` is left
/// out; any other file is written.
pub fn entry_action(rendered_name: &str, is_dir: bool) -> (r: EntryAction)
    ensures
        is_dir ==> r == EntryAction::Descend,
        !is_dir && rendered_name@ == "schema.json"@ ==> r == EntryAction::Skip,
        !is_dir && rendered_name@ != "schema.json"@ ==> r == EntryAction::Write,
{
    if is_dir {
        EntryAction::Descend
    } else if same_text(rendered_name, "schema.json") {
        EntryAction::Skip
    } else {
        EntryAction::Write
    }
}

/// Whether a source directory whose last path component is `name` is left
/// out of rendering: only `.git` is.
pub fn skips_directory(name: &str) -> (r: bool)
    ensures
        r == (name@ == ".git"@),
{
    same_text(name, ".git")
}

/// `prefix` is a leading part of `path`, component by component.
pub open spec fn is_component_prefix(prefix: Seq<Seq<char>>, path: Seq<Seq<char>>) -> bool {
    prefix.len() <= path.len() && path.take(prefix.len() as int) == prefix
}

/// A path lies under a root exactly when the root has no more components
/// than the path and each component of the root equals the path's component
/// at the same index.
pub proof fn law_component_prefix_is_leading_components(prefix: Seq<Seq<char>>, path: Seq<Seq<char>>)
    ensures
        is_component_prefix(prefix, path) <==> (prefix.len() <= path.len() && forall|i: int|
            0 <= i < prefix.len() ==> #[trigger] path[i] == prefix[i]),
{
    if prefix.len() <= path.len() && (forall|i: int| 0 <= i < prefix.len() ==> #[trigger] path[i] == prefix[i]) {
        assert(path.take(prefix.len() as int) =~= prefix);
    }
    if is_component_prefix(prefix, path) {
        assert forall|i: int| 0 <= i < prefix.len() implies #[trigger] path[i] == prefix[i] by {
            assert(path.take(prefix.len() as int)[i] == path[i]);
        }
    }
}

/// The destination is left out exactly when it lies strictly below the
/// source: every component of the source leads the destination and the
/// destination is longer.  Two paths that differ in some component of the
/// source are never in that relation.
pub proof fn law_excluded_destination_lies_below_source(source: Seq<Seq<char>>, destination: Seq<Seq<char>>)
    ensures
        (is_component_prefix(source, destination) && source != destination) <==> (source.len()
            < destination.len() && forall|i: int|
            0 <= i < source.len() ==> #[trigger] destination[i] == source[i]),
{
    law_component_prefix_is_leading_components(source, destination);
    if is_component_prefix(source, destination) && source.len() == destination.len() {
        assert(source =~= destination);
    }
}

/// Whether the path with components `path` lies under `root` (or is it),
/// as `Path::starts_with` decides.
pub fn starts_with_components(path: &Vec<String>, root: &Vec<String>) -> (r: bool)
    ensures
        r == is_component_prefix(views(root@), views(path@)),
        r == (root@.len() <= path@.len() && forall|i: int|
            0 <= i < root@.len() ==> #[trigger] path@[i]@ == root@[i]@),
{
    let ghost p = views(path@);
    let ghost q = views(root@);
    proof {
        law_component_prefix_is_leading_components(q, p);
        assert forall|i: int| 0 <= i < root@.len() && i < path@.len() implies (p[i] == q[i]) == (
            #[trigger] path@[i]@ == root@[i]@) by {}
    }
    if root.len() > path.len() {
        return false;
    }
    let mut i: usize = 0;
    while i < root.len()
        invariant
            p == views(path@),
            q == views(root@),
            root@.len() <= path@.len(),
            i <= root@.len(),
            forall|j: int| 0 <= j < i ==> p[j] == q[j],
        decreases root@.len() - i,
    {
        if !same_text(path[i].as_str(), root[i].as_str()) {
            assert(p.take(q.len() as int)[i as int] != q[i as int]);
            return false;
        }
        i = i + 1;
    }
    assert(p.take(q.len() as int) =~= q);
    true
}

/// Whether the destination, given by its canonical components, is to be
/// left out while the source tree is walked: it is when it lies strictly
/// inside the source.
pub fn excludes_destination(source: &Vec<String>, destination: &Vec<String>) -> (r: bool)
    ensures
        r == (is_component_prefix(views(source@), views(destination@)) && views(source@) != views(
            destination@,
        )),
        r == (source@.len() < destination@.len() && forall|i: int|
            0 <= i < source@.len() ==> #[trigger] destination@[i]@ == source@[i]@),
{
    proof {
        law_excluded_destination_lies_below_source(views(source@), views(destination@));
        assert forall|i: int| 0 <= i < source@.len() && i < destination@.len() implies (views(
            destination@,
        )[i] == views(source@)[i]) == (#[trigger] destination@[i]@ == source@[i]@) by {}
    }
    if !starts_with_components(destination, source) {
        return false;
    }
    if destination.len() == source.len() {
        assert(views(destination@) =~= views(source@));
        false
    } else {
        true
    }
}

} // verus!
