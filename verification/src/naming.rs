//! The workspace's name and the window title built from it.
use crate::model::opt_view;
use crate::text::{owned, push_str, str_eq, take_chars, take_chars_str, trim, trim_str};
use crate::workspace::{bumped, Workspace};
use std::path::Path;
use vstd::prelude::*;

verus! {

/// The name of a workspace that has none.
pub open spec fn default_name() -> Seq<char> {
    seq!['未', '命', '名', '画', '布']
}

pub fn default_workspace_name() -> (r: String)
    ensures
        r@ == default_name(),
{
    proof {
        reveal_strlit("未命名画布");
        assert("未命名画布"@ =~= default_name());
    }
    owned("未命名画布")
}


/// The longest workspace name, in characters.
pub const MAX_WORKSPACE_NAME_CHARS: usize = 80;

/// The name that a raw name becomes: trimmed and cut to the longest name,
/// or the default name where nothing is left.
pub open spec fn normalized_name(raw: Seq<char>) -> Seq<char> {
    if trim(raw).len() == 0 {
        default_name()
    } else {
        take_chars(trim(raw), MAX_WORKSPACE_NAME_CHARS as nat)
    }
}

/// Trims a workspace name and cuts it to the longest name; a blank name
/// becomes the default name.
pub fn normalize_workspace_name(raw: &str) -> (r: String)
    ensures
        r@ == normalized_name(raw@),
{
    let trimmed = trim_str(raw);
    if trimmed.as_str().is_empty() {
        return default_workspace_name();
    }
    take_chars_str(trimmed.as_str(), MAX_WORKSPACE_NAME_CHARS)
}

/// `Path::file_stem` of a path, read lossily as text.
pub uninterp spec fn path_file_stem(path: Seq<char>) -> Option<Seq<char>>;

/// `Path::file_name` of a path, read lossily as text.
pub uninterp spec fn path_file_name(path: Seq<char>) -> Option<Seq<char>>;

/// Calls `Path::file_stem` on the path and reads the stem lossily as text;
/// what it gives is named `path_file_stem`.
#[verifier::external_body]
fn file_stem_of(path: &str) -> (r: Option<String>)
    ensures
        opt_view(r) == path_file_stem(path@),
{
    Path::new(path).file_stem().map(|s| s.to_string_lossy().into_owned())
}

/// Calls `Path::file_name` on the path and reads the name lossily as text;
/// what it gives is named `path_file_name`.
#[verifier::external_body]
fn file_name_of(path: &str) -> (r: Option<String>)
    ensures
        opt_view(r) == path_file_name(path@),
{
    Path::new(path).file_name().map(|s| s.to_string_lossy().into_owned())
}

/// The name taken from a path: its stem (or else its file name), trimmed,
/// where that is not blank, else the default name; then normalized.
pub open spec fn name_from_path(path: Option<Seq<char>>) -> Seq<char> {
    let derived = match path {
        Some(p) => match path_file_stem(p) {
            Some(stem) => Some(trim(stem)),
            None => match path_file_name(p) {
                Some(name) => Some(trim(name)),
                None => None,
            },
        },
        None => None,
    };
    match derived {
        Some(d) => if d.len() > 0 {
            normalized_name(d)
        } else {
            normalized_name(default_name())
        },
        None => normalized_name(default_name()),
    }
}

/// The workspace name taken from a path, for configurations that stored none.
pub fn derive_workspace_name_from_path(path: Option<&str>) -> (r: String)
    ensures
        r@ == name_from_path(opt_str_view(path)),
{
    let derived: Option<String> = match path {
        Some(p) => match file_stem_of(p) {
            Some(stem) => Some(trim_str(stem.as_str())),
            None => match file_name_of(p) {
                Some(name) => Some(trim_str(name.as_str())),
                None => None,
            },
        },
        None => None,
    };
    let chosen = match derived {
        Some(d) => if !d.as_str().is_empty() {
            d
        } else {
            default_workspace_name()
        },
        None => default_workspace_name(),
    };
    normalize_workspace_name(chosen.as_str())
}

/// The view of an optional string slice.
pub open spec fn opt_str_view(o: Option<&str>) -> Option<Seq<char>> {
    match o {
        Some(s) => Some(s@),
        None => None,
    }
}

/// The name a loaded workspace gets: the stored name, normalized, or else
/// the name taken from the path.
pub open spec fn resolved_name(stored: Option<Seq<char>>, path: Option<Seq<char>>) -> Seq<char> {
    match stored {
        Some(n) => normalized_name(n),
        None => name_from_path(path),
    }
}

pub fn resolve_workspace_name(stored_name: Option<&str>, fallback_path: Option<&str>) -> (r: String)
    ensures
        r@ == resolved_name(opt_str_view(stored_name), opt_str_view(fallback_path)),
{
    match stored_name {
        Some(name) => normalize_workspace_name(name),
        None => derive_workspace_name_from_path(fallback_path),
    }
}

/// What submitting a draft name gives: the normalized draft, and whether it
/// differs from the current name.
pub fn workspace_name_submit_result(current: &str, draft: &str) -> (r: (String, bool))
    ensures
        r.0@ == normalized_name(draft@),
        r.1 == (normalized_name(draft@) != current@),
{
    let normalized = normalize_workspace_name(draft);
    let changed = !str_eq(normalized.as_str(), current);
    (normalized, changed)
}

/// The window title: the name, marked with a star while unsaved.
pub open spec fn window_title(name: Seq<char>, dirty: bool) -> Seq<char> {
    (if dirty {
        "* "@
    } else {
        ""@
    }) + name + " - CanvasTerminal"@
}

pub fn format_workspace_window_title(workspace_name: &str, workspace_dirty: bool) -> (r: String)
    ensures
        r@ == window_title(workspace_name@, workspace_dirty),
{
    let mut out = if workspace_dirty {
        owned("* ")
    } else {
        owned("")
    };
    push_str(&mut out, workspace_name);
    push_str(&mut out, " - CanvasTerminal");
    out
}

impl Workspace {
    /// Sets the workspace name, normalized.
    pub fn set_workspace_name(&mut self, name: &str)
        ensures
            final(self).workspace_name@ == normalized_name(name@),
            final(self).graph == old(self).graph,
            final(self).selection == old(self).selection,
            final(self).history == old(self).history,
            final(self).workspace_dirty == old(self).workspace_dirty,
            final(self).automation_state_version == old(self).automation_state_version,
    {
        self.workspace_name = normalize_workspace_name(name);
    }

    /// Opens the name editor on the present name.
    pub fn start_workspace_name_edit(&mut self)
        ensures
            final(self).editing_workspace_name,
            final(self).pending_workspace_name_focus,
            final(self).workspace_name_edit_buffer@ == old(self).workspace_name@,
            final(self).workspace_name == old(self).workspace_name,
            final(self).graph == old(self).graph,
            final(self).workspace_dirty == old(self).workspace_dirty,
    {
        self.editing_workspace_name = true;
        self.pending_workspace_name_focus = true;
        self.workspace_name_edit_buffer = crate::text::copy_string(&self.workspace_name);
    }

    /// Closes the name editor without taking its text.
    pub fn cancel_workspace_name_edit(&mut self)
        ensures
            !final(self).editing_workspace_name,
            !final(self).pending_workspace_name_focus,
            final(self).workspace_name_edit_buffer@.len() == 0,
            final(self).workspace_name == old(self).workspace_name,
            final(self).graph == old(self).graph,
            final(self).history == old(self).history,
            final(self).workspace_dirty == old(self).workspace_dirty,
            final(self).automation_state_version == old(self).automation_state_version,
            final(self).selection == old(self).selection,
            final(self).edit == old(self).edit,
            final(self).terminals == old(self).terminals,
            final(self).ui == old(self).ui,
    {
        self.editing_workspace_name = false;
        self.pending_workspace_name_focus = false;
        self.workspace_name_edit_buffer = String::new();
    }

    /// Takes the edited name: the workspace gets the normalized name and,
    /// when that differs from the present one, becomes dirty and moves to the
    /// next state version; the editor closes and drops its pending focus.
    pub fn commit_workspace_name_edit(&mut self)
        ensures
            final(self).workspace_name@ == normalized_name(old(self).workspace_name_edit_buffer@),
            normalized_name(old(self).workspace_name_edit_buffer@) != old(self).workspace_name@ ==> {
                &&& final(self).workspace_dirty
                &&& final(self).automation_state_version == bumped(old(self).automation_state_version)
            },
            normalized_name(old(self).workspace_name_edit_buffer@) == old(self).workspace_name@ ==> {
                &&& final(self).workspace_dirty == old(self).workspace_dirty
                &&& final(self).automation_state_version == old(self).automation_state_version
            },
            !final(self).editing_workspace_name,
            !final(self).pending_workspace_name_focus,
            final(self).workspace_name_edit_buffer@.len() == 0,
            final(self).graph == old(self).graph,
            final(self).history == old(self).history,
            final(self).selection == old(self).selection,
            final(self).edit == old(self).edit,
            final(self).terminals == old(self).terminals,
            final(self).ui == old(self).ui,
    {
        let (next_name, changed) = workspace_name_submit_result(
            self.workspace_name.as_str(),
            self.workspace_name_edit_buffer.as_str(),
        );
        if changed {
            self.workspace_name = next_name;
            self.mark_workspace_dirty();
        }
        self.cancel_workspace_name_edit();
    }

    /// The window title of this workspace.
    pub fn workspace_window_title(&self) -> (r: String)
        ensures
            r@ == window_title(self.workspace_name@, self.workspace_dirty),
    {
        format_workspace_window_title(self.workspace_name.as_str(), self.workspace_dirty)
    }
}

} // verus!
