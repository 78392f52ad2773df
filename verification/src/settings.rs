//! Application settings kept in `settings.json` under the application data
//! folder: what the close button does, and the applications muted while they
//! are not in the foreground.
use vstd::prelude::*;

verus! {

/// What the close button (the X in the corner) does.
#[derive(Debug, Clone, Copy, PartialEq, Eq, Structural)]
pub enum CloseBehavior {
    /// Hide to the system tray; the window goes to the background.
    Minimize,
    /// Quit the program.
    Quit,
}

impl Default for CloseBehavior {
    fn default() -> (res: Self)
        ensures
            res == CloseBehavior::Minimize,
    {
        CloseBehavior::Minimize
    }
}

/// An application to mute automatically while it is not in the foreground.
#[derive(Debug)]
pub struct UnfocusedMuteApplication {
    /// The normalised, stable application key.
    pub key: String,
    /// The display name last read from its audio session.
    pub display_name: String,
}

/// The persisted settings.
#[derive(Debug)]
pub struct AppSettings {
    pub close_behavior: CloseBehavior,
    /// Whether the user already made the first choice; while false, every
    /// close asks.
    pub close_behavior_chosen: bool,
    /// Applications muted automatically while they lose the foreground.
    pub unfocused_mute_applications: Vec<UnfocusedMuteApplication>,
}

impl Default for AppSettings {
    fn default() -> (res: Self)
        ensures
            res.close_behavior == CloseBehavior::Minimize,
            !res.close_behavior_chosen,
            res.unfocused_mute_applications@.len() == 0,
    {
        AppSettings {
            close_behavior: CloseBehavior::Minimize,
            close_behavior_chosen: false,
            unfocused_mute_applications: Vec::new(),
        }
    }
}

/// The close behaviour as the interface reads it.
#[derive(Debug, Clone, Copy, PartialEq, Eq, Structural)]
pub struct CloseBehaviorState {
    pub behavior: CloseBehavior,
    pub chosen: bool,
}

impl AppSettings {
    /// The close behaviour and whether it was chosen.
    pub fn close_behavior_state(&self) -> (res: CloseBehaviorState)
        ensures
            res.behavior == self.close_behavior,
            res.chosen == self.close_behavior_chosen,
    {
        CloseBehaviorState { behavior: self.close_behavior, chosen: self.close_behavior_chosen }
    }

    /// Records the user's choice of close behaviour; from then on closing no
    /// longer asks.
    pub fn choose_close_behavior(&mut self, behavior: CloseBehavior)
        ensures
            final(self).close_behavior == behavior,
            final(self).close_behavior_chosen,
            final(self).unfocused_mute_applications == old(self).unfocused_mute_applications,
    {
        self.close_behavior = behavior;
        self.close_behavior_chosen = true;
    }
}

/// Name of the settings file.
pub open spec fn settings_file_name() -> Seq<char> {
    "settings.json"@
}

/// A path separator character.
pub open spec fn is_path_separator(c: char) -> bool {
    c == '/' || c == '\\'
}

/// `joined` is `base` followed by `name`, with at most one path separator
/// between them.
pub open spec fn joined_with(base: Seq<char>, name: Seq<char>, joined: Seq<char>) -> bool {
    joined == base + name || exists|sep: char|
        is_path_separator(sep) && joined == base + seq![sep] + name
}

/// A Windows verbatim path (`\\?\...`). Joining onto such a path
/// normalises the whole result, so it is not the base followed by the name.
pub open spec fn verbatim_path(base: Seq<char>) -> bool {
    base.len() >= 4 && base.take(4) == seq!['\\', '\\', '?', '\\']
}

/// A plain relative file name: not empty, no separator, no drive colon.
pub open spec fn plain_file_name(name: Seq<char>) -> bool {
    name.len() > 0 && forall|i: int|
        0 <= i < name.len() ==> !is_path_separator(#[trigger] name[i]) && name[i] != ':'
}

/// A folder path with a plain file name appended.
///
/// Trusted: calls `Path::join` and reads the result back as text. For a plain
/// relative file name, `Path::join` (through `PathBuf::push`) keeps the base
/// and appends the name, adding the platform's separator unless the base is
/// empty or already ends in a separator; which separator and whether one is
/// added depend on the platform, and the contract does not say. Onto a
/// verbatim base (`\\?\...`) the documentation says the joined path is
/// normalised (`.` and `..` removed, components rebuilt), so for such a base
/// nothing is said of the result.
#[verifier::external_body]
pub(crate) fn join_path(base: &str, name: &str) -> (res: String)
    requires
        plain_file_name(name@),
    ensures
        !verbatim_path(base@) ==> joined_with(base@, name@, res@),
{
    std::path::Path::new(base).join(name).to_string_lossy().into_owned()
}

/// Location of the settings file inside the application data folder.
pub fn settings_path(app_data_dir: &str) -> (res: String)
    ensures
        !verbatim_path(app_data_dir@) ==> joined_with(app_data_dir@, settings_file_name(), res@),
{
    proof {
        reveal_strlit("settings.json");
    }
    join_path(app_data_dir, "settings.json")
}

} // verus!
