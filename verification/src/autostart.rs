//! Start with Windows: the program registers its own quoted path under the
//! current user's `Run` key. Whether autostart is on is whether the
//! registered command is that command (compared ignoring ASCII case).
use vstd::prelude::*;

use crate::text::{append_str, ascii_lower, chars_of, eq_ignore_ascii_case, has_char};

verus! {

/// Message when the program path holds a double quote.
pub open spec fn quoted_path_message() -> Seq<char> {
    "程序路径包含不受支持的双引号"@
}

/// The command that starts the program: its path in double quotes. A path
/// holding a double quote cannot be quoted this way.
pub open spec fn command_for(executable_path: Seq<char>) -> Result<Seq<char>, Seq<char>> {
    if executable_path.contains('"') {
        Err(quoted_path_message())
    } else {
        Ok(seq!['"'] + executable_path + seq!['"'])
    }
}

/// A text result seen through its views.
pub open spec fn text_view(r: Result<String, String>) -> Result<Seq<char>, Seq<char>> {
    match r {
        Ok(v) => Ok(v@),
        Err(e) => Err(e@),
    }
}

/// The command registered for autostart.
pub fn current_command(executable_path: &str) -> (res: Result<String, String>)
    ensures
        text_view(res) == command_for(executable_path@),
{
    let chars = chars_of(executable_path);
    if has_char(chars.as_slice(), '"') {
        return Err(String::from_str("程序路径包含不受支持的双引号"));
    }
    let mut command = String::from_str("\"");
    append_str(&mut command, executable_path);
    append_str(&mut command, "\"");
    proof {
        reveal_strlit("\"");
        assert(command@ =~= seq!['"'] + executable_path@ + seq!['"']);
    }
    Ok(command)
}

/// Whether autostart is on, given what the `Run` key holds for the program
/// (`None`: nothing registered): on when the registered command equals the
/// current one, ignoring ASCII case.
pub open spec fn enabled_outcome(registered: Option<Seq<char>>, executable_path: Seq<char>) -> Result<
    bool,
    Seq<char>,
> {
    match registered {
        None => Ok(false),
        Some(r) => match command_for(executable_path) {
            Err(e) => Err(e),
            Ok(c) => Ok(ascii_lower(r) == ascii_lower(c)),
        },
    }
}

/// Whether autostart is on.
pub fn is_enabled(registered: Option<&str>, executable_path: &str) -> (res: Result<bool, String>)
    ensures
        match res {
            Ok(b) => enabled_outcome(
                match registered {
                    Some(r) => Some(r@),
                    None => None,
                },
                executable_path@,
            ) == Ok::<bool, Seq<char>>(b),
            Err(e) => enabled_outcome(
                match registered {
                    Some(r) => Some(r@),
                    None => None,
                },
                executable_path@,
            ) == Err::<bool, Seq<char>>(e@),
        },
{
    match registered {
        None => Ok(false),
        Some(r) => match current_command(executable_path) {
            Err(e) => Err(e),
            Ok(c) => Ok(eq_ignore_ascii_case(r, c.as_str())),
        },
    }
}

/// The change to make to the `Run` key.
#[derive(Debug)]
pub enum RunKeyChange {
    /// Register this command under the program's value.
    Register(String),
    /// Delete the program's value (a missing value is fine).
    Unregister,
}

/// Turns autostart on or off: the change to make to the `Run` key, after
/// which the caller reads the state back with `is_enabled`.
pub fn set_enabled(enabled: bool, executable_path: &str) -> (res: Result<RunKeyChange, String>)
    ensures
        enabled ==> match res {
            Ok(RunKeyChange::Register(c)) => command_for(executable_path@) == Ok::<Seq<char>, Seq<char>>(c@),
            Ok(RunKeyChange::Unregister) => false,
            Err(e) => command_for(executable_path@) == Err::<Seq<char>, Seq<char>>(e@),
        },
        !enabled ==> res matches Ok(RunKeyChange::Unregister),
{
    if enabled {
        match current_command(executable_path) {
            Ok(c) => Ok(RunKeyChange::Register(c)),
            Err(e) => Err(e),
        }
    } else {
        Ok(RunKeyChange::Unregister)
    }
}

/// Turning autostart on and reading it back reports it on: the command
/// registered by `set_enabled` is recognised by `is_enabled`, whatever the
/// case of its letters after a round trip through the registry.
pub proof fn law_registered_command_reads_back(executable_path: Seq<char>, stored: Seq<char>)
    requires
        command_for(executable_path) is Ok,
        ascii_lower(stored) == ascii_lower(command_for(executable_path)->Ok_0),
    ensures
        enabled_outcome(Some(stored), executable_path) == Ok::<bool, Seq<char>>(true),
{
}

/// After turning autostart off, nothing is registered and it reads back off.
pub proof fn law_unregistered_reads_back_off(executable_path: Seq<char>)
    ensures
        enabled_outcome(None, executable_path) == Ok::<bool, Seq<char>>(false),
{
}

} // verus!
