//! The startup file of each known shell.

use crate::text::{str_eq, Text};
use vstd::prelude::*;

verus! {

/// The startup file of the shell called `shell`, as a path relative to the
/// user's home directory. Names are matched exactly and with their case; any
/// name that is not in the table, the empty one included, has `.profile`.
pub open spec fn shell_config_file(shell: Text) -> Text {
    if shell == "bash"@ {
        ".bashrc"@
    } else if shell == "zsh"@ {
        ".zshrc"@
    } else if shell == "fish"@ {
        ".config/fish/config.fish"@
    } else if shell == "ksh"@ {
        ".kshrc"@
    } else if shell == "tcsh"@ {
        ".tcshrc"@
    } else if shell == "csh"@ {
        ".cshrc"@
    } else {
        ".profile"@
    }
}

/// Maps a shell name to its startup file, relative to the home directory.
pub fn get_shell_config_file(shell: &str) -> (file: String)
    ensures
        file@ == shell_config_file(shell@),
{
    if str_eq(shell, "bash") {
        ".bashrc".to_string()
    } else if str_eq(shell, "zsh") {
        ".zshrc".to_string()
    } else if str_eq(shell, "fish") {
        ".config/fish/config.fish".to_string()
    } else if str_eq(shell, "ksh") {
        ".kshrc".to_string()
    } else if str_eq(shell, "tcsh") {
        ".tcshrc".to_string()
    } else if str_eq(shell, "csh") {
        ".cshrc".to_string()
    } else {
        ".profile".to_string()
    }
}

} // verus!
