use vstd::prelude::*;

use crate::paths::{file_name_of, joined, path_file_name, path_join};
use crate::text::{opt_str_view, str_eq};

verus! {

/// A shell rewind integrates with.
#[derive(Clone, Copy, Debug, PartialEq, Eq, Structural)]
pub enum Shell {
    Bash,
    Zsh,
    Fish,
}

/// The name of a shell, as typed on the command line.
pub open spec fn shell_name(s: Shell) -> Seq<char> {
    match s {
        Shell::Bash => "bash"@,
        Shell::Zsh => "zsh"@,
        Shell::Fish => "fish"@,
    }
}

/// The shell a name stands for, if any.
pub open spec fn shell_named(n: Seq<char>) -> Option<Shell> {
    if n == "bash"@ {
        Some(Shell::Bash)
    } else if n == "zsh"@ {
        Some(Shell::Zsh)
    } else if n == "fish"@ {
        Some(Shell::Fish)
    } else {
        None
    }
}

impl Shell {
    /// The shell's name.
    pub fn name(&self) -> (r: &'static str)
        ensures
            r@ == shell_name(*self),
    {
        match self {
            Shell::Bash => "bash",
            Shell::Zsh => "zsh",
            Shell::Fish => "fish",
        }
    }
}

/// The shell a name stands for.
pub fn shell_from_name(name: &str) -> (r: Option<Shell>)
    ensures
        r == shell_named(name@),
{
    if str_eq(name, "bash") {
        Some(Shell::Bash)
    } else if str_eq(name, "zsh") {
        Some(Shell::Zsh)
    } else if str_eq(name, "fish") {
        Some(Shell::Fish)
    } else {
        None
    }
}

/// Why the shell could not be told from `$SHELL`.
pub enum ShellDetectError {
    /// `$SHELL` is not set.
    NotSet,
    /// `$SHELL` names a shell rewind does not support; the name is kept.
    Unsupported(String),
}

/// The text of a shell detection error.
pub open spec fn shell_error_text(e: ShellDetectError) -> Seq<char> {
    match e {
        ShellDetectError::NotSet => "could not detect shell: $SHELL is not set"@,
        ShellDetectError::Unsupported(n) => "unsupported shell `"@ + n@
            + "`. Choose bash, zsh, or fish."@,
    }
}

impl ShellDetectError {
    /// The message shown for the error.
    pub fn message(&self) -> (r: String)
        ensures
            r@ == shell_error_text(*self),
    {
        match self {
            ShellDetectError::NotSet => String::from_str("could not detect shell: $SHELL is not set"),
            ShellDetectError::Unsupported(n) => {
                let mut r = String::from_str("unsupported shell `");
                r.append(n.as_str());
                r.append("`. Choose bash, zsh, or fish.");
                r
            },
        }
    }
}

/// The final component of a path, or nothing when it has none.
pub open spec fn file_name_or_empty(p: Seq<char>) -> Seq<char> {
    match file_name_of(p) {
        Some(n) => n,
        None => Seq::empty(),
    }
}

/// The shell named by the final component of the value of `$SHELL`.
pub fn detect_shell(shell_var: Option<&str>) -> (r: Result<Shell, ShellDetectError>)
    ensures
        match shell_var {
            None => r matches Err(ShellDetectError::NotSet),
            Some(v) => match shell_named(file_name_or_empty(v@)) {
                Some(s) => r == Ok::<Shell, ShellDetectError>(s),
                None => r matches Err(ShellDetectError::Unsupported(n)) && n@ == file_name_or_empty(
                    v@,
                ),
            },
        },
{
    match shell_var {
        None => Err(ShellDetectError::NotSet),
        Some(v) => {
            let name = match path_file_name(v) {
                Some(n) => n,
                None => String::new(),
            };
            match shell_from_name(name.as_str()) {
                Some(s) => Ok(s),
                None => Err(ShellDetectError::Unsupported(name)),
            }
        },
    }
}

/// The home directory is needed and `$HOME` is not set.
pub struct HomeNotSet;

impl HomeNotSet {
    /// The message shown for the error.
    pub fn message(&self) -> (r: String)
        ensures
            r@ == "could not find home directory: $HOME is not set"@,
    {
        String::from_str("could not find home directory: $HOME is not set")
    }
}

/// The startup file of a shell, given `$HOME` and `$XDG_CONFIG_HOME`.
pub open spec fn config_path_of(shell: Shell, home: Option<Seq<char>>, xdg: Option<Seq<char>>) -> Option<
    Seq<char>,
> {
    match shell {
        Shell::Bash => match home {
            Some(h) => Some(joined(h, ".bashrc"@)),
            None => None,
        },
        Shell::Zsh => match home {
            Some(h) => Some(joined(h, ".zshrc"@)),
            None => None,
        },
        Shell::Fish => match xdg {
            Some(x) => Some(joined(x, "fish/config.fish"@)),
            None => match home {
                Some(h) => Some(joined(h, ".config/fish/config.fish"@)),
                None => None,
            },
        },
    }
}

/// The startup file the shell integration goes into: `~/.bashrc`,
/// `~/.zshrc`, or `config.fish` under `$XDG_CONFIG_HOME/fish` (or
/// `~/.config/fish` when that is not set).
pub fn config_path(shell: Shell, home: Option<&str>, xdg_config_home: Option<&str>) -> (r: Result<
    String,
    HomeNotSet,
>)
    ensures
        match config_path_of(shell, opt_str_view(home), opt_str_view(xdg_config_home)) {
            Some(p) => r matches Ok(s) && s@ == p,
            None => r is Err,
        },
{
    match shell {
        Shell::Bash => match home {
            Some(h) => Ok(path_join(h, ".bashrc")),
            None => Err(HomeNotSet),
        },
        Shell::Zsh => match home {
            Some(h) => Ok(path_join(h, ".zshrc")),
            None => Err(HomeNotSet),
        },
        Shell::Fish => match xdg_config_home {
            Some(x) => Ok(path_join(x, "fish/config.fish")),
            None => match home {
                Some(h) => Ok(path_join(h, ".config/fish/config.fish")),
                None => Err(HomeNotSet),
            },
        },
    }
}

/// The options of `rw init`.
pub struct Args {
    /// Shell to configure; detected from `$SHELL` when omitted.
    pub shell: Option<Shell>,
    /// Install the integration into the shell startup file.
    pub install: bool,
    /// Remove the integration from the shell startup file.
    pub uninstall: bool,
}

/// What `rw init` does.
#[derive(Clone, Copy, Debug, PartialEq, Eq, Structural)]
pub enum InitAction {
    /// Print the shell snippet.
    Print,
    /// Put the managed block into the startup file.
    Install,
    /// Take the managed block out of the startup file.
    Uninstall,
}

/// The action asked for by the `--install` and `--uninstall` switches, which
/// exclude each other.
pub fn init_action(install: bool, uninstall: bool) -> (r: InitAction)
    requires
        !(install && uninstall),
    ensures
        r == (if install {
            InitAction::Install
        } else if uninstall {
            InitAction::Uninstall
        } else {
            InitAction::Print
        }),
{
    if install {
        InitAction::Install
    } else if uninstall {
        InitAction::Uninstall
    } else {
        InitAction::Print
    }
}

} // verus!
