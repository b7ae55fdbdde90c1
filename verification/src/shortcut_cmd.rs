use vstd::prelude::*;

use crate::args::{lemma_shell_reads_quoted_args, parse_cmd_args, quoted_command, shell_words};
use crate::query_shortcuts::GLOBAL_PROJECT_DIR;
use crate::shortcut::Shortcut;
use crate::text::{blank, is_blank, padded_right, push_char, push_padded, str_eq, string_views};

verus! {

/// The `rw shortcut` subcommands.
pub enum ShortcutCommand {
    /// Save a shortcut for the current project, or for all with `global`.
    Add { alias: String, command: Vec<String>, global: bool },
    /// Remove a shortcut from the current project, or a global one.
    Remove { alias: String, global: bool },
    /// List the project's shortcuts and the global ones, or only globals.
    List { global: bool },
}

/// The options of `rw shortcut`.
pub struct Args {
    pub command: ShortcutCommand,
}

/// The subcommand names, which cannot be shortcut aliases.
pub open spec fn reserved_names() -> Seq<Seq<char>> {
    seq!["run"@, "search"@, "status"@, "shortcut"@, "daemon"@, "init"@, "help"@]
}

/// Whether an alias is a subcommand name.
pub fn is_reserved(alias: &str) -> (r: bool)
    ensures
        r == reserved_names().contains(alias@),
{
    let names: [&str; 7] = ["run", "search", "status", "shortcut", "daemon", "init", "help"];
    let ghost rs = reserved_names();
    assert(rs.len() == 7);
    let mut i: usize = 0;
    while i < 7
        invariant
            i <= 7,
            rs == reserved_names(),
            names@.len() == 7,
            forall|k: int| 0 <= k < 7 ==> (#[trigger] names@[k])@ == rs[k],
            forall|k: int| 0 <= k < i ==> rs[k] != alias@,
        decreases 7 - i,
    {
        if str_eq(names[i], alias) {
            assert(rs[i as int] == alias@);
            return true;
        }
        i = i + 1;
    }
    assert(!rs.contains(alias@)) by {
        if rs.contains(alias@) {
            let k = choose|k: int| 0 <= k < rs.len() && rs[k] == alias@;
            assert(rs[k] != alias@);
        }
    }
    false
}

/// The project directory a shortcut is filed under: the global marker or
/// the project root.
pub open spec fn scope_dir_of(global: bool, project_root: Seq<char>) -> Seq<char> {
    if global {
        GLOBAL_PROJECT_DIR@
    } else {
        project_root
    }
}

/// The project directory a shortcut is filed under.
pub fn scope_dir(global: bool, project_root: &str) -> (r: String)
    ensures
        r@ == scope_dir_of(global, project_root@),
{
    if global {
        String::from_str(GLOBAL_PROJECT_DIR)
    } else {
        project_root.to_owned()
    }
}

/// Why a shortcut could not be added.
pub enum AddError {
    /// The alias is a subcommand name.
    Reserved(String),
    /// No command, or only blank arguments, was given.
    MissingCommand,
}

/// The text of an add error.
pub open spec fn add_error_text(e: AddError) -> Seq<char> {
    match e {
        AddError::Reserved(a) => "'"@ + a@
            + "' is a reserved subcommand name and cannot be used as a shortcut alias"@,
        AddError::MissingCommand => "A command is required. Usage: rw shortcut add <alias> <command>"@,
    }
}

impl AddError {
    /// The message shown for the error.
    pub fn message(&self) -> (r: String)
        ensures
            r@ == add_error_text(*self),
    {
        match self {
            AddError::Reserved(a) => {
                let mut r = String::from_str("'");
                r.append(a.as_str());
                r.append("' is a reserved subcommand name and cannot be used as a shortcut alias");
                r
            },
            AddError::MissingCommand => String::from_str(
                "A command is required. Usage: rw shortcut add <alias> <command>",
            ),
        }
    }
}

/// Every argument is blank (or there are none).
pub open spec fn all_blank(args: Seq<Seq<char>>) -> bool {
    forall|i: int| 0 <= i < args.len() ==> blank(#[trigger] args[i])
}

/// The shortcut `rw shortcut add` saves: refused for a reserved alias, then
/// for a missing command; else the alias, the quoted command, the scope
/// directory and the global flag, with no repository.
pub fn plan_shortcut_add(alias: String, command: &Vec<String>, global: bool, project_root: &str) -> (r: Result<Shortcut, AddError>)
    ensures
        reserved_names().contains(alias@) ==> (r matches Err(AddError::Reserved(a)) && a@ == alias@),
        !reserved_names().contains(alias@) && all_blank(string_views(command@)) ==> r matches Err(
            AddError::MissingCommand,
        ),
        !reserved_names().contains(alias@) && !all_blank(string_views(command@)) ==> (r matches Ok(
            s,
        ) && s.id == 0 && s.alias@ == alias@ && s.command@ == quoted_command(string_views(command@))
            && s.project_dir@ == scope_dir_of(global, project_root@) && s.git_repo is None
            && s.is_global == global),
{
    if is_reserved(alias.as_str()) {
        return Err(AddError::Reserved(alias));
    }
    let ghost vs = string_views(command@);
    let mut i: usize = 0;
    while i < command.len() && is_blank(command[i].as_str())
        invariant
            vs == string_views(command@),
            i <= command@.len(),
            forall|k: int| 0 <= k < i ==> blank(#[trigger] vs[k]),
        decreases command@.len() - i,
    {
        assert(vs[i as int] == command@[i as int]@);
        i = i + 1;
    }
    if i == command.len() {
        return Err(AddError::MissingCommand);
    }
    assert(!all_blank(vs)) by {
        assert(vs[i as int] == command@[i as int]@);
        assert(!blank(vs[i as int]));
    }
    let quoted = parse_cmd_args(command.as_slice());
    let dir = scope_dir(global, project_root);
    Ok(Shortcut::new(alias, quoted, dir, None, global))
}

/// The command an alias runs: the saved command, followed by the extra
/// arguments quoted, when there are any.
pub open spec fn alias_command_of(saved: Seq<char>, extra: Seq<Seq<char>>) -> Seq<char> {
    if extra.len() == 0 {
        saved
    } else {
        saved + seq![' '] + quoted_command(extra)
    }
}

/// Running an alias runs the saved command as it is when no extra
/// arguments are given; otherwise the saved command, a space, and text that
/// the shell reads back as exactly the extra arguments, each one word, in
/// order.
pub proof fn lemma_alias_command_passes_every_argument(saved: Seq<char>, extra: Seq<Seq<char>>)
    ensures
        extra.len() == 0 ==> alias_command_of(saved, extra) == saved,
        extra.len() > 0 ==> exists|q: Seq<char>|
            alias_command_of(saved, extra) == saved + seq![' '] + q && #[trigger] shell_words(q) == extra,
{
    if extra.len() > 0 {
        lemma_shell_reads_quoted_args(extra);
        assert(shell_words(quoted_command(extra)) == extra);
    }
}

/// The command an alias runs with extra arguments.
pub fn alias_command(saved: &str, extra: &[String]) -> (r: String)
    ensures
        r@ == alias_command_of(saved@, string_views(extra@)),
        extra@.len() == 0 ==> r@ == saved@,
        extra@.len() > 0 ==> exists|q: Seq<char>|
            r@ == saved@ + seq![' '] + q && #[trigger] shell_words(q) == string_views(extra@),
{
    proof {
        lemma_alias_command_passes_every_argument(saved@, string_views(extra@));
    }
    if extra.len() == 0 {
        return saved.to_owned();
    }
    let mut r = saved.to_owned();
    push_char(&mut r, ' ');
    let q = parse_cmd_args(extra);
    r.append(q.as_str());
    r
}

/// The confirmation printed after saving a shortcut.
pub open spec fn saved_text(alias: Seq<char>, global: bool) -> Seq<char> {
    "Saved shortcut '"@ + alias + "' "@ + (if global {
        "globally"@
    } else {
        "for this project"@
    }) + "."@
}

/// The confirmation printed after saving a shortcut.
pub fn saved_message(alias: &str, global: bool) -> (r: String)
    ensures
        r@ == saved_text(alias@, global),
{
    let mut r = String::from_str("Saved shortcut '");
    r.append(alias);
    r.append("' ");
    if global {
        r.append("globally");
    } else {
        r.append("for this project");
    }
    r.append(".");
    r
}

/// The confirmation printed after removing a shortcut.
pub fn removed_message(alias: &str) -> (r: String)
    ensures
        r@ == "Removed shortcut '"@ + alias@ + "'."@,
{
    let mut r = String::from_str("Removed shortcut '");
    r.append(alias);
    r.append("'.");
    r
}

/// The error for removing an alias that does not resolve.
pub fn not_found_message(alias: &str) -> (r: String)
    ensures
        r@ == "No shortcut found for alias '"@ + alias@
            + "'. use `--global` if it is a global shortcut"@,
{
    let mut r = String::from_str("No shortcut found for alias '");
    r.append(alias);
    r.append("'. use `--global` if it is a global shortcut");
    r
}

/// The error for a first argument that is neither a subcommand nor a
/// shortcut.
pub fn unknown_alias_message(alias: &str) -> (r: String)
    ensures
        r@ == "unknown command or shortcut `"@ + alias@
            + "` -- use `rw shortcut list` to see available shortcuts"@,
{
    let mut r = String::from_str("unknown command or shortcut `");
    r.append(alias);
    r.append("` -- use `rw shortcut list` to see available shortcuts");
    r
}

/// The scope column of a listed shortcut.
pub open spec fn scope_label_of(global: bool) -> Seq<char> {
    if global {
        "[global]"@
    } else {
        "[project]"@
    }
}

/// A listed shortcut: its scope, alias and command in columns of the given
/// widths, two spaces apart.
pub open spec fn list_line_text(global: bool, alias: Seq<char>, command: Seq<char>, alias_width: nat, command_width: nat) -> Seq<char> {
    padded_right(scope_label_of(global), 6) + "  "@ + padded_right(alias, alias_width) + "  "@
        + padded_right(command, command_width)
}

/// The listed line for a shortcut.
pub fn list_line(s: &Shortcut, alias_width: usize, command_width: usize) -> (r: String)
    ensures
        r@ == list_line_text(s.is_global, s.alias@, s.command@, alias_width as nat, command_width as nat),
{
    let mut r = String::new();
    let scope = if s.global() {
        "[global]"
    } else {
        "[project]"
    };
    push_padded(&mut r, scope, 6);
    r.append("  ");
    push_padded(&mut r, s.alias.as_str(), alias_width);
    r.append("  ");
    push_padded(&mut r, s.command.as_str(), command_width);
    assert(r@ =~= list_line_text(s.is_global, s.alias@, s.command@, alias_width as nat, command_width as nat));
    r
}

/// The first argument of an unknown subcommand is the alias; the rest are
/// extra arguments for its command.
pub fn split_alias_args(args: &Vec<String>) -> (r: Option<(String, Vec<String>)>)
    ensures
        args@.len() == 0 ==> r is None,
        args@.len() > 0 ==> (r matches Some(p) && p.0 == args@[0] && p.1@ == args@.drop_first()),
{
    if args.len() == 0 {
        return None;
    }
    let mut rest: Vec<String> = Vec::new();
    let mut i: usize = 1;
    while i < args.len()
        invariant
            1 <= i <= args@.len(),
            rest@ == args@.subrange(1, i as int),
        decreases args@.len() - i,
    {
        rest.push(args[i].clone());
        i = i + 1;
        assert(rest@ =~= args@.subrange(1, i as int));
    }
    assert(args@.drop_first() =~= args@.subrange(1, args@.len() as int));
    Some((args[0].clone(), rest))
}

} // verus!
