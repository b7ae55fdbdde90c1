use vstd::prelude::*;

verus! {

/// Builder for filtering history queries.
#[derive(Debug)]
pub struct Filter {
    pub cwd: Option<String>,
    pub project_cwd: Option<String>,
    pub git_repo: Option<String>,
    pub git_branch: Option<String>,
    /// If true, only return entries where exit_code = 0.
    pub only_success: bool,
    /// If true, only return entries where exit_code != 0.
    pub only_failure: bool,
    /// If true, only return soft-deleted entries (otherwise they are hidden).
    pub only_deleted: bool,
    pub limit: Option<usize>,
}

/// The filter with nothing restricted.
pub open spec fn empty_filter() -> Filter {
    Filter {
        cwd: None,
        project_cwd: None,
        git_repo: None,
        git_branch: None,
        only_success: false,
        only_failure: false,
        only_deleted: false,
        limit: None,
    }
}

/// Clones an optional string, keeping its value.
pub fn clone_opt(s: &Option<String>) -> (r: Option<String>)
    ensures
        r == *s,
{
    match s {
        Some(v) => Some(v.clone()),
        None => None,
    }
}

impl Filter {
    /// The filter with nothing restricted.
    pub fn new() -> (f: Self)
        ensures
            f == empty_filter(),
    {
        Filter {
            cwd: None,
            project_cwd: None,
            git_repo: None,
            git_branch: None,
            only_success: false,
            only_failure: false,
            only_deleted: false,
            limit: None,
        }
    }

    /// Restricts to commands run in this directory.
    pub fn cwd(self, cwd: String) -> (f: Self)
        ensures
            f == (Filter { cwd: Some(cwd), ..self }),
    {
        Filter { cwd: Some(cwd), ..self }
    }

    /// Restricts to commands of this project root.
    pub fn project_cwd(self, project_cwd: String) -> (f: Self)
        ensures
            f == (Filter { project_cwd: Some(project_cwd), ..self }),
    {
        Filter { project_cwd: Some(project_cwd), ..self }
    }

    /// Restricts to commands run in this repository.
    pub fn git_repo(self, repo: String) -> (f: Self)
        ensures
            f == (Filter { git_repo: Some(repo), ..self }),
    {
        Filter { git_repo: Some(repo), ..self }
    }

    /// Restricts to commands run on this branch.
    pub fn git_branch(self, branch: String) -> (f: Self)
        ensures
            f == (Filter { git_branch: Some(branch), ..self }),
    {
        Filter { git_branch: Some(branch), ..self }
    }

    /// Restricts to commands that exited with 0.
    pub fn only_success(self) -> (f: Self)
        ensures
            f == (Filter { only_success: true, ..self }),
    {
        Filter { only_success: true, ..self }
    }

    /// Restricts to commands that exited with another code.
    pub fn only_failure(self) -> (f: Self)
        ensures
            f == (Filter { only_failure: true, ..self }),
    {
        Filter { only_failure: true, ..self }
    }

    /// Shows only soft-deleted commands.
    pub fn only_deleted(self) -> (f: Self)
        ensures
            f == (Filter { only_deleted: true, ..self }),
    {
        Filter { only_deleted: true, ..self }
    }

    /// Returns at most `n` entries.
    pub fn limit(self, n: usize) -> (f: Self)
        ensures
            f == (Filter { limit: Some(n), ..self }),
    {
        Filter { limit: Some(n), ..self }
    }

    /// A field-by-field copy of the filter.
    pub fn duplicate(&self) -> (f: Self)
        ensures
            f == *self,
    {
        Filter {
            cwd: clone_opt(&self.cwd),
            project_cwd: clone_opt(&self.project_cwd),
            git_repo: clone_opt(&self.git_repo),
            git_branch: clone_opt(&self.git_branch),
            only_success: self.only_success,
            only_failure: self.only_failure,
            only_deleted: self.only_deleted,
            limit: self.limit,
        }
    }
}

/// The current shell context that filter toggles apply.
#[derive(Debug)]
pub struct FilterContext {
    pub cwd: String,
    pub git_repo: Option<String>,
    pub git_branch: Option<String>,
}

impl FilterContext {
    /// The context of a directory, with its repository and branch when known.
    pub fn new(cwd: String, git_repo: Option<String>, git_branch: Option<String>) -> (c: Self)
        ensures
            c.cwd == cwd,
            c.git_repo == git_repo,
            c.git_branch == git_branch,
    {
        FilterContext { cwd, git_repo, git_branch }
    }

    /// The context with an empty directory and no git information.
    pub fn empty() -> (c: Self)
        ensures
            c.cwd@.len() == 0,
            c.git_repo.is_none(),
            c.git_branch.is_none(),
    {
        FilterContext { cwd: String::new(), git_repo: None, git_branch: None }
    }

    /// A field-by-field copy of the context.
    pub fn duplicate(&self) -> (c: Self)
        ensures
            c == *self,
    {
        FilterContext {
            cwd: self.cwd.clone(),
            git_repo: clone_opt(&self.git_repo),
            git_branch: clone_opt(&self.git_branch),
        }
    }
}

/// One interactive filter switch of the history view.
#[derive(Debug, Clone, Copy, PartialEq, Eq, Structural)]
pub enum FilterToggle {
    Cwd,
    Repo,
    Branch,
    Success,
    Fail,
    Deleted,
}

/// A key binding shown in the filter footer.
#[derive(Debug, Clone, Copy)]
pub struct FilterShortcut {
    pub key: &'static str,
    pub label: &'static str,
    pub toggle: FilterToggle,
}

/// Flips an optional value between "unset" and the given context value.
pub open spec fn flip(current: Option<String>, value: Option<String>) -> Option<String> {
    if current.is_some() {
        None
    } else {
        value
    }
}

/// The filter after one toggle has been applied in the given context.
pub open spec fn toggled(f: Filter, toggle: FilterToggle, ctx: FilterContext) -> Filter {
    match toggle {
        FilterToggle::Cwd => Filter { cwd: flip(f.cwd, Some(ctx.cwd)), ..f },
        FilterToggle::Repo => if ctx.git_repo.is_some() {
            Filter { git_repo: flip(f.git_repo, ctx.git_repo), ..f }
        } else {
            f
        },
        FilterToggle::Branch => if ctx.git_branch.is_some() {
            Filter { git_branch: flip(f.git_branch, ctx.git_branch), ..f }
        } else {
            f
        },
        FilterToggle::Success => Filter {
            only_success: !f.only_success,
            only_failure: if !f.only_success { false } else { f.only_failure },
            ..f
        },
        FilterToggle::Fail => Filter {
            only_failure: !f.only_failure,
            only_success: if !f.only_failure { false } else { f.only_success },
            ..f
        },
        FilterToggle::Deleted => Filter { only_deleted: !f.only_deleted, ..f },
    }
}

/// Applies one filter toggle using the current shell context. Directory,
/// repository and branch toggles switch between unset and the context value
/// (repository and branch only when the context has one); the success and
/// failure toggles switch their flag and clear the other one when turned on.
pub fn toggle_filter(filter: &mut Filter, toggle: FilterToggle, context: &FilterContext)
    ensures
        *final(filter) == toggled(*old(filter), toggle, *context),
{
    match toggle {
        FilterToggle::Cwd => {
            filter.cwd = if filter.cwd.is_none() {
                Some(context.cwd.clone())
            } else {
                None
            };
        },
        FilterToggle::Repo => {
            if context.git_repo.is_some() {
                filter.git_repo = match filter.git_repo {
                    Some(_) => None,
                    None => clone_opt(&context.git_repo),
                };
            }
        },
        FilterToggle::Branch => {
            if context.git_branch.is_some() {
                filter.git_branch = match filter.git_branch {
                    Some(_) => None,
                    None => clone_opt(&context.git_branch),
                };
            }
        },
        FilterToggle::Success => {
            filter.only_success = !filter.only_success;
            if filter.only_success {
                filter.only_failure = false;
            }
        },
        FilterToggle::Fail => {
            filter.only_failure = !filter.only_failure;
            if filter.only_failure {
                filter.only_success = false;
            }
        },
        FilterToggle::Deleted => {
            filter.only_deleted = !filter.only_deleted;
        },
    }
}

/// A filter never asks for both successful and failed commands at once.
pub open spec fn exclusive_status(f: Filter) -> bool {
    !(f.only_success && f.only_failure)
}

/// Toggling never changes the limit or the project scope of a filter.
pub proof fn lemma_toggle_keeps_limit_and_scope(f: Filter, t: FilterToggle, ctx: FilterContext)
    ensures
        toggled(f, t, ctx).limit == f.limit,
        toggled(f, t, ctx).project_cwd == f.project_cwd,
{
}

/// Every toggle keeps the success and failure filters mutually exclusive,
/// and turning one of them on always turns the other off.
pub proof fn lemma_toggle_keeps_status_exclusive(f: Filter, t: FilterToggle, ctx: FilterContext)
    requires
        exclusive_status(f),
    ensures
        exclusive_status(toggled(f, t, ctx)),
        toggled(f, FilterToggle::Success, ctx).only_success ==> !toggled(f, FilterToggle::Success, ctx).only_failure,
        toggled(f, FilterToggle::Fail, ctx).only_failure ==> !toggled(f, FilterToggle::Fail, ctx).only_success,
{
}

/// Repository and branch toggles do nothing when the context has no such value.
pub proof fn lemma_unavailable_toggle_is_noop(f: Filter, ctx: FilterContext)
    ensures
        ctx.git_repo.is_none() ==> toggled(f, FilterToggle::Repo, ctx) == f,
        ctx.git_branch.is_none() ==> toggled(f, FilterToggle::Branch, ctx) == f,
{
}

/// The filter agrees with the context on the value a toggle controls:
/// either unset or set to the context's value.
pub open spec fn agrees_with_context(f: Filter, t: FilterToggle, ctx: FilterContext) -> bool {
    match t {
        FilterToggle::Cwd => f.cwd.is_none() || f.cwd == Some(ctx.cwd),
        FilterToggle::Repo => f.git_repo.is_none() || f.git_repo == ctx.git_repo,
        FilterToggle::Branch => f.git_branch.is_none() || f.git_branch == ctx.git_branch,
        FilterToggle::Success => exclusive_status(f) && !f.only_failure,
        FilterToggle::Fail => exclusive_status(f) && !f.only_success,
        FilterToggle::Deleted => true,
    }
}

/// Toggling the same switch twice in the same context gives back the filter,
/// whenever the filter agrees with the context on that switch.
pub proof fn lemma_toggle_twice_restores(f: Filter, t: FilterToggle, ctx: FilterContext)
    requires
        agrees_with_context(f, t, ctx),
    ensures
        toggled(toggled(f, t, ctx), t, ctx) == f,
{
}

} // verus!
