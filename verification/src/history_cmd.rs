use vstd::prelude::*;

use crate::filter::{clone_opt, Filter, FilterContext};
use crate::text::{push_decimal, decimal};

verus! {

/// The options of the default command, which lists or replays history.
pub struct Args {
    /// Number of entries to show.
    pub limit: usize,
    /// Filter by current working directory.
    pub cwd: bool,
    /// Filter by git repository (the current one, if inside one).
    pub repo: bool,
    /// Filter by current git branch.
    pub branch: bool,
    /// Only successful commands.
    pub ok: bool,
    /// Only failed commands.
    pub fail: bool,
    /// Only soft-deleted commands.
    pub deleted: bool,
    /// Print matches instead of opening the interactive view.
    pub plain: bool,
    /// Replay the Nth most recent matching command.
    pub index: Option<usize>,
}

/// The number of entries listed when no limit is given.
pub const DEFAULT_LIMIT: usize = 500;

/// The history filter the options ask for, in the given directory, project
/// and repository context: always scoped to the project, limited to the
/// replayed position when one is asked for (else to the limit), and
/// narrowed to the directory, repository or branch only when the context
/// has one.
pub open spec fn history_filter_of(args: Args, cwd: String, project_root: String, ctx: FilterContext) -> Filter {
    Filter {
        cwd: if args.cwd {
            Some(cwd)
        } else {
            None
        },
        project_cwd: Some(project_root),
        git_repo: if args.repo {
            ctx.git_repo
        } else {
            None
        },
        git_branch: if args.branch {
            ctx.git_branch
        } else {
            None
        },
        only_success: args.ok,
        only_failure: args.fail,
        only_deleted: args.deleted,
        limit: Some(
            match args.index {
                Some(i) => i,
                None => args.limit,
            },
        ),
    }
}

/// The history filter for the options.
pub fn history_filter(args: &Args, cwd: String, project_root: String, context: &FilterContext) -> (f: Filter)
    ensures
        f == history_filter_of(*args, cwd, project_root, *context),
        f.git_branch == (if args.branch {
            context.git_branch
        } else {
            None
        }),
        f.git_repo == (if args.repo {
            context.git_repo
        } else {
            None
        }),
        f.cwd == (if args.cwd {
            Some(cwd)
        } else {
            None
        }),
        f.project_cwd == Some(project_root),
        f.only_success == args.ok,
        f.only_failure == args.fail,
        f.only_deleted == args.deleted,
{
    let limit = match args.index {
        Some(i) => i,
        None => args.limit,
    };
    let mut filter = Filter::new().limit(limit).project_cwd(project_root);
    if args.cwd {
        filter = filter.cwd(cwd);
    }
    if args.repo {
        if let Some(repo) = &context.git_repo {
            filter = filter.git_repo(repo.clone());
        }
    }
    if args.branch {
        if let Some(branch) = &context.git_branch {
            filter = filter.git_branch(branch.clone());
        }
    }
    if args.ok {
        filter = filter.only_success();
    }
    if args.fail {
        filter = filter.only_failure();
    }
    if args.deleted {
        filter = filter.only_deleted();
    }
    filter
}

/// Why a replay position could not be used.
#[derive(Clone, Copy, Debug, PartialEq, Eq, Structural)]
pub enum IndexError {
    /// Positions start at 1.
    Zero,
    /// Fewer entries matched than the position asked for.
    NotFound(usize),
}

/// The text of a replay position error.
pub open spec fn index_error_text(e: IndexError) -> Seq<char> {
    match e {
        IndexError::Zero => "recent command index must be 1 or greater"@,
        IndexError::NotFound(i) => "recent command -"@ + decimal(i as nat) + " was not found"@,
    }
}

impl IndexError {
    /// The message shown for the error.
    pub fn message(&self) -> (r: String)
        ensures
            r@ == index_error_text(*self),
    {
        match self {
            IndexError::Zero => String::from_str("recent command index must be 1 or greater"),
            IndexError::NotFound(i) => {
                let mut r = String::from_str("recent command -");
                push_decimal(&mut r, *i as u64);
                r.append(" was not found");
                r
            },
        }
    }
}

/// The entry to replay for position `index` (counted from 1, newest first)
/// among `count` matching entries.
pub fn select_indexed(index: usize, count: usize) -> (r: Result<usize, IndexError>)
    ensures
        index == 0 ==> r == Err::<usize, IndexError>(IndexError::Zero),
        index > 0 && index <= count ==> r == Ok::<usize, IndexError>((index - 1) as usize),
        index > 0 && index > count ==> r == Err::<usize, IndexError>(IndexError::NotFound(index)),
{
    if index == 0 {
        Err(IndexError::Zero)
    } else if index - 1 < count {
        Ok(index - 1)
    } else {
        Err(IndexError::NotFound(index))
    }
}

/// Each history option narrows only its own part of the filter, whatever
/// the other options are: `--branch` keeps the context's branch, `--repo`
/// its repository, `--cwd` the directory, and `--ok`, `--fail`, `--deleted`
/// their exit or deletion conditions; two option sets that agree on an
/// option give filters that agree on its part.
pub proof fn lemma_history_options_independent(
    a: Args,
    b: Args,
    cwd: String,
    project_root: String,
    ctx: FilterContext,
)
    ensures
        a.branch ==> history_filter_of(a, cwd, project_root, ctx).git_branch == ctx.git_branch,
        !a.branch ==> history_filter_of(a, cwd, project_root, ctx).git_branch is None,
        a.repo ==> history_filter_of(a, cwd, project_root, ctx).git_repo == ctx.git_repo,
        !a.repo ==> history_filter_of(a, cwd, project_root, ctx).git_repo is None,
        a.branch == b.branch ==> history_filter_of(a, cwd, project_root, ctx).git_branch == history_filter_of(
            b,
            cwd,
            project_root,
            ctx,
        ).git_branch,
        a.repo == b.repo ==> history_filter_of(a, cwd, project_root, ctx).git_repo == history_filter_of(
            b,
            cwd,
            project_root,
            ctx,
        ).git_repo,
        a.cwd == b.cwd ==> history_filter_of(a, cwd, project_root, ctx).cwd == history_filter_of(
            b,
            cwd,
            project_root,
            ctx,
        ).cwd,
        a.ok == b.ok ==> history_filter_of(a, cwd, project_root, ctx).only_success == history_filter_of(
            b,
            cwd,
            project_root,
            ctx,
        ).only_success,
        a.fail == b.fail ==> history_filter_of(a, cwd, project_root, ctx).only_failure == history_filter_of(
            b,
            cwd,
            project_root,
            ctx,
        ).only_failure,
        a.deleted == b.deleted ==> history_filter_of(a, cwd, project_root, ctx).only_deleted
            == history_filter_of(b, cwd, project_root, ctx).only_deleted,
        history_filter_of(a, cwd, project_root, ctx).project_cwd == Some(project_root),
{
}

} // verus!
