use vstd::prelude::*;

verus! {

/// The options of `rw search`.
pub struct Args {
    /// Search term; without one the interactive view opens.
    pub term: Option<String>,
    /// Print matches instead of opening the interactive view.
    pub plain: bool,
    /// Maximum results (printed mode only).
    pub limit: usize,
}

/// The number of results printed when no limit is given.
pub const DEFAULT_LIMIT: usize = 50;

/// What `rw search` does.
pub enum SearchMode {
    /// Rank the `limit * 10` most recent entries of the project against the
    /// term and print the best `limit` commands.
    PrintMatches { term: String, fetch: usize, limit: usize },
    /// Open the interactive view with the term (or nothing) typed in.
    Interactive { initial: String },
    /// Print the commands of the `limit` most recent entries.
    PrintRecent { limit: usize },
}

/// What `rw search` does with the given options.
pub fn search_mode(args: Args) -> (r: SearchMode)
    requires
        args.plain ==> args.limit * 10 <= usize::MAX,
    ensures
        match args.term {
            Some(t) => if args.plain {
                r matches SearchMode::PrintMatches { term, fetch, limit } && term == t && fetch
                    == args.limit * 10 && limit == args.limit
            } else {
                r matches SearchMode::Interactive { initial } && initial == t
            },
            None => if args.plain {
                r matches SearchMode::PrintRecent { limit } && limit == args.limit
            } else {
                r matches SearchMode::Interactive { initial } && initial@.len() == 0
            },
        },
{
    match args.term {
        Some(t) => if args.plain {
            SearchMode::PrintMatches { term: t, fetch: args.limit * 10, limit: args.limit }
        } else {
            SearchMode::Interactive { initial: t }
        },
        None => if args.plain {
            SearchMode::PrintRecent { limit: args.limit }
        } else {
            SearchMode::Interactive { initial: String::new() }
        },
    }
}

} // verus!
