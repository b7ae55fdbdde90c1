use vstd::prelude::*;

use crate::query::{
    bind_of, lemma_count_in_parts_concat, limit_clause, push_limit_clause, push_where_clause,
    views, when_some, where_clause, SqlQuery,
};
use crate::shortcut::Shortcut;
use crate::text::{count_char, count_in_parts, lemma_count_absent, lemma_count_concat, lemma_count_last_only};

verus! {

/// Builder for filtering shortcut queries.
#[derive(Debug)]
pub struct ShortcutFilter {
    pub project_dir: Option<String>,
    pub git_repo: Option<String>,
    pub alias: Option<String>,
    /// If true, only return global shortcuts (is_global = true).
    pub only_global: bool,
    /// If true, include global shortcuts alongside project-scoped ones.
    pub include_global: bool,
    pub limit: Option<usize>,
}

/// The shortcut filter with nothing restricted.
pub open spec fn empty_shortcut_filter() -> ShortcutFilter {
    ShortcutFilter {
        project_dir: None,
        git_repo: None,
        alias: None,
        only_global: false,
        include_global: false,
        limit: None,
    }
}

impl ShortcutFilter {
    /// The filter with nothing restricted.
    pub fn new() -> (f: Self)
        ensures
            f == empty_shortcut_filter(),
    {
        ShortcutFilter {
            project_dir: None,
            git_repo: None,
            alias: None,
            only_global: false,
            include_global: false,
            limit: None,
        }
    }

    /// Restricts to shortcuts of this project.
    pub fn project_dir(self, project_dir: String) -> (f: Self)
        ensures
            f == (ShortcutFilter { project_dir: Some(project_dir), ..self }),
    {
        ShortcutFilter { project_dir: Some(project_dir), ..self }
    }

    /// Restricts to shortcuts of this repository.
    pub fn git_repo(self, repo: String) -> (f: Self)
        ensures
            f == (ShortcutFilter { git_repo: Some(repo), ..self }),
    {
        ShortcutFilter { git_repo: Some(repo), ..self }
    }

    /// Restricts to shortcuts with this alias.
    pub fn alias(self, alias: String) -> (f: Self)
        ensures
            f == (ShortcutFilter { alias: Some(alias), ..self }),
    {
        ShortcutFilter { alias: Some(alias), ..self }
    }

    /// Returns only global shortcuts.
    pub fn only_global(self) -> (f: Self)
        ensures
            f == (ShortcutFilter { only_global: true, ..self }),
    {
        ShortcutFilter { only_global: true, ..self }
    }

    /// Returns global shortcuts alongside the project's.
    pub fn include_global(self) -> (f: Self)
        ensures
            f == (ShortcutFilter { include_global: true, ..self }),
    {
        ShortcutFilter { include_global: true, ..self }
    }

    /// Returns at most `n` shortcuts.
    pub fn limit(self, n: usize) -> (f: Self)
        ensures
            f == (ShortcutFilter { limit: Some(n), ..self }),
    {
        ShortcutFilter { limit: Some(n), ..self }
    }
}

/// The project directory under which global shortcuts are stored.
pub const GLOBAL_PROJECT_DIR: &'static str = "__global__";

/// The columns read for a shortcut, in the order the decoder expects.
pub const SHORTCUT_COLUMNS_SELECT: &'static str =
    "SELECT id, alias, command, project_dir, git_repo, is_global, created_at FROM shortcuts";

/// Shortcuts in alias order.
pub const SHORTCUT_ORDER: &'static str = " ORDER BY alias ASC";

/// The shortcut is global.
pub const COND_ONLY_GLOBAL: &'static str = "is_global = 1";

/// The shortcut belongs to the bound project or is global.
pub const COND_PROJECT_OR_GLOBAL: &'static str = "(project_dir = ? OR is_global = 1)";

/// The shortcut belongs to the bound project.
pub const COND_PROJECT_DIR: &'static str = "project_dir = ?";

/// The shortcut belongs to the bound repository.
pub const COND_SHORTCUT_REPO: &'static str = "git_repo = ?";

/// The shortcut has the bound alias.
pub const COND_ALIAS: &'static str = "alias = ?";

/// The scope condition: only globals, or the project (optionally with globals).
pub open spec fn scope_conditions(f: ShortcutFilter) -> Seq<Seq<char>> {
    if f.only_global {
        seq![COND_ONLY_GLOBAL@]
    } else if f.project_dir.is_some() {
        if f.include_global {
            seq![COND_PROJECT_OR_GLOBAL@]
        } else {
            seq![COND_PROJECT_DIR@]
        }
    } else {
        Seq::empty()
    }
}

/// The conditions a shortcut filter puts in the WHERE clause, in order.
pub open spec fn shortcut_conditions(f: ShortcutFilter) -> Seq<Seq<char>> {
    scope_conditions(f) + when_some(f.git_repo, COND_SHORTCUT_REPO@) + when_some(
        f.alias,
        COND_ALIAS@,
    )
}

/// The values bound to the shortcut query's placeholders, in order. The
/// project directory is bound only when the scope is not restricted to globals.
pub open spec fn shortcut_binds(f: ShortcutFilter) -> Seq<String> {
    (if f.only_global {
        Seq::empty()
    } else {
        bind_of(f.project_dir)
    }) + bind_of(f.git_repo) + bind_of(f.alias)
}

/// The SQL text of the structured shortcut query, ordered by alias.
pub open spec fn shortcut_fetch_sql(f: ShortcutFilter) -> Seq<char> {
    SHORTCUT_COLUMNS_SELECT@ + where_clause(shortcut_conditions(f)) + SHORTCUT_ORDER@
        + limit_clause(f.limit)
}

/// Builds the structured shortcut query for a filter.
pub fn shortcut_fetch_query(filter: &ShortcutFilter) -> (q: SqlQuery)
    ensures
        q.sql@ == shortcut_fetch_sql(*filter),
        q.binds@ == shortcut_binds(*filter),
{
    let mut conds: Vec<&'static str> = Vec::new();
    let mut binds: Vec<String> = Vec::new();

    if filter.only_global {
        conds.push(COND_ONLY_GLOBAL);
    } else if let Some(project_dir) = &filter.project_dir {
        if filter.include_global {
            conds.push(COND_PROJECT_OR_GLOBAL);
        } else {
            conds.push(COND_PROJECT_DIR);
        }
        binds.push(project_dir.clone());
    }
    assert(views(conds@) =~= scope_conditions(*filter));
    assert(binds@ =~= (if filter.only_global {
        Seq::<String>::empty()
    } else {
        bind_of(filter.project_dir)
    }));

    crate::query::push_optional_condition(&mut conds, &mut binds, &filter.git_repo, COND_SHORTCUT_REPO);
    crate::query::push_optional_condition(&mut conds, &mut binds, &filter.alias, COND_ALIAS);
    assert(views(conds@) =~= shortcut_conditions(*filter));
    assert(binds@ =~= shortcut_binds(*filter));

    let mut sql = String::from_str(SHORTCUT_COLUMNS_SELECT);
    push_where_clause(&mut sql, &conds);
    sql.append(SHORTCUT_ORDER);
    push_limit_clause(&mut sql, filter.limit);
    assert(sql@ =~= shortcut_fetch_sql(*filter));
    SqlQuery { sql, binds }
}

/// The filter listing a project's shortcuts together with the global ones.
pub fn for_project_filter(project_dir: String) -> (f: ShortcutFilter)
    ensures
        f == (ShortcutFilter {
            project_dir: Some(project_dir),
            include_global: true,
            ..empty_shortcut_filter()
        }),
{
    ShortcutFilter::new().project_dir(project_dir).include_global()
}

/// The filter listing only global shortcuts.
pub fn globals_filter() -> (f: ShortcutFilter)
    ensures
        f == (ShortcutFilter { only_global: true, ..empty_shortcut_filter() }),
{
    ShortcutFilter::new().only_global()
}

proof fn lemma_single_count(x: Seq<char>, c: char)
    ensures
        count_in_parts(seq![x], c) == count_char(x, c),
{
    assert(seq![x].drop_last() =~= Seq::<Seq<char>>::empty());
    assert(count_in_parts(Seq::<Seq<char>>::empty(), c) == 0);
    assert(seq![x].last() == x);
}

/// The shortcut query has exactly one `?` placeholder for every bound value.
pub proof fn lemma_shortcut_placeholders_match_binds(f: ShortcutFilter)
    ensures
        count_char(shortcut_fetch_sql(f), '?') == shortcut_binds(f).len(),
{
    reveal_strlit("is_global = 1");
    reveal_strlit("(project_dir = ? OR is_global = 1)");
    reveal_strlit("project_dir = ?");
    reveal_strlit("git_repo = ?");
    reveal_strlit("alias = ?");
    reveal_strlit(" ORDER BY alias ASC");
    reveal_strlit("SELECT id, alias, command, project_dir, git_repo, is_global, created_at FROM shortcuts");
    reveal_strlit(" WHERE ");
    reveal_strlit(" AND ");
    assert(forall|i: int| 0 <= i < COND_ONLY_GLOBAL@.len() ==> COND_ONLY_GLOBAL@[i] != '?');
    lemma_count_absent(COND_ONLY_GLOBAL@, '?');
    assert(forall|i: int| 0 <= i < SHORTCUT_ORDER@.len() ==> SHORTCUT_ORDER@[i] != '?');
    lemma_count_absent(SHORTCUT_ORDER@, '?');
    assert(forall|i: int|
        0 <= i < SHORTCUT_COLUMNS_SELECT@.len() ==> SHORTCUT_COLUMNS_SELECT@[i] != '?');
    lemma_count_absent(SHORTCUT_COLUMNS_SELECT@, '?');
    assert(forall|i: int| 0 <= i < COND_PROJECT_DIR@.len() - 1 ==> COND_PROJECT_DIR@[i] != '?');
    lemma_count_last_only(COND_PROJECT_DIR@, '?');
    assert(forall|i: int|
        0 <= i < COND_SHORTCUT_REPO@.len() - 1 ==> COND_SHORTCUT_REPO@[i] != '?');
    lemma_count_last_only(COND_SHORTCUT_REPO@, '?');
    assert(forall|i: int| 0 <= i < COND_ALIAS@.len() - 1 ==> COND_ALIAS@[i] != '?');
    lemma_count_last_only(COND_ALIAS@, '?');
    // "(project_dir = " + "?" + " OR is_global = 1)"
    let pg = COND_PROJECT_OR_GLOBAL@;
    assert(pg =~= pg.subrange(0, 16) + pg.subrange(16, pg.len() as int));
    assert(forall|i: int| 0 <= i < 15 ==> pg.subrange(0, 16)[i] != '?');
    assert(pg.subrange(0, 16).last() == '?');
    lemma_count_last_only(pg.subrange(0, 16), '?');
    assert(forall|i: int|
        0 <= i < pg.len() - 16 ==> pg.subrange(16, pg.len() as int)[i] != '?');
    lemma_count_absent(pg.subrange(16, pg.len() as int), '?');
    lemma_count_concat(pg.subrange(0, 16), pg.subrange(16, pg.len() as int), '?');

    let s = scope_conditions(f);
    let r = when_some(f.git_repo, COND_SHORTCUT_REPO@);
    let a = when_some(f.alias, COND_ALIAS@);
    if f.only_global {
        lemma_single_count(COND_ONLY_GLOBAL@, '?');
    } else if f.project_dir.is_some() {
        if f.include_global {
            lemma_single_count(COND_PROJECT_OR_GLOBAL@, '?');
        } else {
            lemma_single_count(COND_PROJECT_DIR@, '?');
        }
    }
    if f.git_repo.is_some() {
        lemma_single_count(COND_SHORTCUT_REPO@, '?');
    }
    if f.alias.is_some() {
        lemma_single_count(COND_ALIAS@, '?');
    }
    lemma_count_in_parts_concat(s, r, '?');
    lemma_count_in_parts_concat(s + r, a, '?');
    let conds = shortcut_conditions(f);
    assert(count_in_parts(conds, '?') == shortcut_binds(f).len());
    if conds.len() > 0 {
        assert(forall|i: int| 0 <= i < crate::query::WHERE_KEYWORD@.len() ==> crate::query::WHERE_KEYWORD@[i] != '?');
        assert(forall|i: int| 0 <= i < crate::query::AND_SEPARATOR@.len() ==> crate::query::AND_SEPARATOR@[i] != '?');
        lemma_count_absent(crate::query::WHERE_KEYWORD@, '?');
        lemma_count_absent(crate::query::AND_SEPARATOR@, '?');
        crate::text::lemma_count_join(conds, crate::query::AND_SEPARATOR@, '?');
        lemma_count_concat(
            crate::query::WHERE_KEYWORD@,
            crate::text::join(conds, crate::query::AND_SEPARATOR@),
            '?',
        );
    }
    crate::query::lemma_limit_clause_has_no_placeholder(f.limit);
    let w = where_clause(conds);
    lemma_count_concat(SHORTCUT_COLUMNS_SELECT@, w, '?');
    lemma_count_concat(SHORTCUT_COLUMNS_SELECT@ + w, SHORTCUT_ORDER@, '?');
    lemma_count_concat(SHORTCUT_COLUMNS_SELECT@ + w + SHORTCUT_ORDER@, limit_clause(f.limit), '?');
}

/// How well a candidate matches an alias lookup: 0 for the project's own
/// shortcut, 1 for a global one (when globals are allowed), 2 for no match.
pub open spec fn resolve_rank(s: Shortcut, alias: Seq<char>, project_dir: Seq<char>, include_globals: bool) -> int {
    if s.alias@ != alias {
        2
    } else if s.project_dir@ == project_dir {
        0
    } else if include_globals && s.is_global {
        1
    } else {
        2
    }
}

/// Resolves an alias among candidate shortcuts, preferring a project-scoped
/// match over a global one; among equally good matches the earliest wins.
pub fn resolve_shortcut(
    candidates: &Vec<Shortcut>,
    alias: &str,
    project_dir: &str,
    include_globals: bool,
) -> (r: Option<usize>)
    ensures
        match r {
            Some(i) => {
                &&& i < candidates@.len()
                &&& resolve_rank(candidates@[i as int], alias@, project_dir@, include_globals) < 2
                &&& forall|j: int|
                    0 <= j < candidates@.len() ==> resolve_rank(
                        candidates@[j],
                        alias@,
                        project_dir@,
                        include_globals,
                    ) >= resolve_rank(candidates@[i as int], alias@, project_dir@, include_globals)
                &&& forall|j: int|
                    0 <= j < i ==> resolve_rank(candidates@[j], alias@, project_dir@, include_globals)
                        > resolve_rank(candidates@[i as int], alias@, project_dir@, include_globals)
            },
            None => forall|j: int|
                0 <= j < candidates@.len() ==> resolve_rank(
                    candidates@[j],
                    alias@,
                    project_dir@,
                    include_globals,
                ) == 2,
        },
        r matches Some(i) ==> {
            &&& candidates@[i as int].alias@ == alias@
            &&& candidates@[i as int].project_dir@ == project_dir@ || (include_globals
                && candidates@[i as int].is_global)
        },
        (exists|j: int|
            0 <= j < candidates@.len() && (#[trigger] candidates@[j]).alias@ == alias@ && candidates@[j].project_dir@
                == project_dir@) ==> (r matches Some(i) && candidates@[i as int].project_dir@ == project_dir@),
{
    proof {
        lemma_resolved_shortcut_in_scope_all(candidates@, alias@, project_dir@, include_globals);
    }
    let alias_owned = alias.to_owned();
    let project_owned = project_dir.to_owned();
    let mut best: Option<usize> = None;
    let mut i: usize = 0;
    while i < candidates.len()
        invariant
            i <= candidates@.len(),
            alias_owned@ == alias@,
            project_owned@ == project_dir@,
            match best {
                Some(b) => {
                    &&& b < i
                    &&& resolve_rank(candidates@[b as int], alias@, project_dir@, include_globals) == 1
                    &&& forall|j: int| 0 <= j < i ==> resolve_rank(candidates@[j], alias@, project_dir@, include_globals) >= 1
                    &&& forall|j: int| 0 <= j < b ==> resolve_rank(candidates@[j], alias@, project_dir@, include_globals) == 2
                },
                None => forall|j: int| 0 <= j < i ==> resolve_rank(candidates@[j], alias@, project_dir@, include_globals) == 2,
            },
        decreases candidates@.len() - i,
    {
        let c = &candidates[i];
        if c.alias == alias_owned {
            if c.project_dir == project_owned {
                return Some(i);
            }
            if include_globals && c.is_global && best.is_none() {
                best = Some(i);
            }
        }
        i = i + 1;
    }
    best
}

/// A shortcut an alias lookup can resolve to carries that alias, and
/// belongs to the project asked for or is global with globals allowed; a
/// shortcut of the project asked for is preferred to every other.
pub proof fn lemma_resolved_shortcut_in_scope(
    s: Shortcut,
    other: Shortcut,
    alias: Seq<char>,
    project_dir: Seq<char>,
    include_globals: bool,
)
    ensures
        resolve_rank(s, alias, project_dir, include_globals) < 2 ==> s.alias@ == alias && (s.project_dir@
            == project_dir || (include_globals && s.is_global)),
        s.alias@ == alias && s.project_dir@ == project_dir && other.project_dir@ != project_dir ==> resolve_rank(
            s,
            alias,
            project_dir,
            include_globals,
        ) < resolve_rank(other, alias, project_dir, include_globals),
{
}

proof fn lemma_resolved_shortcut_in_scope_all(
    candidates: Seq<Shortcut>,
    alias: Seq<char>,
    project_dir: Seq<char>,
    include_globals: bool,
)
    ensures
        forall|j: int|
            0 <= j < candidates.len() ==> (resolve_rank(#[trigger] candidates[j], alias, project_dir, include_globals)
                < 2 ==> candidates[j].alias@ == alias && (candidates[j].project_dir@ == project_dir || (
            include_globals && candidates[j].is_global))),
        forall|j: int|
            0 <= j < candidates.len() ==> (resolve_rank(#[trigger] candidates[j], alias, project_dir, include_globals)
                == 0 <==> candidates[j].alias@ == alias && candidates[j].project_dir@ == project_dir),
{
}

} // verus!
